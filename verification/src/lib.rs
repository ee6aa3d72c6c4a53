//! Verified core of a virtual CTAP2 authenticator: user-verification policy
//! (lockout, proof cache, verification steps), liveness decisions, attestation
//! object construction and face-model bookkeeping.

pub mod float_order;
mod text;
pub mod liveness;
pub mod clock;
pub mod lockout;
pub mod uv_cache;
pub mod user_verification;
pub mod cbor;
pub mod attestation;
pub mod pem;
pub mod hex;
pub mod models;
pub mod audit;
pub mod overlay;
pub mod camera;
pub mod attestation_key;
pub mod accounts;
pub mod keepalive;
pub mod certificates;
pub mod timestamps;
pub mod face_match;
pub mod theme;
pub mod seal_blob;
