//! Attestation material loaded at run time: the device certificate, the CA
//! certificate and the device's P-256 signing key.

use vstd::prelude::*;
use p256::ecdsa::signature::Signer;
use p256::pkcs8::DecodePrivateKey;
use crate::pem::{pem_to_der, pem_body, base64_standard_decoding, Base64Error};
use vstd::string::StringSliceAdditionalSpecFns;

verus! {

/// The order of the P-256 group.
pub open spec fn p256_order() -> int {
    0xFFFF_FFFF_0000_0000_FFFF_FFFF_FFFF_FFFF_BCE6_FAAD_A717_9E84_F3B9_CAC2_FC63_2551int
}

/// The unsigned integer that a big-endian byte string encodes.
pub open spec fn be_value(s: Seq<u8>) -> int
    decreases s.len(),
{
    if s.len() == 0 {
        0
    } else {
        be_value(s.drop_last()) * 256 + s.last()
    }
}

/// A P-256 secret scalar: 32 big-endian bytes of a value in [1, n-1].
pub open spec fn valid_p256_scalar(s: Seq<u8>) -> bool {
    s.len() == 32 && 0 < be_value(s) < p256_order()
}

/// `p256::pkcs8::Error`, the error of a PKCS#8 key that cannot be read.
#[verifier::external_type_specification]
#[verifier::external_body]
pub struct ExPkcs8Error(p256::pkcs8::Error);

/// The secret scalar of the P-256 key in a PKCS#8 PEM document, if it holds one.
pub uninterp spec fn pkcs8_pem_p256_scalar(pem: Seq<char>) -> Option<Seq<u8>>;

/// Calls `p256::ecdsa::SigningKey::from_pkcs8_pem` on `pem` and, on success,
/// `SigningKey::to_bytes`. States that the result is the name
/// `pkcs8_pem_p256_scalar` of the text, and that a key read from it is a
/// valid scalar (the crate only builds signing keys from non-zero scalars
/// below the group order, and serializes them as 32 big-endian bytes).
#[verifier::external_body]
fn read_p256_pkcs8_pem(pem: &str) -> (r: Result<Vec<u8>, p256::pkcs8::Error>)
    ensures
        match r {
            Ok(s) => pkcs8_pem_p256_scalar(pem@) == Some(s@) && valid_p256_scalar(s@),
            Err(_) => pkcs8_pem_p256_scalar(pem@) is None,
        },
{
    p256::ecdsa::SigningKey::from_pkcs8_pem(pem).map(|k| k.to_bytes().to_vec())
}

/// The DER-encoded ECDSA P-256 / SHA-256 signature (deterministic nonce,
/// RFC 6979) of `msg` under the secret scalar `scalar`.
pub uninterp spec fn ecdsa_p256_sha256_der(scalar: Seq<u8>, msg: Seq<u8>) -> Seq<u8>;

/// Calls `p256::ecdsa::SigningKey::from_slice` on the scalar, then
/// `Signer::sign` on `msg` and `Signature::to_der`. The signature is stated
/// only through the name `ecdsa_p256_sha256_der` of the scalar and message.
#[verifier::external_body]
fn sign_p256_der(scalar: &[u8], msg: &[u8]) -> (r: Vec<u8>)
    requires
        valid_p256_scalar(scalar@),
    ensures
        r@ == ecdsa_p256_sha256_der(scalar@, msg@),
{
    let key = p256::ecdsa::SigningKey::from_slice(scalar).expect("valid P-256 scalar");
    let sig: p256::ecdsa::Signature = key.sign(msg);
    sig.to_der().as_bytes().to_vec()
}

/// Runtime attestation state: device certificate and CA certificate (DER)
/// and the device's signing key.
pub struct AttestationState {
    device_cert_der: Vec<u8>,
    ca_cert_der: Vec<u8>,
    signing_key: Vec<u8>,
}

/// Why attestation material could not be loaded.
#[derive(Debug, Clone, Copy, PartialEq, Eq, Structural)]
pub enum AttestationLoadError {
    /// The device certificate PEM does not decode.
    DeviceCert(Base64Error),
    /// The CA certificate PEM does not decode.
    CaCert(Base64Error),
    /// The device key is not a PKCS#8 P-256 private key.
    Key,
}

/// What decoding a PEM document yields, as the library reports it.
pub open spec fn pem_decoding(pem: &str) -> Result<Seq<u8>, Base64Error> {
    base64_standard_decoding(pem_body(pem.spec_bytes()))
}

impl AttestationState {
    #[verifier::type_invariant]
    spec fn inv(self) -> bool {
        valid_p256_scalar(self.signing_key@)
    }

    /// The secret scalar of the signing key.
    pub closed spec fn signing_scalar(&self) -> Seq<u8> {
        self.signing_key@
    }

    /// The device certificate (DER).
    pub fn device_cert_der(&self) -> (r: &Vec<u8>)
        ensures
            r@ == self.device_cert(),
    {
        &self.device_cert_der
    }

    /// The CA certificate (DER).
    pub fn ca_cert_der(&self) -> (r: &Vec<u8>)
        ensures
            r@ == self.ca_cert(),
    {
        &self.ca_cert_der
    }

    /// The bytes of the device certificate (DER).
    pub closed spec fn device_cert(&self) -> Seq<u8> {
        self.device_cert_der@
    }

    /// The bytes of the CA certificate (DER).
    pub closed spec fn ca_cert(&self) -> Seq<u8> {
        self.ca_cert_der@
    }

    /// Builds the state from the PEM texts of the device certificate, the CA
    /// certificate and the device key (PKCS#8), checked in that order.
    pub fn load_from_pem(device_cert_pem: &str, ca_cert_pem: &str, device_key_pem: &str) -> (r: Result<AttestationState, AttestationLoadError>)
        ensures
            match pem_decoding(device_cert_pem) {
                Err(e) => r == Err::<AttestationState, AttestationLoadError>(
                    AttestationLoadError::DeviceCert(e),
                ),
                Ok(dev) => match pem_decoding(ca_cert_pem) {
                    Err(e) => r == Err::<AttestationState, AttestationLoadError>(
                        AttestationLoadError::CaCert(e),
                    ),
                    Ok(ca) => match pkcs8_pem_p256_scalar(device_key_pem@) {
                        None => r == Err::<AttestationState, AttestationLoadError>(
                            AttestationLoadError::Key,
                        ),
                        Some(key) => r matches Ok(st) && st.device_cert() == dev && st.ca_cert()
                            == ca && st.signing_scalar() == key,
                    },
                },
            },
    {
        let device_cert_der = match pem_to_der(device_cert_pem) {
            Ok(d) => d,
            Err(e) => return Err(AttestationLoadError::DeviceCert(e)),
        };
        let ca_cert_der = match pem_to_der(ca_cert_pem) {
            Ok(d) => d,
            Err(e) => return Err(AttestationLoadError::CaCert(e)),
        };
        let signing_key = match read_p256_pkcs8_pem(device_key_pem) {
            Ok(k) => k,
            Err(_) => return Err(AttestationLoadError::Key),
        };
        Ok(AttestationState { device_cert_der, ca_cert_der, signing_key })
    }

    /// Signs `data` with the attestation key: the DER-encoded ECDSA
    /// P-256 / SHA-256 signature. Never fails.
    pub fn sign(&self, data: &[u8]) -> (r: Result<Vec<u8>, String>)
        ensures
            r matches Ok(sig) && sig@ == ecdsa_p256_sha256_der(self.signing_scalar(), data@),
    {
        proof {
            use_type_invariant(self);
        }
        Ok(sign_p256_der(self.signing_key.as_slice(), data))
    }
}

} // verus!
