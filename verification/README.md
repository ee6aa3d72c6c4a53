# vauth

A virtual CTAP2 authenticator for Linux: a TPM-backed FIDO2 key exposed
through uhid, with face (liveness + identity) or PAM user verification and
packed attestation.

The crate is written in Verus. `src/` is the verified library: Verus checks
every function there against its contract, and the properties that span
several calls are stated as proof functions (`lemma_*`). A few functions
state only part of what they return because it depends on the clock or on
fresh random keys (clock readings are stated never to go back; generated
keys and certificates are stated through what the certificates say), or
because there is nothing to return (`spawn_overlay` and
`send_final` without the GTK overlay, `UserPresenceProof::test_only`). The
calls into other crates (rcgen, p256, base64, chrono and a few std
functions) sit behind `#[verifier::external_body]` wrappers whose doc
comments say what their contracts assume.

- `user_verification`, `lockout`, `uv_cache`, `clock`: the user-verification
  policy (lockout after repeated failures, use-once proofs bound to a channel
  and relying party, the face-then-PAM steps).
- `liveness`, `face_match`, `float_order`: blink and mouth-movement
  detection and the choice of the closest enrolled face, over `f64` values
  carried as their IEEE-754 bit patterns.
- `cbor`, `attestation`, `attestation_key`, `pem`, `certificates`: the
  packed attestation object, its signing key and certificate chain.
- `models`, `hex`, `seal_blob`, `timestamps`, `audit`, `accounts`, `keepalive`,
  `camera`, `overlay`, `theme`: face-model bookkeeping, credential-ID
  lookup, audit records, the user account, CTAPHID keepalives and the
  verification overlay's decisions.

`app/` holds the command-line program and everything that talks to the
machine: files, the camera and dlib, PAM and zenity, privilege dropping,
the GTK overlay, and the floating-point geometry of landmarks and distances.
`tests/` exercises the library on concrete values.
