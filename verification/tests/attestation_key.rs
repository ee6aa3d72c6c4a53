use p256::ecdsa::signature::Verifier;
use p256::ecdsa::{Signature, SigningKey, VerifyingKey};
use p256::pkcs8::{EncodePrivateKey, LineEnding};
use vauth::attestation_key::{AttestationLoadError, AttestationState};
use vauth::pem::Base64Error;

fn key_pem(seed: u8) -> (SigningKey, String) {
    let key = SigningKey::from_slice(&[seed; 32]).unwrap();
    let pem = key.to_pkcs8_pem(LineEnding::LF).unwrap().to_string();
    (key, pem)
}

const DEV: &str = "-----BEGIN CERTIFICATE-----\nAQID\n-----END CERTIFICATE-----\n";
const CA: &str = "-----BEGIN CERTIFICATE-----\nBAUG\n-----END CERTIFICATE-----\n";

#[test]
fn loads_and_signs_verifiably() {
    let (key, pem) = key_pem(7);
    let state = AttestationState::load_from_pem(DEV, CA, &pem).unwrap();
    assert_eq!(state.device_cert_der(), &vec![1, 2, 3]);
    assert_eq!(state.ca_cert_der(), &vec![4, 5, 6]);
    let data = b"authenticator data and client data hash";
    let sig = state.sign(data).unwrap();
    assert_ne!(sig, data.to_vec());
    let parsed = Signature::from_der(&sig).unwrap();
    VerifyingKey::from(&key).verify(data, &parsed).unwrap();
    assert_eq!(state.sign(data).unwrap(), sig);
}

#[test]
fn load_errors_in_order() {
    let (_, pem) = key_pem(9);
    assert!(matches!(
        AttestationState::load_from_pem("AAA", CA, &pem),
        Err(AttestationLoadError::DeviceCert(Base64Error::InvalidPadding))
    ));
    assert!(matches!(
        AttestationState::load_from_pem(DEV, "AAA", "not a key"),
        Err(AttestationLoadError::CaCert(Base64Error::InvalidPadding))
    ));
    assert!(matches!(
        AttestationState::load_from_pem(DEV, CA, "not a key"),
        Err(AttestationLoadError::Key)
    ));
}
