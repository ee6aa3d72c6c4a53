use vauth::pem::{pem_body_bytes, pem_to_der, Base64Error};

#[test]
fn decodes_body_between_boundaries() {
    let pem = "-----BEGIN CERTIFICATE-----\nAAEC\nAwQF\n-----END CERTIFICATE-----\n";
    assert_eq!(pem_to_der(pem).unwrap(), vec![0, 1, 2, 3, 4, 5]);
}

#[test]
fn crlf_lines_are_handled() {
    let pem = "-----BEGIN X-----\r\naGVs\r\nbG8=\r\n-----END X-----\r\n";
    assert_eq!(pem_to_der(pem).unwrap(), b"hello".to_vec());
}

#[test]
fn body_keeps_non_boundary_lines() {
    assert_eq!(pem_body_bytes(b"----x\nab\r\ncd\r"), b"----xabcd\r".to_vec());
    assert_eq!(pem_body_bytes(b"-----\n-----BEGIN\nq\n\n"), b"q".to_vec());
    assert_eq!(pem_body_bytes(b""), Vec::<u8>::new());
}

#[test]
fn invalid_base64_is_reported() {
    assert_eq!(pem_to_der("-----B-----\nA$==\n"), Err(Base64Error::InvalidByte(1, b'$')));
    assert_eq!(pem_to_der("AAA"), Err(Base64Error::InvalidPadding));
}
