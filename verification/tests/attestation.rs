use ciborium::value::Value;
use vauth::attestation::build_attestation_object;

fn reference(auth_data: &[u8], sig: &[u8], x5c: Option<&[Vec<u8>]>) -> Vec<u8> {
    let mut att_stmt = vec![
        (Value::Text("alg".to_string()), Value::Integer((-7i64).into())),
        (Value::Text("sig".to_string()), Value::Bytes(sig.to_vec())),
    ];
    if let Some(certs) = x5c {
        let cert_values: Vec<Value> = certs.iter().map(|c| Value::Bytes(c.clone())).collect();
        att_stmt.push((Value::Text("x5c".to_string()), Value::Array(cert_values)));
    }
    let map = Value::Map(vec![
        (Value::Integer(1i64.into()), Value::Text("packed".to_string())),
        (Value::Integer(2i64.into()), Value::Bytes(auth_data.to_vec())),
        (Value::Integer(3i64.into()), Value::Map(att_stmt)),
    ]);
    let mut buf = Vec::new();
    ciborium::into_writer(&map, &mut buf).unwrap();
    buf
}

#[test]
fn self_attestation_matches_ciborium() {
    let auth = vec![0xAB; 37];
    let sig = vec![0x30, 0x45, 0x02, 0x20];
    assert_eq!(build_attestation_object(&auth, &sig, None).unwrap(), reference(&auth, &sig, None));
}

#[test]
fn chain_attestation_matches_ciborium() {
    let auth: Vec<u8> = (0..300u32).map(|i| (i % 251) as u8).collect();
    let sig: Vec<u8> = (0..71u8).collect();
    let certs = vec![vec![1u8; 20], vec![2u8; 70000], vec![]];
    assert_eq!(
        build_attestation_object(&auth, &sig, Some(&certs)).unwrap(),
        reference(&auth, &sig, Some(&certs))
    );
}

#[test]
fn empty_inputs_exact_bytes() {
    let out = build_attestation_object(&[], &[], None).unwrap();
    assert_eq!(
        out,
        vec![
            0xA3, 0x01, 0x66, b'p', b'a', b'c', b'k', b'e', b'd', 0x02, 0x40, 0x03, 0xA2, 0x63, b'a',
            b'l', b'g', 0x26, 0x63, b's', b'i', b'g', 0x40
        ]
    );
}

#[test]
fn empty_chain_is_an_empty_array() {
    let out = build_attestation_object(&[], &[], Some(&[])).unwrap();
    assert_eq!(out, reference(&[], &[], Some(&[])));
    assert_eq!(&out[out.len() - 5..], &[0x63, b'x', b'5', b'c', 0x80]);
}
