//! Packed attestation objects (WebAuthn), serialized as CBOR by `ciborium`.

use vstd::prelude::*;
use vstd::string::StringExecFns;
use vstd::slice::slice_to_vec;
use crate::cbor::{CborModel, CborValue, cbor_model, ciborium_encoding, encode_cbor};
use crate::user_verification::Ctap2Error;

verus! {

/// COSE algorithm identifier of ES256.
pub const COSE_ALG_ES256: i64 = -7;

/// The certificates of an `x5c` chain as byte strings.
pub open spec fn cert_items(certs: Seq<Seq<u8>>) -> Seq<CborModel> {
    Seq::new(certs.len(), |i: int| CborModel::Bytes(certs[i]))
}

/// The packed attestation statement: `{"alg": -7, "sig": sig}`, with
/// `"x5c": [certs...]` added when a certificate chain is given.
pub open spec fn attestation_statement(sig: Seq<u8>, x5c: Option<Seq<Seq<u8>>>) -> CborModel {
    let base = seq![
        (CborModel::Text("alg"@), CborModel::Integer(COSE_ALG_ES256 as int)),
        (CborModel::Text("sig"@), CborModel::Bytes(sig)),
    ];
    match x5c {
        Some(certs) => CborModel::Entries(
            base.push((CborModel::Text("x5c"@), CborModel::Array(cert_items(certs)))),
        ),
        None => CborModel::Entries(base),
    }
}

/// The attestation object `{1: "packed", 2: auth_data, 3: statement}`.
pub open spec fn attestation_object(auth_data: Seq<u8>, sig: Seq<u8>, x5c: Option<Seq<Seq<u8>>>) -> CborModel {
    CborModel::Entries(
        seq![
            (CborModel::Integer(1), CborModel::Text("packed"@)),
            (CborModel::Integer(2), CborModel::Bytes(auth_data)),
            (CborModel::Integer(3), attestation_statement(sig, x5c)),
        ],
    )
}

/// The certificate chain handed in, as byte sequences.
pub open spec fn chain_model(x5c: Option<&[Vec<u8>]>) -> Option<Seq<Seq<u8>>> {
    match x5c {
        Some(certs) => Some(Seq::new(certs@.len(), |i: int| certs@[i]@)),
        None => None,
    }
}

/// The array `[certs...]` of byte strings.
fn cert_array(certs: &[Vec<u8>]) -> (v: CborValue)
    ensures
        cbor_model(v) == CborModel::Array(cert_items(Seq::new(certs@.len(), |i: int| certs@[i]@))),
{
    let mut items: Vec<CborValue> = Vec::new();
    let mut i: usize = 0;
    while i < certs.len()
        invariant
            i <= certs@.len(),
            items@.len() == i,
            forall|j: int| 0 <= j < i ==> cbor_model(#[trigger] items@[j]) == CborModel::Bytes(certs@[j]@),
        decreases certs@.len() - i,
    {
        let b = slice_to_vec(certs[i].as_slice());
        items.push(CborValue::Bytes(b));
        proof {
            assert(cbor_model(items@[i as int]) == CborModel::Bytes(certs@[i as int]@));
        }
        i = i + 1;
    }
    let v = CborValue::Array(items);
    proof {
        let expected = cert_items(Seq::new(certs@.len(), |i: int| certs@[i]@));
        if let CborModel::Array(got) = cbor_model(v) {
            assert(got =~= expected);
        }
    }
    v
}

/// The text string `s`.
fn text(s: &str) -> (v: CborValue)
    ensures
        cbor_model(v) == CborModel::Text(s@),
{
    CborValue::Text(String::from_str(s))
}

/// The attestation object for `auth_data`, `sig` and the optional chain.
fn attestation_value(auth_data: &[u8], sig: &[u8], x5c: Option<&[Vec<u8>]>) -> (v: CborValue)
    ensures
        cbor_model(v) == attestation_object(auth_data@, sig@, chain_model(x5c)),
{
    let mut stmt: Vec<(CborValue, CborValue)> = Vec::new();
    stmt.push((text("alg"), CborValue::Integer(COSE_ALG_ES256)));
    stmt.push((text("sig"), CborValue::Bytes(slice_to_vec(sig))));
    match x5c {
        Some(certs) => {
            stmt.push((text("x5c"), cert_array(certs)));
        },
        None => {},
    }
    let ghost pairs = stmt@;
    let stmt_value = CborValue::Entries(stmt);
    proof {
        let m = cbor_model(stmt_value)->Entries_0;
        let want = attestation_statement(sig@, chain_model(x5c))->Entries_0;
        assert(m.len() == want.len());
        assert(m[0] == (cbor_model(pairs[0].0), cbor_model(pairs[0].1)));
        assert(m[0] == want[0]);
        assert(m[1] == (cbor_model(pairs[1].0), cbor_model(pairs[1].1)));
        assert(m[1] == want[1]);
        if x5c is Some {
            assert(m[2] == (cbor_model(pairs[2].0), cbor_model(pairs[2].1)));
            assert(m[2] == want[2]);
        }
        assert(m =~= want);
    }
    let mut top: Vec<(CborValue, CborValue)> = Vec::new();
    let packed = text("packed");
    let auth = CborValue::Bytes(slice_to_vec(auth_data));
    let ghost m_packed = cbor_model(packed);
    let ghost m_auth = cbor_model(auth);
    let ghost m_stmt = cbor_model(stmt_value);
    top.push((CborValue::Integer(1), packed));
    top.push((CborValue::Integer(2), auth));
    top.push((CborValue::Integer(3), stmt_value));
    let ghost entries = top@;
    let v = CborValue::Entries(top);
    proof {
        assert(cbor_model(entries[0].0) == CborModel::Integer(1));
        assert(cbor_model(entries[1].0) == CborModel::Integer(2));
        assert(cbor_model(entries[2].0) == CborModel::Integer(3));
        assert(entries[0].1 == packed);
        let got = Seq::new(
            entries.len(),
            |i: int|
                if 0 <= i < entries.len() {
                    (cbor_model(entries[i].0), cbor_model(entries[i].1))
                } else {
                    (CborModel::Integer(0), CborModel::Integer(0))
                },
        );
        assert(cbor_model(v) is Entries);
        assert(cbor_model(v)->Entries_0.len() == 3);
        assert(cbor_model(v)->Entries_0[0] == (cbor_model(entries[0].0), cbor_model(entries[0].1)));
        assert(cbor_model(v)->Entries_0[0] == got[0]);
        assert(cbor_model(v)->Entries_0 =~= got);
        let want = seq![
            (CborModel::Integer(1), CborModel::Text("packed"@)),
            (CborModel::Integer(2), CborModel::Bytes(auth_data@)),
            (CborModel::Integer(3), attestation_statement(sig@, chain_model(x5c))),
        ];
        assert(got =~= want);
    }
    v
}

/// Builds the packed attestation object for `auth_data` and the signature
/// `sig`; with a certificate chain `x5c` (device certificate first) the
/// statement carries it, otherwise it is a packed self-attestation. The
/// object is serialized by `ciborium`, which always succeeds here.
pub fn build_attestation_object(auth_data: &[u8], sig: &[u8], x5c: Option<&[Vec<u8>]>) -> (r: Result<Vec<u8>, Ctap2Error>)
    ensures
        r matches Ok(b) && b@ == ciborium_encoding(attestation_object(auth_data@, sig@, chain_model(x5c))),
{
    let value = attestation_value(auth_data, sig, x5c);
    match encode_cbor(&value) {
        Ok(bytes) => Ok(bytes),
        Err(e) => Err(Ctap2Error::Cbor(e)),
    }
}

} // verus!
