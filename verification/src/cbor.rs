//! CBOR data items and their encoding by `ciborium`.
//!
//! The library builds the items it sends as `CborValue`s; `ciborium`
//! serializes them. What the bytes are is named, not restated: the encoding
//! is `ciborium_encoding` of the item's model.

use vstd::prelude::*;

verus! {

/// A CBOR data item as a mathematical value.
pub enum CborModel {
    Integer(int),
    Bytes(Seq<u8>),
    Text(Seq<char>),
    Array(Seq<CborModel>),
    /// A map, given by its entries in order.
    Entries(Seq<(CborModel, CborModel)>),
}

/// A CBOR data item, as `ciborium::Value` has it: integers, byte strings,
/// text strings, arrays and maps (entries in order).
pub enum CborValue {
    Integer(i64),
    Bytes(Vec<u8>),
    Text(String),
    Array(Vec<CborValue>),
    Entries(Vec<(CborValue, CborValue)>),
}

/// The model of a data item.
pub open spec fn cbor_model(v: CborValue) -> CborModel
    decreases v,
{
    match v {
        CborValue::Integer(i) => CborModel::Integer(i as int),
        CborValue::Bytes(b) => CborModel::Bytes(b@),
        CborValue::Text(t) => CborModel::Text(t@),
        CborValue::Array(items) => CborModel::Array(
            Seq::new(
                items@.len(),
                |i: int|
                    if 0 <= i < items@.len() {
                        cbor_model(items@[i])
                    } else {
                        CborModel::Integer(0)
                    },
            ),
        ),
        CborValue::Entries(entries) => CborModel::Entries(
            Seq::new(
                entries@.len(),
                |i: int|
                    if 0 <= i < entries@.len() {
                        (cbor_model(entries@[i].0), cbor_model(entries@[i].1))
                    } else {
                        (CborModel::Integer(0), CborModel::Integer(0))
                    },
            ),
        ),
    }
}

/// What `ciborium::into_writer` writes into an empty `Vec<u8>` for the
/// `ciborium::Value` with this model.
pub uninterp spec fn ciborium_encoding(v: CborModel) -> Seq<u8>;

/// `ciborium::Value`.
#[verifier::external_type_specification]
#[verifier::external_body]
pub struct ExCiboriumValue(ciborium::Value);

/// Converts a data item to the `ciborium::Value` of the same shape, one
/// variant for one.
#[verifier::external_body]
fn to_ciborium(v: &CborValue) -> ciborium::Value {
    match v {
        CborValue::Integer(i) => ciborium::Value::Integer((*i).into()),
        CborValue::Bytes(b) => ciborium::Value::Bytes(b.clone()),
        CborValue::Text(t) => ciborium::Value::Text(t.clone()),
        CborValue::Array(items) => ciborium::Value::Array(items.iter().map(to_ciborium).collect()),
        CborValue::Entries(entries) => ciborium::Value::Map(
            entries.iter().map(|(k, x)| (to_ciborium(k), to_ciborium(x))).collect(),
        ),
    }
}

/// Calls `ciborium::into_writer` on the `ciborium::Value` of `v` with an
/// empty `Vec<u8>` as the writer (an error becomes its text, `to_string`).
/// It succeeds: writing into a `Vec` cannot fail, and the only value error
/// of ciborium's serializer is for tags, which a `CborValue` never holds.
/// The bytes are stated only through the name `ciborium_encoding`.
#[verifier::external_body]
pub(crate) fn encode_cbor(v: &CborValue) -> (r: Result<Vec<u8>, String>)
    ensures
        r is Ok,
        r matches Ok(bytes) ==> bytes@ == ciborium_encoding(cbor_model(*v)),
{
    let mut buf = Vec::new();
    ciborium::into_writer(&to_ciborium(v), &mut buf).map_err(|e| e.to_string())?;
    Ok(buf)
}

} // verus!
