//! The trusted boundary to the two decoding crates. Byte-level decoding of
//! the two file formats is done by `serde_json` and `csv`; everything the
//! library states about those results goes through the named spec functions
//! below, and all schema logic on top of them is verified.

use vstd::prelude::*;

use crate::json::JsonData;
use crate::json::JsonValue;

verus! {

#[verifier::external_type_specification]
#[verifier::external_body]
pub struct ExValue(serde_json::Value);

/// The library's form of a decoded `serde_json::Value`.
pub uninterp spec fn json_data_of(v: serde_json::Value) -> JsonData;

/// What one JSON document read from `b` holds, `None` when `b` is not a
/// well-formed document.
pub uninterp spec fn json_doc(b: Seq<u8>) -> Option<JsonData>;

/// The rows of the comma-separated table read from `b`, every row taken as
/// data, `None` when the bytes cannot be decoded as such a table.
pub uninterp spec fn csv_table(b: Seq<u8>) -> Option<Seq<Seq<Seq<char>>>>;

/// Relies on `serde_json::from_slice` reading one JSON document from bytes.
#[verifier::external_body]
pub(crate) fn parse_document(b: &[u8]) -> (r: Option<serde_json::Value>)
    ensures
        r matches Some(v) ==> json_doc(b@) == Some(json_data_of(v)),
        r is None ==> json_doc(b@) is None,
{
    serde_json::from_slice::<serde_json::Value>(b).ok()
}

/// Relies on the variant structure of `serde_json::Value`: each variant is
/// carried over one for one, a number as its decimal text.
#[verifier::external_body]
pub(crate) fn convert_document(v: serde_json::Value) -> (r: JsonValue)
    ensures
        r@ == json_data_of(v),
{
    match v {
        serde_json::Value::Null => JsonValue::Null,
        serde_json::Value::Bool(b) => JsonValue::Bool(b),
        serde_json::Value::Number(n) => JsonValue::Num(n.to_string()),
        serde_json::Value::String(s) => JsonValue::Str(s),
        serde_json::Value::Array(a) => JsonValue::Arr(
            a.into_iter().map(convert_document).collect(),
        ),
        serde_json::Value::Object(m) => JsonValue::Obj(
            m.into_iter().map(|f| (f.0, convert_document(f.1))).collect(),
        ),
    }
}

/// Relies on `csv::ReaderBuilder` and `csv::Reader::records`: comma-separated
/// rows with standard quoting, no header handling, no length check.
#[verifier::external_body]
pub(crate) fn read_table(b: &[u8]) -> (r: Option<Vec<Vec<String>>>)
    ensures
        r matches Some(t) ==> csv_table(b@) == Some(t.deep_view()),
        r is None ==> csv_table(b@) is None,
{
    let mut rdr = csv::ReaderBuilder::new().has_headers(false).flexible(true).from_reader(b);
    let mut out: Vec<Vec<String>> = Vec::new();
    for rec in rdr.records() {
        match rec {
            Ok(row) => out.push(row.iter().map(str::to_owned).collect()),
            Err(_) => return None,
        }
    }
    Some(out)
}

} // verus!
