//! The calls into serde_json, toml and csv that parse and print text. Each
//! item here is trusted: Verus takes its contract as given.
use vstd::prelude::*;

verus! {

#[verifier::external_type_specification]
#[verifier::external_body]
pub struct ExJsonValue(serde_json::Value);

#[verifier::external_type_specification]
#[verifier::external_body]
pub struct ExJsonError(serde_json::Error);

#[verifier::external_type_specification]
#[verifier::external_body]
pub struct ExTomlDeError(toml::de::Error);

#[verifier::external_type_specification]
#[verifier::external_body]
pub struct ExTomlSerError(toml::ser::Error);

/// The value that serde_json parses from `b`, or `None` where `b` is not
/// exactly one JSON value.
pub uninterp spec fn json_parse(b: Seq<u8>) -> Option<serde_json::Value>;

/// Whether serde_json reads `b` as exactly one JSON value.
pub open spec fn json_accepts(b: Seq<u8>) -> bool {
    json_parse(b) is Some
}

/// The structured value that the toml crate reads from the UTF-8 TOML
/// document `b`, or `None` where `b` is not one.
pub uninterp spec fn toml_parse(b: Seq<u8>) -> Option<serde_json::Value>;

/// Whether the toml crate reads `b` as a UTF-8 TOML document.
pub open spec fn toml_accepts(b: Seq<u8>) -> bool {
    toml_parse(b) is Some
}

/// The indented JSON text that serde_json writes for `v`.
pub uninterp spec fn json_pretty_text(v: serde_json::Value) -> Seq<u8>;

/// The single-line JSON text that serde_json writes for `v`.
pub uninterp spec fn json_compact_text(v: serde_json::Value) -> Seq<u8>;

/// The TOML document that the toml crate writes for `v`, or `None` where a
/// document cannot hold `v`.
pub uninterp spec fn toml_document(v: serde_json::Value) -> Option<Seq<u8>>;

/// The elements of `v` where it is an array, `None` otherwise.
pub uninterp spec fn json_array_items(v: serde_json::Value) -> Option<Seq<serde_json::Value>>;

/// The object whose one entry is `key: v`.
pub uninterp spec fn single_entry(key: Seq<char>, v: serde_json::Value) -> serde_json::Value;

/// The bytes that the csv crate writes for one record with the given
/// delimiter, terminator included.
pub uninterp spec fn csv_record_bytes(fields: Seq<Seq<u8>>, delimiter: u8) -> Seq<u8>;

/// Whether std classes the character as alphanumeric (Unicode `Alphabetic`
/// or `Numeric`).
pub uninterp spec fn alphanumeric(c: char) -> bool;

/// Relies on `char::is_alphanumeric`; among ASCII characters exactly the
/// letters and digits are alphabetic or numeric.
#[verifier::external_body]
pub(crate) fn is_alphanumeric(c: char) -> (r: bool)
    ensures
        r == alphanumeric(c),
        (c as u32) < 128 ==> (r <==> (('a' <= c && c <= 'z') || ('A' <= c && c <= 'Z') || ('0'
            <= c && c <= '9'))),
{
    c.is_alphanumeric()
}

/// Relies on `serde_json::from_slice`: parses one JSON value from the bytes;
/// the outcome depends on the bytes alone.
#[verifier::external_body]
pub(crate) fn parse_json(b: &[u8]) -> (r: Result<serde_json::Value, serde_json::Error>)
    ensures
        r is Ok <==> json_parse(b@) is Some,
        r is Ok ==> r->Ok_0 == json_parse(b@)->0,
{
    serde_json::from_slice::<serde_json::Value>(b)
}

/// Relies on `toml::from_slice`: parses a whole TOML document into a
/// structured value; the outcome depends on the bytes alone.
#[verifier::external_body]
pub(crate) fn parse_toml(b: &[u8]) -> (r: Result<serde_json::Value, toml::de::Error>)
    ensures
        r is Ok <==> toml_parse(b@) is Some,
        r is Ok ==> r->Ok_0 == toml_parse(b@)->0,
{
    toml::from_slice::<serde_json::Value>(b)
}

/// Relies on `serde_json::to_vec_pretty`: the value as indented JSON text.
/// Writing a `Value` (whose object keys are strings) into a vector does not
/// fail.
#[verifier::external_body]
pub(crate) fn json_pretty(v: &serde_json::Value) -> (r: Result<Vec<u8>, serde_json::Error>)
    ensures
        r is Ok,
        r is Ok ==> r->Ok_0@ == json_pretty_text(*v),
{
    serde_json::to_vec_pretty(v)
}

/// Relies on `serde_json::to_vec`: the value as single-line JSON text.
/// Writing a `Value` into a vector does not fail.
#[verifier::external_body]
pub(crate) fn json_compact(v: &serde_json::Value) -> (r: Result<Vec<u8>, serde_json::Error>)
    ensures
        r is Ok,
        r is Ok ==> r->Ok_0@ == json_compact_text(*v),
{
    serde_json::to_vec(v)
}

/// Relies on `toml::to_string_pretty`: the value as a TOML document; it fails
/// for values that a TOML document cannot hold, such as a null.
#[verifier::external_body]
pub(crate) fn toml_pretty(v: &serde_json::Value) -> (r: Result<Vec<u8>, toml::ser::Error>)
    ensures
        r is Ok <==> toml_document(*v) is Some,
        r is Ok ==> r->Ok_0@ == toml_document(*v)->0,
{
    match toml::to_string_pretty(v) {
        Ok(s) => Ok(s.into_bytes()),
        Err(e) => Err(e),
    }
}

/// Relies on `serde_json::Value`'s `FromIterator<(K, V)>`: an object with the
/// one entry `key: v`.
#[verifier::external_body]
pub(crate) fn single_entry_object(key: String, v: serde_json::Value) -> (r: serde_json::Value)
    ensures
        r == single_entry(key@, v),
{
    serde_json::Value::from_iter([(key, v)])
}

/// Relies on `serde_json::Value::as_array`: the elements where the value is
/// an array.
pub assume_specification<'a>[ serde_json::Value::as_array ](v: &'a serde_json::Value) -> (r: Option<
    &'a Vec<serde_json::Value>,
>)
    ensures
        r is Some <==> json_array_items(*v) is Some,
        r is Some ==> r->0@ == json_array_items(*v)->0,
;

/// Relies on `csv::Writer::write_record` (on a writer over a `Vec<u8>` made by
/// `csv::WriterBuilder` with `delimiter`): the record's encoded bytes. A
/// fresh writer over a vector cannot fail, so the error arms are not taken.
#[verifier::external_body]
pub(crate) fn csv_record(fields: &Vec<Vec<u8>>, delimiter: u8) -> (r: Vec<u8>)
    ensures
        r@ == csv_record_bytes(fields@.map_values(|f: Vec<u8>| f@), delimiter),
{
    let mut w = csv::WriterBuilder::new().delimiter(delimiter).from_writer(Vec::new());
    match w.write_record(fields) {
        Ok(()) => {},
        Err(_) => return Vec::new(),
    }
    match w.into_inner() {
        Ok(bytes) => bytes,
        Err(_) => Vec::new(),
    }
}

} // verus!
