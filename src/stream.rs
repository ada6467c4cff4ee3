//! The canonical stream: the shape that every decoder produces and every
//! writer consumes, and the records that flow through it.
use vstd::prelude::*;

verus! {

/// One decoded record: a structured value, or a row of raw text fields.
pub enum DataTypes {
    Json(serde_json::Value),
    Csv(Vec<Vec<u8>>),
}

/// The shape of a canonical stream. A table carries its header, captured
/// once before the first row.
pub enum WriterStreams {
    /// Structured values, one per document or top-level value.
    Values,
    /// Rows under a header.
    Table { headers: Vec<String> },
    /// Structured values, one per input line.
    Ndjson,
}

/// The fields of a row record; a structured value has none.
pub fn into_byte_record(record: DataTypes) -> (r: Vec<Vec<u8>>)
    ensures
        record is Csv ==> r == record->Csv_0,
        record is Json ==> r@.len() == 0,
{
    match record {
        DataTypes::Csv(fields) => fields,
        DataTypes::Json(_) => Vec::new(),
    }
}

} // verus!
