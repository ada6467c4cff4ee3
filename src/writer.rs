//! The writer: one encoder per output format, fed any stream shape, that
//! turns each record into the bytes to append to the output.
use vstd::prelude::*;
use crate::codec::{
    csv_record, csv_record_bytes, json_array_items, json_compact, json_compact_text, json_pretty,
    json_pretty_text, single_entry, single_entry_object, toml_document, toml_pretty,
};
use crate::error::{malformed_message, malformed_text, ConversionError};
use crate::escape::push_bytes;
use crate::format::Format;
use crate::log::LogSink;
use crate::stream::{into_byte_record, DataTypes, WriterStreams};
use crate::table::{csv_writer, fields_of, header_fields, json_row, name_bytes, ndjson_row, ndjson_writer, toml_row, toml_writer, write_json};

verus! {

/// Whether a writer of `format` can take a stream of this shape: a table
/// format takes tables only; the others take every shape.
pub open spec fn accepts(format: Format, stream: WriterStreams) -> bool {
    !(format is Table) || stream is Table
}

/// Whether the format's delimiter, if it has one, is a single ASCII byte.
pub open spec fn ascii_delimiter(format: Format) -> bool {
    !(format is Table) || format->delimiter < 128
}

/// The header's names as the fields of the header record.
pub open spec fn header_names(headers: Seq<String>) -> Seq<Seq<u8>> {
    headers.map_values(|h: String| name_bytes(h))
}

/// What a writer emits before the first record.
pub open spec fn begin_text(format: Format, stream: WriterStreams) -> Seq<u8> {
    match format {
        Format::Json => if stream is Values {
            Seq::empty()
        } else {
            seq![0x5bu8, 0x0au8]
        },
        Format::Table { delimiter } => match stream {
            WriterStreams::Table { headers } => csv_record_bytes(header_names(headers@), delimiter),
            _ => Seq::empty(),
        },
        _ => Seq::empty(),
    }
}

/// What a writer emits after the last record.
pub open spec fn finish_text(format: Format, stream: WriterStreams) -> Seq<u8> {
    if format is Json && !(stream is Values) {
        seq![0x0au8, 0x5du8]
    } else {
        Seq::empty()
    }
}

/// A row in the output format; `first` for the first record written.
pub open spec fn row_text(format: Format, first: bool, headers: Seq<String>, row: Seq<Seq<u8>>, parse_numbers: bool) -> Seq<u8> {
    match format {
        Format::Json => json_row(first, headers, row, parse_numbers),
        Format::Ndjson => ndjson_row(headers, row, parse_numbers),
        Format::Toml => toml_row(first, headers, row, parse_numbers),
        Format::Table { delimiter } => csv_record_bytes(row, delimiter),
    }
}

/// Rows written one after the other, the first of them as record number
/// `written` (counting from 0).
pub open spec fn rows_text(
    format: Format,
    written: nat,
    headers: Seq<String>,
    rows: Seq<Seq<Seq<u8>>>,
    parse_numbers: bool,
) -> Seq<u8>
    decreases rows.len(),
{
    if rows.len() == 0 {
        Seq::empty()
    } else {
        rows_text(format, written, headers, rows.drop_last(), parse_numbers) + row_text(
            format,
            written + rows.len() - 1 == 0,
            headers,
            rows.last(),
            parse_numbers,
        )
    }
}

/// The whole output for a table: header framing, every row, closing framing.
pub open spec fn table_output(format: Format, headers: Seq<String>, rows: Seq<Seq<Seq<u8>>>, parse_numbers: bool) -> Seq<u8> {
    match format {
        Format::Table { delimiter } => csv_record_bytes(header_names(headers), delimiter)
            + rows_text(format, 0, headers, rows, parse_numbers),
        Format::Json => seq![0x5bu8, 0x0au8] + rows_text(format, 0, headers, rows, parse_numbers)
            + seq![0x0au8, 0x5du8],
        _ => rows_text(format, 0, headers, rows, parse_numbers),
    }
}

/// `[[Array]]\n`.
pub open spec fn array_table_header() -> Seq<u8> {
    seq![0x5bu8, 0x5bu8, 0x41u8, 0x72u8, 0x72u8, 0x61u8, 0x79u8, 0x5du8, 0x5du8, 0x0au8]
}

/// A structured value's encoded text, framed for the output: `first` for
/// the first record written.
pub open spec fn value_frame(format: Format, stream: WriterStreams, first: bool, text: Seq<u8>) -> Seq<u8> {
    match format {
        Format::Json => if stream is Ndjson {
            (if first {
                Seq::empty()
            } else {
                seq![0x2cu8, 0x0au8]
            }) + text
        } else {
            text + seq![0x0au8]
        },
        Format::Ndjson => text + seq![0x0au8],
        Format::Toml => if stream is Ndjson {
            (if first {
                Seq::empty()
            } else {
                seq![0x0au8]
            }) + array_table_header() + text
        } else {
            text
        },
        Format::Table { .. } => Seq::empty(),
    }
}

/// `Array`: the key that a TOML document puts an array under.
pub open spec fn array_key() -> Seq<char> {
    seq!['A', 'r', 'r', 'a', 'y']
}

/// What the TOML writer serializes for `v`: an array is wrapped under the
/// key `Array`, since a document cannot be one.
pub open spec fn toml_subject(v: serde_json::Value) -> serde_json::Value {
    if json_array_items(v) is Some {
        single_entry(array_key(), v)
    } else {
        v
    }
}

/// Each value as single-line JSON, on a line of its own.
pub open spec fn compact_lines(items: Seq<serde_json::Value>) -> Seq<u8>
    decreases items.len(),
{
    if items.len() == 0 {
        Seq::empty()
    } else {
        compact_lines(items.drop_last()) + json_compact_text(items.last()) + seq![0x0au8]
    }
}

/// Whether encoding `v` in `format` fails: only TOML can fail, on values
/// that a document cannot hold.
pub open spec fn value_fails(format: Format, v: serde_json::Value) -> bool {
    format is Toml && toml_document(toml_subject(v)) is None
}

/// The bytes written for the structured value `v`; `first` for the first
/// record written. JSON takes the value indented; line-delimited JSON puts
/// each element of an array, or else the value, on a line of its own; TOML
/// takes the document of `toml_subject(v)`, or `placeholder` where there is
/// none.
pub open spec fn value_output(format: Format, stream: WriterStreams, first: bool, v: serde_json::Value) -> Seq<u8> {
    match format {
        Format::Json => value_frame(format, stream, first, json_pretty_text(v)),
        Format::Ndjson => match json_array_items(v) {
            Some(items) => compact_lines(items),
            None => json_compact_text(v) + seq![0x0au8],
        },
        Format::Toml => value_frame(
            format,
            stream,
            first,
            match toml_document(toml_subject(v)) {
                Some(t) => t,
                None => placeholder(format),
            },
        ),
        Format::Table { .. } => Seq::empty(),
    }
}

/// What stands in for a value that could not be encoded: an empty object
/// in JSON, an empty table (no text) in TOML.
pub open spec fn placeholder(format: Format) -> Seq<u8> {
    if format is Toml {
        Seq::empty()
    } else {
        seq![0x7bu8, 0x7du8]
    }
}

/// An encoder for one output format, fed one stream shape; `written` counts
/// the records written so far.
pub struct Writer {
    pub format: Format,
    pub stream: WriterStreams,
    pub parse_numbers: bool,
    pub written: usize,
}

impl Writer {
    /// Whether the writer's format takes its stream's shape.
    pub open spec fn wf(&self) -> bool {
        accepts(self.format, self.stream) && ascii_delimiter(self.format)
    }

    /// A writer of `format` for `stream`. A table delimiter that is not one
    /// ASCII byte fails with `InvalidDelimiter`; a table format fed values or
    /// lines fails with `UnsupportedShapeForFormat`; every other pairing
    /// succeeds.
    pub fn new(format: Format, stream: WriterStreams, parse_numbers: bool) -> (r: Result<Writer, ConversionError>)
        ensures
            !ascii_delimiter(format) ==> r is Err && r->Err_0 is InvalidDelimiter,
            ascii_delimiter(format) && accepts(format, stream) ==> r == Ok::<Writer, ConversionError>(
                Writer { format, stream, parse_numbers, written: 0 },
            ),
            ascii_delimiter(format) && !accepts(format, stream) ==> r is Err
                && r->Err_0 is UnsupportedShapeForFormat,
            r is Ok ==> r->Ok_0.wf(),
    {
        match format {
            Format::Table { delimiter } => if delimiter >= 128 {
                return Err(ConversionError::InvalidDelimiter);
            },
            _ => {},
        }
        match format {
            Format::Table { .. } => match stream {
                WriterStreams::Table { .. } => {},
                _ => {
                    return Err(ConversionError::UnsupportedShapeForFormat);
                },
            },
            _ => {},
        }
        Ok(Writer { format, stream, parse_numbers, written: 0 })
    }

    /// The bytes that open the output: `[` for a JSON array, the header
    /// record for a delimited table, nothing otherwise.
    pub fn begin(&self) -> (r: Vec<u8>)
        ensures
            r@ == begin_text(self.format, self.stream),
    {
        let mut out: Vec<u8> = Vec::new();
        match self.format {
            Format::Json => {
                match self.stream {
                    WriterStreams::Values => {},
                    _ => {
                        out.push(0x5b);
                        out.push(0x0a);
                    },
                }
            },
            Format::Table { delimiter } => {
                match &self.stream {
                    WriterStreams::Table { headers } => {
                        let names = header_fields(headers);
                        out = csv_record(&names, delimiter);
                    },
                    _ => {},
                }
            },
            _ => {},
        }
        assert(out@ =~= begin_text(self.format, self.stream));
        out
    }

    /// The bytes that close the output: `]` after a JSON array.
    pub fn finish(&self) -> (r: Vec<u8>)
        ensures
            r@ == finish_text(self.format, self.stream),
    {
        let mut out: Vec<u8> = Vec::new();
        match self.format {
            Format::Json => {
                match self.stream {
                    WriterStreams::Values => {},
                    _ => {
                        out.push(0x0a);
                        out.push(0x5d);
                    },
                }
            },
            _ => {},
        }
        assert(out@ =~= finish_text(self.format, self.stream));
        out
    }

    /// Encodes one table row.
    pub fn write_row(&mut self, row: &Vec<Vec<u8>>) -> (r: Vec<u8>)
        requires
            old(self).stream is Table,
            ascii_delimiter(old(self).format),
            old(self).written < usize::MAX,
        ensures
            final(self).format == old(self).format,
            final(self).stream == old(self).stream,
            final(self).parse_numbers == old(self).parse_numbers,
            final(self).written == old(self).written + 1,
            r@ == row_text(
                old(self).format,
                old(self).written == 0,
                old(self).stream->headers@,
                fields_of(*row),
                old(self).parse_numbers,
            ),
    {
        let first = self.written == 0;
        let out = match &self.stream {
            WriterStreams::Table { headers } => match self.format {
                Format::Json => write_json(first, headers, row, self.parse_numbers),
                Format::Ndjson => ndjson_writer(headers, row, self.parse_numbers),
                Format::Toml => toml_writer(first, headers, row, self.parse_numbers),
                Format::Table { delimiter } => csv_writer(row, delimiter),
            },
            _ => Vec::new(),
        };
        self.written = self.written + 1;
        out
    }

    /// Encodes rows one after the other.
    pub fn write_rows(&mut self, rows: &Vec<Vec<Vec<u8>>>) -> (r: Vec<u8>)
        requires
            old(self).stream is Table,
            ascii_delimiter(old(self).format),
            old(self).written + rows@.len() < usize::MAX,
        ensures
            final(self).format == old(self).format,
            final(self).stream == old(self).stream,
            final(self).parse_numbers == old(self).parse_numbers,
            final(self).written == old(self).written + rows@.len(),
            r@ == rows_text(
                old(self).format,
                old(self).written as nat,
                old(self).stream->headers@,
                rows@.map_values(|row: Vec<Vec<u8>>| fields_of(row)),
                old(self).parse_numbers,
            ),
    {
        let ghost rs = rows@.map_values(|row: Vec<Vec<u8>>| fields_of(row));
        let ghost w0 = self.written as nat;
        let mut out: Vec<u8> = Vec::new();
        let mut i: usize = 0;
        assert(rs.subrange(0, 0) =~= Seq::<Seq<Seq<u8>>>::empty());
        while i < rows.len()
            invariant
                rs == rows@.map_values(|row: Vec<Vec<u8>>| fields_of(row)),
                i <= rows@.len(),
                self.format == old(self).format,
                self.stream == old(self).stream,
                self.stream is Table,
                ascii_delimiter(self.format),
                self.parse_numbers == old(self).parse_numbers,
                w0 == old(self).written,
                self.written == w0 + i,
                w0 + rows@.len() < usize::MAX,
                out@ == rows_text(self.format, w0, self.stream->headers@, rs.subrange(0, i as int), self.parse_numbers),
            decreases rows@.len() - i,
        {
            let t = self.write_row(&rows[i]);
            push_bytes(&mut out, t.as_slice());
            proof {
                let s = rs.subrange(0, i as int + 1);
                assert(s.drop_last() =~= rs.subrange(0, i as int));
                assert(s.last() == fields_of(rows@[i as int]));
            }
            i = i + 1;
        }
        assert(rs.subrange(0, rows@.len() as int) =~= rs);
        out
    }

    /// Frames the encoded text of one structured value.
    pub fn frame_value(&mut self, text: &[u8]) -> (r: Vec<u8>)
        requires
            !(old(self).stream is Table),
            old(self).written < usize::MAX,
        ensures
            final(self).format == old(self).format,
            final(self).stream == old(self).stream,
            final(self).parse_numbers == old(self).parse_numbers,
            final(self).written == old(self).written + 1,
            r@ == value_frame(old(self).format, old(self).stream, old(self).written == 0, text@),
    {
        let first = self.written == 0;
        let mut out: Vec<u8> = Vec::new();
        let lines = match self.stream {
            WriterStreams::Ndjson => true,
            _ => false,
        };
        match self.format {
            Format::Json => {
                if lines {
                    if !first {
                        out.push(0x2c);
                        out.push(0x0a);
                    }
                    push_bytes(&mut out, text);
                } else {
                    push_bytes(&mut out, text);
                    out.push(0x0a);
                }
            },
            Format::Ndjson => {
                push_bytes(&mut out, text);
                out.push(0x0a);
            },
            Format::Toml => {
                if lines {
                    if !first {
                        out.push(0x0a);
                    }
                    let head: [u8; 10] = [0x5b, 0x5b, 0x41, 0x72, 0x72, 0x61, 0x79, 0x5d, 0x5d, 0x0a];
                    assert(head@ =~= array_table_header());
                    push_bytes(&mut out, head.as_slice());
                }
                push_bytes(&mut out, text);
            },
            Format::Table { .. } => {},
        }
        self.written = self.written + 1;
        assert(out@ =~= value_frame(self.format, self.stream, first, text@));
        out
    }

    /// Encodes one structured value as `value_output` says. A value that
    /// fails to encode is reported and replaced by `placeholder`, so the
    /// framing stays whole.
    pub fn write_value(&mut self, v: serde_json::Value, log: &mut LogSink) -> (r: Vec<u8>)
        requires
            !(old(self).stream is Table),
            !(old(self).format is Table),
            old(self).written < usize::MAX,
        ensures
            final(self).format == old(self).format,
            final(self).stream == old(self).stream,
            final(self).parse_numbers == old(self).parse_numbers,
            final(self).written == old(self).written + 1,
            r@ == value_output(old(self).format, old(self).stream, old(self).written == 0, v),
            final(log)@ == if value_fails(old(self).format, v) {
                old(log)@.push(malformed_message(old(self).format, final(self).written, Seq::empty()))
            } else {
                old(log)@
            },
    {
        let index = self.written + 1;
        let empty: [u8; 0] = [];
        assert(empty@ =~= Seq::<u8>::empty());
        match self.format {
            Format::Ndjson => {
                let mut out: Vec<u8> = Vec::new();
                match v.as_array() {
                    Some(items) => {
                        let ghost all = items@;
                        let mut i: usize = 0;
                        assert(all.subrange(0, 0) =~= Seq::<serde_json::Value>::empty());
                        while i < items.len()
                            invariant
                                all == items@,
                                i <= items@.len(),
                                out@ == compact_lines(all.subrange(0, i as int)),
                            decreases items@.len() - i,
                        {
                            match json_compact(&items[i]) {
                                Ok(t) => push_bytes(&mut out, t.as_slice()),
                                Err(_) => {},
                            }
                            out.push(0x0a);
                            proof {
                                let s = all.subrange(0, i as int + 1);
                                assert(s.drop_last() =~= all.subrange(0, i as int));
                                assert(s.last() == all[i as int]);
                            }
                            i = i + 1;
                        }
                        assert(all.subrange(0, all.len() as int) =~= all);
                    },
                    None => {
                        match json_compact(&v) {
                            Ok(t) => push_bytes(&mut out, t.as_slice()),
                            Err(_) => {},
                        }
                        out.push(0x0a);
                    },
                }
                self.written = index;
                out
            },
            Format::Json => {
                match json_pretty(&v) {
                    Ok(t) => self.frame_value(t.as_slice()),
                    Err(_) => Vec::new(),
                }
            },
            _ => {
                let subject = if v.as_array().is_some() {
                    let key = String::from_str("Array");
                    proof {
                        reveal_strlit("Array");
                    }
                    assert(key@ =~= array_key());
                    single_entry_object(key, v)
                } else {
                    v
                };
                assert(subject == toml_subject(v));
                match toml_pretty(&subject) {
                    Ok(t) => self.frame_value(t.as_slice()),
                    Err(_) => {
                        log.record(malformed_text(self.format, index, empty.as_slice()));
                        assert(empty@ =~= placeholder(self.format));
                        self.frame_value(empty.as_slice())
                    },
                }
            },
        }
    }

    /// Encodes one record of the stream: a row under the table's header, or
    /// a structured value. A record of the other kind is a malformed one: a
    /// structured value in a table is written as a row with no fields; a
    /// row among values is reported and written as `placeholder`.
    pub fn write_record(&mut self, record: DataTypes, log: &mut LogSink) -> (r: Vec<u8>)
        requires
            old(self).wf(),
            old(self).written < usize::MAX,
        ensures
            final(self).format == old(self).format,
            final(self).stream == old(self).stream,
            final(self).parse_numbers == old(self).parse_numbers,
            final(self).written == old(self).written + 1,
            old(self).stream is Table ==> final(log)@ == old(log)@,
            old(self).stream is Table && record is Csv ==> r@ == row_text(
                old(self).format,
                old(self).written == 0,
                old(self).stream->headers@,
                fields_of(record->Csv_0),
                old(self).parse_numbers,
            ),
            old(self).stream is Table && record is Json ==> r@ == row_text(
                old(self).format,
                old(self).written == 0,
                old(self).stream->headers@,
                Seq::empty(),
                old(self).parse_numbers,
            ),
            !(old(self).stream is Table) && record is Json ==> r@ == value_output(
                old(self).format,
                old(self).stream,
                old(self).written == 0,
                record->Json_0,
            ),
            !(old(self).stream is Table) && record is Json ==> final(log)@ == if value_fails(
                old(self).format,
                record->Json_0,
            ) {
                old(log)@.push(malformed_message(old(self).format, final(self).written, Seq::empty()))
            } else {
                old(log)@
            },
            !(old(self).stream is Table) && record is Csv ==> final(log)@ == old(log)@.push(
                malformed_message(old(self).format, final(self).written, Seq::empty()),
            ) && r@ == value_frame(
                old(self).format,
                old(self).stream,
                old(self).written == 0,
                placeholder(old(self).format),
            ),
    {
        let table = match self.stream {
            WriterStreams::Table { .. } => true,
            _ => false,
        };
        if table {
            let row = into_byte_record(record);
            proof {
                if record is Json {
                    assert(fields_of(row) =~= Seq::<Seq<u8>>::empty());
                }
            }
            return self.write_row(&row);
        }
        match record {
            DataTypes::Json(v) => self.write_value(v, log),
            DataTypes::Csv(_) => {
                let index = self.written + 1;
                let empty: [u8; 0] = [];
                assert(empty@ =~= Seq::<u8>::empty());
                log.record(malformed_text(self.format, index, empty.as_slice()));
                if matches!(self.format, Format::Toml) {
                    assert(empty@ =~= placeholder(self.format));
                    self.frame_value(empty.as_slice())
                } else {
                    let p: [u8; 2] = [0x7b, 0x7d];
                    assert(p@ =~= placeholder(self.format));
                    self.frame_value(p.as_slice())
                }
            },
        }
    }
}

} // verus!
