//! Decoding of single records: a line of line-delimited JSON, a table row, a
//! JSON value, a whole TOML document. A malformed record is reported to the
//! log and skipped; decoding goes on with the next one.
use vstd::prelude::*;
use crate::codec::{json_accepts, json_parse, parse_json, parse_toml, toml_accepts, toml_parse};
use crate::error::{malformed_message, malformed_text, ConversionError};
use crate::format::Format;
use crate::log::LogSink;
use crate::stream::{DataTypes, WriterStreams};

verus! {

pub open spec fn is_line_end(b: u8) -> bool {
    b == 0x0a || b == 0x0d
}

/// The line without its trailing `\r` and `\n` bytes.
pub open spec fn trim_line_end(s: Seq<u8>) -> Seq<u8>
    decreases s.len(),
{
    if s.len() > 0 && is_line_end(s.last()) {
        trim_line_end(s.drop_last())
    } else {
        s
    }
}

/// A line that yields a record: not blank, and one JSON value.
pub open spec fn line_is_record(line: Seq<u8>) -> bool {
    trim_line_end(line).len() > 0 && json_accepts(trim_line_end(line))
}

/// A line that is reported: not blank, and not one JSON value.
pub open spec fn line_is_malformed(line: Seq<u8>) -> bool {
    trim_line_end(line).len() > 0 && !json_accepts(trim_line_end(line))
}

/// The record of a line that yields one: the value parsed from the trimmed
/// line.
pub open spec fn line_record(line: Seq<u8>) -> DataTypes {
    DataTypes::Json(json_parse(trim_line_end(line))->0)
}

/// The records that the lines yield, in order.
pub open spec fn line_records(lines: Seq<Seq<u8>>) -> Seq<DataTypes>
    decreases lines.len(),
{
    if lines.len() == 0 {
        Seq::empty()
    } else {
        line_records(lines.drop_last()) + if line_is_record(lines.last()) {
            seq![line_record(lines.last())]
        } else {
            Seq::empty()
        }
    }
}

/// The number of lines that are reported.
pub open spec fn malformed_count(lines: Seq<Seq<u8>>) -> nat
    decreases lines.len(),
{
    if lines.len() == 0 {
        0
    } else {
        malformed_count(lines.drop_last()) + if line_is_malformed(lines.last()) {
            1nat
        } else {
            0nat
        }
    }
}

/// What the log receives for a line numbered `line_no`.
pub open spec fn line_report(line: Seq<u8>, line_no: usize) -> Seq<Seq<u8>> {
    if line_is_malformed(line) {
        seq![malformed_message(Format::Ndjson, line_no, trim_line_end(line))]
    } else {
        Seq::empty()
    }
}

/// The number of records that the lines yield.
pub open spec fn record_count(lines: Seq<Seq<u8>>) -> nat
    decreases lines.len(),
{
    if lines.len() == 0 {
        0
    } else {
        record_count(lines.drop_last()) + if line_is_record(lines.last()) {
            1nat
        } else {
            0nat
        }
    }
}

/// The log messages for the lines, the first of which is numbered `first`.
pub open spec fn line_reports(lines: Seq<Seq<u8>>, first: nat) -> Seq<Seq<u8>>
    decreases lines.len(),
{
    if lines.len() == 0 {
        Seq::empty()
    } else {
        line_reports(lines.drop_last(), first) + line_report(
            lines.last(),
            (first + lines.len() - 1) as usize,
        )
    }
}

/// The length of the line without its trailing `\r` and `\n` bytes.
pub fn trimmed_len(line: &[u8]) -> (r: usize)
    ensures
        r <= line@.len(),
        line@.subrange(0, r as int) == trim_line_end(line@),
{
    let mut j: usize = line.len();
    assert(line@.subrange(0, j as int) =~= line@);
    while j > 0 && (line[j - 1] == 0x0a || line[j - 1] == 0x0d)
        invariant
            j <= line@.len(),
            trim_line_end(line@.subrange(0, j as int)) == trim_line_end(line@),
        decreases j,
    {
        assert(line@.subrange(0, j as int).drop_last() =~= line@.subrange(0, j as int - 1));
        j = j - 1;
    }
    j
}

/// Decodes one physical line of line-delimited JSON numbered `line_no`.
/// Trailing `\r`/`\n` bytes are trimmed; a blank line yields nothing and no
/// report; a line that is not one JSON value is reported and yields nothing.
pub fn ndjson_decoder(line: &[u8], line_no: usize, log: &mut LogSink) -> (r: Option<DataTypes>)
    ensures
        r is Some <==> line_is_record(line@),
        r is Some ==> r == Some(line_record(line@)),
        final(log)@ == old(log)@ + line_report(line@, line_no),
{
    let n = trimmed_len(line);
    let text = vstd::slice::slice_subrange(line, 0, n);
    if n == 0 {
        assert(old(log)@ + line_report(line@, line_no) =~= old(log)@);
        return None;
    }
    match parse_json(text) {
        Ok(v) => {
            assert(old(log)@ + line_report(line@, line_no) =~= old(log)@);
            Some(DataTypes::Json(v))
        },
        Err(_) => {
            log.record(malformed_text(Format::Ndjson, line_no, text));
            assert(log@ =~= old(log)@ + line_report(line@, line_no));
            None
        },
    }
}

/// Decodes the table row numbered `index` (from 1), as the table reader
/// tokenized it: `None` where it could not, which is reported.
pub fn csv_decoder(row: Option<Vec<Vec<u8>>>, index: usize, delimiter: u8, log: &mut LogSink) -> (r: Option<DataTypes>)
    ensures
        row is Some ==> r == Some(DataTypes::Csv(row->0)),
        row is Some ==> final(log)@ == old(log)@,
        row is None ==> r is None,
        row is None ==> final(log)@ == old(log)@.push(
            malformed_message(Format::Table { delimiter }, index, Seq::empty()),
        ),
{
    match row {
        Some(fields) => Some(DataTypes::Csv(fields)),
        None => {
            let empty: [u8; 0] = [];
            assert(empty@ =~= Seq::<u8>::empty());
            log.record(malformed_text(Format::Table { delimiter }, index, empty.as_slice()));
            None
        },
    }
}

/// Decodes the top-level JSON value numbered `index` (from 1), as the JSON
/// reader parsed it; a parse failure is reported.
pub fn json_decoder(item: Result<serde_json::Value, serde_json::Error>, index: usize, log: &mut LogSink) -> (r: Option<DataTypes>)
    ensures
        item is Ok ==> r == Some(DataTypes::Json(item->Ok_0)),
        item is Ok ==> final(log)@ == old(log)@,
        item is Err ==> r is None,
        item is Err ==> final(log)@ == old(log)@.push(
            malformed_message(Format::Json, index, Seq::empty()),
        ),
{
    match item {
        Ok(v) => Some(DataTypes::Json(v)),
        Err(_) => {
            let empty: [u8; 0] = [];
            assert(empty@ =~= Seq::<u8>::empty());
            log.record(malformed_text(Format::Json, index, empty.as_slice()));
            None
        },
    }
}

/// Decodes a whole TOML document into one structured value. A document
/// that does not parse is reported as record 0 and yields nothing.
pub fn toml_decoder(content: &[u8], log: &mut LogSink) -> (r: Option<DataTypes>)
    ensures
        r is Some <==> toml_accepts(content@),
        r is Some ==> r == Some(DataTypes::Json(toml_parse(content@)->0)),
        toml_accepts(content@) ==> final(log)@ == old(log)@,
        !toml_accepts(content@) ==> final(log)@ == old(log)@.push(
            malformed_message(Format::Toml, 0, Seq::empty()),
        ),
{
    match parse_toml(content) {
        Ok(v) => Some(DataTypes::Json(v)),
        Err(_) => {
            let empty: [u8; 0] = [];
            assert(empty@ =~= Seq::<u8>::empty());
            log.record(malformed_text(Format::Toml, 0, empty.as_slice()));
            None
        },
    }
}

/// `headers are missing`: the context of the error for a table without a header.
pub open spec fn missing_headers() -> Seq<u8> {
    seq![
        0x68u8, 0x65u8, 0x61u8, 0x64u8, 0x65u8, 0x72u8, 0x73u8, 0x20u8, 0x61u8, 0x72u8, 0x65u8,
        0x20u8, 0x6du8, 0x69u8, 0x73u8, 0x73u8, 0x69u8, 0x6eu8, 0x67u8,
    ]
}

/// A table stream started from `header`: the header where it has a column,
/// else the fatal missing-header error.
pub open spec fn is_table_start(
    header: Option<Vec<String>>,
    delimiter: u8,
    r: Result<WriterStreams, ConversionError>,
) -> bool {
    if header is Some && header->0@.len() > 0 {
        r == Ok::<WriterStreams, ConversionError>(WriterStreams::Table { headers: header->0 })
    } else {
        r is Err && r->Err_0 is MalformedRecord && r->Err_0->format == Format::Table { delimiter }
            && r->Err_0->index == 0 && r->Err_0->context@ == missing_headers()
    }
}

/// Starts a table stream from the header row. A missing or empty header is
/// fatal: no row can be keyed without it.
pub fn table_stream(header: Option<Vec<String>>, delimiter: u8) -> (r: Result<WriterStreams, ConversionError>)
    ensures
        is_table_start(header, delimiter, r),
{
    match header {
        Some(h) => {
            if h.len() > 0 {
                return Ok(WriterStreams::Table { headers: h });
            }
        },
        None => {},
    }
    let context: Vec<u8> = vec![
        0x68, 0x65, 0x61, 0x64, 0x65, 0x72, 0x73, 0x20, 0x61, 0x72, 0x65, 0x20, 0x6d, 0x69, 0x73,
        0x73, 0x69, 0x6e, 0x67,
    ];
    assert(context@ =~= missing_headers());
    Err(ConversionError::MalformedRecord { format: Format::Table { delimiter }, index: 0, context })
}

/// The stream shape that input of `format` decodes into: a table under its
/// header row (see `table_stream`), values for JSON and TOML, lines for
/// line-delimited JSON.
pub fn stream_shape(format: Format, header: Option<Vec<String>>) -> (r: Result<WriterStreams, ConversionError>)
    ensures
        format is Json || format is Toml ==> r == Ok::<WriterStreams, ConversionError>(WriterStreams::Values),
        format is Ndjson ==> r == Ok::<WriterStreams, ConversionError>(WriterStreams::Ndjson),
        format is Table ==> is_table_start(header, format->delimiter, r),
{
    match format {
        Format::Table { delimiter } => table_stream(header, delimiter),
        Format::Ndjson => Ok(WriterStreams::Ndjson),
        _ => Ok(WriterStreams::Values),
    }
}

/// Where decoding of one input stands: the number of records seen, and of
/// those reported as malformed.
pub struct Decoder {
    pub format: Format,
    pub position: usize,
    pub malformed: usize,
}

impl Decoder {
    /// A decoder at the start of its input.
    pub fn new(format: Format) -> (r: Decoder)
        ensures
            r.format == format,
            r.position == 0,
            r.malformed == 0,
    {
        Decoder { format, position: 0, malformed: 0 }
    }

    /// Whether no record so far was malformed.
    pub fn is_valid(&self) -> (r: bool)
        ensures
            r == (self.malformed == 0),
    {
        self.malformed == 0
    }

    /// Decodes the next line of line-delimited JSON.
    pub fn next_line(&mut self, line: &[u8], log: &mut LogSink) -> (r: Option<DataTypes>)
        requires
            old(self).position < usize::MAX,
            old(self).malformed <= old(self).position,
        ensures
            final(self).format == old(self).format,
            final(self).position == old(self).position + 1,
            final(self).malformed == old(self).malformed + if line_is_malformed(line@) {
                1usize
            } else {
                0usize
            },
            final(self).malformed <= final(self).position,
            r is Some <==> line_is_record(line@),
            r is Some ==> r == Some(line_record(line@)),
            final(log)@ == old(log)@ + line_report(line@, final(self).position),
    {
        self.position = self.position + 1;
        let before = log.len();
        let r = ndjson_decoder(line, self.position, log);
        if r.is_none() && log.len() > before {
            self.malformed = self.malformed + 1;
        }
        proof {
            if line_is_malformed(line@) {
                assert(log@.len() == old(log)@.len() + 1);
            } else {
                assert(line_report(line@, self.position) =~= Seq::<Seq<u8>>::empty());
                assert(log@ =~= old(log)@);
            }
        }
        r
    }

    /// Decodes every line in turn: the records come out in order, and the
    /// log receives one message per malformed line.
    pub fn decode_lines(&mut self, lines: &Vec<Vec<u8>>, log: &mut LogSink) -> (r: Vec<DataTypes>)
        requires
            old(self).position + lines@.len() < usize::MAX,
            old(self).malformed <= old(self).position,
        ensures
            final(self).format == old(self).format,
            final(self).position == old(self).position + lines@.len(),
            final(self).malformed == old(self).malformed + malformed_count(
                lines@.map_values(|l: Vec<u8>| l@),
            ),
            r@ == line_records(lines@.map_values(|l: Vec<u8>| l@)),
            r@.len() == record_count(lines@.map_values(|l: Vec<u8>| l@)),
            final(log)@ == old(log)@ + line_reports(
                lines@.map_values(|l: Vec<u8>| l@),
                (old(self).position + 1) as nat,
            ),
    {
        let ghost ls = lines@.map_values(|l: Vec<u8>| l@);
        let ghost start = self.position;
        let mut out: Vec<DataTypes> = Vec::new();
        let mut i: usize = 0;
        assert(ls.subrange(0, 0) =~= Seq::<Seq<u8>>::empty());
        assert(log@ =~= old(log)@ + line_reports(ls.subrange(0, 0), (start + 1) as nat));
        while i < lines.len()
            invariant
                ls == lines@.map_values(|l: Vec<u8>| l@),
                i <= lines@.len(),
                self.format == old(self).format,
                self.position == start + i,
                start == old(self).position,
                start + lines@.len() < usize::MAX,
                self.malformed <= self.position,
                self.malformed == old(self).malformed + malformed_count(ls.subrange(0, i as int)),
                out@ == line_records(ls.subrange(0, i as int)),
                out@.len() == record_count(ls.subrange(0, i as int)),
                log@ == old(log)@ + line_reports(ls.subrange(0, i as int), (start + 1) as nat),
            decreases lines@.len() - i,
        {
            let ghost before = log@;
            let r = self.next_line(lines[i].as_slice(), log);
            proof {
                let t = ls.subrange(0, i as int + 1);
                assert(t.drop_last() =~= ls.subrange(0, i as int));
                assert(t.last() == lines@[i as int]@);
                assert(log@ =~= old(log)@ + line_reports(t, (start + 1) as nat));
            }
            let ghost prev = out@;
            match r {
                Some(rec) => {
                    out.push(rec);
                },
                None => {},
            }
            proof {
                let t = ls.subrange(0, i as int + 1);
                assert(t.drop_last() =~= ls.subrange(0, i as int));
                assert(t.last() == lines@[i as int]@);
                if line_is_record(t.last()) {
                    assert(out@ =~= prev + seq![line_record(t.last())]);
                } else {
                    assert(out@ =~= prev + Seq::<DataTypes>::empty());
                }
            }
            i = i + 1;
        }
        assert(ls.subrange(0, lines@.len() as int) =~= ls);
        out
    }

    /// Decodes a whole TOML document, the one record of its input.
    pub fn next_document(&mut self, content: &[u8], log: &mut LogSink) -> (r: Option<DataTypes>)
        requires
            old(self).position < usize::MAX,
            old(self).malformed <= old(self).position,
        ensures
            final(self).format == old(self).format,
            final(self).position == old(self).position + 1,
            final(self).malformed == old(self).malformed + if toml_accepts(content@) {
                0usize
            } else {
                1usize
            },
            r is Some <==> toml_accepts(content@),
            r is Some ==> r == Some(DataTypes::Json(toml_parse(content@)->0)),
            toml_accepts(content@) ==> final(log)@ == old(log)@,
            !toml_accepts(content@) ==> final(log)@ == old(log)@.push(
                malformed_message(Format::Toml, 0, Seq::empty()),
            ),
    {
        self.position = self.position + 1;
        let r = toml_decoder(content, log);
        if r.is_none() {
            self.malformed = self.malformed + 1;
        }
        r
    }

    /// Decodes the next table row.
    pub fn next_row(&mut self, row: Option<Vec<Vec<u8>>>, delimiter: u8, log: &mut LogSink) -> (r: Option<DataTypes>)
        requires
            old(self).position < usize::MAX,
            old(self).malformed <= old(self).position,
        ensures
            final(self).format == old(self).format,
            final(self).position == old(self).position + 1,
            final(self).malformed == old(self).malformed + if row is None {
                1usize
            } else {
                0usize
            },
            row is Some ==> r == Some(DataTypes::Csv(row->0)),
            row is Some ==> final(log)@ == old(log)@,
            row is None ==> r is None,
            row is None ==> final(log)@ == old(log)@.push(
                malformed_message(Format::Table { delimiter }, final(self).position, Seq::empty()),
            ),
    {
        self.position = self.position + 1;
        if row.is_none() {
            self.malformed = self.malformed + 1;
        }
        csv_decoder(row, self.position, delimiter, log)
    }

    /// Decodes the next top-level JSON value.
    pub fn next_value(&mut self, item: Result<serde_json::Value, serde_json::Error>, log: &mut LogSink) -> (r: Option<DataTypes>)
        requires
            old(self).position < usize::MAX,
            old(self).malformed <= old(self).position,
        ensures
            final(self).format == old(self).format,
            final(self).position == old(self).position + 1,
            final(self).malformed == old(self).malformed + if item is Err {
                1usize
            } else {
                0usize
            },
            item is Ok ==> r == Some(DataTypes::Json(item->Ok_0)),
            item is Ok ==> final(log)@ == old(log)@,
            item is Err ==> r is None,
            item is Err ==> final(log)@ == old(log)@.push(
                malformed_message(Format::Json, final(self).position, Seq::empty()),
            ),
    {
        self.position = self.position + 1;
        if item.is_err() {
            self.malformed = self.malformed + 1;
        }
        json_decoder(item, self.position, log)
    }
}

} // verus!
