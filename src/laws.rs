//! Properties that relate several calls, or hold of every input.
use vstd::prelude::*;
use crate::codec::csv_record_bytes;
use crate::decode::{
    line_is_malformed, line_is_record, line_reports, malformed_count, record_count, trim_line_end,
};
use crate::error::malformed_message;
use crate::format::Format;
use crate::stream::WriterStreams;
use crate::writer::{accepts, begin_text, finish_text, header_names, rows_text, table_output};

verus! {

/// Every row encoded as a delimited record, one after the other.
pub open spec fn csv_rows(rows: Seq<Seq<Seq<u8>>>, delimiter: u8) -> Seq<u8>
    decreases rows.len(),
{
    if rows.len() == 0 {
        Seq::empty()
    } else {
        csv_rows(rows.drop_last(), delimiter) + csv_record_bytes(rows.last(), delimiter)
    }
}

proof fn one_malformed_prefix(lines: Seq<Seq<u8>>, k: int, first: nat, j: int)
    requires
        0 <= k < lines.len(),
        0 <= j <= lines.len(),
        line_is_malformed(lines[k]),
        forall|i: int| 0 <= i < lines.len() && i != k ==> line_is_record(#[trigger] lines[i]),
    ensures
        record_count(lines.subrange(0, j)) == if j > k {
            j - 1
        } else {
            j
        },
        malformed_count(lines.subrange(0, j)) == if j > k {
            1int
        } else {
            0int
        },
        line_reports(lines.subrange(0, j), first) == if j > k {
            seq![malformed_message(Format::Ndjson, (first + k) as usize, trim_line_end(lines[k]))]
        } else {
            Seq::<Seq<u8>>::empty()
        },
    decreases j,
{
    if j == 0 {
        assert(lines.subrange(0, 0) =~= Seq::<Seq<u8>>::empty());
    } else {
        one_malformed_prefix(lines, k, first, j - 1);
        let s = lines.subrange(0, j);
        assert(s.drop_last() =~= lines.subrange(0, j - 1));
        assert(s.last() == lines[j - 1]);
        if j - 1 == k {
            assert(line_reports(s, first) =~= seq![
                malformed_message(Format::Ndjson, (first + k) as usize, trim_line_end(lines[k])),
            ]);
        } else {
            assert(line_is_record(lines[j - 1]));
            assert(!line_is_malformed(lines[j - 1]));
            assert(line_reports(s, first) =~= line_reports(lines.subrange(0, j - 1), first));
        }
    }
}

/// Line-delimited input in which exactly the line at position `k` (from 0)
/// is malformed and every other line is a value: decoding yields one record
/// fewer than there are lines, one line counts as malformed, and the log
/// receives exactly one message,
/// which names line `first + k` (lines numbered from `first`).
pub proof fn one_malformed_line(lines: Seq<Seq<u8>>, k: int, first: nat)
    requires
        0 <= k < lines.len(),
        line_is_malformed(lines[k]),
        forall|i: int| 0 <= i < lines.len() && i != k ==> line_is_record(#[trigger] lines[i]),
    ensures
        record_count(lines) == lines.len() - 1,
        malformed_count(lines) == 1,
        line_reports(lines, first) == seq![
            malformed_message(Format::Ndjson, (first + k) as usize, trim_line_end(lines[k])),
        ],
{
    one_malformed_prefix(lines, k, first, lines.len() as int);
    assert(lines.subrange(0, lines.len() as int) =~= lines);
}

proof fn csv_rows_unchanged(
    headers: Seq<String>,
    rows: Seq<Seq<Seq<u8>>>,
    delimiter: u8,
    parse_numbers: bool,
    written: nat,
)
    ensures
        rows_text(Format::Table { delimiter }, written, headers, rows, parse_numbers) == csv_rows(
            rows,
            delimiter,
        ),
    decreases rows.len(),
{
    if rows.len() > 0 {
        csv_rows_unchanged(headers, rows.drop_last(), delimiter, parse_numbers, written);
    }
}

/// Table to table: the header and every row reach the delimited encoder
/// exactly as they were decoded, in order, and the number rule changes
/// nothing.
pub proof fn table_to_table_keeps_text(
    headers: Seq<String>,
    rows: Seq<Seq<Seq<u8>>>,
    delimiter: u8,
    parse_numbers: bool,
)
    ensures
        table_output(Format::Table { delimiter }, headers, rows, parse_numbers) == csv_record_bytes(
            header_names(headers),
            delimiter,
        ) + csv_rows(rows, delimiter),
{
    csv_rows_unchanged(headers, rows, delimiter, parse_numbers, 0);
}

/// A table writer takes tables only: for a stream of values or of lines the
/// pairing is refused, so `Writer::new` fails with
/// `UnsupportedShapeForFormat` and nothing of the stream is written.
pub proof fn table_writer_takes_tables_only(delimiter: u8, stream: WriterStreams)
    requires
        !(stream is Table),
    ensures
        !accepts(Format::Table { delimiter }, stream),
{
}

/// A table written through a writer, from its first record on, yields
/// `table_output`: what `begin` emits, then each row as `write_row` or
/// `write_rows` emits it, then what `finish` emits.
pub proof fn streamed_table_is_table_output(
    format: Format,
    headers: Vec<String>,
    rows: Seq<Seq<Seq<u8>>>,
    parse_numbers: bool,
)
    ensures
        begin_text(format, WriterStreams::Table { headers }) + rows_text(
            format,
            0,
            headers@,
            rows,
            parse_numbers,
        ) + finish_text(format, WriterStreams::Table { headers }) == table_output(
            format,
            headers@,
            rows,
            parse_numbers,
        ),
{
    let body = rows_text(format, 0, headers@, rows, parse_numbers);
    match format {
        Format::Json => {},
        _ => {
            assert(body + Seq::<u8>::empty() =~= body);
            assert(Seq::<u8>::empty() + body =~= body);
        },
    }
}

} // verus!
