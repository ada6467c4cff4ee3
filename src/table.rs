//! Encoding of table rows: each field keyed by its column name, under the
//! coercion rule, in the JSON, line-delimited JSON, TOML and CSV layouts.
use vstd::prelude::*;
use vstd::utf8::encode_utf8;
use crate::codec::{alphanumeric, csv_record, csv_record_bytes, is_alphanumeric};
use crate::escape::{coerced, encode_field, escaped, push_bytes, push_escaped, push_quoted, quoted};

verus! {

/// The layout that a row is written in.
#[derive(Clone, Copy, Debug, PartialEq, Eq, Structural)]
pub enum RowStyle {
    /// An indented object inside a JSON array.
    Json,
    /// A single-line object.
    Ndjson,
    /// A `[[Rows]]` table of `key = value` lines.
    Toml,
}

/// The UTF-8 bytes of a column name.
pub open spec fn name_bytes(h: String) -> Seq<u8> {
    encode_utf8(h@)
}

/// Whether a TOML key can be written bare: every character is alphanumeric,
/// `-` or `_`.
pub open spec fn is_bare_key(k: Seq<char>) -> bool {
    forall|i: int| 0 <= i < k.len() ==> (alphanumeric(k[i]) || k[i] == '-' || k[i] == '_')
}

/// A TOML key: bare where it can be, quoted and escaped otherwise.
pub open spec fn toml_key(h: String) -> Seq<u8> {
    if is_bare_key(h@) {
        name_bytes(h)
    } else {
        quoted(name_bytes(h))
    }
}

/// `"name": value`, as both JSON layouts write a field.
pub open spec fn json_pair(h: String, v: Seq<u8>, parse_numbers: bool) -> Seq<u8> {
    seq![0x22u8] + escaped(name_bytes(h)) + seq![0x22u8, 0x3au8, 0x20u8] + coerced(
        v,
        parse_numbers,
        true,
    )
}

/// One field in the given layout.
pub open spec fn field_text(style: RowStyle, h: String, v: Seq<u8>, parse_numbers: bool) -> Seq<u8> {
    match style {
        RowStyle::Toml => toml_key(h) + seq![0x20u8, 0x3du8, 0x20u8] + coerced(v, parse_numbers, false)
            + seq![0x0au8],
        _ => json_pair(h, v, parse_numbers),
    }
}

/// What precedes the field at position `i`.
pub open spec fn field_prefix(style: RowStyle, i: int) -> Seq<u8> {
    match style {
        RowStyle::Json => if i == 0 {
            seq![0x20u8, 0x20u8, 0x20u8, 0x20u8]
        } else {
            seq![0x2cu8, 0x0au8, 0x20u8, 0x20u8, 0x20u8, 0x20u8]
        },
        RowStyle::Ndjson => if i == 0 {
            Seq::empty()
        } else {
            seq![0x2cu8, 0x20u8]
        },
        RowStyle::Toml => Seq::empty(),
    }
}

/// The first `n` fields, each paired with the column name at its position.
pub open spec fn fields_text(
    style: RowStyle,
    headers: Seq<String>,
    row: Seq<Seq<u8>>,
    parse_numbers: bool,
    n: nat,
) -> Seq<u8>
    decreases n,
{
    if n == 0 {
        Seq::empty()
    } else {
        fields_text(style, headers, row, parse_numbers, (n - 1) as nat) + field_prefix(
            style,
            n - 1,
        ) + field_text(style, headers[n - 1], row[n - 1], parse_numbers)
    }
}

/// The number of fields written for a row: the shorter of header and row.
pub open spec fn zipped_len(headers: Seq<String>, row: Seq<Seq<u8>>) -> nat {
    if headers.len() < row.len() {
        headers.len()
    } else {
        row.len()
    }
}

/// The fields of a row in a layout, paired with the header and cut to the
/// shorter of the two.
pub open spec fn row_fields(
    style: RowStyle,
    headers: Seq<String>,
    row: Seq<Seq<u8>>,
    parse_numbers: bool,
) -> Seq<u8> {
    fields_text(style, headers, row, parse_numbers, zipped_len(headers, row))
}

/// The views of the fields of a row.
pub open spec fn fields_of(row: Vec<Vec<u8>>) -> Seq<Seq<u8>> {
    row@.map_values(|f: Vec<u8>| f@)
}

/// A row as an element of the JSON array of objects.
pub open spec fn json_row(first: bool, headers: Seq<String>, row: Seq<Seq<u8>>, parse_numbers: bool) -> Seq<u8> {
    (if first {
        seq![0x20u8, 0x20u8, 0x7bu8, 0x0au8]
    } else {
        seq![0x2cu8, 0x0au8, 0x20u8, 0x20u8, 0x7bu8, 0x0au8]
    }) + row_fields(RowStyle::Json, headers, row, parse_numbers) + seq![
        0x0au8,
        0x20u8,
        0x20u8,
        0x7du8,
    ]
}

/// A row as one line of line-delimited JSON.
pub open spec fn ndjson_row(headers: Seq<String>, row: Seq<Seq<u8>>, parse_numbers: bool) -> Seq<u8> {
    seq![0x7bu8] + row_fields(RowStyle::Ndjson, headers, row, parse_numbers) + seq![0x7du8, 0x0au8]
}

/// A row as one `[[Rows]]` table of a TOML document.
pub open spec fn toml_row(first: bool, headers: Seq<String>, row: Seq<Seq<u8>>, parse_numbers: bool) -> Seq<u8> {
    (if first {
        Seq::empty()
    } else {
        seq![0x0au8]
    }) + seq![0x5bu8, 0x5bu8, 0x52u8, 0x6fu8, 0x77u8, 0x73u8, 0x5du8, 0x5du8, 0x0au8] + row_fields(
        RowStyle::Toml,
        headers,
        row,
        parse_numbers,
    )
}

/// Whether the column name can be a bare TOML key.
pub fn bare_key(h: &str) -> (r: bool)
    ensures
        r == is_bare_key(h@),
{
    let n = h.unicode_len();
    let mut i: usize = 0;
    while i < n
        invariant
            n == h@.len(),
            i <= n,
            forall|k: int| 0 <= k < i ==> (alphanumeric(h@[k]) || h@[k] == '-' || h@[k] == '_'),
        decreases n - i,
    {
        let c = h.get_char(i);
        if !(is_alphanumeric(c) || c == '-' || c == '_') {
            return false;
        }
        i = i + 1;
    }
    true
}

fn push_field(style: RowStyle, h: &String, v: &[u8], parse_numbers: bool, out: &mut Vec<u8>)
    ensures
        final(out)@ == old(out)@ + field_text(style, *h, v@, parse_numbers),
{
    let name = h.as_str().as_bytes();
    assert(name@ == name_bytes(*h));
    match style {
        RowStyle::Toml => {
            if bare_key(h.as_str()) {
                push_bytes(out, name);
            } else {
                push_quoted(name, out);
            }
            out.push(0x20);
            out.push(0x3d);
            out.push(0x20);
            encode_field(v, parse_numbers, false, out);
            out.push(0x0a);
        },
        _ => {
            out.push(0x22);
            push_escaped(name, out);
            out.push(0x22);
            out.push(0x3a);
            out.push(0x20);
            encode_field(v, parse_numbers, true, out);
        },
    }
    assert(out@ =~= old(out)@ + field_text(style, *h, v@, parse_numbers));
}

fn push_prefix(style: RowStyle, i: usize, out: &mut Vec<u8>)
    ensures
        final(out)@ == old(out)@ + field_prefix(style, i as int),
{
    match style {
        RowStyle::Json => {
            if i != 0 {
                out.push(0x2c);
                out.push(0x0a);
            }
            out.push(0x20);
            out.push(0x20);
            out.push(0x20);
            out.push(0x20);
        },
        RowStyle::Ndjson => {
            if i != 0 {
                out.push(0x2c);
                out.push(0x20);
            }
        },
        RowStyle::Toml => {},
    }
    assert(out@ =~= old(out)@ + field_prefix(style, i as int));
}

/// Appends the fields of `row` in the given layout, paired with `headers`
/// position by position and cut to the shorter of the two.
pub fn push_row_fields(
    style: RowStyle,
    headers: &Vec<String>,
    row: &Vec<Vec<u8>>,
    parse_numbers: bool,
    out: &mut Vec<u8>,
)
    ensures
        final(out)@ == old(out)@ + row_fields(style, headers@, fields_of(*row), parse_numbers),
{
    let n: usize = if headers.len() < row.len() { headers.len() } else { row.len() };
    let ghost fs = fields_of(*row);
    let mut i: usize = 0;
    while i < n
        invariant
            n == zipped_len(headers@, fs),
            n <= headers@.len(),
            n <= row@.len(),
            fs == fields_of(*row),
            i <= n,
            out@ == old(out)@ + fields_text(style, headers@, fs, parse_numbers, i as nat),
        decreases n - i,
    {
        push_prefix(style, i, out);
        push_field(style, &headers[i], row[i].as_slice(), parse_numbers, out);
        assert(fs[i as int] == row@[i as int]@);
        assert(out@ =~= old(out)@ + fields_text(style, headers@, fs, parse_numbers, (i + 1) as nat));
        i = i + 1;
    }
}

/// A row as an element of the JSON array of objects (`first` for the first
/// row, which takes no separating comma).
pub fn write_json(first: bool, headers: &Vec<String>, row: &Vec<Vec<u8>>, parse_numbers: bool) -> (r: Vec<u8>)
    ensures
        r@ == json_row(first, headers@, fields_of(*row), parse_numbers),
{
    let mut out: Vec<u8> = Vec::new();
    if !first {
        out.push(0x2c);
        out.push(0x0a);
    }
    out.push(0x20);
    out.push(0x20);
    out.push(0x7b);
    out.push(0x0a);
    push_row_fields(RowStyle::Json, headers, row, parse_numbers, &mut out);
    out.push(0x0a);
    out.push(0x20);
    out.push(0x20);
    out.push(0x7d);
    assert(out@ =~= json_row(first, headers@, fields_of(*row), parse_numbers));
    out
}

/// A row as one line of line-delimited JSON.
pub fn ndjson_writer(headers: &Vec<String>, row: &Vec<Vec<u8>>, parse_numbers: bool) -> (r: Vec<u8>)
    ensures
        r@ == ndjson_row(headers@, fields_of(*row), parse_numbers),
{
    let mut out: Vec<u8> = Vec::new();
    out.push(0x7b);
    push_row_fields(RowStyle::Ndjson, headers, row, parse_numbers, &mut out);
    out.push(0x7d);
    out.push(0x0a);
    assert(out@ =~= ndjson_row(headers@, fields_of(*row), parse_numbers));
    out
}

/// A row as one `[[Rows]]` table (`first` for the first row, which takes no
/// blank line before it).
pub fn toml_writer(first: bool, headers: &Vec<String>, row: &Vec<Vec<u8>>, parse_numbers: bool) -> (r: Vec<u8>)
    ensures
        r@ == toml_row(first, headers@, fields_of(*row), parse_numbers),
{
    let mut out: Vec<u8> = Vec::new();
    if !first {
        out.push(0x0a);
    }
    let head: [u8; 9] = [0x5b, 0x5b, 0x52, 0x6f, 0x77, 0x73, 0x5d, 0x5d, 0x0a];
    push_bytes(&mut out, head.as_slice());
    push_row_fields(RowStyle::Toml, headers, row, parse_numbers, &mut out);
    assert(out@ =~= toml_row(first, headers@, fields_of(*row), parse_numbers));
    out
}

/// A row as one delimited record, each field passed to the csv encoder as
/// it stands.
pub fn csv_writer(row: &Vec<Vec<u8>>, delimiter: u8) -> (r: Vec<u8>)
    requires
        delimiter < 128,
    ensures
        r@ == csv_record_bytes(fields_of(*row), delimiter),
{
    csv_record(row, delimiter)
}

/// The header's names as byte fields.
pub fn header_fields(headers: &Vec<String>) -> (r: Vec<Vec<u8>>)
    ensures
        fields_of(r) == headers@.map_values(|h: String| name_bytes(h)),
{
    let mut out: Vec<Vec<u8>> = Vec::new();
    let mut i: usize = 0;
    while i < headers.len()
        invariant
            i <= headers@.len(),
            fields_of(out) =~= headers@.subrange(0, i as int).map_values(|h: String| name_bytes(h)),
        decreases headers@.len() - i,
    {
        let b = headers[i].as_str().as_bytes();
        let v = vstd::slice::slice_to_vec(b);
        assert(v@ == name_bytes(headers@[i as int]));
        let ghost before = fields_of(out);
        out.push(v);
        assert(fields_of(out) =~= before.push(v@));
        assert(headers@.subrange(0, i as int + 1).map_values(|h: String| name_bytes(h))
            =~= headers@.subrange(0, i as int).map_values(|h: String| name_bytes(h)).push(v@));
        i = i + 1;
    }
    assert(headers@.subrange(0, headers@.len() as int) =~= headers@);
    out
}

} // verus!
