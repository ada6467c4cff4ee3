//! Scalar coercion and the narrow five-byte string escaping used by the
//! hand-written JSON, line-delimited JSON and TOML encoders.
use vstd::prelude::*;

verus! {

pub const BACKSLASH: u8 = 0x5c;

pub const QUOTE: u8 = 0x22;

/// The two-byte (or one-byte) encoding of a single byte inside a quoted string.
pub open spec fn escape_byte(b: u8) -> Seq<u8> {
    if b == 0x5c {
        seq![0x5cu8, 0x5cu8]
    } else if b == 0x22 {
        seq![0x5cu8, 0x22u8]
    } else if b == 0x0a {
        seq![0x5cu8, 0x6eu8]
    } else if b == 0x0d {
        seq![0x5cu8, 0x72u8]
    } else if b == 0x09 {
        seq![0x5cu8, 0x74u8]
    } else {
        seq![b]
    }
}

/// Every byte of `s` escaped in turn.
pub open spec fn escaped(s: Seq<u8>) -> Seq<u8>
    decreases s.len(),
{
    if s.len() == 0 {
        Seq::empty()
    } else {
        escaped(s.drop_last()) + escape_byte(s.last())
    }
}

/// `s` escaped and wrapped in double quotes.
pub open spec fn quoted(s: Seq<u8>) -> Seq<u8> {
    seq![0x22u8] + escaped(s) + seq![0x22u8]
}

/// Appends the escaped form of `byte` to `output`.
pub fn escape(byte: u8, output: &mut Vec<u8>)
    ensures
        final(output)@ == old(output)@ + escape_byte(byte),
{
    if byte == 0x5c || byte == 0x22 || byte == 0x0a || byte == 0x0d || byte == 0x09 {
        output.push(BACKSLASH);
        if byte == 0x5c {
            output.push(0x5c);
        } else if byte == 0x22 {
            output.push(0x22);
        } else if byte == 0x0a {
            output.push(0x6e);
        } else if byte == 0x0d {
            output.push(0x72);
        } else {
            output.push(0x74);
        }
    } else {
        output.push(byte);
    }
    assert(output@ =~= old(output)@ + escape_byte(byte));
}

/// Appends the bytes of `s` to `out` as they stand.
pub fn push_bytes(out: &mut Vec<u8>, s: &[u8])
    ensures
        final(out)@ == old(out)@ + s@,
{
    let mut i: usize = 0;
    while i < s.len()
        invariant
            i <= s@.len(),
            out@ == old(out)@ + s@.subrange(0, i as int),
        decreases s@.len() - i,
    {
        out.push(s[i]);
        assert(out@ =~= old(out)@ + s@.subrange(0, i as int + 1));
        i = i + 1;
    }
    assert(s@.subrange(0, s@.len() as int) =~= s@);
}

/// Appends every byte of `s`, escaped, to `out`.
pub fn push_escaped(s: &[u8], out: &mut Vec<u8>)
    ensures
        final(out)@ == old(out)@ + escaped(s@),
{
    let mut i: usize = 0;
    while i < s.len()
        invariant
            i <= s@.len(),
            out@ == old(out)@ + escaped(s@.subrange(0, i as int)),
        decreases s@.len() - i,
    {
        let ghost before = out@;
        escape(s[i], out);
        proof {
            let t = s@.subrange(0, i as int + 1);
            assert(t.drop_last() =~= s@.subrange(0, i as int));
            assert(t.last() == s@[i as int]);
            assert(out@ =~= old(out)@ + escaped(t));
        }
        i = i + 1;
    }
    assert(s@.subrange(0, s@.len() as int) =~= s@);
}

/// Appends `s` as a quoted, escaped string to `out`.
pub fn push_quoted(s: &[u8], out: &mut Vec<u8>)
    ensures
        final(out)@ == old(out)@ + quoted(s@),
{
    out.push(QUOTE);
    push_escaped(s, out);
    out.push(QUOTE);
    assert(out@ =~= old(out)@ + quoted(s@));
}

pub open spec fn is_digit(b: u8) -> bool {
    0x30 <= b <= 0x39
}

pub open spec fn is_sign(b: u8) -> bool {
    b == 0x2b || b == 0x2d
}

/// The first index at or after `i` that does not hold an ASCII digit.
pub open spec fn digits_end(s: Seq<u8>, i: int) -> int
    decreases s.len() - i,
{
    if i < 0 || i >= s.len() || !is_digit(s[i]) {
        i
    } else {
        digits_end(s, i + 1)
    }
}

/// Whether `s` is a decimal floating-point literal as std's `f64` parser
/// reads one: an optional sign, digits with at most one decimal point and at
/// least one digit, then optionally `e`/`E`, an optional sign and digits.
pub open spec fn is_float_literal(s: Seq<u8>) -> bool {
    let i0: int = if s.len() > 0 && is_sign(s[0]) { 1 } else { 0 };
    let i1 = digits_end(s, i0);
    let dot = i1 < s.len() && s[i1] == 0x2e;
    let i2 = if dot { digits_end(s, i1 + 1) } else { i1 };
    let mantissa_digits = (i1 - i0) + (if dot { i2 - i1 - 1 } else { 0 });
    let i3: int = if i2 + 1 < s.len() && is_sign(s[i2 + 1]) { i2 + 2 } else { i2 + 1 };
    &&& mantissa_digits > 0
    &&& (i2 == s.len() || ((s[i2] == 0x65 || s[i2] == 0x45) && digits_end(s, i3) > i3
        && digits_end(s, i3) == s.len()))
}

/// The permissive numeric test of coercion: the first byte is a sign or a
/// digit, the last byte is a digit, and the whole text is a float literal.
pub open spec fn looks_numeric(s: Seq<u8>) -> bool {
    &&& s.len() > 0
    &&& (is_sign(s[0]) || is_digit(s[0]))
    &&& is_digit(s.last())
    &&& is_float_literal(s)
}

pub open spec fn lit_true() -> Seq<u8> {
    seq![0x74u8, 0x72u8, 0x75u8, 0x65u8]
}

pub open spec fn lit_false() -> Seq<u8> {
    seq![0x66u8, 0x61u8, 0x6cu8, 0x73u8, 0x65u8]
}

pub open spec fn lit_null() -> Seq<u8> {
    seq![0x6eu8, 0x75u8, 0x6cu8, 0x6cu8]
}

/// Whether the field is one of the literals `true`, `false`, or `null`
/// where the target has one.
pub open spec fn is_literal(v: Seq<u8>, allow_null: bool) -> bool {
    v == lit_true() || v == lit_false() || (allow_null && v == lit_null())
}

/// The first index in `i..end` that does not hold `0`, or `end`.
pub open spec fn zeros_end(s: Seq<u8>, i: int, end: int) -> int
    decreases end - i,
{
    if i < 0 || i >= end || i >= s.len() || s[i] != 0x30 {
        i
    } else {
        zeros_end(s, i + 1, end)
    }
}

/// The literal of a numeric field: a leading `-` is kept and a leading `+`
/// dropped, the integer part loses its leading zeros (an empty or all-zero
/// one becomes `0`), and the fraction and exponent stay as written.
pub open spec fn number_literal(s: Seq<u8>) -> Seq<u8> {
    let i0: int = if s.len() > 0 && is_sign(s[0]) { 1 } else { 0 };
    let i1 = digits_end(s, i0);
    let z = zeros_end(s, i0, i1);
    (if s.len() > 0 && s[0] == 0x2d {
        seq![0x2du8]
    } else {
        Seq::empty()
    }) + (if z == i1 {
        seq![0x30u8]
    } else {
        s.subrange(z, i1)
    }) + s.subrange(i1, s.len() as int)
}

/// The encoded scalar for a raw text field: a literal as it stands, a
/// numeric field (when numbers are parsed) as its number literal, and
/// anything else as a quoted escaped string.
pub open spec fn coerced(v: Seq<u8>, parse_numbers: bool, allow_null: bool) -> Seq<u8> {
    if is_literal(v, allow_null) {
        v
    } else if parse_numbers && looks_numeric(v) {
        number_literal(v)
    } else {
        quoted(v)
    }
}

fn scan_digits(s: &[u8], i: usize) -> (r: usize)
    requires
        i <= s@.len(),
    ensures
        r as int == digits_end(s@, i as int),
        i <= r <= s@.len(),
{
    let mut j: usize = i;
    while j < s.len() && s[j] >= 0x30 && s[j] <= 0x39
        invariant
            i <= j <= s@.len(),
            digits_end(s@, i as int) == digits_end(s@, j as int),
        decreases s@.len() - j,
    {
        j = j + 1;
    }
    j
}

/// Whether `s` is a float literal in the sense of `is_float_literal`.
pub fn float_literal(s: &[u8]) -> (r: bool)
    ensures
        r == is_float_literal(s@),
{
    let n = s.len();
    let i0: usize = if n > 0 && (s[0] == 0x2b || s[0] == 0x2d) { 1 } else { 0 };
    let i1 = scan_digits(s, i0);
    let dot = i1 < n && s[i1] == 0x2e;
    let i2 = if dot { scan_digits(s, i1 + 1) } else { i1 };
    let has_digits = i1 > i0 || (dot && i2 > i1 + 1);
    if !has_digits {
        return false;
    }
    if i2 == n {
        return true;
    }
    if s[i2] != 0x65 && s[i2] != 0x45 {
        return false;
    }
    let i3: usize = if i2 + 1 < n && (s[i2 + 1] == 0x2b || s[i2 + 1] == 0x2d) { i2 + 2 } else { i2 + 1 };
    if i3 > n {
        return false;
    }
    let i4 = scan_digits(s, i3);
    i4 > i3 && i4 == n
}

/// The permissive numeric test of coercion.
pub fn numeric_field(v: &[u8]) -> (r: bool)
    ensures
        r == looks_numeric(v@),
{
    let n = v.len();
    if n == 0 {
        return false;
    }
    let first = v[0];
    let last = v[n - 1];
    if !(first == 0x2b || first == 0x2d || (first >= 0x30 && first <= 0x39)) {
        return false;
    }
    if !(last >= 0x30 && last <= 0x39) {
        return false;
    }
    float_literal(v)
}

pub fn bytes_equal(v: &[u8], lit: &[u8]) -> (r: bool)
    ensures
        r == (v@ == lit@),
{
    if v.len() != lit.len() {
        return false;
    }
    let mut i: usize = 0;
    while i < v.len()
        invariant
            v@.len() == lit@.len(),
            i <= v@.len(),
            forall|k: int| 0 <= k < i ==> v@[k] == lit@[k],
        decreases v@.len() - i,
    {
        if v[i] != lit[i] {
            return false;
        }
        i = i + 1;
    }
    assert(v@ =~= lit@);
    true
}

/// Whether a field is one of the literals, as `is_literal` says.
pub fn literal_field(v: &[u8], allow_null: bool) -> (r: bool)
    ensures
        r == is_literal(v@, allow_null),
{
    let t: [u8; 4] = [0x74, 0x72, 0x75, 0x65];
    let f: [u8; 5] = [0x66, 0x61, 0x6c, 0x73, 0x65];
    let z: [u8; 4] = [0x6e, 0x75, 0x6c, 0x6c];
    assert(t@ =~= lit_true());
    assert(f@ =~= lit_false());
    assert(z@ =~= lit_null());
    bytes_equal(v, t.as_slice()) || bytes_equal(v, f.as_slice()) || (allow_null && bytes_equal(
        v,
        z.as_slice(),
    ))
}

/// Appends `number_literal(v)` to `out`.
pub fn push_number(v: &[u8], out: &mut Vec<u8>)
    requires
        looks_numeric(v@),
    ensures
        final(out)@ == old(out)@ + number_literal(v@),
{
    let n = v.len();
    let i0: usize = if v[0] == 0x2b || v[0] == 0x2d { 1 } else { 0 };
    let i1 = scan_digits(v, i0);
    let mut z: usize = i0;
    while z < i1 && v[z] == 0x30
        invariant
            i0 <= z <= i1 <= v@.len(),
            zeros_end(v@, i0 as int, i1 as int) == zeros_end(v@, z as int, i1 as int),
        decreases i1 - z,
    {
        z = z + 1;
    }
    if v[0] == 0x2d {
        out.push(0x2d);
    }
    if z == i1 {
        out.push(0x30);
    } else {
        push_bytes(out, vstd::slice::slice_subrange(v, z, i1));
    }
    push_bytes(out, vstd::slice::slice_subrange(v, i1, n));
    assert(out@ =~= old(out)@ + number_literal(v@));
}

/// Appends the coerced encoding of the raw field `v` to `out`, as
/// `coerced` says.
pub fn encode_field(v: &[u8], parse_numbers: bool, allow_null: bool, out: &mut Vec<u8>)
    ensures
        final(out)@ == old(out)@ + coerced(v@, parse_numbers, allow_null),
{
    if literal_field(v, allow_null) {
        push_bytes(out, v);
    } else if parse_numbers && numeric_field(v) {
        push_number(v, out);
    } else {
        push_quoted(v, out);
    }
}

} // verus!
