//! Conversion errors: four fatal kinds and the recoverable malformed record.
use vstd::prelude::*;
use crate::format::Format;
use crate::escape::push_bytes;

verus! {

/// Why a conversion, or one record of it, failed.
#[derive(Debug)]
pub enum ConversionError {
    /// A source or destination could not be read or written.
    IoFailure,
    /// A path has no extension, or one that names no format.
    MissingExtensionOrFormat,
    /// A delimiter is not a single ASCII byte.
    InvalidDelimiter,
    /// A writer was handed a stream shape that its format cannot hold.
    UnsupportedShapeForFormat,
    /// One record could not be decoded or encoded; `index` is its 1-based
    /// record or line number (0 for a whole-document format) and `context`
    /// the offending bytes where they are known.
    MalformedRecord { format: Format, index: usize, context: Vec<u8> },
}

impl ConversionError {
    /// Whether the error aborts the whole run.
    pub open spec fn spec_is_fatal(&self) -> bool {
        !(self is MalformedRecord)
    }

    /// Whether the error aborts the whole run: every kind but a malformed
    /// record does.
    pub fn is_fatal(&self) -> (r: bool)
        ensures
            r == self.spec_is_fatal(),
    {
        match self {
            ConversionError::MalformedRecord { .. } => false,
            _ => true,
        }
    }
}

/// Decimal digits of `n`, most significant first.
pub open spec fn decimal(n: nat) -> Seq<u8>
    decreases n,
{
    if n < 10 {
        seq![(0x30 + n) as u8]
    } else {
        decimal(n / 10) + seq![(0x30 + n % 10) as u8]
    }
}

/// Appends the decimal digits of `n` to `out`.
pub fn push_decimal(n: usize, out: &mut Vec<u8>)
    ensures
        final(out)@ == old(out)@ + decimal(n as nat),
    decreases n,
{
    if n >= 10 {
        push_decimal(n / 10, out);
    }
    let d: u8 = (n % 10) as u8;
    out.push(0x30 + d);
    assert(out@ =~= old(out)@ + decimal(n as nat));
}

pub open spec fn format_label(f: Format) -> Seq<u8> {
    match f {
        Format::Json => seq![0x4au8, 0x53u8, 0x4fu8, 0x4eu8],
        Format::Ndjson => seq![0x4eu8, 0x44u8, 0x4au8, 0x53u8, 0x4fu8, 0x4eu8],
        Format::Toml => seq![0x54u8, 0x4fu8, 0x4du8, 0x4cu8],
        Format::Table { .. } => seq![0x43u8, 0x53u8, 0x56u8],
    }
}

/// `Invalid `.
pub open spec fn invalid_prefix() -> Seq<u8> {
    seq![0x49u8, 0x6eu8, 0x76u8, 0x61u8, 0x6cu8, 0x69u8, 0x64u8, 0x20u8]
}

/// ` record at line: `.
pub open spec fn at_line() -> Seq<u8> {
    seq![
        0x20u8, 0x72u8, 0x65u8, 0x63u8, 0x6fu8, 0x72u8, 0x64u8, 0x20u8, 0x61u8, 0x74u8, 0x20u8,
        0x6cu8, 0x69u8, 0x6eu8, 0x65u8, 0x3au8, 0x20u8,
    ]
}

/// The log message of a malformed record: `Invalid <FORMAT> record at line:
/// <index>`, followed by a newline and the offending bytes where known.
pub open spec fn malformed_message(format: Format, index: usize, context: Seq<u8>) -> Seq<u8> {
    invalid_prefix() + format_label(format) + at_line() + decimal(index as nat) + (if context.len()
        == 0 {
        Seq::empty()
    } else {
        seq![0x0au8] + context
    })
}

/// Builds `malformed_message(format, index, context)`.
pub fn malformed_text(format: Format, index: usize, context: &[u8]) -> (r: Vec<u8>)
    ensures
        r@ == malformed_message(format, index, context@),
{
    let mut out: Vec<u8> = Vec::new();
    let prefix: [u8; 8] = [0x49, 0x6e, 0x76, 0x61, 0x6c, 0x69, 0x64, 0x20];
    assert(prefix@ =~= invalid_prefix());
    push_bytes(&mut out, prefix.as_slice());
    match format {
        Format::Json => {
            let l: [u8; 4] = [0x4a, 0x53, 0x4f, 0x4e];
            assert(l@ =~= format_label(format));
            push_bytes(&mut out, l.as_slice());
        },
        Format::Ndjson => {
            let l: [u8; 6] = [0x4e, 0x44, 0x4a, 0x53, 0x4f, 0x4e];
            assert(l@ =~= format_label(format));
            push_bytes(&mut out, l.as_slice());
        },
        Format::Toml => {
            let l: [u8; 4] = [0x54, 0x4f, 0x4d, 0x4c];
            assert(l@ =~= format_label(format));
            push_bytes(&mut out, l.as_slice());
        },
        Format::Table { .. } => {
            let l: [u8; 3] = [0x43, 0x53, 0x56];
            assert(l@ =~= format_label(format));
            push_bytes(&mut out, l.as_slice());
        },
    }
    let mid: [u8; 17] = [
        0x20, 0x72, 0x65, 0x63, 0x6f, 0x72, 0x64, 0x20, 0x61, 0x74, 0x20, 0x6c, 0x69, 0x6e, 0x65,
        0x3a, 0x20,
    ];
    assert(mid@ =~= at_line());
    push_bytes(&mut out, mid.as_slice());
    push_decimal(index, &mut out);
    if context.len() > 0 {
        out.push(0x0a);
        push_bytes(&mut out, context);
    }
    assert(out@ =~= malformed_message(format, index, context@));
    out
}

} // verus!
