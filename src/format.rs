//! The four record formats and how one is chosen for a path.
use vstd::prelude::*;
use crate::error::ConversionError;
use crate::escape::bytes_equal;
use vstd::string::StringSliceAdditionalSpecFns;

verus! {

/// A record format: JSON, line-delimited JSON, TOML, or a delimiter-separated
/// table whose delimiter is one ASCII byte.
#[derive(Clone, Copy, Debug, PartialEq, Eq, Structural)]
pub enum Format {
    Json,
    Ndjson,
    Toml,
    Table { delimiter: u8 },
}

pub open spec fn ext_json() -> Seq<u8> {
    seq![0x6au8, 0x73u8, 0x6fu8, 0x6eu8]
}

pub open spec fn ext_ndjson() -> Seq<u8> {
    seq![0x6eu8, 0x64u8, 0x6au8, 0x73u8, 0x6fu8, 0x6eu8]
}

pub open spec fn ext_toml() -> Seq<u8> {
    seq![0x74u8, 0x6fu8, 0x6du8, 0x6cu8]
}

pub open spec fn ext_csv() -> Seq<u8> {
    seq![0x63u8, 0x73u8, 0x76u8]
}

/// The format that a path's extension bytes and an optional delimiter
/// override select; `None` where the extension names no format.
pub open spec fn format_of_extension(ext: Seq<u8>) -> Option<Format> {
    if ext == ext_json() {
        Some(Format::Json)
    } else if ext == ext_ndjson() {
        Some(Format::Ndjson)
    } else if ext == ext_toml() {
        Some(Format::Toml)
    } else if ext == ext_csv() {
        Some(Format::Table { delimiter: 0x2c })
    } else {
        None
    }
}

/// The outcome of choosing a format from extension bytes and an optional
/// delimiter override.
pub open spec fn selected(ext: Seq<u8>, delimiter: Option<char>) -> Result<Format, ConversionError> {
    match delimiter {
        Some(c) => if (c as u32) < 128 {
            Ok(Format::Table { delimiter: c as u8 })
        } else {
            Err(ConversionError::InvalidDelimiter)
        },
        None => match format_of_extension(ext) {
            Some(f) => Ok(f),
            None => Err(ConversionError::MissingExtensionOrFormat),
        },
    }
}

/// Chooses the format of one side of a conversion. A delimiter override
/// makes the side a table whatever its extension, and must be one ASCII
/// byte; otherwise the extension (`json`, `ndjson`, `toml`, `csv`) decides.
pub fn select_format(ext: &str, delimiter: Option<char>) -> (r: Result<Format, ConversionError>)
    ensures
        r == selected(ext.spec_bytes(), delimiter),
{
    match delimiter {
        Some(c) => {
            if (c as u32) < 128 {
                Ok(Format::Table { delimiter: c as u8 })
            } else {
                Err(ConversionError::InvalidDelimiter)
            }
        },
        None => {
            let e = ext.as_bytes();
            let json: [u8; 4] = [0x6a, 0x73, 0x6f, 0x6e];
            let ndjson: [u8; 6] = [0x6e, 0x64, 0x6a, 0x73, 0x6f, 0x6e];
            let toml: [u8; 4] = [0x74, 0x6f, 0x6d, 0x6c];
            let csv: [u8; 3] = [0x63, 0x73, 0x76];
            assert(json@ =~= ext_json());
            assert(ndjson@ =~= ext_ndjson());
            assert(toml@ =~= ext_toml());
            assert(csv@ =~= ext_csv());
            if bytes_equal(e, json.as_slice()) {
                Ok(Format::Json)
            } else if bytes_equal(e, ndjson.as_slice()) {
                Ok(Format::Ndjson)
            } else if bytes_equal(e, toml.as_slice()) {
                Ok(Format::Toml)
            } else if bytes_equal(e, csv.as_slice()) {
                Ok(Format::Table { delimiter: 0x2c })
            } else {
                Err(ConversionError::MissingExtensionOrFormat)
            }
        },
    }
}

} // verus!
