//! The command line's arguments, as the library sees them.
use vstd::prelude::*;
use vstd::string::StringSliceAdditionalSpecFns;
use crate::error::ConversionError;
use crate::format::{select_format, selected, Format};

verus! {

/// The program's arguments: a command and an optional log file path.
pub struct FioxArgs {
    pub cmd: Commands,
    pub log_file: Option<String>,
}

/// What the program is asked to do.
pub enum Commands {
    /// Convert `input` into `output`, each side's format given by its
    /// extension or by a delimiter override.
    Convert {
        input: String,
        output: String,
        append: bool,
        parse_numbers: bool,
        input_delimiter: Option<char>,
        output_delimiter: Option<char>,
    },
    /// Check that `input` is well formed.
    Validate { input: String, delimiter: Option<char> },
}

/// The formats of a conversion: the input side's, then the output side's,
/// or the first side's error.
pub open spec fn conversion_formats_of(
    input_ext: Seq<u8>,
    input_delimiter: Option<char>,
    output_ext: Seq<u8>,
    output_delimiter: Option<char>,
) -> Result<(Format, Format), ConversionError> {
    match selected(input_ext, input_delimiter) {
        Err(e) => Err(e),
        Ok(i) => match selected(output_ext, output_delimiter) {
            Err(e) => Err(e),
            Ok(o) => Ok((i, o)),
        },
    }
}

/// Chooses both formats of a conversion from the paths' extensions and the
/// delimiter overrides.
pub fn conversion_formats(
    input_ext: &str,
    input_delimiter: Option<char>,
    output_ext: &str,
    output_delimiter: Option<char>,
) -> (r: Result<(Format, Format), ConversionError>)
    ensures
        r == conversion_formats_of(
            input_ext.spec_bytes(),
            input_delimiter,
            output_ext.spec_bytes(),
            output_delimiter,
        ),
{
    let i = match select_format(input_ext, input_delimiter) {
        Ok(f) => f,
        Err(e) => {
            return Err(e);
        },
    };
    match select_format(output_ext, output_delimiter) {
        Ok(o) => Ok((i, o)),
        Err(e) => Err(e),
    }
}

} // verus!
