use fiox::cli::conversion_formats;
use fiox::error::{malformed_text, ConversionError};
use fiox::format::{select_format, Format};
use fiox::log::LogSink;
use fiox::stream::WriterStreams;
use fiox::writer::Writer;

#[test]
fn extension_selects_format() {
    assert!(matches!(select_format("json", None), Ok(Format::Json)));
    assert!(matches!(select_format("ndjson", None), Ok(Format::Ndjson)));
    assert!(matches!(select_format("toml", None), Ok(Format::Toml)));
    assert!(matches!(select_format("csv", None), Ok(Format::Table { delimiter: b',' })));
    assert!(matches!(select_format("txt", None), Err(ConversionError::MissingExtensionOrFormat)));
    assert!(matches!(select_format("", None), Err(ConversionError::MissingExtensionOrFormat)));
}

#[test]
fn delimiter_override_wins_over_extension() {
    assert!(matches!(select_format("json", Some('\t')), Ok(Format::Table { delimiter: b'\t' })));
    assert!(matches!(select_format("psv", Some('|')), Ok(Format::Table { delimiter: b'|' })));
    assert!(matches!(select_format("csv", Some('é')), Err(ConversionError::InvalidDelimiter)));
}

#[test]
fn table_writer_refuses_values_and_lines() {
    let f = Format::Table { delimiter: b',' };
    assert!(matches!(
        Writer::new(f, WriterStreams::Values, false),
        Err(ConversionError::UnsupportedShapeForFormat)
    ));
    assert!(matches!(
        Writer::new(f, WriterStreams::Ndjson, false),
        Err(ConversionError::UnsupportedShapeForFormat)
    ));
    assert!(Writer::new(f, WriterStreams::Table { headers: vec!["a".to_string()] }, false).is_ok());
    for g in [Format::Json, Format::Ndjson, Format::Toml] {
        assert!(Writer::new(g, WriterStreams::Values, false).is_ok());
        assert!(Writer::new(g, WriterStreams::Ndjson, true).is_ok());
    }
}

#[test]
fn fatal_and_recoverable_errors() {
    assert!(ConversionError::IoFailure.is_fatal());
    assert!(ConversionError::InvalidDelimiter.is_fatal());
    let e = ConversionError::MalformedRecord { format: Format::Json, index: 3, context: vec![] };
    assert!(!e.is_fatal());
}

#[test]
fn malformed_message_text() {
    assert_eq!(
        malformed_text(Format::Table { delimiter: b',' }, 1234, b""),
        b"Invalid CSV record at line: 1234".to_vec()
    );
    assert_eq!(
        malformed_text(Format::Ndjson, 0, b"{oops"),
        b"Invalid NDJSON record at line: 0\n{oops".to_vec()
    );
}

#[test]
fn log_renders_dividers() {
    let mut log = LogSink::new();
    assert_eq!(log.render(), Vec::<u8>::new());
    log.record(b"first".to_vec());
    log.record(b"second".to_vec());
    assert_eq!(log.len(), 2);
    assert_eq!(log.entry(1), &b"second".to_vec());
    assert_eq!(log.render(), b"first\n---\nsecond\n---\n".to_vec());
}

#[test]
fn both_sides_of_a_conversion() {
    assert!(matches!(conversion_formats("csv", None, "json", None), Ok((Format::Table { delimiter: b',' }, Format::Json))));
    assert!(matches!(
        conversion_formats("tsv", Some('\t'), "ndjson", None),
        Ok((Format::Table { delimiter: b'\t' }, Format::Ndjson))
    ));
    assert!(matches!(conversion_formats("xml", None, "json", None), Err(ConversionError::MissingExtensionOrFormat)));
    assert!(matches!(conversion_formats("json", None, "out", Some('→')), Err(ConversionError::InvalidDelimiter)));
}

#[test]
fn table_writer_needs_an_ascii_delimiter() {
    let stream = WriterStreams::Table { headers: vec!["a".to_string()] };
    assert!(matches!(
        Writer::new(Format::Table { delimiter: 0xe9 }, stream, false),
        Err(ConversionError::InvalidDelimiter)
    ));
}
