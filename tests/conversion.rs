use fiox::decode::{stream_shape, table_stream, toml_decoder, Decoder};
use fiox::format::Format;
use fiox::log::LogSink;
use fiox::stream::{DataTypes, WriterStreams};
use fiox::writer::Writer;

/// Tokenizes delimited text the way the table reader does: the header, then
/// each row or `None` where the row could not be read.
fn read_table(input: &[u8], delimiter: u8) -> (Option<Vec<String>>, Vec<Option<Vec<Vec<u8>>>>) {
    let mut rdr = csv::ReaderBuilder::new().delimiter(delimiter).from_reader(input);
    let header = rdr.headers().ok().map(|h| h.iter().map(|s| s.to_string()).collect());
    let rows = rdr
        .byte_records()
        .map(|r| r.ok().map(|rec| rec.iter().map(|f| f.to_vec()).collect()))
        .collect();
    (header, rows)
}

/// Converts delimited text into `out_format`, returning the output and the log.
fn convert_table(input: &[u8], delimiter: u8, out_format: Format, parse_numbers: bool) -> (String, String) {
    let (header, rows) = read_table(input, delimiter);
    let stream = table_stream(header, delimiter).unwrap();
    let mut writer = Writer::new(out_format, stream, parse_numbers).unwrap();
    let mut log = LogSink::new();
    let mut decoder = Decoder::new(Format::Table { delimiter });
    let mut out = writer.begin();
    for row in rows {
        if let Some(rec) = decoder.next_row(row, delimiter, &mut log) {
            out.extend(writer.write_record(rec, &mut log));
        }
    }
    out.extend(writer.finish());
    (String::from_utf8(out).unwrap(), String::from_utf8(log.render()).unwrap())
}

/// Converts line-delimited JSON into `out_format`.
fn convert_lines(input: &[u8], out_format: Format) -> (String, LogSink, usize) {
    let mut writer = Writer::new(out_format, WriterStreams::Ndjson, false).unwrap();
    let mut log = LogSink::new();
    let mut decoder = Decoder::new(Format::Ndjson);
    let mut out = writer.begin();
    let mut records = 0;
    for line in input.split_inclusive(|b| *b == b'\n') {
        if let Some(rec) = decoder.next_line(line, &mut log) {
            records += 1;
            out.extend(writer.write_record(rec, &mut log));
        }
    }
    out.extend(writer.finish());
    (String::from_utf8(out).unwrap(), log, records)
}

#[test]
fn test_csv_to_json_conversion() {
    let (result, log) = convert_table(b"name,age,city\nAlice,30,NYC\nBob,25,LA\n", b',', Format::Json, false);
    assert!(result.contains(r#""name": "Alice""#));
    assert!(result.contains(r#""age": "30""#));
    assert!(result.contains(r#""city": "NYC""#));
    assert!(log.is_empty());
    let parsed: serde_json::Value = serde_json::from_str(&result).unwrap();
    assert_eq!(parsed[1]["city"], "LA");
}

#[test]
fn csv_to_json_exact_layout() {
    let (result, _) = convert_table(b"a,b\n1,x\n", b',', Format::Json, false);
    assert_eq!(result, "[\n  {\n    \"a\": \"1\",\n    \"b\": \"x\"\n  }\n]");
}

#[test]
fn test_tsv_to_json_with_delimiter() {
    let (result, _) =
        convert_table(b"name\tage\tcity\nAlice\t30\tNYC\nBob\t25\tLA\n", b'\t', Format::Ndjson, false);
    assert!(result.contains(r#""name": "Alice""#));
    assert!(result.contains(r#""age": "30""#));
    assert!(result.contains(r#""city": "NYC""#));
    assert_eq!(result.lines().count(), 2);
}

#[test]
fn test_parse_numbers_flag() {
    let (result, _) = convert_table(b"a,b\n1,2\n3,4\n", b',', Format::Ndjson, true);
    assert!(result.contains(r#""a": 1"#));
    assert_eq!(result, "{\"a\": 1, \"b\": 2}\n{\"a\": 3, \"b\": 4}\n");
    let (json, _) = convert_table(b"a,b\n1,2\n3,4\n", b',', Format::Json, true);
    assert!(json.contains(r#""a": 1"#));
}

#[test]
fn test_error_logging_to_file() {
    let (result, log) = convert_table(b"a,b,c\n1,2,3\ninvalid\n4,5,6\n", b',', Format::Toml, false);
    assert!(!log.is_empty());
    assert!(log.contains("Invalid CSV"));
    assert!(log.contains("---"));
    assert_eq!(log, "Invalid CSV record at line: 2\n---\n");
    assert_eq!(result.matches("[[Rows]]").count(), 2);
    assert!(result.contains("a = \"4\""));
}

#[test]
fn malformed_row_to_every_format_succeeds() {
    for f in [Format::Json, Format::Ndjson, Format::Toml, Format::Table { delimiter: b';' }] {
        let (result, log) = convert_table(b"a,b,c\n1,2,3\ninvalid\n4,5,6\n", b',', f, false);
        assert!(result.contains('4'));
        assert!(log.contains("Invalid CSV") && log.contains("\n---\n"));
    }
}

#[test]
fn table_to_toml_layout_and_keys() {
    let (result, _) = convert_table(b"first name,ok\nAda,true\nBob,false\n", b',', Format::Toml, true);
    assert_eq!(
        result,
        "[[Rows]]\n\"first name\" = \"Ada\"\nok = true\n\n[[Rows]]\n\"first name\" = \"Bob\"\nok = false\n"
    );
}

#[test]
fn table_to_table_keeps_cells() {
    let input = b"name,note\nAlice,\"a, b\"\nBob,\"say \"\"hi\"\"\"\n";
    let (result, _) = convert_table(input, b',', Format::Table { delimiter: b'|' }, true);
    assert_eq!(result, "name|note\nAlice|a, b\nBob|\"say \"\"hi\"\"\"\n");
    let (back, _) = convert_table(result.as_bytes(), b'|', Format::Table { delimiter: b',' }, false);
    assert_eq!(back.as_bytes(), input);
}

#[test]
fn csv_test() {
    let headers: Vec<String> = vec!["NAME".to_string(), "AGE".to_string(), "ID".to_string()];
    let rows: Vec<Vec<Vec<u8>>> = vec![
        vec![b"Joe".to_vec(), 20.to_string().into_bytes(), 2038.to_string().into_bytes()],
        vec![b"\"Joh,n\"".to_vec(), 27.to_string().into_bytes(), 2927.to_string().into_bytes()],
        vec![b"Je\"se".to_vec(), 30.to_string().into_bytes(), 4986.to_string().into_bytes()],
    ];
    let stream = WriterStreams::Table { headers: headers.clone() };
    let mut writer = Writer::new(Format::Table { delimiter: b',' }, stream, false).unwrap();
    let mut out = writer.begin();
    out.extend(writer.write_rows(&rows));
    out.extend(writer.finish());
    let (header, decoded) = read_table(&out, b',');
    assert_eq!(header, Some(headers));
    let decoded: Vec<Vec<Vec<u8>>> = decoded.into_iter().map(|r| r.unwrap()).collect();
    assert_eq!(decoded, rows);
}

#[test]
fn short_and_long_rows_are_cut_to_the_header() {
    let stream = WriterStreams::Table { headers: vec!["a".to_string(), "b".to_string()] };
    let mut writer = Writer::new(Format::Ndjson, stream, false).unwrap();
    let long = writer.write_row(&vec![b"1".to_vec(), b"2".to_vec(), b"3".to_vec()]);
    let short = writer.write_row(&vec![b"9".to_vec()]);
    let none = writer.write_row(&vec![]);
    assert_eq!(long, b"{\"a\": \"1\", \"b\": \"2\"}\n".to_vec());
    assert_eq!(short, b"{\"a\": \"9\"}\n".to_vec());
    assert_eq!(none, b"{}\n".to_vec());
}

#[test]
fn headers_are_escaped_as_keys() {
    let stream = WriterStreams::Table { headers: vec!["q\"k".to_string()] };
    let mut writer = Writer::new(Format::Ndjson, stream, false).unwrap();
    assert_eq!(writer.write_row(&vec![b"v".to_vec()]), b"{\"q\\\"k\": \"v\"}\n".to_vec());
}

#[test]
fn missing_header_is_fatal() {
    assert!(table_stream(None, b',').is_err());
    assert!(table_stream(Some(vec![]), b',').is_err());
    let err = table_stream(None, b',').err().unwrap();
    assert!(matches!(err, fiox::error::ConversionError::MalformedRecord { index: 0, .. }));
    let (header, _) = read_table(b"", b',');
    assert!(table_stream(header, b',').is_err());
}

#[test]
fn test_ndjson_to_json() {
    let input = b"{\"name\":\"Alice\",\"age\":30}\n{\"name\":\"Bob\",\"age\":25}\n";
    let (result, log, records) = convert_lines(input, Format::Json);
    assert!(result.contains(r#""name": "Alice""#));
    assert_eq!(records, 2);
    assert_eq!(log.len(), 0);
    let parsed: serde_json::Value = serde_json::from_str(&result).unwrap();
    assert_eq!(parsed[1]["age"], 25);
}

#[test]
fn one_bad_line_among_good_ones() {
    let input = b"{\"a\":1}\n{\"a\":2}\nnot json\n{\"a\":4}\n";
    let (result, log, records) = convert_lines(input, Format::Ndjson);
    assert_eq!(records, 3);
    assert_eq!(result.lines().count(), 3);
    assert_eq!(log.len(), 1);
    assert_eq!(log.entry(0), &b"Invalid NDJSON record at line: 3\nnot json".to_vec());
}

#[test]
fn blank_lines_and_crlf_are_skipped_quietly() {
    let input = b"{\"a\":1}\r\n\r\n\n{\"a\":2}";
    let mut log = LogSink::new();
    let mut decoder = Decoder::new(Format::Ndjson);
    let lines: Vec<Vec<u8>> = input.split_inclusive(|b| *b == b'\n').map(|l| l.to_vec()).collect();
    let records = decoder.decode_lines(&lines, &mut log);
    assert_eq!(records.len(), 2);
    assert_eq!(log.len(), 0);
    assert_eq!(decoder.position, 4);
    assert!(decoder.is_valid());
}

#[test]
fn lines_to_toml_use_array_tables() {
    let (result, _, _) = convert_lines(b"{\"a\":1}\n{\"a\":2}\n", Format::Toml);
    assert_eq!(result, "[[Array]]\na = 1\n\n[[Array]]\na = 2\n");
}

#[test]
fn test_toml_to_json() {
    let input = b"[package]\nname = \"fiox\"\nversion = \"0.4.0\"\n\n[dependencies]\nserde = \"1.0.228\"\n";
    let mut log = LogSink::new();
    let rec = toml_decoder(input, &mut log).unwrap();
    let mut writer = Writer::new(Format::Json, WriterStreams::Values, false).unwrap();
    let mut out = writer.begin();
    out.extend(writer.write_record(rec, &mut log));
    out.extend(writer.finish());
    let result = String::from_utf8(out).unwrap();
    assert!(result.contains(r#""name": "fiox""#) || result.contains(r#""name":"fiox""#));
    assert!(result.ends_with("}\n"));
}

#[test]
fn bad_toml_is_record_zero() {
    let mut log = LogSink::new();
    assert!(toml_decoder(b"a = = 1", &mut log).is_none());
    assert_eq!(log.render(), b"Invalid TOML record at line: 0\n---\n".to_vec());
}

#[test]
fn test_validation_pass() {
    let valid_json = r#"
    {
      "a": 1,
      "b": 2,
      "c": { "arr": [1, 2, 3], "k": { "a": 10, "b": 2 } }
    }
    "#;
    let mut log = LogSink::new();
    let mut decoder = Decoder::new(Format::Json);
    for item in serde_json::Deserializer::from_str(valid_json).into_iter::<serde_json::Value>() {
        decoder.next_value(item, &mut log);
    }
    assert!(decoder.is_valid());
    assert_eq!(decoder.position, 1);
}

#[test]
fn test_validation_fail() {
    let (header, rows) = read_table(b"a,b,c\n1,2,3\ninvalid\n", b',');
    assert!(table_stream(header, b',').is_ok());
    let mut log = LogSink::new();
    let mut decoder = Decoder::new(Format::Table { delimiter: b',' });
    for row in rows {
        decoder.next_row(row, b',', &mut log);
    }
    assert!(!decoder.is_valid());
    assert_eq!(decoder.malformed, 1);
}

#[test]
fn test_validation_with_delimiter() {
    let (header, rows) = read_table(b"a|b|c\n1|2|3\n", b'|');
    assert!(table_stream(header, b'|').is_ok());
    let mut log = LogSink::new();
    let mut decoder = Decoder::new(Format::Table { delimiter: b'|' });
    for row in rows {
        assert!(decoder.next_row(row, b'|', &mut log).is_some());
    }
    assert!(decoder.is_valid());
}

#[test]
fn array_value_to_ndjson_and_toml() {
    let v: serde_json::Value = serde_json::from_str(r#"[{"a":1},{"b":[2,3]}]"#).unwrap();
    let mut log = LogSink::new();
    let mut nd = Writer::new(Format::Ndjson, WriterStreams::Values, false).unwrap();
    let out = nd.write_value(v.clone(), &mut log);
    assert_eq!(out, b"{\"a\":1}\n{\"b\":[2,3]}\n".to_vec());
    let mut tw = Writer::new(Format::Toml, WriterStreams::Values, false).unwrap();
    let out = String::from_utf8(tw.write_value(v, &mut log)).unwrap();
    assert!(out.contains("[[Array]]"));
    assert_eq!(log.len(), 0);
}

#[test]
fn unencodable_value_becomes_placeholder() {
    let mut log = LogSink::new();
    let mut tw = Writer::new(Format::Toml, WriterStreams::Ndjson, false).unwrap();
    let out = tw.write_value(serde_json::Value::Null, &mut log);
    assert_eq!(out, b"[[Array]]\n".to_vec());
    assert_eq!(log.len(), 1);
    assert_eq!(log.entry(0), &b"Invalid TOML record at line: 1".to_vec());
}

#[test]
fn row_in_value_stream_is_reported() {
    let mut log = LogSink::new();
    let mut jw = Writer::new(Format::Json, WriterStreams::Ndjson, false).unwrap();
    let mut out = jw.begin();
    out.extend(jw.write_record(DataTypes::Csv(vec![b"x".to_vec()]), &mut log));
    out.extend(jw.finish());
    assert_eq!(out, b"[\n{}\n]".to_vec());
    assert_eq!(log.len(), 1);
}

#[test]
fn toml_keys_bare_only_when_alphanumeric() {
    let stream = WriterStreams::Table {
        headers: vec!["été".to_string(), "a.b".to_string(), "x-y_z9".to_string(), "".to_string()],
    };
    let mut writer = Writer::new(Format::Toml, stream, false).unwrap();
    let row = vec![b"1".to_vec(), b"2".to_vec(), b"3".to_vec(), b"4".to_vec()];
    let out = String::from_utf8(writer.write_row(&row)).unwrap();
    assert_eq!(out, "[[Rows]]\nété = \"1\"\n\"a.b\" = \"2\"\nx-y_z9 = \"3\"\n = \"4\"\n");
}

#[test]
fn json_values_are_indented_one_per_line() {
    let mut log = LogSink::new();
    let mut writer = Writer::new(Format::Json, WriterStreams::Values, false).unwrap();
    let v: serde_json::Value = serde_json::from_str(r#"{"k":[1]}"#).unwrap();
    let out = String::from_utf8(writer.write_value(v, &mut log)).unwrap();
    assert_eq!(out, "{\n  \"k\": [\n    1\n  ]\n}\n");
}

#[test]
fn numbers_in_rows_are_number_literals() {
    let (result, _) = convert_table(b"a,b\n007,+3\n", b',', Format::Ndjson, true);
    assert_eq!(result, "{\"a\": 7, \"b\": 3}\n");
    let parsed: serde_json::Value = serde_json::from_str(result.trim()).unwrap();
    assert_eq!(parsed["a"], 7);
}

#[test]
fn line_stream_to_ndjson_one_value_per_line() {
    let (result, log, records) = convert_lines(b"{\"a\": 1}\n[1, 2]\n\"s\"\n", Format::Ndjson);
    assert_eq!(records, 3);
    assert_eq!(log.len(), 0);
    assert_eq!(result, "{\"a\":1}\n1\n2\n\"s\"\n");
}

#[test]
fn line_stream_to_json_array() {
    let (result, _, _) = convert_lines(b"{\"a\":1}\n{\"a\":2}\n", Format::Json);
    assert_eq!(result, "[\n{\n  \"a\": 1\n},\n{\n  \"a\": 2\n}\n]");
    let (empty, _, _) = convert_lines(b"", Format::Json);
    assert_eq!(empty, "[\n\n]");
    let parsed: serde_json::Value = serde_json::from_str(&empty).unwrap();
    assert_eq!(parsed, serde_json::Value::Array(vec![]));
}

#[test]
fn toml_array_value_is_wrapped_under_array_key() {
    let mut log = LogSink::new();
    let mut tw = Writer::new(Format::Toml, WriterStreams::Values, false).unwrap();
    let out = String::from_utf8(tw.write_value(serde_json::from_str("[1, 2]").unwrap(), &mut log)).unwrap();
    let parsed: toml::Table = toml::from_str(&out).unwrap();
    assert_eq!(parsed.len(), 1);
    assert_eq!(parsed["Array"], toml::Value::Array(vec![toml::Value::Integer(1), toml::Value::Integer(2)]));
    assert_eq!(log.len(), 0);
}

#[test]
fn shapes_by_input_format() {
    assert!(matches!(stream_shape(Format::Json, None), Ok(WriterStreams::Values)));
    assert!(matches!(stream_shape(Format::Toml, None), Ok(WriterStreams::Values)));
    assert!(matches!(stream_shape(Format::Ndjson, None), Ok(WriterStreams::Ndjson)));
    assert!(stream_shape(Format::Table { delimiter: b',' }, None).is_err());
    assert!(matches!(
        stream_shape(Format::Table { delimiter: b',' }, Some(vec!["h".to_string()])),
        Ok(WriterStreams::Table { .. })
    ));
}

#[test]
fn toml_document_counts_as_one_record() {
    let mut log = LogSink::new();
    let mut good = Decoder::new(Format::Toml);
    let rec = good.next_document(b"k = 1\n", &mut log);
    assert!(matches!(rec, Some(DataTypes::Json(ref v)) if v["k"] == 1));
    assert!(good.is_valid());
    let mut bad = Decoder::new(Format::Toml);
    assert!(bad.next_document(b"k = ", &mut log).is_none());
    assert_eq!((bad.position, bad.malformed), (1, 1));
    assert_eq!(log.len(), 1);
}

#[test]
fn decoded_line_is_the_parsed_value() {
    let mut log = LogSink::new();
    let rec = fiox::decode::ndjson_decoder(b"{\"x\": [true]}\r\n", 5, &mut log);
    match rec {
        Some(DataTypes::Json(v)) => assert_eq!(v, serde_json::from_str::<serde_json::Value>(r#"{"x": [true]}"#).unwrap()),
        _ => panic!("expected a value"),
    }
}
