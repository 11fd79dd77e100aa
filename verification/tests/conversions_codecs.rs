use fluxmux::codecs::{Codec, CsvCodec, JsonCodec};
use fluxmux::conversions::{
    avro_schema_text, avro_to_json, convert, export, export_csv, export_json, export_ndjson,
    export_toml, export_yaml, import, import_csv, import_json, import_ndjson, import_parquet,
    import_toml, import_yaml, names, object_of_texts, table_rows, AvroValue, ConvertError,
    ErrorKind, Exported, Format, Imported,
};
use fluxmux::json::Json;
use fluxmux::wire::{from_text, to_text};

fn doc(text: &str) -> Json {
    from_text(text).unwrap()
}

fn texts(values: &[&str]) -> Vec<String> {
    values.iter().map(|t| t.to_string()).collect()
}

fn pairs(values: &[(&str, &str)]) -> Vec<(String, String)> {
    values.iter().map(|(a, b)| (a.to_string(), b.to_string())).collect()
}

fn kind<T: std::fmt::Debug>(result: Result<T, ConvertError>) -> ErrorKind {
    result.unwrap_err().kind
}

#[test]
fn extension_names_the_format_whatever_its_case() {
    let table = [
        ("json", Format::Json),
        ("CSV", Format::Csv),
        ("Yaml", Format::Yaml),
        ("yml", Format::Yaml),
        ("toml", Format::Toml),
        ("PARQUET", Format::Parquet),
        ("avro", Format::Avro),
        ("MsgPack", Format::MsgPack),
        ("cbor", Format::Cbor),
        ("NdJson", Format::Ndjson),
    ];
    for (ext, format) in table {
        assert_eq!(Format::from_ext(ext), Some(format));
    }
    for ext in ["", "txt", ".json", "json ", "jsonl"] {
        assert_eq!(Format::from_ext(ext), None);
    }
    assert_eq!(Format::from_lowercase("json"), Some(Format::Json));
    assert_eq!(Format::from_lowercase("JSON"), None);
}

#[test]
fn json_is_read_and_written_indented() {
    let value = import_json("{\"a\":[1,2]}").unwrap();
    assert_eq!(value, doc("{\"a\":[1,2]}"));
    assert_eq!(export_json(&value).unwrap(), "{\n  \"a\": [\n    1,\n    2\n  ]\n}");
    assert_eq!(kind(import_json("{")), ErrorKind::Decode);
}

#[test]
fn yaml_is_read_and_written() {
    let value = import_yaml("a: 1\nb:\n  - x\n  - true\n").unwrap();
    assert_eq!(value, doc("{\"a\":1,\"b\":[\"x\",true]}"));
    assert_eq!(export_yaml(&value).unwrap(), "a: 1\nb:\n- x\n- true\n");
    assert_eq!(kind(import_yaml("a: [1")), ErrorKind::Decode);
}

#[test]
fn toml_is_read_and_written() {
    let value = import_toml("title = \"x\"\n[owner]\nage = 3\n").unwrap();
    assert_eq!(value.get("title"), Some(&doc("\"x\"")));
    assert_eq!(value.get("owner"), Some(&doc("{\"age\":3}")));
    let written = export_toml(&value).unwrap();
    assert_eq!(import_toml(&written).unwrap(), value);
    assert_eq!(kind(import_toml("= 1")), ErrorKind::Decode);
    let error = export_toml(&doc("[1,2]")).unwrap_err();
    assert_eq!((error.kind, error.format), (ErrorKind::Encode, Format::Toml));
    assert!(!error.message().is_empty());
}

#[test]
fn toml_text_and_document_are_those_of_the_toml_writer_and_reader() {
    assert_eq!(export_toml(&doc("{\"a\":1}")).unwrap(), "a = 1\n");
    assert_eq!(import_toml("a = 1\nb = \"x\"\n").unwrap(), doc("{\"a\":1,\"b\":\"x\"}"));
    let refused = import_toml("a = ").unwrap_err();
    assert_eq!((refused.kind, refused.format), (ErrorKind::Decode, Format::Toml));
    assert!(!refused.message().is_empty());
    assert_eq!(kind(export_toml(&doc("{\"a\":null}"))), ErrorKind::Encode);
}

#[test]
fn ndjson_is_read_into_one_array() {
    assert_eq!(
        import_ndjson("{\"a\":1}\n\n  \n[2]\r\n\"x\"").unwrap(),
        doc("[{\"a\":1},[2],\"x\"]")
    );
    assert_eq!(import_ndjson("").unwrap(), doc("[]"));
    assert_eq!(kind(import_ndjson("1\nnope\n2")), ErrorKind::Decode);
}

#[test]
fn ndjson_is_written_line_by_line() {
    assert_eq!(export_ndjson(&doc("[{\"a\":1},2,\"x\"]")).unwrap(), "{\"a\":1}\n2\n\"x\"\n");
    assert_eq!(export_ndjson(&doc("[]")).unwrap(), "");
    let error = export_ndjson(&doc("{\"a\":1}")).unwrap_err();
    assert_eq!(error.kind, ErrorKind::ExpectedArray);
    assert_eq!(error.message(), "Expected array for NDJSON export");
}

#[test]
fn csv_records_become_objects_of_texts() {
    let value = import_csv(
        &texts(&["id", "name", "extra"]),
        &vec![texts(&["1", "ann", "x", "dropped"]), texts(&["2", "bob"]), Vec::new()],
    );
    assert_eq!(
        to_text(&value),
        "[{\"id\":\"1\",\"name\":\"ann\",\"extra\":\"x\"},{\"id\":\"2\",\"name\":\"bob\"},{}]"
    );
    assert_eq!(
        to_text(&import_csv(&texts(&["a", "a"]), &vec![texts(&["1", "2"])])),
        "[{\"a\":\"2\"}]"
    );
    assert_eq!(import_csv(&texts(&["a"]), &Vec::new()), doc("[]"));
}

#[test]
fn rows_become_objects_of_texts() {
    let value = import_parquet(&vec![pairs(&[("a", "1"), ("b", "x")]), pairs(&[("a", "2")])]);
    assert_eq!(to_text(&value), "[{\"a\":\"1\",\"b\":\"x\"},{\"a\":\"2\"}]");
    assert_eq!(to_text(&object_of_texts(&pairs(&[("k", "v"), ("k", "w")]))), "{\"k\":\"w\"}");
    assert_eq!(names(&pairs(&[("k", "v"), ("l", "w")])), texts(&["k", "l"]));
}

#[test]
fn table_takes_the_headers_of_the_first_row() {
    let table = export_csv(&doc("[{\"id\":1,\"name\":\"ann\"},{\"name\":\"bob\",\"x\":null},{}]")).unwrap();
    assert_eq!(table.headers, texts(&["id", "name"]));
    assert_eq!(
        table.records,
        vec![texts(&["1", "\"ann\""]), texts(&["", "\"bob\""]), texts(&["", ""])]
    );
}

#[test]
fn table_needs_rows_of_objects() {
    for format in [Format::Csv, Format::Parquet, Format::Avro] {
        assert_eq!(kind(table_rows(&doc("{}"), format)), ErrorKind::ExpectedArray);
        assert_eq!(kind(table_rows(&doc("[]"), format)), ErrorKind::NoRows);
        assert_eq!(kind(table_rows(&doc("[1,{}]"), format)), ErrorKind::ExpectedObjectRows);
        assert_eq!(kind(table_rows(&doc("[{},2,{}]"), format)), ErrorKind::ExpectedObjectRow);
        assert_eq!(table_rows(&doc("[{},2]"), format).unwrap_err().format, format);
    }
    assert_eq!(
        table_rows(&doc("[{\"a\":[1],\"b\":\"x\"}]"), Format::Csv).unwrap(),
        vec![pairs(&[("a", "[1]"), ("b", "\"x\"")])]
    );
}

#[test]
fn shape_errors_say_what_was_expected() {
    let message = |kind, format| ConvertError::new(kind, format).message();
    assert_eq!(message(ErrorKind::ExpectedArray, Format::Csv), "Expected array for CSV export");
    assert_eq!(message(ErrorKind::ExpectedArray, Format::Parquet), "Expected array for Parquet export");
    assert_eq!(message(ErrorKind::ExpectedArray, Format::Avro), "Expected array for Avro export");
    assert_eq!(message(ErrorKind::NoRows, Format::Csv), "No rows found for CSV export");
    assert_eq!(message(ErrorKind::NoRows, Format::Avro), "No rows found for Avro export");
    assert_eq!(message(ErrorKind::ExpectedObjectRows, Format::Csv), "Expected object rows in array");
    assert_eq!(message(ErrorKind::ExpectedObjectRow, Format::Csv), "Expected object row");
    assert!(!message(ErrorKind::WrongInput, Format::Csv).is_empty());
    assert!(!message(ErrorKind::Decode, Format::Json).is_empty());
    assert!(!message(ErrorKind::Encode, Format::Json).is_empty());
    let detailed = import_json("{").unwrap_err();
    assert_eq!(Some(detailed.message()), detailed.detail);
}

#[test]
fn avro_schema_declares_text_fields() {
    assert_eq!(
        avro_schema_text(&texts(&["id", "name"])),
        "{\"type\":\"record\",\"name\":\"row\",\"fields\":[{\"name\":\"id\",\"type\":\"string\"},{\"name\":\"name\",\"type\":\"string\"}]}"
    );
    assert_eq!(
        avro_schema_text(&Vec::new()),
        "{\"type\":\"record\",\"name\":\"row\",\"fields\":[]}"
    );
}

#[test]
fn avro_values_become_documents() {
    let half = serde_json::Number::from_f64(0.5);
    let value = AvroValue::Record(vec![
        ("n".to_string(), AvroValue::Null),
        ("b".to_string(), AvroValue::Boolean(true)),
        ("i".to_string(), AvroValue::Int(-3)),
        ("l".to_string(), AvroValue::Long(1 << 40)),
        ("f".to_string(), AvroValue::Float(half.clone())),
        ("d".to_string(), AvroValue::Double(None)),
        ("x".to_string(), AvroValue::Bytes(vec![0x00, 0x0f, 0xa5, 0xff])),
        ("s".to_string(), AvroValue::String("t".to_string())),
        ("a".to_string(), AvroValue::Array(vec![AvroValue::Int(1), AvroValue::Other])),
        (
            "m".to_string(),
            AvroValue::Dictionary(vec![("k".to_string(), AvroValue::Float(None))]),
        ),
        ("o".to_string(), AvroValue::Other),
    ]);
    assert_eq!(
        to_text(&avro_to_json(&value)),
        "{\"n\":null,\"b\":true,\"i\":-3,\"l\":1099511627776,\"f\":0.5,\"d\":null,\"x\":\"000fa5ff\",\"s\":\"t\",\"a\":[1,null],\"m\":{\"k\":null},\"o\":null}"
    );
}

#[test]
fn input_has_to_fit_the_format() {
    let text = || Imported::Text("1".to_string());
    for format in [Format::Csv, Format::Parquet, Format::Avro, Format::MsgPack, Format::Cbor] {
        assert_eq!(kind(import(text(), format)), ErrorKind::WrongInput);
    }
    for format in [Format::Json, Format::Yaml, Format::Toml, Format::Ndjson] {
        assert_eq!(kind(import(Imported::Document(Json::Null), format)), ErrorKind::WrongInput);
        assert_eq!(kind(import(Imported::Rows(Vec::new()), format)), ErrorKind::WrongInput);
    }
    assert_eq!(kind(convert(Imported::Values(Vec::new()), Format::Csv, Format::Json)), ErrorKind::WrongInput);
}

#[test]
fn every_format_is_read_from_its_kind_of_input() {
    assert_eq!(import(Imported::Text("[1]".to_string()), Format::Json).unwrap(), doc("[1]"));
    assert_eq!(import(Imported::Text("- 1".to_string()), Format::Yaml).unwrap(), doc("[1]"));
    assert_eq!(import(Imported::Text("a = 1".to_string()), Format::Toml).unwrap(), doc("{\"a\":1}"));
    assert_eq!(import(Imported::Text("1\n2".to_string()), Format::Ndjson).unwrap(), doc("[1,2]"));
    assert_eq!(import(Imported::Document(doc("[1]")), Format::MsgPack).unwrap(), doc("[1]"));
    assert_eq!(import(Imported::Document(doc("{}")), Format::Cbor).unwrap(), doc("{}"));
    let table = Imported::Table { headers: texts(&["a"]), records: vec![texts(&["1"])] };
    assert_eq!(import(table, Format::Csv).unwrap(), doc("[{\"a\":\"1\"}]"));
    let rows = Imported::Rows(vec![pairs(&[("a", "1")])]);
    assert_eq!(import(rows, Format::Parquet).unwrap(), doc("[{\"a\":\"1\"}]"));
    let values = Imported::Values(vec![AvroValue::Long(1), AvroValue::Null]);
    assert_eq!(import(values, Format::Avro).unwrap(), doc("[1,null]"));
}

#[test]
fn every_format_is_written_in_its_kind_of_output() {
    let value = doc("[{\"a\":1,\"b\":\"x\"},{\"b\":2}]");
    assert!(matches!(export(&value, Format::Json).unwrap(), Exported::Text(t) if t.starts_with("[\n")));
    assert!(matches!(export(&value, Format::Yaml).unwrap(), Exported::Text(t) if t.starts_with("- a: 1")));
    assert_eq!(kind(export(&value, Format::Toml)), ErrorKind::Encode);
    assert!(matches!(export(&value, Format::Ndjson).unwrap(), Exported::Text(t) if t == "{\"a\":1,\"b\":\"x\"}\n{\"b\":2}\n"));
    assert!(matches!(export(&value, Format::MsgPack).unwrap(), Exported::Document(d) if d == value));
    assert!(matches!(export(&value, Format::Cbor).unwrap(), Exported::Document(d) if d == value));
    match export(&value, Format::Csv).unwrap() {
        Exported::Table(table) => {
            assert_eq!(table.headers, texts(&["a", "b"]));
            assert_eq!(table.records, vec![texts(&["1", "\"x\""]), texts(&["", "2"])]);
        }
        other => panic!("unexpected output: {:?}", other),
    }
    match export(&value, Format::Parquet).unwrap() {
        Exported::Rows { columns, rows } => {
            assert_eq!(columns, texts(&["a", "b"]));
            assert_eq!(rows, vec![pairs(&[("a", "1"), ("b", "\"x\"")]), pairs(&[("b", "2")])]);
        }
        other => panic!("unexpected output: {:?}", other),
    }
    match export(&value, Format::Avro).unwrap() {
        Exported::Records { schema, records } => {
            assert_eq!(schema, avro_schema_text(&texts(&["a", "b"])));
            assert_eq!(records.len(), 2);
        }
        other => panic!("unexpected output: {:?}", other),
    }
    assert_eq!(kind(export(&doc("{}"), Format::Parquet)), ErrorKind::ExpectedArray);
    assert_eq!(kind(export(&doc("[]"), Format::Avro)), ErrorKind::NoRows);
}

#[test]
fn conversion_reads_then_writes() {
    let out = convert(Imported::Text("[{\"a\": 1}, {\"a\": 2}]".to_string()), Format::Json, Format::Ndjson);
    assert!(matches!(out.unwrap(), Exported::Text(t) if t == "{\"a\":1}\n{\"a\":2}\n"));
    let out = convert(Imported::Text("a: 1".to_string()), Format::Yaml, Format::Json);
    assert!(matches!(out.unwrap(), Exported::Text(t) if t == "{\n  \"a\": 1\n}"));
    assert_eq!(kind(convert(Imported::Text("{".to_string()), Format::Json, Format::Yaml)), ErrorKind::Decode);
    assert_eq!(
        kind(convert(Imported::Text("{}".to_string()), Format::Json, Format::Ndjson)),
        ErrorKind::ExpectedArray
    );
    let out = convert(Imported::Document(doc("[1]")), Format::Cbor, Format::MsgPack);
    assert!(matches!(out.unwrap(), Exported::Document(d) if d == doc("[1]")));
}

#[test]
fn json_codec_reads_and_writes_payloads() {
    let codec = JsonCodec;
    let value = codec.decode(b"{\"a\": [1, 2]}").unwrap();
    assert_eq!(value, doc("{\"a\":[1,2]}"));
    assert_eq!(codec.encode(&value).unwrap(), b"{\"a\":[1,2]}".to_vec());
    assert!(!codec.decode(b"{").unwrap_err().message.is_empty());
}

#[test]
fn csv_codec_reads_the_records_behind_the_header_line() {
    let codec = CsvCodec;
    let value = codec.decode(b"id,name\n1,ann\n2,bob\n").unwrap();
    assert_eq!(to_text(&value), "[1,2]");
    assert_eq!(to_text(&codec.decode(b"name\nann\ntrue\n").unwrap()), "[\"ann\",true]");
    assert_eq!(codec.decode(b"").unwrap(), doc("[]"));
    assert!(codec.decode(b"a,b\n1\n").is_err());
}

#[test]
fn csv_codec_writes_rows_of_values() {
    let codec = CsvCodec;
    assert_eq!(codec.encode(&doc("[[1,\"a b\"],[2,\"c,d\"]]")).unwrap(), b"1,a b\n2,\"c,d\"\n".to_vec());
    assert_eq!(codec.encode(&doc("[]")).unwrap(), Vec::<u8>::new());
    assert_eq!(codec.encode(&doc("7")).unwrap(), b"7\n".to_vec());
    assert!(!codec.encode(&doc("[{\"a\":1}]")).unwrap_err().message.is_empty());
}
