use fluxmux::connectors::{
    decode_lines, decode_text, whole_document, FileSource, KafkaSource, PipeSource,
};
use fluxmux::json::Json;
use fluxmux::message::{Format, Message, Timestamp};
use fluxmux::sinks::{
    lower_types_match, FileSink, InsertError, KafkaSink, PipeSink, PostgresSink, SchemaError,
    KAFKA_TIMEOUT_SECS, NEWLINE,
};
use fluxmux::wire::from_text;

fn doc(text: &str) -> Json {
    from_text(text).unwrap()
}

fn message(text: &str) -> Message {
    Message::json(text.as_bytes().to_vec(), Some(doc(text)), Timestamp { secs: 1, nanos: 0 })
}

fn lines(texts: &[&str]) -> Vec<String> {
    texts.iter().map(|t| t.to_string()).collect()
}

fn pairs(texts: &[(&str, &str)]) -> Vec<(String, String)> {
    texts.iter().map(|(a, b)| (a.to_string(), b.to_string())).collect()
}

#[test]
fn array_document_gives_one_record_for_each_element() {
    let records = whole_document("  [ {\"a\": 1}, 2, \"x\" ]\n").unwrap();
    assert_eq!(records.len(), 3);
    assert_eq!(records[0].payload, b"{\"a\":1}".to_vec());
    assert_eq!(records[0].parsed, doc("{\"a\":1}"));
    assert_eq!(records[1].payload, b"2".to_vec());
    assert_eq!(records[2].payload, b"\"x\"".to_vec());
    assert_eq!(whole_document("[]").unwrap().len(), 0);
}

#[test]
fn other_document_gives_one_record() {
    let records = whole_document("{\"a\": [1, 2]}").unwrap();
    assert_eq!(records.len(), 1);
    assert_eq!(records[0].payload, b"{\"a\":[1,2]}".to_vec());
    assert_eq!(records[0].parsed, doc("{\"a\":[1,2]}"));
    assert_eq!(whole_document("null").unwrap().len(), 1);
}

#[test]
fn text_that_is_no_document_gives_nothing() {
    assert!(whole_document("{\"a\":1}\n{\"a\":2}").is_none());
    assert!(whole_document("").is_none());
    assert!(whole_document("   ").is_none());
}

#[test]
fn record_becomes_a_json_message() {
    let record = whole_document("{\"a\":1}").unwrap().remove(0);
    let at = Timestamp { secs: 3, nanos: 4 };
    let msg = record.into_message(at);
    assert_eq!(msg.payload, b"{\"a\":1}".to_vec());
    assert_eq!(msg.parsed, Some(doc("{\"a\":1}")));
    assert_eq!(msg.format, Some(Format::Json));
    assert_eq!(msg.timestamp, at);
    assert_eq!((msg.id, msg.key), (None, None));
}

#[test]
fn lines_are_read_up_to_the_first_that_is_no_json() {
    let source = FileSource { path: "in.ndjson".to_string() };
    let decoded = source.decode_lines(&lines(&["{\"a\": 1}", " 2 ", "nope", "3"]));
    assert_eq!(decoded.records.len(), 2);
    assert_eq!(decoded.records[0].payload, b"{\"a\": 1}".to_vec());
    assert_eq!(decoded.records[0].parsed, doc("{\"a\":1}"));
    assert_eq!(decoded.records[1].payload, b" 2 ".to_vec());
    let error = decoded.error.unwrap();
    assert_eq!(error.line, 2);
    assert!(!error.message.is_empty());
    let all = source.decode_lines(&lines(&["1", "2"]));
    assert_eq!(all.records.len(), 2);
    assert!(all.error.is_none());
}

#[test]
fn file_source_fails_on_a_blank_line_and_pipe_source_skips_it() {
    let input = lines(&["1", "", "  ", "2"]);
    let file = FileSource { path: "x".to_string() }.decode_lines(&input);
    assert_eq!(file.records.len(), 1);
    assert_eq!(file.error.unwrap().line, 1);
    let pipe = PipeSource::new().decode_lines(&input);
    assert_eq!(pipe.records.len(), 2);
    assert!(pipe.error.is_none());
    let strict = decode_lines(&input, false);
    assert_eq!(strict.error.unwrap().line, 1);
    assert!(decode_lines(&Vec::new(), true).records.is_empty());
}

#[test]
fn whole_text_is_read_as_one_document_first_and_by_lines_else() {
    let file = FileSource { path: "x".to_string() };
    let pipe = PipeSource::new();
    // One document: its elements, written anew.
    let whole = pipe.start(" [ {\"a\": 1}, 2 ]\n");
    assert!(whole.error.is_none());
    assert_eq!(whole.records.len(), 2);
    assert_eq!(whole.records[0].payload, b"{\"a\":1}".to_vec());
    // No document: line by line, each line as it stands.
    let text = "{\"a\": 1}\r\n\n{\"a\": 2}\nnope\n3\n";
    let piped = pipe.start(text);
    assert_eq!(piped.records.len(), 2);
    assert_eq!(piped.records[0].payload, b"{\"a\": 1}".to_vec());
    assert_eq!(piped.records[1].parsed, doc("{\"a\":2}"));
    assert_eq!(piped.error.unwrap().line, 3);
    let filed = file.start(text);
    assert_eq!(filed.records.len(), 1);
    assert_eq!(filed.error.unwrap().line, 1);
    let lines_only = file.start("1\n2\n3");
    assert_eq!(lines_only.records.len(), 3);
    assert!(lines_only.error.is_none());
    assert_eq!(decode_text("", true).records.len(), 0);
    assert!(decode_text("", false).error.is_none());
}

#[test]
fn kafka_source_keeps_bytes_as_they_came() {
    let source = KafkaSource::new("b:9092".to_string(), "t".to_string(), "g".to_string());
    assert_eq!(source.brokers, "b:9092");
    assert_eq!(source.topic, "t");
    assert_eq!(source.group_id, "g");
    assert_eq!(
        source.consumer_settings(),
        pairs(&[("bootstrap.servers", "b:9092"), ("group.id", "g"), ("auto.offset.reset", "earliest")])
    );
    let at = Timestamp { secs: 1, nanos: 1 };
    let msg = KafkaSource::message(Some(vec![1]), vec![0xff, 0x00], at);
    assert_eq!(msg.key, Some(vec![1]));
    assert_eq!(msg.payload, vec![0xff, 0x00]);
    assert_eq!(msg.format, Some(Format::Binary));
    assert_eq!(msg.parsed, None);
    assert_eq!(msg.timestamp, at);
    assert_eq!(KafkaSource::message(None, Vec::new(), at).key, None);
}

#[test]
fn pipe_sink_writes_the_payload_as_a_line() {
    let sink = PipeSink::new();
    assert_eq!(sink.send(&message("{\"a\":1}")), b"{\"a\":1}\n".to_vec());
    assert_eq!(NEWLINE, b'\n');
}

#[test]
fn file_sink_writes_when_the_buffer_is_full() {
    let mut sink = FileSink::new("out.txt".to_string(), 3);
    assert_eq!(sink.path, "out.txt");
    assert_eq!(sink.send(message("1")), None);
    assert_eq!(sink.send(message("2")), None);
    assert_eq!(sink.send(message("3")), Some(b"1\n2\n3\n".to_vec()));
    assert_eq!(sink.send(message("4")), None);
    assert_eq!(sink.flush(), Some(b"4\n".to_vec()));
    assert_eq!(sink.flush(), None);
}

#[test]
fn file_sink_with_small_buffer_writes_every_message() {
    let mut one = FileSink::new("o".to_string(), 1);
    assert_eq!(one.send(message("7")), one_line("7"));
    let mut zero = FileSink::new("o".to_string(), 0);
    assert!(zero.flush().is_none());
    assert_eq!(zero.send(message("7")), Some(b"7\n".to_vec()));
}

fn one_line(text: &str) -> Option<Vec<u8>> {
    let mut line = text.as_bytes().to_vec();
    line.push(b'\n');
    Some(line)
}

#[test]
fn kafka_sink_sends_payload_under_key() {
    let sink = KafkaSink::new("b:9092".to_string(), "hot".to_string());
    assert_eq!(
        sink.producer_settings(),
        pairs(&[("bootstrap.servers", "b:9092"), ("message.timeout.ms", "5000")])
    );
    let mut msg = message("1");
    let record = sink.record(&msg);
    assert_eq!((record.topic.as_str(), record.key, record.payload), ("hot", Vec::new(), b"1".to_vec()));
    msg.key = Some(vec![9, 8]);
    assert_eq!(sink.record(&msg).key, vec![9, 8]);
    assert_eq!(KAFKA_TIMEOUT_SECS, 5);
}

#[test]
fn postgres_types_match_by_name_or_alias() {
    for (a, b) in [
        ("integer", "int4"),
        ("bigint", "int8"),
        ("real", "float4"),
        ("double precision", "float8"),
        ("varchar", "text"),
        ("char", "text"),
        ("jsonb", "json"),
    ] {
        assert!(lower_types_match(a, b));
        assert!(lower_types_match(b, a));
        assert!(PostgresSink::types_are_compatible(&a.to_uppercase(), b));
    }
    assert!(lower_types_match("uuid", "uuid"));
    assert!(PostgresSink::types_are_compatible("TEXT", "text"));
    assert!(!lower_types_match("TEXT", "text"));
    assert!(!lower_types_match("integer", "int8"));
    assert!(!lower_types_match("varchar", "char"));
    assert!(!PostgresSink::types_are_compatible("integer", "bigint"));
}

#[test]
fn postgres_schema_is_held_against_the_table() {
    let sink = PostgresSink::new(
        "//h/db".to_string(),
        "events".to_string(),
        Some(pairs(&[("id", "INTEGER"), ("body", "json"), ("at", "timestamp")])),
    );
    assert_eq!(sink.connection_string(), "//h/db");
    assert_eq!(sink.table(), "events");
    let table = pairs(&[("id", "int4"), ("body", "JSONB"), ("at", "Timestamp"), ("more", "text")]);
    assert!(sink.validate_table_schema(&table).is_ok());
    match sink.validate_table_schema(&pairs(&[("id", "int4"), ("at", "timestamp")])) {
        Err(SchemaError::MissingColumn { column, required }) => {
            assert_eq!((column.as_str(), required.as_str()), ("body", "json"));
        }
        other => panic!("unexpected result: {:?}", other),
    }
    match sink.validate_table_schema(&pairs(&[("id", "Text"), ("body", "json"), ("at", "date")])) {
        Err(SchemaError::TypeMismatch { column, actual, required }) => {
            assert_eq!((column.as_str(), actual.as_str(), required.as_str()), ("id", "text", "INTEGER"));
        }
        other => panic!("unexpected result: {:?}", other),
    }
    let reported_twice = pairs(&[("id", "text"), ("id", "integer"), ("body", "json"), ("at", "timestamp")]);
    assert!(sink.validate_table_schema(&reported_twice).is_ok());
    let free = PostgresSink::new("c".to_string(), "t".to_string(), None);
    assert!(free.validate_table_schema(&Vec::new()).is_ok());
}

#[test]
fn postgres_insert_statement_numbers_the_placeholders() {
    let sink = PostgresSink::new("c".to_string(), "events".to_string(), None);
    assert_eq!(
        sink.insert_statement(&lines(&["id", "name", "at"])),
        "INSERT INTO events (id, name, at) VALUES ($1, $2, $3)"
    );
    assert_eq!(sink.insert_statement(&lines(&["x"])), "INSERT INTO events (x) VALUES ($1)");
    assert_eq!(sink.insert_statement(&Vec::new()), "INSERT INTO events () VALUES ()");
    let many: Vec<String> = (0..11).map(|i| format!("c{}", i)).collect();
    assert!(sink.insert_statement(&many).ends_with("$9, $10, $11)"));
}

#[test]
fn postgres_row_is_the_object_of_the_message() {
    let sink = PostgresSink::new("c".to_string(), "t".to_string(), None);
    let row = sink.row(&message("{\"b\":1,\"a\":\"x\"}")).unwrap();
    assert_eq!(row, vec![("b".to_string(), doc("1")), ("a".to_string(), doc("\"x\""))]);
    let mut undecoded = message("{\"k\":true}");
    undecoded.parsed = None;
    assert_eq!(sink.row(&undecoded).unwrap(), vec![("k".to_string(), Json::Bool(true))]);
    assert!(matches!(sink.row(&message("[1]")), Err(InsertError::NotAnObject)));
    let mut broken = message("1");
    broken.parsed = None;
    broken.payload = b"{".to_vec();
    assert!(matches!(sink.row(&broken), Err(InsertError::NotJson(_))));
    broken.payload = b"7".to_vec();
    assert!(matches!(sink.row(&broken), Err(InsertError::NotAnObject)));
}
