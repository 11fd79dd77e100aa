use fluxmux::cli::{is_action, parse_pipe_args, parse_sink_endpoint, ActionSpec, FILE_SINK_BUFFER};
use fluxmux::endpoints::{validate_endpoints, validate_sinks, EndpointError, SinkType, SourceType};

fn file_source() -> SourceType {
    SourceType::File { path: "in.json".to_string() }
}

fn file_sink() -> SinkType {
    SinkType::File { path: "out.json".to_string() }
}

#[test]
fn reads_standard_input_sources() {
    for s in ["-", "stdin", "STDIN", "stdin:", "StdIn:"] {
        assert_eq!(SourceType::parse(s), Ok(SourceType::Stdin));
    }
}

#[test]
fn reads_file_and_kafka_sources() {
    assert_eq!(
        SourceType::parse("file:/tmp/a:b.json"),
        Ok(SourceType::File { path: "/tmp/a:b.json".to_string() })
    );
    assert_eq!(SourceType::parse("file:"), Ok(SourceType::File { path: "".to_string() }));
    assert_eq!(
        SourceType::parse("kafka://localhost:9092/events?group=g1"),
        Ok(SourceType::Kafka {
            brokers: "localhost:9092".to_string(),
            topic: "events".to_string(),
            group_id: "g1".to_string(),
        })
    );
    assert_eq!(
        SourceType::parse("kafka:host/topic/with/slash"),
        Ok(SourceType::Kafka {
            brokers: "host".to_string(),
            topic: "topic/with/slash".to_string(),
            group_id: "fluxmux-default".to_string(),
        })
    );
    assert_eq!(
        SourceType::parse("kafka://h/t?x=1&group=a%20b&group=last"),
        Ok(SourceType::Kafka {
            brokers: "h".to_string(),
            topic: "t".to_string(),
            group_id: "last".to_string(),
        })
    );
}

#[test]
fn refuses_sources_that_name_nothing() {
    assert_eq!(SourceType::parse("nothing"), Err(EndpointError::InvalidSourceUri));
    assert_eq!(SourceType::parse(""), Err(EndpointError::InvalidSourceUri));
    assert_eq!(
        SourceType::parse("ftp://x"),
        Err(EndpointError::UnsupportedSource("ftp".to_string()))
    );
    assert_eq!(
        SourceType::parse("FILE:x"),
        Err(EndpointError::UnsupportedSource("FILE".to_string()))
    );
    assert_eq!(SourceType::parse("kafka://hostonly"), Err(EndpointError::InvalidKafkaUri));
    assert_eq!(SourceType::parse("kafka://h?x=/y"), Err(EndpointError::InvalidKafkaUri));
    assert_eq!(
        SourceType::parse("postgres://h/db?table=t"),
        Err(EndpointError::UnsupportedSource("postgres".to_string()))
    );
}

#[test]
fn reads_sinks() {
    for s in ["-", "stdout", "STDOUT", "stdout:"] {
        assert_eq!(SinkType::parse(s), Ok(SinkType::Stdout));
    }
    assert_eq!(SinkType::parse("file:out.ndjson"), Ok(SinkType::File { path: "out.ndjson".to_string() }));
    assert_eq!(
        SinkType::parse("kafka://b:9092/hot?group=ignored"),
        Ok(SinkType::Kafka { brokers: "b:9092".to_string(), topic: "hot".to_string() })
    );
    assert_eq!(
        SinkType::parse("postgres://u@h:5432/db?table=events"),
        Ok(SinkType::Postgres {
            connection_string: "//u@h:5432/db".to_string(),
            table: "events".to_string(),
            schema: None,
        })
    );
    assert_eq!(
        SinkType::parse("postgres://h/db?table=t&schema=id:integer,name:text,bad,id:bigint"),
        Ok(SinkType::Postgres {
            connection_string: "//h/db".to_string(),
            table: "t".to_string(),
            schema: Some(vec![
                ("id".to_string(), "bigint".to_string()),
                ("name".to_string(), "text".to_string()),
            ]),
        })
    );
    assert_eq!(
        SinkType::parse("postgres://h/db?schema=nothing&table=t"),
        Ok(SinkType::Postgres {
            connection_string: "//h/db".to_string(),
            table: "t".to_string(),
            schema: None,
        })
    );
}

#[test]
fn refuses_sinks_that_name_nothing() {
    assert_eq!(SinkType::parse("out.json"), Err(EndpointError::InvalidSinkUri));
    assert_eq!(SinkType::parse("s3://bucket"), Err(EndpointError::UnsupportedSink("s3".to_string())));
    assert_eq!(SinkType::parse("kafka://nohost"), Err(EndpointError::InvalidKafkaUri));
    assert_eq!(SinkType::parse("postgres://h/db"), Err(EndpointError::MissingTable));
    assert_eq!(SinkType::parse("postgres://h/db?schema=a:b"), Err(EndpointError::MissingTable));
    assert_eq!(SinkType::parse("stdin"), Err(EndpointError::InvalidSinkUri));
}

#[test]
fn endpoints_parse_through_from_str() {
    assert_eq!("stdin".parse::<SourceType>(), Ok(SourceType::Stdin));
    assert_eq!("-".parse::<SinkType>(), Ok(SinkType::Stdout));
    assert_eq!("x".parse::<SinkType>(), Err(EndpointError::InvalidSinkUri));
}

#[test]
fn error_messages_name_the_fault() {
    assert_eq!(
        EndpointError::InvalidSourceUri.message(),
        "Invalid source URI format. Expected: scheme:config"
    );
    assert_eq!(
        EndpointError::InvalidSinkUri.message(),
        "Invalid sink URI format. Expected: scheme:config"
    );
    assert_eq!(
        EndpointError::UnsupportedSource("ftp".to_string()).message(),
        "Unsupported source type: ftp"
    );
    assert_eq!(
        EndpointError::UnsupportedSink("s3".to_string()).message(),
        "Unsupported sink type: s3"
    );
    assert_eq!(
        EndpointError::InvalidKafkaUri.message(),
        "Invalid Kafka URI format. Expected: host:port/topic"
    );
    assert_eq!(EndpointError::MissingTable.message(), "Missing table parameter");
}

#[test]
fn file_to_file_is_refused_and_nothing_else() {
    assert_eq!(
        validate_endpoints(&file_source(), &file_sink()),
        Err("File-to-file transfers are not allowed. Use Kafka or Postgres as source or sink."
            .to_string())
    );
    let sources = vec![
        file_source(),
        SourceType::Stdin,
        SourceType::Kafka { brokers: "b".into(), topic: "t".into(), group_id: "g".into() },
    ];
    let sinks = vec![
        file_sink(),
        SinkType::Stdout,
        SinkType::Kafka { brokers: "b".into(), topic: "t".into() },
        SinkType::Postgres { connection_string: "c".into(), table: "t".into(), schema: None },
    ];
    for (i, source) in sources.iter().enumerate() {
        for (j, sink) in sinks.iter().enumerate() {
            assert_eq!(validate_endpoints(source, sink).is_err(), i == 0 && j == 0);
        }
    }
}

#[test]
fn file_source_is_refused_with_any_file_sink() {
    let mixed = vec![SinkType::Stdout, file_sink()];
    assert!(validate_sinks(&file_source(), &mixed).is_err());
    assert!(validate_sinks(&SourceType::Stdin, &mixed).is_ok());
    assert!(validate_sinks(&file_source(), &vec![SinkType::Stdout]).is_ok());
    assert!(validate_sinks(&file_source(), &Vec::new()).is_ok());
}

#[test]
fn knows_the_action_words() {
    for word in ["filter", "transform", "aggregate", "normalize", "validate", "limit", "sample", "tee", "buffer"] {
        assert!(is_action(word));
    }
    for word in ["Filter", "", "tee ", "stdout", "-", "file:x"] {
        assert!(!is_action(word));
    }
}

#[test]
fn pipe_sink_arguments_are_sinks() {
    assert_eq!(parse_sink_endpoint("-"), Ok(SinkType::Stdout));
    assert_eq!(parse_sink_endpoint("Stdout"), Ok(SinkType::Stdout));
    assert_eq!(parse_sink_endpoint("file:o"), Ok(SinkType::File { path: "o".to_string() }));
    assert_eq!(parse_sink_endpoint("o.json"), Err(EndpointError::InvalidSinkUri));
    assert_eq!(FILE_SINK_BUFFER, 1024);
}

fn args(words: &[&str]) -> Vec<String> {
    words.iter().map(|w| w.to_string()).collect()
}

fn describe(action: &ActionSpec) -> String {
    match action {
        ActionSpec::Filter(e) => format!("filter {}", e),
        ActionSpec::Transform(e) => format!("transform {}", e),
        ActionSpec::Aggregate { group_by, operations } => {
            format!("aggregate {:?} {:?}", group_by, operations)
        }
        ActionSpec::Normalize { schema_path } => format!("normalize {:?}", schema_path),
        ActionSpec::Validate { schema_path } => format!("validate {:?}", schema_path),
        ActionSpec::Limit(n) => format!("limit {}", n),
        ActionSpec::Sample(n) => format!("sample {}", n),
    }
}

fn plan(words: &[&str]) -> (Vec<String>, Vec<SinkType>) {
    let (actions, sinks) = parse_pipe_args(&args(words));
    (actions.iter().map(describe).collect(), sinks)
}

#[test]
fn pipe_arguments_give_actions_and_sinks() {
    let (actions, sinks) = plan(&[
        "filter",
        "temp>30",
        "transform",
        "f=temp*1.8+32",
        "limit",
        "10",
        "sample",
        "2",
        "tee",
        "file:out.json",
        "kafka://localhost/hot",
    ]);
    assert_eq!(
        actions,
        vec!["filter temp>30", "transform f=temp*1.8+32", "limit 10", "sample 2"]
    );
    assert_eq!(
        sinks,
        vec![
            SinkType::File { path: "out.json".to_string() },
            SinkType::Kafka { brokers: "localhost".to_string(), topic: "hot".to_string() },
        ]
    );
}

#[test]
fn pipe_without_sinks_writes_to_standard_output() {
    assert_eq!(plan(&[]), (Vec::new(), vec![SinkType::Stdout]));
    assert_eq!(plan(&["limit", "1"]), (vec!["limit 1".to_string()], vec![SinkType::Stdout]));
    assert_eq!(plan(&["not-a-sink"]), (Vec::new(), vec![SinkType::Stdout]));
}

#[test]
fn pipe_actions_without_their_argument_are_passed_over() {
    assert_eq!(plan(&["filter"]).0, Vec::<String>::new());
    assert_eq!(plan(&["transform"]).0, Vec::<String>::new());
    assert_eq!(plan(&["limit"]).0, Vec::<String>::new());
    assert_eq!(plan(&["sample"]).0, Vec::<String>::new());
    assert_eq!(plan(&["limit", "ten", "limit", "3"]).0, vec!["limit 3"]);
    assert_eq!(plan(&["sample", "-1", "-"]), (Vec::new(), vec![SinkType::Stdout]));
    assert_eq!(plan(&["filter", "limit", "3"]).0, vec!["filter limit"]);
}

#[test]
fn pipe_schema_actions_take_an_optional_path() {
    assert_eq!(
        plan(&["normalize", "--schema", "s.json", "validate", "--schema=x", "v.json"]).0,
        vec!["normalize Some(\"s.json\")", "validate Some(\"v.json\")"]
    );
    assert_eq!(plan(&["normalize"]).0, vec!["normalize None"]);
    assert_eq!(plan(&["validate", "--schema"]).0, vec!["validate None"]);
    assert_eq!(plan(&["normalize", "schema", "s.json"]).0, vec!["normalize None"]);
}

#[test]
fn pipe_aggregate_stands_alone() {
    let (actions, sinks) = plan(&["aggregate", "--group-by", "g", "--sum", "v"]);
    assert_eq!(actions, vec!["aggregate None []"]);
    assert_eq!(sinks, vec![SinkType::Stdout]);
}

#[test]
fn pipe_tee_collects_sinks_up_to_the_next_action() {
    let (actions, sinks) = plan(&["tee", "-", "bad", "file:a", "limit", "2", "file:b", "tee", "buffer", "stdout"]);
    assert_eq!(actions, vec!["limit 2"]);
    assert_eq!(
        sinks,
        vec![
            SinkType::Stdout,
            SinkType::File { path: "a".to_string() },
            SinkType::File { path: "b".to_string() },
            SinkType::Stdout,
        ]
    );
}
