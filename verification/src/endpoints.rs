//! The endpoints that a source or sink argument names.

use crate::assoc::{lookup, upsert};
use crate::message::pairs_view;
use crate::text::{
    eq_ignore_ascii_case, equals_ignoring_ascii_case, has_prefix, slice_of, split, split_on,
    split_once, split_once_at, starts_with, str_eq,
};
use vstd::prelude::*;
use vstd::string::StringExecFns;

verus! {

/// The name and value pairs that `url::form_urlencoded::parse` reads from a
/// query, in their order.
pub uninterp spec fn query_pairs(query: Seq<u8>) -> Seq<(Seq<char>, Seq<char>)>;

/// Runs `url::form_urlencoded::parse` over `query` and collects the pairs it
/// yields, each as owned text. The pairs are a function of the bytes alone.
#[verifier::external_body]
fn parse_query(query: &[u8]) -> (r: Vec<(String, String)>)
    ensures
        pairs_view(r@) == query_pairs(query@),
{
    url::form_urlencoded::parse(query).map(|pair| (pair.0.into_owned(), pair.1.into_owned())).collect()
}

/// Where the messages of a run come from.
#[derive(Debug, Clone, PartialEq)]
pub enum SourceType {
    File { path: String },
    Kafka { brokers: String, topic: String, group_id: String },
    Stdin,
}

/// Where the messages of a run go.
#[derive(Debug, Clone, PartialEq)]
pub enum SinkType {
    File { path: String },
    Kafka { brokers: String, topic: String },
    /// `schema` names the columns that the table must have, each with its
    /// type; no column is named twice.
    Postgres { connection_string: String, table: String, schema: Option<Vec<(String, String)>> },
    Stdout,
}

/// Why an endpoint argument was refused.
#[derive(Debug, Clone, PartialEq)]
pub enum EndpointError {
    /// A source argument that is no `scheme:config`.
    InvalidSourceUri,
    /// A sink argument that is no `scheme:config`.
    InvalidSinkUri,
    /// A source scheme that is not known.
    UnsupportedSource(String),
    /// A sink scheme that is not known.
    UnsupportedSink(String),
    /// A Kafka address that is no `host:port/topic`.
    InvalidKafkaUri,
    /// A Postgres sink without a `table` parameter.
    MissingTable,
}

/// The mathematical value of a [`SourceType`].
pub ghost enum SourceTypeView {
    File { path: Seq<char> },
    Kafka { brokers: Seq<char>, topic: Seq<char>, group_id: Seq<char> },
    Stdin,
}

/// The mathematical value of a [`SinkType`].
pub ghost enum SinkTypeView {
    File { path: Seq<char> },
    Kafka { brokers: Seq<char>, topic: Seq<char> },
    Postgres {
        connection_string: Seq<char>,
        table: Seq<char>,
        schema: Option<Seq<(Seq<char>, Seq<char>)>>,
    },
    Stdout,
}

/// The mathematical value of an [`EndpointError`].
pub ghost enum EndpointErrorView {
    InvalidSourceUri,
    InvalidSinkUri,
    UnsupportedSource(Seq<char>),
    UnsupportedSink(Seq<char>),
    InvalidKafkaUri,
    MissingTable,
}

impl View for SourceType {
    type V = SourceTypeView;

    open spec fn view(&self) -> SourceTypeView {
        match self {
            SourceType::File { path } => SourceTypeView::File { path: path@ },
            SourceType::Kafka { brokers, topic, group_id } => SourceTypeView::Kafka {
                brokers: brokers@,
                topic: topic@,
                group_id: group_id@,
            },
            SourceType::Stdin => SourceTypeView::Stdin,
        }
    }
}

impl View for SinkType {
    type V = SinkTypeView;

    open spec fn view(&self) -> SinkTypeView {
        match self {
            SinkType::File { path } => SinkTypeView::File { path: path@ },
            SinkType::Kafka { brokers, topic } => SinkTypeView::Kafka {
                brokers: brokers@,
                topic: topic@,
            },
            SinkType::Postgres { connection_string, table, schema } => SinkTypeView::Postgres {
                connection_string: connection_string@,
                table: table@,
                schema: match schema {
                    Some(columns) => Some(pairs_view(columns@)),
                    None => None,
                },
            },
            SinkType::Stdout => SinkTypeView::Stdout,
        }
    }
}

impl View for EndpointError {
    type V = EndpointErrorView;

    open spec fn view(&self) -> EndpointErrorView {
        match self {
            EndpointError::InvalidSourceUri => EndpointErrorView::InvalidSourceUri,
            EndpointError::InvalidSinkUri => EndpointErrorView::InvalidSinkUri,
            EndpointError::UnsupportedSource(scheme) => EndpointErrorView::UnsupportedSource(
                scheme@,
            ),
            EndpointError::UnsupportedSink(scheme) => EndpointErrorView::UnsupportedSink(scheme@),
            EndpointError::InvalidKafkaUri => EndpointErrorView::InvalidKafkaUri,
            EndpointError::MissingTable => EndpointErrorView::MissingTable,
        }
    }
}

impl EndpointError {
    /// The text that tells a user what was wrong.
    pub fn message(&self) -> (r: String)
        ensures
            r@ == match self@ {
                EndpointErrorView::InvalidSourceUri => "Invalid source URI format. Expected: scheme:config"@,
                EndpointErrorView::InvalidSinkUri => "Invalid sink URI format. Expected: scheme:config"@,
                EndpointErrorView::UnsupportedSource(scheme) => "Unsupported source type: "@
                    + scheme,
                EndpointErrorView::UnsupportedSink(scheme) => "Unsupported sink type: "@ + scheme,
                EndpointErrorView::InvalidKafkaUri => "Invalid Kafka URI format. Expected: host:port/topic"@,
                EndpointErrorView::MissingTable => "Missing table parameter"@,
            },
    {
        match self {
            EndpointError::InvalidSourceUri => String::from_str(
                "Invalid source URI format. Expected: scheme:config",
            ),
            EndpointError::InvalidSinkUri => String::from_str(
                "Invalid sink URI format. Expected: scheme:config",
            ),
            EndpointError::UnsupportedSource(scheme) => String::from_str(
                "Unsupported source type: ",
            ).concat(scheme.as_str()),
            EndpointError::UnsupportedSink(scheme) => String::from_str(
                "Unsupported sink type: ",
            ).concat(scheme.as_str()),
            EndpointError::InvalidKafkaUri => String::from_str(
                "Invalid Kafka URI format. Expected: host:port/topic",
            ),
            EndpointError::MissingTable => String::from_str("Missing table parameter"),
        }
    }
}

/// The consumer group of a Kafka source whose address names none.
pub open spec fn default_group() -> Seq<char> {
    "fluxmux-default"@
}

/// The parts of a Kafka address.
pub ghost struct KafkaAddress {
    pub brokers: Seq<char>,
    pub topic: Seq<char>,
    pub group_id: Option<Seq<char>>,
}

/// `uri` before and after its first `?`; all of it and nothing where it has none.
pub open spec fn split_query(uri: Seq<char>) -> (Seq<char>, Seq<char>) {
    match split_once(uri, seq!['?']) {
        Some(parts) => parts,
        None => (uri, Seq::empty()),
    }
}

/// The value of the parameter `key` in `query`: that of the last pair with
/// that name.
pub open spec fn parameter(query: Seq<char>, key: Seq<char>) -> Option<Seq<char>> {
    if query.len() == 0 {
        None
    } else {
        lookup(query_pairs(vstd::utf8::encode_utf8(query)), key)
    }
}

/// The Kafka address `[//]host[:port]/topic[?group=id]` taken apart.
pub open spec fn parse_kafka_address(config: Seq<char>) -> Option<KafkaAddress> {
    let uri = if starts_with(config, "//"@) {
        config.skip(2)
    } else {
        config
    };
    let (host_path, query) = split_query(uri);
    match split_once(host_path, seq!['/']) {
        Some((host, topic)) => Some(
            KafkaAddress { brokers: host, topic, group_id: parameter(query, "group"@) },
        ),
        None => None,
    }
}

/// The source that `s` names: `-`, `stdin` or `stdin:`, the last two in any
/// case, for the standard input; else `file:PATH` or `kafka:ADDRESS`.
pub open spec fn parse_source(s: Seq<char>) -> Result<SourceTypeView, EndpointErrorView> {
    if s == "-"@ || eq_ignore_ascii_case(s, "stdin"@) || eq_ignore_ascii_case(s, "stdin:"@) {
        Ok(SourceTypeView::Stdin)
    } else {
        match split_once(s, seq![':']) {
            None => Err(EndpointErrorView::InvalidSourceUri),
            Some((scheme, config)) => if scheme == "file"@ {
                Ok(SourceTypeView::File { path: config })
            } else if scheme == "kafka"@ {
                match parse_kafka_address(config) {
                    Some(address) => Ok(
                        SourceTypeView::Kafka {
                            brokers: address.brokers,
                            topic: address.topic,
                            group_id: match address.group_id {
                                Some(group) => group,
                                None => default_group(),
                            },
                        },
                    ),
                    None => Err(EndpointErrorView::InvalidKafkaUri),
                }
            } else {
                Err(EndpointErrorView::UnsupportedSource(scheme))
            },
        }
    }
}

/// The column that `pair` names with its type: the text before the first
/// `:` and the text after it.
pub open spec fn column_of(pair: Seq<char>) -> Option<(Seq<char>, Seq<char>)> {
    split_once(pair, seq![':'])
}

/// The columns that `pairs` name, each once; where a column is named again,
/// the later type stands.
pub open spec fn columns_in(pairs: Seq<Seq<char>>) -> Seq<(Seq<char>, Seq<char>)>
    decreases pairs.len(),
{
    if pairs.len() == 0 {
        Seq::empty()
    } else {
        match column_of(pairs.last()) {
            Some((column, kind)) => upsert(columns_in(pairs.drop_last()), column, kind),
            None => columns_in(pairs.drop_last()),
        }
    }
}

/// The columns that the `schema` parameter of `query` asks for:
/// `col:type,col:type`. Nothing where it names none.
pub open spec fn schema_in(query: Seq<char>) -> Option<Seq<(Seq<char>, Seq<char>)>> {
    match parameter(query, "schema"@) {
        Some(text) => if columns_in(split(text, ',')).len() > 0 {
            Some(columns_in(split(text, ',')))
        } else {
            None
        },
        None => None,
    }
}

/// The sink that `s` names: `-`, `stdout` or `stdout:`, the last two in any
/// case, for the standard output; else `file:PATH`, `kafka:ADDRESS` or
/// `postgres:CONNECTION?table=NAME[&schema=col:type,...]`.
pub open spec fn parse_sink(s: Seq<char>) -> Result<SinkTypeView, EndpointErrorView> {
    if s == "-"@ || eq_ignore_ascii_case(s, "stdout"@) || eq_ignore_ascii_case(s, "stdout:"@) {
        Ok(SinkTypeView::Stdout)
    } else {
        match split_once(s, seq![':']) {
            None => Err(EndpointErrorView::InvalidSinkUri),
            Some((scheme, config)) => if scheme == "file"@ {
                Ok(SinkTypeView::File { path: config })
            } else if scheme == "kafka"@ {
                match parse_kafka_address(config) {
                    Some(address) => Ok(
                        SinkTypeView::Kafka { brokers: address.brokers, topic: address.topic },
                    ),
                    None => Err(EndpointErrorView::InvalidKafkaUri),
                }
            } else if scheme == "postgres"@ {
                let (connection_string, query) = split_query(config);
                match parameter(query, "table"@) {
                    Some(table) => Ok(
                        SinkTypeView::Postgres {
                            connection_string,
                            table,
                            schema: schema_in(query),
                        },
                    ),
                    None => Err(EndpointErrorView::MissingTable),
                }
            } else {
                Err(EndpointErrorView::UnsupportedSink(scheme))
            },
        }
    }
}

/// Splits `uri` at its first `?`.
fn split_at_query(uri: &str) -> (r: (String, String))
    ensures
        (r.0@, r.1@) == split_query(uri@),
{
    proof {
        reveal_strlit("?");
        assert("?"@ =~= seq!['?']);
    }
    match split_once_at(uri, "?") {
        Some(parts) => parts,
        None => (String::from_str(uri), String::new()),
    }
}

/// The value of the last pair named `key`.
fn last_value(pairs: &Vec<(String, String)>, key: &str) -> (r: Option<String>)
    ensures
        match r {
            Some(value) => lookup(pairs_view(pairs@), key@) == Some(value@),
            None => lookup(pairs_view(pairs@), key@) is None,
        },
{
    let ghost all = pairs_view(pairs@);
    let mut i: usize = pairs.len();
    proof {
        assert(all.take(i as int) =~= all);
    }
    while i > 0
        invariant
            i <= pairs.len(),
            all == pairs_view(pairs@),
            crate::assoc::last_index(all, key@) == crate::assoc::last_index(all.take(i as int), key@),
        decreases i,
    {
        i -= 1;
        proof {
            assert(all.take(i + 1).drop_last() =~= all.take(i as int));
        }
        if str_eq(pairs[i].0.as_str(), key) {
            return Some(pairs[i].1.clone());
        }
    }
    None
}

/// The value of the parameter `key` in `query`.
fn parameter_of(query: &str, key: &str) -> (r: Option<String>)
    ensures
        match r {
            Some(value) => parameter(query@, key@) == Some(value@),
            None => parameter(query@, key@) is None,
        },
{
    if query.unicode_len() == 0 {
        return None;
    }
    let pairs = parse_query(query.as_bytes());
    last_value(&pairs, key)
}

/// The parts of a Kafka address, as owned text.
struct KafkaConfig {
    brokers: String,
    topic: String,
    group_id: Option<String>,
}

/// Takes a Kafka address apart.
fn parse_kafka_uri(config: &str) -> (r: Option<KafkaConfig>)
    ensures
        match r {
            Some(c) => parse_kafka_address(config@) == Some(
                KafkaAddress {
                    brokers: c.brokers@,
                    topic: c.topic@,
                    group_id: match c.group_id {
                        Some(group) => Some(group@),
                        None => None,
                    },
                },
            ),
            None => parse_kafka_address(config@) is None,
        },
{
    proof {
        reveal_strlit("//");
        reveal_strlit("/");
        assert("/"@ =~= seq!['/']);
    }
    let uri = if has_prefix(config, "//") {
        let n = config.unicode_len();
        slice_of(config, 2, n)
    } else {
        String::from_str(config)
    };
    let (host_path, query) = split_at_query(uri.as_str());
    match split_once_at(host_path.as_str(), "/") {
        Some((host, topic)) => {
            let group_id = parameter_of(query.as_str(), "group");
            Some(KafkaConfig { brokers: host, topic, group_id })
        },
        None => None,
    }
}

/// The columns that the pieces of a schema parameter name.
fn columns_of(pieces: &Vec<String>) -> (r: Vec<(String, String)>)
    ensures
        pairs_view(r@) == columns_in(pieces@.map_values(|piece: String| piece@)),
{
    let ghost all = pieces@.map_values(|piece: String| piece@);
    let mut columns: Vec<(String, String)> = Vec::new();
    let mut i: usize = 0;
    proof {
        reveal_strlit(":");
    }
    while i < pieces.len()
        invariant
            i <= pieces.len(),
            ":"@ == seq![':'],
            all == pieces@.map_values(|piece: String| piece@),
            pairs_view(columns@) == columns_in(all.take(i as int)),
        decreases pieces.len() - i,
    {
        proof {
            assert(all.take(i + 1).drop_last() =~= all.take(i as int));
        }
        match split_once_at(pieces[i].as_str(), ":") {
            Some((column, kind)) => {
                let ghost before = pairs_view(columns@);
                let mut j: usize = columns.len();
                let mut found: Option<usize> = None;
                proof {
                    assert(before.take(j as int) =~= before);
                }
                while j > 0 && found.is_none()
                    invariant
                        j <= columns.len(),
                        before == pairs_view(columns@),
                        match found {
                            Some(at) => crate::assoc::last_index(before, column@) == Some(at as int)
                                && at < columns.len(),
                            None => crate::assoc::last_index(before, column@)
                                == crate::assoc::last_index(before.take(j as int), column@),
                        },
                    decreases j,
                {
                    j -= 1;
                    proof {
                        assert(before.take(j + 1).drop_last() =~= before.take(j as int));
                    }
                    if str_eq(columns[j].0.as_str(), column.as_str()) {
                        found = Some(j);
                    }
                }
                match found {
                    Some(at) => {
                        columns.set(at, (column, kind));
                    },
                    None => {
                        columns.push((column, kind));
                    },
                }
            },
            None => {},
        }
        i += 1;
    }
    proof {
        assert(all.take(pieces.len() as int) =~= all);
    }
    columns
}

/// The columns that the `schema` parameter of `query` asks for.
fn schema_of(query: &str) -> (r: Option<Vec<(String, String)>>)
    ensures
        match r {
            Some(columns) => schema_in(query@) == Some(pairs_view(columns@)),
            None => schema_in(query@) is None,
        },
{
    match parameter_of(query, "schema") {
        Some(text) => {
            let pieces = split_on(text.as_str(), ',');
            let columns = columns_of(&pieces);
            if columns.len() > 0 {
                Some(columns)
            } else {
                None
            }
        },
        None => None,
    }
}

impl SourceType {
    /// Reads a source argument.
    pub fn parse(s: &str) -> (r: Result<SourceType, EndpointError>)
        ensures
            match r {
                Ok(source) => parse_source(s@) == Ok::<SourceTypeView, EndpointErrorView>(source@),
                Err(e) => parse_source(s@) == Err::<SourceTypeView, EndpointErrorView>(e@),
            },
    {
        proof {
            reveal_strlit(":");
            assert(":"@ =~= seq![':']);
        }
        if str_eq(s, "-") || equals_ignoring_ascii_case(s, "stdin") || equals_ignoring_ascii_case(
            s,
            "stdin:",
        ) {
            return Ok(SourceType::Stdin);
        }
        match split_once_at(s, ":") {
            None => Err(EndpointError::InvalidSourceUri),
            Some((scheme, config)) => {
                if str_eq(scheme.as_str(), "file") {
                    Ok(SourceType::File { path: config })
                } else if str_eq(scheme.as_str(), "kafka") {
                    match parse_kafka_uri(config.as_str()) {
                        Some(address) => Ok(
                            SourceType::Kafka {
                                brokers: address.brokers,
                                topic: address.topic,
                                group_id: match address.group_id {
                                    Some(group) => group,
                                    None => String::from_str("fluxmux-default"),
                                },
                            },
                        ),
                        None => Err(EndpointError::InvalidKafkaUri),
                    }
                } else {
                    Err(EndpointError::UnsupportedSource(scheme))
                }
            },
        }
    }
}

impl SinkType {
    /// Reads a sink argument.
    pub fn parse(s: &str) -> (r: Result<SinkType, EndpointError>)
        ensures
            match r {
                Ok(sink) => parse_sink(s@) == Ok::<SinkTypeView, EndpointErrorView>(sink@),
                Err(e) => parse_sink(s@) == Err::<SinkTypeView, EndpointErrorView>(e@),
            },
    {
        proof {
            reveal_strlit(":");
            assert(":"@ =~= seq![':']);
        }
        if str_eq(s, "-") || equals_ignoring_ascii_case(s, "stdout") || equals_ignoring_ascii_case(
            s,
            "stdout:",
        ) {
            return Ok(SinkType::Stdout);
        }
        match split_once_at(s, ":") {
            None => Err(EndpointError::InvalidSinkUri),
            Some((scheme, config)) => {
                if str_eq(scheme.as_str(), "file") {
                    Ok(SinkType::File { path: config })
                } else if str_eq(scheme.as_str(), "kafka") {
                    match parse_kafka_uri(config.as_str()) {
                        Some(address) => Ok(
                            SinkType::Kafka { brokers: address.brokers, topic: address.topic },
                        ),
                        None => Err(EndpointError::InvalidKafkaUri),
                    }
                } else if str_eq(scheme.as_str(), "postgres") {
                    let (connection_string, query) = split_at_query(config.as_str());
                    match parameter_of(query.as_str(), "table") {
                        Some(table) => {
                            let schema = schema_of(query.as_str());
                            Ok(SinkType::Postgres { connection_string, table, schema })
                        },
                        None => Err(EndpointError::MissingTable),
                    }
                } else {
                    Err(EndpointError::UnsupportedSink(scheme))
                }
            },
        }
    }
}

impl std::str::FromStr for SourceType {
    type Err = EndpointError;

    /// Reads a source argument, as `SourceType::parse` does.
    fn from_str(s: &str) -> (r: Result<SourceType, EndpointError>)
        ensures
            match r {
                Ok(source) => parse_source(s@) == Ok::<SourceTypeView, EndpointErrorView>(source@),
                Err(e) => parse_source(s@) == Err::<SourceTypeView, EndpointErrorView>(e@),
            },
    {
        SourceType::parse(s)
    }
}

impl std::str::FromStr for SinkType {
    type Err = EndpointError;

    /// Reads a sink argument, as `SinkType::parse` does.
    fn from_str(s: &str) -> (r: Result<SinkType, EndpointError>)
        ensures
            match r {
                Ok(sink) => parse_sink(s@) == Ok::<SinkTypeView, EndpointErrorView>(sink@),
                Err(e) => parse_sink(s@) == Err::<SinkTypeView, EndpointErrorView>(e@),
            },
    {
        SinkType::parse(s)
    }
}

/// The text that refuses a transfer from a file to a file.
pub open spec fn file_to_file_message() -> Seq<char> {
    "File-to-file transfers are not allowed. Use Kafka or Postgres as source or sink."@
}

/// Refuses the one pairing of endpoints that is not allowed: a file source
/// with a file sink. Every other pairing is accepted.
pub fn validate_endpoints(source: &SourceType, sink: &SinkType) -> (r: Result<(), String>)
    ensures
        r is Err <==> (source is File && sink is File),
        r matches Err(message) ==> message@ == file_to_file_message(),
{
    match (source, sink) {
        (SourceType::File { .. }, SinkType::File { .. }) => Err(
            String::from_str(
                "File-to-file transfers are not allowed. Use Kafka or Postgres as source or sink.",
            ),
        ),
        _ => Ok(()),
    }
}

/// Refuses a file source together with any file sink among several sinks.
/// Every other selection is accepted.
pub fn validate_sinks(source: &SourceType, sinks: &Vec<SinkType>) -> (r: Result<(), String>)
    ensures
        r is Err <==> (source is File && exists|i: int|
            0 <= i < sinks.len() && (#[trigger] sinks[i]) is File),
        r matches Err(message) ==> message@ == file_to_file_message(),
{
    let mut i: usize = 0;
    while i < sinks.len()
        invariant
            i <= sinks.len(),
            forall|j: int| 0 <= j < i ==> !(source is File && (#[trigger] sinks[j]) is File),
        decreases sinks.len() - i,
    {
        match validate_endpoints(source, &sinks[i]) {
            Ok(_) => {},
            Err(message) => {
                return Err(message);
            },
        }
        i += 1;
    }
    Ok(())
}

} // verus!
