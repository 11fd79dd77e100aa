//! What the sinks make of the messages they are given: the bytes, records
//! and statements that go out.

use crate::assoc::lookup;
use crate::json::{fields_view, lemma_object_view, Json, JsonView};
use crate::message::{messages_view, pairs_view, Message, MessageView};
use crate::text::{decimal, decimal_string, join, joined, lowercase, str_eq, texts_view, to_lowercase};
use crate::wire::{decoded_bytes, from_bytes};
use vstd::prelude::*;
use vstd::string::StringExecFns;

verus! {

/// The byte that ends a line.
pub const NEWLINE: u8 = 10;

/// The payload of `msg` as one line.
pub open spec fn framed(msg: MessageView) -> Seq<u8> {
    msg.payload.push(NEWLINE)
}

/// The payloads of `msgs`, each as one line, one after the other.
pub open spec fn framed_all(msgs: Seq<MessageView>) -> Seq<u8>
    decreases msgs.len(),
{
    if msgs.len() == 0 {
        Seq::empty()
    } else {
        framed_all(msgs.drop_last()) + framed(msgs.last())
    }
}

/// Appends the payload of `msg` and a line end to `out`.
fn write_line(out: &mut Vec<u8>, msg: &Message)
    ensures
        final(out)@ == old(out)@ + framed(msg@),
{
    let ghost before = out@;
    let mut i: usize = 0;
    while i < msg.payload.len()
        invariant
            i <= msg.payload.len(),
            out@ == before + msg.payload@.take(i as int),
        decreases msg.payload.len() - i,
    {
        out.push(msg.payload[i]);
        i += 1;
    }
    out.push(NEWLINE);
}

/// Writes every message to the standard output as one line.
pub struct PipeSink;

impl PipeSink {
    /// The sink that writes to the standard output.
    pub fn new() -> (r: PipeSink)
        ensures
            r == PipeSink,
    {
        PipeSink
    }

    /// The bytes that go out for `msg`.
    pub fn send(&self, msg: &Message) -> (r: Vec<u8>)
        ensures
            r@ == framed(msg@),
    {
        let mut out: Vec<u8> = Vec::new();
        write_line(&mut out, msg);
        out
    }
}

/// Appends messages to a file, as lines, a buffer at a time.
pub struct FileSink {
    pub path: String,
    buffer: Vec<Message>,
    buffer_size: usize,
}

/// The mathematical value of a [`FileSink`].
pub ghost struct FileSinkView {
    pub path: Seq<char>,
    /// The messages held back, oldest first.
    pub buffer: Seq<MessageView>,
    /// How many held messages make a write due.
    pub buffer_size: nat,
}

impl View for FileSink {
    type V = FileSinkView;

    closed spec fn view(&self) -> FileSinkView {
        FileSinkView {
            path: self.path@,
            buffer: messages_view(self.buffer@),
            buffer_size: self.buffer_size as nat,
        }
    }
}

/// Whether a write is due once `msg` has joined the buffer.
pub open spec fn write_due(s: FileSinkView) -> bool {
    s.buffer.len() + 1 >= s.buffer_size
}

impl FileSink {
    /// A sink for the file at `path` that writes once `buffer_size` messages
    /// are held.
    pub fn new(path: String, buffer_size: usize) -> (r: FileSink)
        ensures
            r@ == (FileSinkView {
                path: path@,
                buffer: Seq::empty(),
                buffer_size: buffer_size as nat,
            }),
    {
        let r = FileSink { path, buffer: Vec::new(), buffer_size };
        proof {
            assert(r@.buffer =~= Seq::empty());
        }
        r
    }

    /// Takes `msg` into the buffer. Where that makes a write due, the buffer
    /// is emptied and its lines are handed back to be appended to the file.
    pub fn send(&mut self, msg: Message) -> (r: Option<Vec<u8>>)
        ensures
            final(self)@.path == old(self)@.path,
            final(self)@.buffer_size == old(self)@.buffer_size,
            final(self)@.buffer == if write_due(old(self)@) {
                Seq::<MessageView>::empty()
            } else {
                old(self)@.buffer.push(msg@)
            },
            match r {
                Some(bytes) => write_due(old(self)@) && bytes@ == framed_all(
                    old(self)@.buffer.push(msg@),
                ),
                None => !write_due(old(self)@),
            },
    {
        let ghost held = self@.buffer.push(msg@);
        self.buffer.push(msg);
        proof {
            assert(self@.buffer =~= held);
        }
        if self.buffer.len() >= self.buffer_size {
            self.flush()
        } else {
            None
        }
    }

    /// Empties the buffer and hands back its lines to be appended to the
    /// file; nothing where nothing is held.
    pub fn flush(&mut self) -> (r: Option<Vec<u8>>)
        ensures
            final(self)@ == (FileSinkView { buffer: Seq::empty(), ..old(self)@ }),
            match r {
                Some(bytes) => old(self)@.buffer.len() > 0 && bytes@ == framed_all(old(self)@.buffer),
                None => old(self)@.buffer.len() == 0,
            },
    {
        if self.buffer.len() == 0 {
            proof {
                assert(self@.buffer =~= Seq::empty());
            }
            return None;
        }
        let ghost held = self@.buffer;
        let mut out: Vec<u8> = Vec::new();
        let mut i: usize = 0;
        while i < self.buffer.len()
            invariant
                i <= self.buffer.len(),
                held == messages_view(self.buffer@),
                out@ == framed_all(held.take(i as int)),
            decreases self.buffer.len() - i,
        {
            proof {
                assert(held.take(i + 1).drop_last() =~= held.take(i as int));
            }
            write_line(&mut out, &self.buffer[i]);
            i += 1;
        }
        proof {
            assert(held.take(self.buffer.len() as int) =~= held);
        }
        self.buffer = Vec::new();
        proof {
            assert(self@.buffer =~= Seq::empty());
        }
        Some(out)
    }
}

/// Produces messages to a Kafka topic.
pub struct KafkaSink {
    pub brokers: String,
    pub topic: String,
}

/// What goes to Kafka for one message.
#[derive(Debug)]
pub struct KafkaRecord {
    pub topic: String,
    pub key: Vec<u8>,
    pub payload: Vec<u8>,
}

/// Seconds that a send or a flush may take.
pub const KAFKA_TIMEOUT_SECS: u64 = 5;

impl KafkaSink {
    /// A sink that produces to `topic` at `brokers`.
    pub fn new(brokers: String, topic: String) -> (r: KafkaSink)
        ensures
            r.brokers == brokers,
            r.topic == topic,
    {
        KafkaSink { brokers, topic }
    }

    /// The settings of the producer: where to connect, and five seconds for
    /// a message to get through.
    pub fn producer_settings(&self) -> (r: Vec<(String, String)>)
        ensures
            pairs_view(r@) == seq![
                ("bootstrap.servers"@, self.brokers@),
                ("message.timeout.ms"@, "5000"@),
            ],
    {
        let mut settings: Vec<(String, String)> = Vec::new();
        settings.push((String::from_str("bootstrap.servers"), self.brokers.clone()));
        settings.push((String::from_str("message.timeout.ms"), String::from_str("5000")));
        settings
    }

    /// The record for `msg`: its payload under its key, or under the empty
    /// key where it has none.
    pub fn record(&self, msg: &Message) -> (r: KafkaRecord)
        ensures
            r.topic@ == self.topic@,
            r.payload@ == msg@.payload,
            r.key@ == match msg@.key {
                Some(key) => key,
                None => Seq::empty(),
            },
    {
        KafkaRecord {
            topic: self.topic.clone(),
            key: match &msg.key {
                Some(key) => key.clone(),
                None => Vec::new(),
            },
            payload: msg.payload.clone(),
        }
    }
}

/// Whether a column of type `actual` serves where `required` is asked for,
/// both in lower case: the same type, or one of the pairs of names that
/// Postgres uses for one type.
pub open spec fn types_match(actual: Seq<char>, required: Seq<char>) -> bool {
    actual == required || alias(actual, required) || alias(required, actual)
}

/// Whether `a` and `b` are two names of one type, in this order.
pub open spec fn alias(a: Seq<char>, b: Seq<char>) -> bool {
    ||| (a == "integer"@ && b == "int4"@)
    ||| (a == "bigint"@ && b == "int8"@)
    ||| (a == "real"@ && b == "float4"@)
    ||| (a == "double precision"@ && b == "float8"@)
    ||| (a == "varchar"@ && b == "text"@)
    ||| (a == "char"@ && b == "text"@)
    ||| (a == "jsonb"@ && b == "json"@)
}

/// Whether `a` and `b` are two names of one type, in this order.
fn is_alias(a: &str, b: &str) -> (r: bool)
    ensures
        r == alias(a@, b@),
{
    (str_eq(a, "integer") && str_eq(b, "int4")) || (str_eq(a, "bigint") && str_eq(b, "int8")) || (
    str_eq(a, "real") && str_eq(b, "float4")) || (str_eq(a, "double precision") && str_eq(
        b,
        "float8",
    )) || (str_eq(a, "varchar") && str_eq(b, "text")) || (str_eq(a, "char") && str_eq(b, "text"))
        || (str_eq(a, "jsonb") && str_eq(b, "json"))
}

/// Whether a column of type `actual` serves where `required` is asked for,
/// both in lower case.
pub fn lower_types_match(actual: &str, required: &str) -> (r: bool)
    ensures
        r == types_match(actual@, required@),
{
    str_eq(actual, required) || is_alias(actual, required) || is_alias(required, actual)
}

/// Why a table does not serve.
#[derive(Debug)]
pub enum SchemaError {
    /// The table has no such column.
    MissingColumn { column: String, required: String },
    /// The column has another type.
    TypeMismatch { column: String, actual: String, required: String },
}

/// Why a message gives no row.
#[derive(Debug)]
pub enum InsertError {
    /// The payload is no JSON.
    NotJson(String),
    /// The decoded value is no object.
    NotAnObject,
}

/// Inserts every message as a row of a table.
pub struct PostgresSink {
    table: String,
    connection_string: String,
    required_schema: Option<Vec<(String, String)>>,
}

/// The mathematical value of a [`PostgresSink`].
pub ghost struct PostgresSinkView {
    pub table: Seq<char>,
    pub connection_string: Seq<char>,
    pub required_schema: Option<Seq<(Seq<char>, Seq<char>)>>,
}

impl View for PostgresSink {
    type V = PostgresSinkView;

    closed spec fn view(&self) -> PostgresSinkView {
        PostgresSinkView {
            table: self.table@,
            connection_string: self.connection_string@,
            required_schema: match self.required_schema {
                Some(columns) => Some(pairs_view(columns@)),
                None => None,
            },
        }
    }
}

/// The columns of a table with their types in lower case.
pub open spec fn lowered(columns: Seq<(Seq<char>, Seq<char>)>) -> Seq<(Seq<char>, Seq<char>)> {
    Seq::new(columns.len(), |i: int| (columns[i].0, lowercase(columns[i].1)))
}

/// Whether the table with the columns `actual` fails the required column
/// `required`: it has none of that name, or one of a type that does not serve.
pub open spec fn column_fails(actual: Seq<(Seq<char>, Seq<char>)>, required: (Seq<char>, Seq<char>)) -> bool {
    match lookup(lowered(actual), required.0) {
        Some(kind) => !types_match(lowercase(kind), lowercase(required.1)),
        None => true,
    }
}

/// Position of the first required column that the table fails, from `from`
/// on; the number of required columns where it fails none.
pub open spec fn first_failing(
    actual: Seq<(Seq<char>, Seq<char>)>,
    required: Seq<(Seq<char>, Seq<char>)>,
    from: int,
) -> int
    decreases required.len() - from,
{
    if from < 0 || from >= required.len() {
        required.len() as int
    } else if column_fails(actual, required[from]) {
        from
    } else {
        first_failing(actual, required, from + 1)
    }
}

/// The placeholders `$1` to `$n`.
pub open spec fn placeholders(n: nat) -> Seq<Seq<char>> {
    Seq::new(n, |i: int| "$"@ + decimal((i + 1) as nat))
}

/// The statement that inserts one row with the columns given.
pub open spec fn insert_sql(table: Seq<char>, columns: Seq<Seq<char>>) -> Seq<char> {
    "INSERT INTO "@ + table + " ("@ + join(columns, ", "@) + ") VALUES ("@ + join(
        placeholders(columns.len()),
        ", "@,
    ) + ")"@
}

/// The row that a message gives: the fields of its decoded value, or of its
/// payload read as JSON where nothing is decoded.
pub open spec fn row_of(msg: MessageView) -> Option<Seq<(Seq<char>, JsonView)>> {
    let data = match msg.parsed {
        Some(doc) => Some(doc),
        None => decoded_bytes(msg.payload),
    };
    match data {
        Some(JsonView::Object(fields)) => Some(fields),
        _ => None,
    }
}

impl PostgresSink {
    /// A sink for `table` in the database at `connection_string`. Where
    /// `schema` names columns, the table has to have them.
    pub fn new(connection_string: String, table: String, schema: Option<Vec<(String, String)>>) -> (r:
        PostgresSink)
        ensures
            r@ == (PostgresSinkView {
                table: table@,
                connection_string: connection_string@,
                required_schema: match schema {
                    Some(columns) => Some(pairs_view(columns@)),
                    None => None,
                },
            }),
    {
        PostgresSink { table, connection_string, required_schema: schema }
    }

    /// Where to connect.
    pub fn connection_string(&self) -> (r: &str)
        ensures
            r@ == self@.connection_string,
    {
        self.connection_string.as_str()
    }

    /// Whether the table has to have certain columns.
    pub fn has_required_schema(&self) -> (r: bool)
        ensures
            r == self@.required_schema.is_some(),
    {
        self.required_schema.is_some()
    }

    /// The table that the rows go to.
    pub fn table(&self) -> (r: &str)
        ensures
            r@ == self@.table,
    {
        self.table.as_str()
    }

    /// Whether a column of type `actual` serves where `required` is asked
    /// for, whatever the case of the two names.
    pub fn types_are_compatible(actual: &str, required: &str) -> (r: bool)
        ensures
            r == types_match(lowercase(actual@), lowercase(required@)),
    {
        let actual = to_lowercase(actual);
        let required = to_lowercase(required);
        lower_types_match(actual.as_str(), required.as_str())
    }

    /// Holds the columns of the table, as the database reports them, against
    /// the columns required, in their order: the first one that is missing
    /// or of a type that does not serve is the error.
    pub fn validate_table_schema(&self, actual: &Vec<(String, String)>) -> (r: Result<
        (),
        SchemaError,
    >)
        ensures
            match self@.required_schema {
                None => r is Ok,
                Some(required) => {
                    let at = first_failing(pairs_view(actual@), required, 0);
                    &&& 0 <= at <= required.len()
                    &&& r is Ok <==> at == required.len()
                    &&& r matches Err(SchemaError::MissingColumn { column, required: kind })
                        ==> column@ == required[at].0 && kind@ == required[at].1 && lookup(
                        lowered(pairs_view(actual@)),
                        column@,
                    ) is None
                    &&& r matches Err(SchemaError::TypeMismatch { column, actual: found, required: kind })
                        ==> column@ == required[at].0 && kind@ == required[at].1 && lookup(
                        lowered(pairs_view(actual@)),
                        column@,
                    ) == Some(found@)
                },
            },
    {
        let required = match &self.required_schema {
            Some(required) => required,
            None => {
                return Ok(());
            },
        };
        let ghost wanted = pairs_view(required@);
        let ghost table = lowered(pairs_view(actual@));
        let mut i: usize = 0;
        while i < required.len()
            invariant
                i <= required.len(),
                wanted == pairs_view(required@),
                table == lowered(pairs_view(actual@)),
                self@.required_schema == Some(wanted),
                first_failing(pairs_view(actual@), wanted, 0) == first_failing(
                    pairs_view(actual@),
                    wanted,
                    i as int,
                ),
            decreases required.len() - i,
        {
            let column = required[i].0.as_str();
            let kind = required[i].1.as_str();
            let mut j: usize = actual.len();
            let mut found: Option<String> = None;
            proof {
                assert(table.take(j as int) =~= table);
            }
            while j > 0 && found.is_none()
                invariant
                    j <= actual.len(),
                    table == lowered(pairs_view(actual@)),
                    match found {
                        Some(text) => lookup(table, column@) == Some(text@),
                        None => crate::assoc::last_index(table, column@)
                            == crate::assoc::last_index(table.take(j as int), column@),
                    },
                decreases j,
            {
                j -= 1;
                proof {
                    assert(table.take(j + 1).drop_last() =~= table.take(j as int));
                }
                if str_eq(actual[j].0.as_str(), column) {
                    found = Some(to_lowercase(actual[j].1.as_str()));
                }
            }
            match found {
                Some(text) => {
                    if !PostgresSink::types_are_compatible(text.as_str(), kind) {
                        return Err(
                            SchemaError::TypeMismatch {
                                column: required[i].0.clone(),
                                actual: text,
                                required: required[i].1.clone(),
                            },
                        );
                    }
                },
                None => {
                    return Err(
                        SchemaError::MissingColumn {
                            column: required[i].0.clone(),
                            required: required[i].1.clone(),
                        },
                    );
                },
            }
            i += 1;
        }
        Ok(())
    }

    /// The statement that inserts one row with the columns given.
    pub fn insert_statement(&self, columns: &Vec<String>) -> (r: String)
        ensures
            r@ == insert_sql(self@.table, texts_view(columns@)),
    {
        let mut marks: Vec<String> = Vec::new();
        let mut i: usize = 0;
        while i < columns.len()
            invariant
                i <= columns.len(),
                marks.len() == i,
                forall|j: int| 0 <= j < i ==> (#[trigger] marks[j])@ == "$"@ + decimal((j + 1) as nat),
            decreases columns.len() - i,
        {
            let mut mark = String::from_str("$");
            mark.append(decimal_string(i as u64 + 1).as_str());
            marks.push(mark);
            i += 1;
        }
        proof {
            assert(texts_view(marks@) =~= placeholders(columns.len() as nat));
        }
        let mut sql = String::from_str("INSERT INTO ");
        sql.append(self.table.as_str());
        sql.append(" (");
        sql.append(joined(columns, ", ").as_str());
        sql.append(") VALUES (");
        sql.append(joined(&marks, ", ").as_str());
        sql.append(")");
        sql
    }

    /// The row that `msg` gives.
    pub fn row(&self, msg: &Message) -> (r: Result<Vec<(String, Json)>, InsertError>)
        ensures
            match r {
                Ok(fields) => row_of(msg@) == Some(fields_view(fields@)),
                Err(_) => row_of(msg@) is None,
            },
    {
        let data = match &msg.parsed {
            Some(doc) => doc.clone(),
            None => match from_bytes(msg.payload.as_slice()) {
                Ok(doc) => doc,
                Err(e) => {
                    return Err(InsertError::NotJson(e.message));
                },
            },
        };
        match data {
            Json::Object(fields) => {
                proof {
                    lemma_object_view(fields);
                }
                Ok(fields)
            },
            _ => Err(InsertError::NotAnObject),
        }
    }
}

} // verus!
