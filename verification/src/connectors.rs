//! What the sources make of what they read: the records of a document, of a
//! line, of a Kafka message.

use crate::json::{items_view, lemma_array_view, Json, JsonView};
use crate::message::{json_message, Format, Message, MessageView, StringMap, Timestamp};
use crate::text::{lines, lines_of, texts_view, trim, trimmed};
use crate::wire::{decoded_text, encoded_text, from_text, to_payload};
use vstd::prelude::*;
use vstd::string::StringExecFns;

verus! {

/// A record as a source decoded it: its wire form and its decoded value.
#[derive(Debug)]
pub struct Record {
    pub payload: Vec<u8>,
    pub parsed: Json,
}

/// The mathematical value of a [`Record`].
pub ghost struct RecordView {
    pub payload: Seq<u8>,
    pub parsed: JsonView,
}

impl View for Record {
    type V = RecordView;

    open spec fn view(&self) -> RecordView {
        RecordView { payload: self.payload@, parsed: self.parsed@ }
    }
}

/// The views of `records`, in order.
pub open spec fn records_view(records: Seq<Record>) -> Seq<RecordView> {
    Seq::new(records.len(), |i: int| records[i]@)
}

impl Record {
    /// The message that carries this record, taken in at `now`.
    pub fn into_message(self, now: Timestamp) -> (r: Message)
        ensures
            r@ == json_message(self.payload@, Some(self.parsed@), now),
    {
        Message::json(self.payload, Some(self.parsed), now)
    }
}

/// The record of a value that was found inside a document: its payload is
/// the value written anew as JSON.
pub open spec fn rewritten(value: JsonView) -> RecordView {
    RecordView { payload: vstd::utf8::encode_utf8(encoded_text(value)), parsed: value }
}

/// The records of a text read as one JSON document, without the whitespace
/// around it: one for each element where the document is an array, else one
/// for the document. Nothing where the text is no JSON document.
pub open spec fn document_records(text: Seq<char>) -> Option<Seq<RecordView>> {
    match decoded_text(trim(text)) {
        Some(JsonView::Array(items)) => Some(Seq::new(items.len(), |i: int| rewritten(items[i]))),
        Some(other) => Some(seq![rewritten(other)]),
        None => None,
    }
}

/// Reads `text` as one JSON document.
pub fn whole_document(text: &str) -> (r: Option<Vec<Record>>)
    ensures
        match r {
            Some(records) => document_records(text@) == Some(records_view(records@)),
            None => document_records(text@) is None,
        },
{
    let body = trimmed(text);
    match from_text(body.as_str()) {
        Ok(Json::Array(items)) => {
            proof {
                lemma_array_view(items);
            }
            let ghost values = items_view(items@);
            let mut rest = items;
            let mut records: Vec<Record> = Vec::new();
            let n = rest.len();
            let mut i: usize = 0;
            while i < n
                invariant
                    i <= n,
                    n == values.len(),
                    rest.len() == n - i,
                    items_view(rest@) == values.skip(i as int),
                    records.len() == i,
                    forall|j: int| 0 <= j < i ==> (#[trigger] records[j])@ == rewritten(values[j]),
                decreases n - i,
            {
                let ghost waiting = rest@;
                let value = rest.remove(0);
                proof {
                    assert(items_view(waiting)[0] == values.skip(i as int)[0]);
                    assert forall|j: int| 0 <= j < rest.len() implies items_view(rest@)[j]
                        == values.skip(i + 1)[j] by {
                        assert(items_view(waiting)[j + 1] == values.skip(i as int)[j + 1]);
                    }
                }
                let payload = to_payload(&value);
                records.push(Record { payload, parsed: value });
                i += 1;
            }
            Some(records)
        },
        Ok(other) => {
            let payload = to_payload(&other);
            let mut records: Vec<Record> = Vec::new();
            records.push(Record { payload, parsed: other });
            Some(records)
        },
        Err(_) => None,
    }
}

/// The record of a line of newline-delimited JSON: its payload is the line
/// as it stands.
pub open spec fn line_record(line: Seq<char>) -> Option<RecordView> {
    match decoded_text(line) {
        Some(value) => Some(RecordView { payload: vstd::utf8::encode_utf8(line), parsed: value }),
        None => None,
    }
}

/// Why the lines of a source were not all read.
#[derive(Debug)]
pub struct DecodeError {
    /// Position of the line that is no JSON, counted from zero.
    pub line: usize,
    /// What the decoder said of it.
    pub message: String,
}

/// What a source made of its lines: the records of the lines before the
/// first one that is no JSON, and that line's error where there is one.
#[derive(Debug)]
pub struct Decoded {
    pub records: Vec<Record>,
    pub error: Option<DecodeError>,
}

/// Whether `line` holds nothing but whitespace.
pub open spec fn is_blank(line: Seq<char>) -> bool {
    trim(line).len() == 0
}

/// Whether line `i` is passed over without being read.
pub open spec fn skipped(lines: Seq<Seq<char>>, i: int, skip_blank: bool) -> bool {
    skip_blank && is_blank(lines[i])
}

/// The records of the first `n` lines, in order; blank lines give none
/// where they are skipped.
pub open spec fn line_records(lines: Seq<Seq<char>>, skip_blank: bool, n: nat) -> Seq<RecordView>
    decreases n,
{
    if n == 0 || n > lines.len() {
        Seq::empty()
    } else if skipped(lines, n - 1, skip_blank) {
        line_records(lines, skip_blank, (n - 1) as nat)
    } else {
        match line_record(lines[n - 1]) {
            Some(record) => line_records(lines, skip_blank, (n - 1) as nat).push(record),
            None => line_records(lines, skip_blank, (n - 1) as nat),
        }
    }
}

/// Whether line `i` is read and is no JSON.
pub open spec fn fails_at(lines: Seq<Seq<char>>, skip_blank: bool, i: int) -> bool {
    0 <= i < lines.len() && !skipped(lines, i, skip_blank) && line_record(lines[i]) is None
}

/// Position of the first line that is read and is no JSON; the number of
/// lines where every line that is read is JSON.
pub open spec fn first_failure(lines: Seq<Seq<char>>, skip_blank: bool, from: int) -> int
    decreases lines.len() - from,
{
    if from < 0 || from >= lines.len() {
        lines.len() as int
    } else if fails_at(lines, skip_blank, from) {
        from
    } else {
        first_failure(lines, skip_blank, from + 1)
    }
}

/// The texts of `lines`, in order.
pub open spec fn lines_view(lines: Seq<String>) -> Seq<Seq<char>> {
    Seq::new(lines.len(), |i: int| lines[i]@)
}

/// Reads `lines` as newline-delimited JSON up to the first line that is none.
pub fn decode_lines(lines: &Vec<String>, skip_blank: bool) -> (r: Decoded)
    ensures
        ({
            let all = lines_view(lines@);
            let stop = first_failure(all, skip_blank, 0);
            &&& records_view(r.records@) == line_records(all, skip_blank, stop as nat)
            &&& 0 <= stop <= all.len()
            &&& match r.error {
                Some(e) => e.line == stop && stop < all.len(),
                None => stop == all.len(),
            }
        }),
{
    let ghost all = lines_view(lines@);
    let mut records: Vec<Record> = Vec::new();
    let mut i: usize = 0;
    while i < lines.len()
        invariant
            i <= lines.len(),
            all == lines_view(lines@),
            first_failure(all, skip_blank, 0) == first_failure(all, skip_blank, i as int),
            records_view(records@) == line_records(all, skip_blank, i as nat),
        decreases lines.len() - i,
    {
        let line = lines[i].as_str();
        let blank = skip_blank && trimmed(line).as_str().unicode_len() == 0;
        if !blank {
            match from_text(line) {
                Ok(value) => {
                    let payload = line.as_bytes_vec();
                    records.push(Record { payload, parsed: value });
                },
                Err(e) => {
                    return Decoded {
                        records,
                        error: Some(DecodeError { line: i, message: e.message }),
                    };
                },
            }
        }
        i += 1;
    }
    Decoded { records, error: None }
}

/// Whether `r` is what a source makes of the whole of what it read: the
/// records of the text as one JSON document where it is one; else the
/// records of its lines up to the first that is no JSON, with that line's
/// position.
pub open spec fn text_read(text: Seq<char>, skip_blank: bool, r: Decoded) -> bool {
    match document_records(text) {
        Some(records) => records_view(r.records@) == records && r.error is None,
        None => {
            let all = lines(text);
            let stop = first_failure(all, skip_blank, 0);
            &&& records_view(r.records@) == line_records(all, skip_blank, stop as nat)
            &&& match r.error {
                Some(e) => e.line == stop && stop < all.len(),
                None => stop == all.len(),
            }
        },
    }
}

/// Reads the whole of what a source holds: as one JSON document first, and
/// line by line as newline-delimited JSON where it is none.
pub fn decode_text(text: &str, skip_blank: bool) -> (r: Decoded)
    ensures
        text_read(text@, skip_blank, r),
{
    match whole_document(text) {
        Some(records) => Decoded { records, error: None },
        None => {
            let all = lines_of(text);
            proof {
                assert(lines_view(all@) =~= texts_view(all@));
            }
            decode_lines(&all, skip_blank)
        },
    }
}

/// Reads a file of JSON.
pub struct FileSource {
    pub path: String,
}

impl FileSource {
    /// What the source sends once started on `text`, the whole of its file:
    /// the records of the one JSON document that it is, else those of its
    /// lines, every one of which has to be JSON.
    pub fn start(&self, text: &str) -> (r: Decoded)
        ensures
            text_read(text@, false, r),
    {
        decode_text(text, false)
    }

    /// The records of the lines of the file, where the file as a whole is no
    /// JSON document: every line has to be JSON.
    pub fn decode_lines(&self, lines: &Vec<String>) -> (r: Decoded)
        ensures
            ({
                let all = lines_view(lines@);
                let stop = first_failure(all, false, 0);
                &&& records_view(r.records@) == line_records(all, false, stop as nat)
                &&& match r.error {
                    Some(e) => e.line == stop && stop < all.len(),
                    None => stop == all.len(),
                }
            }),
    {
        decode_lines(lines, false)
    }
}

/// Reads JSON from the standard input.
pub struct PipeSource;

impl PipeSource {
    /// The source that reads the standard input.
    pub fn new() -> (r: PipeSource)
        ensures
            r == PipeSource,
    {
        PipeSource
    }

    /// What the source sends once started on `text`, the whole of the
    /// standard input: the records of the one JSON document that it is, else
    /// those of its lines, where blank lines are passed over and every other
    /// line has to be JSON.
    pub fn start(&self, text: &str) -> (r: Decoded)
        ensures
            text_read(text@, true, r),
    {
        decode_text(text, true)
    }

    /// The records of the lines read from the standard input, where the
    /// input as a whole is no JSON document: blank lines are passed over and
    /// every other line has to be JSON.
    pub fn decode_lines(&self, lines: &Vec<String>) -> (r: Decoded)
        ensures
            ({
                let all = lines_view(lines@);
                let stop = first_failure(all, true, 0);
                &&& records_view(r.records@) == line_records(all, true, stop as nat)
                &&& match r.error {
                    Some(e) => e.line == stop && stop < all.len(),
                    None => stop == all.len(),
                }
            }),
    {
        decode_lines(lines, true)
    }
}

/// Reads the messages of a Kafka topic.
pub struct KafkaSource {
    pub brokers: String,
    pub topic: String,
    pub group_id: String,
}

/// The message that a Kafka source makes of what it consumed: the bytes as
/// they came, not decoded.
pub open spec fn consumed_message(key: Option<Seq<u8>>, payload: Seq<u8>, now: Timestamp) -> MessageView {
    MessageView {
        id: None,
        key,
        payload,
        format: Some(Format::Binary),
        parsed: None,
        timestamp: now,
        headers: Map::empty(),
        meta: Map::empty(),
    }
}

impl KafkaSource {
    /// A source that consumes `topic` at `brokers` as a member of the group
    /// `group_id`.
    pub fn new(brokers: String, topic: String, group_id: String) -> (r: KafkaSource)
        ensures
            r.brokers == brokers,
            r.topic == topic,
            r.group_id == group_id,
    {
        KafkaSource { brokers, topic, group_id }
    }

    /// The settings of the consumer: where to connect, the group to join,
    /// and to start with the earliest message where the group has no place yet.
    pub fn consumer_settings(&self) -> (r: Vec<(String, String)>)
        ensures
            crate::message::pairs_view(r@) == seq![
                ("bootstrap.servers"@, self.brokers@),
                ("group.id"@, self.group_id@),
                ("auto.offset.reset"@, "earliest"@),
            ],
    {
        let mut settings: Vec<(String, String)> = Vec::new();
        settings.push((String::from_str("bootstrap.servers"), self.brokers.clone()));
        settings.push((String::from_str("group.id"), self.group_id.clone()));
        settings.push((String::from_str("auto.offset.reset"), String::from_str("earliest")));
        settings
    }

    /// The message for one consumed record, taken in at `now`.
    pub fn message(key: Option<Vec<u8>>, payload: Vec<u8>, now: Timestamp) -> (r: Message)
        ensures
            r@ == consumed_message(
                match key {
                    Some(key) => Some(key@),
                    None => None,
                },
                payload@,
                now,
            ),
    {
        Message {
            id: None,
            key,
            payload,
            format: Some(Format::Binary),
            parsed: None,
            timestamp: now,
            headers: StringMap::new(),
            meta: StringMap::new(),
        }
    }
}

} // verus!
