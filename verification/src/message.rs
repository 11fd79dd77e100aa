//! The message envelope that flows from a source through the stages to the
//! sinks.

use crate::assoc::{as_map, last_index, lemma_upsert_as_map};
use crate::json::{Json, JsonView};
use crate::text::str_eq;
use vstd::prelude::*;

verus! {

/// How the payload of a message is to be read.
#[derive(Clone, Copy, Debug, PartialEq, Eq, Structural)]
pub enum Format {
    Json,
    Csv,
    Yaml,
    Avro,
    Parquet,
    Text,
    Binary,
}

/// An instant of the wall clock: whole seconds since the Unix epoch and the
/// nanoseconds within the second.
#[derive(Clone, Copy, Debug, PartialEq, Eq, Structural)]
pub struct Timestamp {
    pub secs: i64,
    pub nanos: u32,
}

/// Reads the wall clock with `chrono::Utc::now` and hands back its seconds
/// and nanoseconds. Nothing is claimed of the reading. The call panics
/// where the system clock stands before the year 1970.
#[verifier::external_body]
fn wall_clock() -> (r: Timestamp) {
    let now = chrono::Utc::now();
    Timestamp { secs: now.timestamp(), nanos: now.timestamp_subsec_nanos() }
}

impl Timestamp {
    /// The current instant of the wall clock.
    pub fn now() -> (r: Timestamp) {
        wall_clock()
    }
}

/// A mapping from text to text with unique keys; the order of its entries
/// carries no meaning.
#[derive(Debug)]
pub struct StringMap {
    entries: Vec<(String, String)>,
}

/// The keys and values of `entries`, as text.
pub open spec fn pairs_view(entries: Seq<(String, String)>) -> Seq<(Seq<char>, Seq<char>)> {
    Seq::new(entries.len(), |i: int| (entries[i].0@, entries[i].1@))
}

impl View for StringMap {
    type V = Map<Seq<char>, Seq<char>>;

    closed spec fn view(&self) -> Map<Seq<char>, Seq<char>> {
        as_map(pairs_view(self.entries@))
    }
}

impl StringMap {
    /// The map without entries.
    pub fn new() -> (r: StringMap)
        ensures
            r@ == Map::<Seq<char>, Seq<char>>::empty(),
    {
        StringMap { entries: Vec::new() }
    }

    /// Position of the entry that holds `key`.
    fn position(&self, key: &str) -> (r: Option<usize>)
        ensures
            match r {
                Some(i) => last_index(pairs_view(self.entries@), key@) == Some(i as int) && i
                    < self.entries.len(),
                None => last_index(pairs_view(self.entries@), key@) is None,
            },
    {
        let ghost all = pairs_view(self.entries@);
        let mut i: usize = self.entries.len();
        proof {
            assert(all.take(i as int) =~= all);
        }
        while i > 0
            invariant
                i <= self.entries.len(),
                all == pairs_view(self.entries@),
                last_index(all, key@) == last_index(all.take(i as int), key@),
            decreases i,
        {
            i -= 1;
            proof {
                assert(all.take(i + 1).drop_last() =~= all.take(i as int));
            }
            if str_eq(self.entries[i].0.as_str(), key) {
                return Some(i);
            }
        }
        None
    }

    /// The value stored under `key`.
    pub fn get(&self, key: &str) -> (r: Option<&String>)
        ensures
            match r {
                Some(value) => self@.contains_key(key@) && self@[key@] == value@,
                None => !self@.contains_key(key@),
            },
    {
        match self.position(key) {
            Some(i) => Some(&self.entries[i].1),
            None => None,
        }
    }

    /// Stores `value` under `key`, in place of what was stored there.
    pub fn insert(&mut self, key: String, value: String)
        ensures
            final(self)@ == old(self)@.insert(key@, value@),
    {
        let ghost before = pairs_view(self.entries@);
        match self.position(key.as_str()) {
            Some(i) => {
                self.entries.set(i, (key, value));
                proof {
                    assert(pairs_view(self.entries@) =~= before.update(i as int, (key@, value@)));
                }
            },
            None => {
                self.entries.push((key, value));
                proof {
                    assert(pairs_view(self.entries@) =~= before.push((key@, value@)));
                }
            },
        }
        proof {
            lemma_upsert_as_map(before, key@, value@);
        }
    }

    /// Number of stored entries.
    pub fn len(&self) -> (r: usize)
        ensures
            r == self.spec_len(),
    {
        self.entries.len()
    }

    /// The entry at position `i`, in an order that carries no meaning.
    pub fn entry(&self, i: usize) -> (r: (&String, &String))
        requires
            i < self.spec_len(),
        ensures
            self@.contains_key(r.0@),
    {
        proof {
            crate::assoc::lemma_last_index_bounds(
                pairs_view(self.entries@),
                self.entries[i as int].0@,
            );
            let all = pairs_view(self.entries@);
            if last_index(all, self.entries[i as int].0@) is None {
                assert(all[i as int].0 != self.entries[i as int].0@);
            }
        }
        (&self.entries[i].0, &self.entries[i].1)
    }

    /// Number of stored entries, as `len` returns it.
    pub closed spec fn spec_len(&self) -> nat {
        self.entries.len() as nat
    }
}

impl Clone for StringMap {
    fn clone(&self) -> (r: StringMap)
        ensures
            r@ == self@,
    {
        let mut entries: Vec<(String, String)> = Vec::new();
        let mut i: usize = 0;
        while i < self.entries.len()
            invariant
                i <= self.entries.len(),
                entries.len() == i,
                forall|j: int|
                    0 <= j < i ==> entries[j].0@ == self.entries[j].0@ && entries[j].1@
                        == self.entries[j].1@,
            decreases self.entries.len() - i,
        {
            entries.push((self.entries[i].0.clone(), self.entries[i].1.clone()));
            i += 1;
        }
        proof {
            assert(pairs_view(entries@) =~= pairs_view(self.entries@));
        }
        StringMap { entries }
    }
}

/// The unit of data flowing through the system.
#[derive(Debug)]
pub struct Message {
    /// Correlation id assigned by the caller.
    pub id: Option<String>,
    /// Key used for deduplication and routing.
    pub key: Option<Vec<u8>>,
    /// Wire form of the record.
    pub payload: Vec<u8>,
    /// How `payload` is to be read.
    pub format: Option<Format>,
    /// Decoded form of `payload`, where one is cached.
    pub parsed: Option<Json>,
    /// When the producing source took the record in.
    pub timestamp: Timestamp,
    /// Transport-level metadata.
    pub headers: StringMap,
    /// Metadata passed from stage to stage, never sent to the wire.
    pub meta: StringMap,
}

/// The mathematical value of a [`Message`].
pub ghost struct MessageView {
    pub id: Option<Seq<char>>,
    pub key: Option<Seq<u8>>,
    pub payload: Seq<u8>,
    pub format: Option<Format>,
    pub parsed: Option<JsonView>,
    pub timestamp: Timestamp,
    pub headers: Map<Seq<char>, Seq<char>>,
    pub meta: Map<Seq<char>, Seq<char>>,
}

impl View for Message {
    type V = MessageView;

    open spec fn view(&self) -> MessageView {
        MessageView {
            id: match self.id {
                Some(id) => Some(id@),
                None => None,
            },
            key: match self.key {
                Some(key) => Some(key@),
                None => None,
            },
            payload: self.payload@,
            format: self.format,
            parsed: match self.parsed {
                Some(parsed) => Some(parsed@),
                None => None,
            },
            timestamp: self.timestamp,
            headers: self.headers@,
            meta: self.meta@,
        }
    }
}

/// The views of `messages`, in order.
pub open spec fn messages_view(messages: Seq<Message>) -> Seq<MessageView> {
    Seq::new(messages.len(), |i: int| messages[i]@)
}

/// The message that carries a JSON document and nothing else: no id, no key,
/// no headers and no metadata.
pub open spec fn json_message(payload: Seq<u8>, parsed: Option<JsonView>, timestamp: Timestamp) -> MessageView {
    MessageView {
        id: None,
        key: None,
        payload,
        format: Some(Format::Json),
        parsed,
        timestamp,
        headers: Map::empty(),
        meta: Map::empty(),
    }
}

impl Message {
    /// A message that carries a JSON document and nothing else.
    pub fn json(payload: Vec<u8>, parsed: Option<Json>, timestamp: Timestamp) -> (r: Message)
        ensures
            r@ == json_message(
                payload@,
                match parsed {
                    Some(v) => Some(v@),
                    None => None,
                },
                timestamp,
            ),
    {
        Message {
            id: None,
            key: None,
            payload,
            format: Some(Format::Json),
            parsed,
            timestamp,
            headers: StringMap::new(),
            meta: StringMap::new(),
        }
    }
}

impl Clone for Message {
    fn clone(&self) -> (r: Message)
        ensures
            r@ == self@,
    {
        Message {
            id: match &self.id {
                Some(id) => Some(id.clone()),
                None => None,
            },
            key: match &self.key {
                Some(key) => Some(key.clone()),
                None => None,
            },
            payload: self.payload.clone(),
            format: self.format,
            parsed: match &self.parsed {
                Some(parsed) => Some(parsed.clone()),
                None => None,
            },
            timestamp: self.timestamp,
            headers: self.headers.clone(),
            meta: self.meta.clone(),
        }
    }
}

} // verus!
