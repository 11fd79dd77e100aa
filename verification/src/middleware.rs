//! The middleware chain of a bridge: stateful stages that each take one
//! message and forward it, hold it back for a while, or drop it.

use crate::clock::{elapsed, elapsed_nanos, Clock, Tick};
use crate::json::{items_view, lemma_array_view, Json, JsonView};
use crate::message::{json_message, messages_view, Message, MessageView, StringMap, Timestamp};
use crate::schema::{missing_required, missing_required_field, optional_view};
use crate::text::{decimal, decimal_string};
use crate::wire::{decoded_bytes, encoded_bytes, from_bytes, to_bytes};
use vstd::prelude::*;
use vstd::string::StringExecFns;

verus! {

/// Why a stage did not forward a message.
#[derive(Debug)]
pub enum DropReason {
    /// A message with the same key was seen before.
    Duplicate,
    /// The message is held in a batch that is not due yet.
    Held,
    /// The decoded value lacks this required field.
    MissingField(String),
}

/// The mathematical value of a [`DropReason`].
pub ghost enum DropReasonView {
    Duplicate,
    Held,
    MissingField(Seq<char>),
}

impl View for DropReason {
    type V = DropReasonView;

    open spec fn view(&self) -> DropReasonView {
        match self {
            DropReason::Duplicate => DropReasonView::Duplicate,
            DropReason::Held => DropReasonView::Held,
            DropReason::MissingField(name) => DropReasonView::MissingField(name@),
        }
    }
}

/// What a stage decided for one message.
#[derive(Debug)]
pub enum Outcome {
    /// Hand the message to the next stage.
    Forward(Message),
    /// Hand the message to the next stage once this many nanoseconds have passed.
    ForwardAfter(Message, u128),
    /// Nothing goes on for this input.
    Drop(DropReason),
}

/// The mathematical value of an [`Outcome`].
pub ghost enum OutcomeView {
    Forward(MessageView),
    ForwardAfter(MessageView, nat),
    Drop(DropReasonView),
}

impl View for Outcome {
    type V = OutcomeView;

    open spec fn view(&self) -> OutcomeView {
        match self {
            Outcome::Forward(m) => OutcomeView::Forward(m@),
            Outcome::ForwardAfter(m, nanos) => OutcomeView::ForwardAfter(m@, *nanos as nat),
            Outcome::Drop(reason) => OutcomeView::Drop(reason@),
        }
    }
}

/// A stage of the middleware chain. `tick` is the clock reading under which
/// the message is handled.
pub trait Middleware {
    fn handle(&mut self, msg: Message, tick: &Tick) -> Outcome;
}

// ---------------------------------------------------------------------------
// Deduplicator
// ---------------------------------------------------------------------------

/// Drops every message whose key was seen before. The keys are kept for the
/// lifetime of the stage.
pub struct Deduplicator {
    seen: Vec<Vec<u8>>,
}

impl View for Deduplicator {
    type V = Set<Seq<u8>>;

    /// The keys seen so far.
    closed spec fn view(&self) -> Set<Seq<u8>> {
        Set::new(|k: Seq<u8>| exists|i: int| 0 <= i < self.seen.len() && (#[trigger] self.seen[i])@ == k)
    }
}

/// Whether the deduplicator lets `msg` pass when it has seen `seen`.
pub open spec fn dedup_passes(seen: Set<Seq<u8>>, msg: MessageView) -> bool {
    match msg.key {
        Some(k) => !seen.contains(k),
        None => true,
    }
}

/// The keys seen once `msg` was handled.
pub open spec fn dedup_seen(seen: Set<Seq<u8>>, msg: MessageView) -> Set<Seq<u8>> {
    match msg.key {
        Some(k) => seen.insert(k),
        None => seen,
    }
}

/// What the deduplicator decides for `msg`.
pub open spec fn dedup_outcome(seen: Set<Seq<u8>>, msg: MessageView) -> OutcomeView {
    if dedup_passes(seen, msg) {
        OutcomeView::Forward(msg)
    } else {
        OutcomeView::Drop(DropReasonView::Duplicate)
    }
}

/// Whether two byte vectors hold the same bytes.
fn same_bytes(a: &Vec<u8>, b: &Vec<u8>) -> (r: bool)
    ensures
        r == (a@ == b@),
{
    if a.len() != b.len() {
        return false;
    }
    let mut i: usize = 0;
    while i < a.len()
        invariant
            a.len() == b.len(),
            i <= a.len(),
            forall|j: int| 0 <= j < i ==> a[j] == b[j],
        decreases a.len() - i,
    {
        if a[i] != b[i] {
            return false;
        }
        i += 1;
    }
    assert(a@ =~= b@);
    true
}

impl Deduplicator {
    /// A deduplicator that has seen no key.
    pub fn new() -> (r: Deduplicator)
        ensures
            r@ == Set::<Seq<u8>>::empty(),
    {
        Deduplicator { seen: Vec::new() }
    }

    /// Whether `key` was seen.
    pub fn has_seen(&self, key: &Vec<u8>) -> (r: bool)
        ensures
            r == self@.contains(key@),
    {
        let mut i: usize = 0;
        while i < self.seen.len()
            invariant
                i <= self.seen.len(),
                forall|j: int| 0 <= j < i ==> (#[trigger] self.seen[j])@ != key@,
            decreases self.seen.len() - i,
        {
            if same_bytes(&self.seen[i], key) {
                return true;
            }
            i += 1;
        }
        false
    }
}

impl Middleware for Deduplicator {
    fn handle(&mut self, msg: Message, tick: &Tick) -> (r: Outcome)
        ensures
            final(self)@ == dedup_seen(old(self)@, msg@),
            r@ == dedup_outcome(old(self)@, msg@),
    {
        match &msg.key {
            Some(key) => {
                if self.has_seen(key) {
                    assert(self@.insert(key@) =~= self@);
                    return Outcome::Drop(DropReason::Duplicate);
                }
                let ghost before = *self;
                self.seen.push(key.clone());
                proof {
                    assert forall|k: Seq<u8>| self@.contains(k) <==> before@.insert(key@).contains(k) by {
                        if before@.contains(k) {
                            let i = choose|i: int|
                                0 <= i < before.seen.len() && (#[trigger] before.seen[i])@ == k;
                            assert(self.seen[i]@ == k);
                        }
                        if k == key@ {
                            assert(self.seen[before.seen.len() as int]@ == k);
                        }
                        if self@.contains(k) {
                            let i = choose|i: int|
                                0 <= i < self.seen.len() && (#[trigger] self.seen[i])@ == k;
                            if i < before.seen.len() {
                                assert(before.seen[i]@ == k);
                            }
                        }
                    }
                    assert(self@ =~= before@.insert(key@));
                }
            },
            None => {},
        }
        Outcome::Forward(msg)
    }
}

/// The keys seen once every message of `msgs` was handled, starting with none.
pub open spec fn seen_after(msgs: Seq<MessageView>) -> Set<Seq<u8>>
    decreases msgs.len(),
{
    if msgs.len() == 0 {
        Set::empty()
    } else {
        dedup_seen(seen_after(msgs.drop_last()), msgs.last())
    }
}

/// A key was seen exactly when one of the messages handled carried it.
pub proof fn lemma_seen_after(msgs: Seq<MessageView>, k: Seq<u8>)
    ensures
        seen_after(msgs).contains(k) <==> exists|i: int|
            0 <= i < msgs.len() && (#[trigger] msgs[i]).key == Some(k),
    decreases msgs.len(),
{
    if msgs.len() > 0 {
        let front = msgs.drop_last();
        lemma_seen_after(front, k);
        if seen_after(msgs).contains(k) {
            if msgs.last().key == Some(k) {
                assert(msgs[msgs.len() - 1].key == Some(k));
            } else {
                let i = choose|i: int| 0 <= i < front.len() && (#[trigger] front[i]).key == Some(k);
                assert(msgs[i].key == Some(k));
            }
        }
        if exists|i: int| 0 <= i < msgs.len() && (#[trigger] msgs[i]).key == Some(k) {
            let i = choose|i: int| 0 <= i < msgs.len() && (#[trigger] msgs[i]).key == Some(k);
            if i < msgs.len() - 1 {
                assert(front[i].key == Some(k));
            }
        }
    }
}

/// Of the messages that share a key, a fresh deduplicator forwards the first
/// and no other; a message without a key is always forwarded.
pub proof fn lemma_dedup_forwards_first_only(msgs: Seq<MessageView>, j: int)
    requires
        0 <= j < msgs.len(),
    ensures
        dedup_passes(seen_after(msgs.take(j)), msgs[j]) <==> (msgs[j].key is None || forall|i: int|
            0 <= i < j ==> (#[trigger] msgs[i]).key != msgs[j].key),
{
    match msgs[j].key {
        Some(k) => {
            lemma_seen_after(msgs.take(j), k);
            if forall|i: int| 0 <= i < j ==> (#[trigger] msgs[i]).key != msgs[j].key {
                if seen_after(msgs.take(j)).contains(k) {
                    let i = choose|i: int|
                        0 <= i < msgs.take(j).len() && (#[trigger] msgs.take(j)[i]).key == Some(k);
                    assert(msgs[i].key == Some(k));
                }
            } else {
                let i = choose|i: int| 0 <= i < j && (#[trigger] msgs[i]).key == msgs[j].key;
                assert(msgs.take(j)[i].key == Some(k));
            }
        },
        None => {},
    }
}

// ---------------------------------------------------------------------------
// Retry handler
// ---------------------------------------------------------------------------

/// Tags every message with the retry policy that the orchestrator applies
/// when it delivers the message.
pub struct RetryHandler {
    max_retries: u32,
    retry_delay_ms: u64,
}

/// `msg` with the retry policy written into its metadata.
pub open spec fn retry_tagged(msg: MessageView, max_retries: nat, retry_delay_ms: nat) -> MessageView {
    MessageView {
        meta: msg.meta.insert("max_retries"@, decimal(max_retries)).insert(
            "retry_delay_ms"@,
            decimal(retry_delay_ms),
        ),
        ..msg
    }
}

impl RetryHandler {
    /// A tagger for `max_retries` further attempts, `delay_ms` milliseconds apart.
    pub fn new(max_retries: u32, delay_ms: u64) -> (r: RetryHandler)
        ensures
            r.max_retries() == max_retries,
            r.retry_delay_ms() == delay_ms,
    {
        RetryHandler { max_retries, retry_delay_ms: delay_ms }
    }

    /// Further attempts after the first.
    pub closed spec fn max_retries(&self) -> u32 {
        self.max_retries
    }

    /// Milliseconds between two attempts.
    pub closed spec fn retry_delay_ms(&self) -> u64 {
        self.retry_delay_ms
    }
}

impl Middleware for RetryHandler {
    fn handle(&mut self, msg: Message, tick: &Tick) -> (r: Outcome)
        ensures
            *final(self) == *old(self),
            r@ == OutcomeView::Forward(
                retry_tagged(
                    msg@,
                    old(self).max_retries() as nat,
                    old(self).retry_delay_ms() as nat,
                ),
            ),
    {
        let mut msg = msg;
        msg.meta.insert(String::from_str("max_retries"), decimal_string(self.max_retries as u64));
        msg.meta.insert(String::from_str("retry_delay_ms"), decimal_string(self.retry_delay_ms));
        Outcome::Forward(msg)
    }
}

// ---------------------------------------------------------------------------
// Batcher
// ---------------------------------------------------------------------------

/// Holds messages back and, once enough are held or enough time has passed,
/// forwards one message that carries the decoded values of all of them as a
/// JSON array, and the retry policy of the last of them in its metadata.
/// The time is only looked at when a message arrives.
pub struct Batcher {
    batch: Vec<Message>,
    batch_size: usize,
    last_flush: u128,
    timeout_ms: u64,
}

/// The mathematical value of a [`Batcher`].
pub ghost struct BatcherView {
    /// The messages held, oldest first.
    pub held: Seq<MessageView>,
    /// How many held messages make a batch due.
    pub batch_size: nat,
    /// The clock reading, in nanoseconds, of the last flush.
    pub last_flush: nat,
    /// How many milliseconds after the last flush a batch is due.
    pub timeout_ms: nat,
}

impl View for Batcher {
    type V = BatcherView;

    closed spec fn view(&self) -> BatcherView {
        BatcherView {
            held: messages_view(self.batch@),
            batch_size: self.batch_size as nat,
            last_flush: self.last_flush as nat,
            timeout_ms: self.timeout_ms as nat,
        }
    }
}

/// Whether the held batch is due at the clock reading `now`.
pub open spec fn flush_due(b: BatcherView, now: nat) -> bool {
    b.held.len() > 0 && (b.held.len() >= b.batch_size || elapsed(b.last_flush, now) / 1_000_000
        >= b.timeout_ms)
}

/// The decoded values of the messages that have one, in order.
pub open spec fn parsed_values(held: Seq<MessageView>) -> Seq<JsonView>
    decreases held.len(),
{
    if held.len() == 0 {
        Seq::empty()
    } else {
        match held.last().parsed {
            Some(v) => parsed_values(held.drop_last()).push(v),
            None => parsed_values(held.drop_last()),
        }
    }
}

/// What `meta` stores of a retry policy: its entries under `max_retries`
/// and `retry_delay_ms`, and no other.
pub open spec fn retry_tags(meta: Map<Seq<char>, Seq<char>>) -> Map<Seq<char>, Seq<char>> {
    meta.restrict(set!["max_retries"@, "retry_delay_ms"@])
}

/// The one message that stands for a batch: its payload is the JSON array of
/// the decoded values, its decoded value is what that payload reads back as,
/// and its metadata holds the retry policy of the message that made the
/// batch due, the last of those held.
pub open spec fn combined(held: Seq<MessageView>, wall: Timestamp) -> MessageView {
    let bytes = encoded_bytes(JsonView::Array(parsed_values(held)));
    MessageView {
        meta: retry_tags(held.last().meta),
        ..json_message(bytes, decoded_bytes(bytes), wall)
    }
}

/// The batcher once `msg` was handled under the reading `tick`.
pub open spec fn batch_state(b: BatcherView, msg: MessageView, tick: Tick) -> BatcherView {
    let held = b.held.push(msg);
    if flush_due(BatcherView { held, ..b }, tick.nanos as nat) {
        BatcherView { held: Seq::empty(), last_flush: tick.nanos as nat, ..b }
    } else {
        BatcherView { held, ..b }
    }
}

/// What the batcher decides for `msg` under the reading `tick`.
pub open spec fn batch_outcome(b: BatcherView, msg: MessageView, tick: Tick) -> OutcomeView {
    let held = b.held.push(msg);
    if flush_due(BatcherView { held, ..b }, tick.nanos as nat) {
        OutcomeView::Forward(combined(held, tick.wall))
    } else {
        OutcomeView::Drop(DropReasonView::Held)
    }
}

impl Batcher {
    /// A batcher that holds nothing and counts its timeout from clock reading zero.
    pub fn new(batch_size: usize, timeout_ms: u64) -> (r: Batcher)
        ensures
            r@ == (BatcherView {
                held: Seq::empty(),
                batch_size: batch_size as nat,
                last_flush: 0,
                timeout_ms: timeout_ms as nat,
            }),
    {
        let r = Batcher { batch: Vec::new(), batch_size, last_flush: 0, timeout_ms };
        assert(r@.held =~= Seq::empty());
        r
    }

    /// Whether the held batch is due at the clock reading `now`.
    pub fn should_flush(&self, now: u128) -> (r: bool)
        ensures
            r == flush_due(self@, now as nat),
    {
        self.batch.len() > 0 && (self.batch.len() >= self.batch_size || elapsed_nanos(
            self.last_flush,
            now,
        ) / 1_000_000 >= self.timeout_ms as u128)
    }

    /// Takes the held messages out and notes `now` as the time of the flush.
    pub fn get_batch(&mut self, now: u128) -> (r: Vec<Message>)
        ensures
            messages_view(r@) == old(self)@.held,
            final(self)@ == (BatcherView { held: Seq::empty(), last_flush: now as nat, ..old(self)@ }),
    {
        self.last_flush = now;
        let mut taken: Vec<Message> = Vec::new();
        std::mem::swap(&mut self.batch, &mut taken);
        assert(self@.held =~= Seq::empty());
        taken
    }
}

/// The retry policy that `meta` stores, and nothing else of it.
fn retry_tags_of(meta: &StringMap) -> (r: StringMap)
    ensures
        r@ == retry_tags(meta@),
{
    let mut tags = StringMap::new();
    match meta.get("max_retries") {
        Some(value) => {
            tags.insert(String::from_str("max_retries"), value.clone());
        },
        None => {},
    }
    match meta.get("retry_delay_ms") {
        Some(value) => {
            tags.insert(String::from_str("retry_delay_ms"), value.clone());
        },
        None => {},
    }
    proof {
        reveal_strlit("max_retries");
        reveal_strlit("retry_delay_ms");
        assert("max_retries"@.len() != "retry_delay_ms"@.len());
        assert(tags@ =~= retry_tags(meta@));
    }
    tags
}

/// The batch record keeps the retry policy of the message that made the
/// batch due: whatever that message stores under `max_retries` and under
/// `retry_delay_ms`, the record stores too.
pub proof fn lemma_batch_keeps_retry_tags(b: BatcherView, msg: MessageView, tick: Tick)
    requires
        flush_due(BatcherView { held: b.held.push(msg), ..b }, tick.nanos as nat),
    ensures
        batch_outcome(b, msg, tick) matches OutcomeView::Forward(out) && ({
            &&& out.meta.contains_key("max_retries"@) == msg.meta.contains_key("max_retries"@)
            &&& out.meta.contains_key("retry_delay_ms"@) == msg.meta.contains_key(
                "retry_delay_ms"@,
            )
            &&& msg.meta.contains_key("max_retries"@) ==> out.meta["max_retries"@]
                == msg.meta["max_retries"@]
            &&& msg.meta.contains_key("retry_delay_ms"@) ==> out.meta["retry_delay_ms"@]
                == msg.meta["retry_delay_ms"@]
        }),
{
}

/// Collects the decoded values of the messages that have one.
fn collect_parsed(messages: &Vec<Message>) -> (r: Vec<Json>)
    ensures
        items_view(r@) == parsed_values(messages_view(messages@)),
{
    let ghost all = messages_view(messages@);
    let mut values: Vec<Json> = Vec::new();
    let mut i: usize = 0;
    while i < messages.len()
        invariant
            i <= messages.len(),
            all == messages_view(messages@),
            items_view(values@) == parsed_values(all.take(i as int)),
        decreases messages.len() - i,
    {
        proof {
            assert(all.take(i + 1).drop_last() =~= all.take(i as int));
        }
        match &messages[i].parsed {
            Some(v) => {
                values.push(v.clone());
            },
            None => {},
        }
        i += 1;
    }
    proof {
        assert(all.take(messages.len() as int) =~= all);
    }
    values
}

impl Middleware for Batcher {
    fn handle(&mut self, msg: Message, tick: &Tick) -> (r: Outcome)
        ensures
            final(self)@ == batch_state(old(self)@, msg@, *tick),
            r@ == batch_outcome(old(self)@, msg@, *tick),
    {
        let ghost held = self@.held.push(msg@);
        self.batch.push(msg);
        assert(self@.held =~= held);
        if !self.should_flush(tick.nanos) {
            return Outcome::Drop(DropReason::Held);
        }
        let messages = self.get_batch(tick.nanos);
        let values = collect_parsed(&messages);
        let array = Json::Array(values);
        proof {
            lemma_array_view(values);
        }
        let payload = to_bytes(&array);
        let parsed = match from_bytes(payload.as_slice()) {
            Ok(v) => Some(v),
            Err(_) => None,
        };
        let mut record = Message::json(payload, parsed, tick.wall);
        record.meta = retry_tags_of(&messages[messages.len() - 1].meta);
        Outcome::Forward(record)
    }
}

// ---------------------------------------------------------------------------
// Throttler
// ---------------------------------------------------------------------------

/// Spaces the messages it forwards at least `1 / rate` seconds apart.
pub struct Throttler {
    last_sent: u128,
    min_interval: u64,
}

/// The mathematical value of a [`Throttler`].
pub ghost struct ThrottlerView {
    /// The clock reading, in nanoseconds, at which the last message went on.
    pub last_sent: nat,
    /// The least spacing, in nanoseconds.
    pub min_interval: nat,
}

impl View for Throttler {
    type V = ThrottlerView;

    closed spec fn view(&self) -> ThrottlerView {
        ThrottlerView { last_sent: self.last_sent as nat, min_interval: self.min_interval as nat }
    }
}

/// The least whole number of nanoseconds that is no shorter than `1 / rate` seconds.
pub open spec fn min_interval_nanos(rate_per_sec: nat) -> nat
    recommends
        rate_per_sec > 0,
{
    ((1_000_000_000 + rate_per_sec - 1) / rate_per_sec as int) as nat
}

/// How long a message that arrives at `now` has to wait.
pub open spec fn pause_needed(t: ThrottlerView, now: nat) -> nat {
    if elapsed(t.last_sent, now) < t.min_interval {
        (t.min_interval - elapsed(t.last_sent, now)) as nat
    } else {
        0
    }
}

/// The throttler once a message was handled under the reading `tick`.
pub open spec fn throttle_state(t: ThrottlerView, tick: Tick) -> ThrottlerView {
    if pause_needed(t, tick.nanos as nat) > 0 {
        t
    } else {
        ThrottlerView { last_sent: tick.nanos as nat, ..t }
    }
}

/// What the throttler decides for `msg` under the reading `tick`.
pub open spec fn throttle_outcome(t: ThrottlerView, msg: MessageView, tick: Tick) -> OutcomeView {
    if pause_needed(t, tick.nanos as nat) > 0 {
        OutcomeView::ForwardAfter(msg, pause_needed(t, tick.nanos as nat))
    } else {
        OutcomeView::Forward(msg)
    }
}

impl Throttler {
    /// A throttler for `rate_per_sec` messages a second that has forwarded
    /// nothing yet.
    pub fn new(rate_per_sec: u64) -> (r: Throttler)
        requires
            rate_per_sec > 0,
        ensures
            r@ == (ThrottlerView {
                last_sent: 0,
                min_interval: min_interval_nanos(rate_per_sec as nat),
            }),
    {
        let rounded_up: u128 = (1_000_000_000u128 + rate_per_sec as u128 - 1) / (
        rate_per_sec as u128);
        proof {
            let rate = rate_per_sec as int;
            assert((1_000_000_000 + rate - 1) / rate <= 1_000_000_000) by (nonlinear_arith)
                requires
                    rate > 0,
            ;
        }
        Throttler { last_sent: 0, min_interval: rounded_up as u64 }
    }

    /// How long a message that arrives at `now` has to wait. Waiting that long
    /// puts it at least the least spacing after the last one.
    pub fn pause_for(&self, now: u128) -> (r: u128)
        ensures
            r == pause_needed(self@, now as nat),
            elapsed(self@.last_sent, now as nat) + r >= self@.min_interval,
    {
        let gone = elapsed_nanos(self.last_sent, now);
        if gone < self.min_interval as u128 {
            self.min_interval as u128 - gone
        } else {
            0
        }
    }

    /// Notes that the message held back went on under the reading `tick`.
    pub fn resumed(&mut self, tick: &Tick)
        ensures
            final(self)@ == (ThrottlerView { last_sent: tick.nanos as nat, ..old(self)@ }),
    {
        self.last_sent = tick.nanos;
    }
}

/// Spaced by the least interval, no more than `rate_per_sec` messages go on
/// in any second: the interval times the rate is at least a second.
pub proof fn lemma_min_interval_covers_a_second(rate_per_sec: nat)
    requires
        rate_per_sec > 0,
    ensures
        min_interval_nanos(rate_per_sec) * rate_per_sec >= 1_000_000_000,
        min_interval_nanos(10) == 100_000_000,
{
    let rate = rate_per_sec as int;
    assert(((1_000_000_000 + rate - 1) / rate) * rate >= 1_000_000_000) by (nonlinear_arith)
        requires
            rate > 0,
    ;
}

/// A message that waits as long as the throttler asks goes on no earlier
/// than the least interval after the message before it.
pub proof fn lemma_throttle_spacing(t: ThrottlerView, now: nat)
    requires
        now >= t.last_sent,
    ensures
        now + pause_needed(t, now) - t.last_sent >= t.min_interval,
{
}

impl Middleware for Throttler {
    fn handle(&mut self, msg: Message, tick: &Tick) -> (r: Outcome)
        ensures
            final(self)@ == throttle_state(old(self)@, *tick),
            r@ == throttle_outcome(old(self)@, msg@, *tick),
    {
        let wait = self.pause_for(tick.nanos);
        if wait > 0 {
            Outcome::ForwardAfter(msg, wait)
        } else {
            self.last_sent = tick.nanos;
            Outcome::Forward(msg)
        }
    }
}

// ---------------------------------------------------------------------------
// Schema validator
// ---------------------------------------------------------------------------

/// Drops every message whose decoded value lacks a field that the schema
/// requires.
pub struct SchemaValidator {
    schema: Option<Json>,
}

impl View for SchemaValidator {
    type V = Option<JsonView>;

    /// The schema, where there is one.
    closed spec fn view(&self) -> Option<JsonView> {
        optional_view(self.schema)
    }
}

/// What the validator decides for `msg`.
pub open spec fn validator_outcome(schema: Option<JsonView>, msg: MessageView) -> OutcomeView {
    match msg.parsed {
        Some(doc) => match missing_required(schema, doc) {
            Some(name) => OutcomeView::Drop(DropReasonView::MissingField(name)),
            None => OutcomeView::Forward(msg),
        },
        None => OutcomeView::Forward(msg),
    }
}

impl SchemaValidator {
    /// A validator for the schema given; without one, every message passes.
    pub fn new(schema: Option<Json>) -> (r: SchemaValidator)
        ensures
            r@ == optional_view(schema),
    {
        SchemaValidator { schema }
    }

    /// Holds `value` against the schema: the error names the first required
    /// field that it lacks.
    pub fn validate_against_schema(&self, value: &Json) -> (r: Result<(), String>)
        ensures
            match r {
                Ok(_) => missing_required(self@, value@) is None,
                Err(message) => missing_required(self@, value@) matches Some(name) && message@
                    == "Missing required field: "@ + name,
            },
    {
        match missing_required_field(&self.schema, value) {
            Some(name) => Err(String::from_str("Missing required field: ").concat(name.as_str())),
            None => Ok(()),
        }
    }
}

impl Middleware for SchemaValidator {
    fn handle(&mut self, msg: Message, tick: &Tick) -> (r: Outcome)
        ensures
            *final(self) == *old(self),
            r@ == validator_outcome(old(self)@, msg@),
    {
        let missing = match &msg.parsed {
            Some(doc) => missing_required_field(&self.schema, doc),
            None => None,
        };
        match missing {
            Some(name) => Outcome::Drop(DropReason::MissingField(name)),
            None => Outcome::Forward(msg),
        }
    }
}

// ---------------------------------------------------------------------------
// The chain
// ---------------------------------------------------------------------------

/// One of the built-in stages.
pub enum Stage {
    Validator(SchemaValidator),
    Dedup(Deduplicator),
    Retry(RetryHandler),
    Batch(Batcher),
    Throttle(Throttler),
}

/// The mathematical value of a [`Stage`].
pub ghost enum StageView {
    Validator(Option<JsonView>),
    Dedup(Set<Seq<u8>>),
    Retry { max_retries: nat, retry_delay_ms: nat },
    Batch(BatcherView),
    Throttle(ThrottlerView),
}

impl View for Stage {
    type V = StageView;

    open spec fn view(&self) -> StageView {
        match self {
            Stage::Validator(v) => StageView::Validator(v@),
            Stage::Dedup(d) => StageView::Dedup(d@),
            Stage::Retry(r) => StageView::Retry {
                max_retries: r.max_retries() as nat,
                retry_delay_ms: r.retry_delay_ms() as nat,
            },
            Stage::Batch(b) => StageView::Batch(b@),
            Stage::Throttle(t) => StageView::Throttle(t@),
        }
    }
}

/// The stage once `msg` was handled under the reading `tick`.
pub open spec fn stage_state(stage: StageView, msg: MessageView, tick: Tick) -> StageView {
    match stage {
        StageView::Dedup(seen) => StageView::Dedup(dedup_seen(seen, msg)),
        StageView::Batch(b) => StageView::Batch(batch_state(b, msg, tick)),
        StageView::Throttle(t) => StageView::Throttle(throttle_state(t, tick)),
        other => other,
    }
}

/// What the stage decides for `msg` under the reading `tick`.
pub open spec fn stage_outcome(stage: StageView, msg: MessageView, tick: Tick) -> OutcomeView {
    match stage {
        StageView::Validator(schema) => validator_outcome(schema, msg),
        StageView::Dedup(seen) => dedup_outcome(seen, msg),
        StageView::Retry { max_retries, retry_delay_ms } => OutcomeView::Forward(
            retry_tagged(msg, max_retries, retry_delay_ms),
        ),
        StageView::Batch(b) => batch_outcome(b, msg, tick),
        StageView::Throttle(t) => throttle_outcome(t, msg, tick),
    }
}

/// The stage once the message it held back went on under the reading `tick`.
pub open spec fn stage_resumed(stage: StageView, tick: Tick) -> StageView {
    match stage {
        StageView::Throttle(t) => StageView::Throttle(
            ThrottlerView { last_sent: tick.nanos as nat, ..t },
        ),
        other => other,
    }
}

impl Middleware for Stage {
    fn handle(&mut self, msg: Message, tick: &Tick) -> (r: Outcome)
        ensures
            final(self)@ == stage_state(old(self)@, msg@, *tick),
            r@ == stage_outcome(old(self)@, msg@, *tick),
    {
        match self {
            Stage::Validator(v) => v.handle(msg, tick),
            Stage::Dedup(d) => d.handle(msg, tick),
            Stage::Retry(r) => r.handle(msg, tick),
            Stage::Batch(b) => b.handle(msg, tick),
            Stage::Throttle(t) => t.handle(msg, tick),
        }
    }
}

impl Stage {
    /// Notes that the message this stage held back went on under the reading `tick`.
    pub fn resumed(&mut self, tick: &Tick)
        ensures
            final(self)@ == stage_resumed(old(self)@, *tick),
    {
        match self {
            Stage::Throttle(t) => t.resumed(tick),
            _ => {},
        }
    }
}

/// Where one input of the chain ended.
#[derive(Debug)]
pub enum ChainStep {
    /// The message came out of the last stage.
    Forward(Message),
    /// Stage `stage` holds the message back: wait `nanos` nanoseconds, then
    /// resume behind that stage.
    Pause { message: Message, nanos: u128, stage: usize },
    /// Stage `stage` dropped the input.
    Drop { stage: usize, reason: DropReason },
}

/// The mathematical value of a [`ChainStep`].
pub ghost enum ChainStepView {
    Forward(MessageView),
    Pause { message: MessageView, nanos: nat, stage: int },
    Drop { stage: int, reason: DropReasonView },
}

impl View for ChainStep {
    type V = ChainStepView;

    open spec fn view(&self) -> ChainStepView {
        match self {
            ChainStep::Forward(m) => ChainStepView::Forward(m@),
            ChainStep::Pause { message, nanos, stage } => ChainStepView::Pause {
                message: message@,
                nanos: *nanos as nat,
                stage: *stage as int,
            },
            ChainStep::Drop { stage, reason } => ChainStepView::Drop {
                stage: *stage as int,
                reason: reason@,
            },
        }
    }
}

/// The stages once `msg` entered the chain at stage `from` under the reading
/// `tick`: each stage that the message reaches handles it, in order.
pub open spec fn chain_state(stages: Seq<StageView>, from: int, msg: MessageView, tick: Tick) -> Seq<StageView>
    decreases stages.len() - from,
{
    if from < 0 || from >= stages.len() {
        stages
    } else {
        let after = stages.update(from, stage_state(stages[from], msg, tick));
        match stage_outcome(stages[from], msg, tick) {
            OutcomeView::Forward(next) => chain_state(after, from + 1, next, tick),
            _ => after,
        }
    }
}

/// Where `msg` ends when it enters the chain at stage `from` under the
/// reading `tick`: the first stage that drops or holds it ends the run.
pub open spec fn chain_step(stages: Seq<StageView>, from: int, msg: MessageView, tick: Tick) -> ChainStepView
    decreases stages.len() - from,
{
    if from < 0 || from >= stages.len() {
        ChainStepView::Forward(msg)
    } else {
        let after = stages.update(from, stage_state(stages[from], msg, tick));
        match stage_outcome(stages[from], msg, tick) {
            OutcomeView::Forward(next) => chain_step(after, from + 1, next, tick),
            OutcomeView::ForwardAfter(next, nanos) => ChainStepView::Pause {
                message: next,
                nanos,
                stage: from,
            },
            OutcomeView::Drop(reason) => ChainStepView::Drop { stage: from, reason },
        }
    }
}

/// The views of `stages`, in order.
pub open spec fn stages_view(stages: Seq<Stage>) -> Seq<StageView> {
    Seq::new(stages.len(), |i: int| stages[i]@)
}

/// An ordered sequence of stages with the clock under which they run.
pub struct MiddlewareChain {
    middlewares: Vec<Stage>,
    clock: Clock,
}

impl View for MiddlewareChain {
    type V = Seq<StageView>;

    /// The stages, in order.
    closed spec fn view(&self) -> Seq<StageView> {
        stages_view(self.middlewares@)
    }
}

impl MiddlewareChain {
    /// A chain without stages, whose clock starts now.
    pub fn new() -> (r: MiddlewareChain)
        ensures
            r@ == Seq::<StageView>::empty(),
    {
        MiddlewareChain { middlewares: Vec::new(), clock: Clock::start() }
    }

    /// Puts `mw` behind the stages already there.
    pub fn add(&mut self, mw: Stage)
        ensures
            final(self)@ == old(self)@.push(mw@),
    {
        self.middlewares.push(mw);
    }

    /// Reads the chain's clock.
    pub fn tick(&self) -> (r: Tick) {
        self.clock.tick()
    }

    /// Number of stages.
    pub fn len(&self) -> (r: usize)
        ensures
            r == self@.len(),
    {
        self.middlewares.len()
    }

    /// Runs `msg` through the stages from stage `from` on, under the reading `tick`.
    pub fn run_from(&mut self, from: usize, msg: Message, tick: &Tick) -> (r: ChainStep)
        ensures
            final(self)@ == chain_state(old(self)@, from as int, msg@, *tick),
            r@ == chain_step(old(self)@, from as int, msg@, *tick),
    {
        let mut i: usize = from;
        let mut current = msg;
        while i < self.middlewares.len()
            invariant
                chain_state(old(self)@, from as int, msg@, *tick) == chain_state(
                    self@,
                    i as int,
                    current@,
                    *tick,
                ),
                chain_step(old(self)@, from as int, msg@, *tick) == chain_step(
                    self@,
                    i as int,
                    current@,
                    *tick,
                ),
            decreases self.middlewares.len() - i,
        {
            let ghost before = self@;
            let ghost input = current@;
            let outcome = self.middlewares[i].handle(current, tick);
            proof {
                assert(self@ =~= before.update(i as int, stage_state(before[i as int], input, *tick)));
            }
            match outcome {
                Outcome::Forward(next) => {
                    current = next;
                    i += 1;
                },
                Outcome::ForwardAfter(next, nanos) => {
                    return ChainStep::Pause { message: next, nanos, stage: i };
                },
                Outcome::Drop(reason) => {
                    return ChainStep::Drop { stage: i, reason };
                },
            }
        }
        ChainStep::Forward(current)
    }

    /// Runs `msg` through all stages under the reading `tick`.
    pub fn process_at(&mut self, msg: Message, tick: &Tick) -> (r: ChainStep)
        ensures
            final(self)@ == chain_state(old(self)@, 0, msg@, *tick),
            r@ == chain_step(old(self)@, 0, msg@, *tick),
    {
        self.run_from(0, msg, tick)
    }

    /// Goes on behind stage `stage`, which held `msg` back, under the reading
    /// `tick` taken after the wait.
    pub fn resume_at(&mut self, stage: usize, msg: Message, tick: &Tick) -> (r: ChainStep)
        requires
            stage < old(self)@.len(),
        ensures
            final(self)@ == chain_state(
                old(self)@.update(stage as int, stage_resumed(old(self)@[stage as int], *tick)),
                stage + 1,
                msg@,
                *tick,
            ),
            r@ == chain_step(
                old(self)@.update(stage as int, stage_resumed(old(self)@[stage as int], *tick)),
                stage + 1,
                msg@,
                *tick,
            ),
    {
        self.middlewares[stage].resumed(tick);
        assert(stage < self.middlewares.len());
        proof {
            assert(self@ =~= old(self)@.update(
                stage as int,
                stage_resumed(old(self)@[stage as int], *tick),
            ));
        }
        self.run_from(stage + 1, msg, tick)
    }

    /// Runs `msg` through all stages under a reading of the chain's clock.
    /// What comes back is what `process_at` gives for that reading.
    pub fn process(&mut self, msg: Message) -> (r: ChainStep)
        ensures
            exists|tick: Tick|
                final(self)@ == chain_state(old(self)@, 0, msg@, tick) && r@ == chain_step(
                    old(self)@,
                    0,
                    msg@,
                    tick,
                ),
    {
        let tick = self.clock.tick();
        self.process_at(msg, &tick)
    }

    /// Goes on behind stage `stage` after the wait, under a fresh reading of
    /// the chain's clock. A `stage` outside the chain forwards `msg` as it is.
    pub fn resume(&mut self, stage: usize, msg: Message) -> (r: ChainStep)
        ensures
            stage >= old(self)@.len() ==> final(self)@ == old(self)@ && r@ == ChainStepView::Forward(
                msg@,
            ),
            stage < old(self)@.len() ==> exists|tick: Tick|
                final(self)@ == chain_state(
                    old(self)@.update(stage as int, stage_resumed(old(self)@[stage as int], tick)),
                    stage + 1,
                    msg@,
                    tick,
                ) && r@ == chain_step(
                    old(self)@.update(stage as int, stage_resumed(old(self)@[stage as int], tick)),
                    stage + 1,
                    msg@,
                    tick,
                ),
    {
        if stage >= self.middlewares.len() {
            return ChainStep::Forward(msg);
        }
        let tick = self.clock.tick();
        self.resume_at(stage, msg, &tick)
    }
}

} // verus!
