//! The bridge orchestrator: which stages a configuration asks for, and what
//! to do next after each thing that happens while one source feeds one sink.

use crate::clock::Tick;
use crate::json::{Json, JsonView};
use crate::message::{Message, MessageView, StringMap};
use crate::middleware::{
    batch_outcome, chain_state, chain_step, flush_due, lemma_batch_keeps_retry_tags,
    min_interval_nanos, retry_tagged, stage_resumed, Batcher, BatcherView, ChainStep,
    ChainStepView, Deduplicator, DropReason, DropReasonView, MiddlewareChain, OutcomeView,
    RetryHandler, SchemaValidator, Stage, StageView, Throttler, ThrottlerView,
};
use crate::schema::optional_view;
use crate::text::{lemma_decimal_round_trip, parse_bounded, parse_unsigned};
use vstd::prelude::*;

verus! {

/// The options of a bridge. An option that is absent leaves its stage out of
/// the chain.
#[derive(Debug, Clone)]
pub struct MiddlewareConfig {
    pub batch_size: Option<usize>,
    pub batch_timeout_ms: Option<u64>,
    pub deduplicate: Option<bool>,
    pub throttle_per_sec: Option<u64>,
    pub retry_max_attempts: Option<u32>,
    pub retry_delay_ms: Option<u64>,
    pub schema_path: Option<String>,
}

impl Default for MiddlewareConfig {
    fn default() -> (r: MiddlewareConfig)
        ensures
            r.batch_size is None,
            r.batch_timeout_ms is None,
            r.deduplicate is None,
            r.throttle_per_sec is None,
            r.retry_max_attempts is None,
            r.retry_delay_ms is None,
            r.schema_path is None,
    {
        MiddlewareConfig {
            batch_size: None,
            batch_timeout_ms: None,
            deduplicate: None,
            throttle_per_sec: None,
            retry_max_attempts: None,
            retry_delay_ms: None,
            schema_path: None,
        }
    }
}

/// Milliseconds between two attempts where the configuration names none.
pub const DEFAULT_RETRY_DELAY_MS: u64 = 1000;

/// Milliseconds after which a batch is due where the configuration names none.
pub const DEFAULT_BATCH_TIMEOUT_MS: u64 = 5000;

impl MiddlewareConfig {
    /// This configuration with the options given on the command line laid
    /// over it: an option that is given replaces the one here, and
    /// `deduplicate` is always taken from the command line.
    pub fn overridden_by(
        self,
        batch_size: Option<usize>,
        batch_timeout_ms: Option<u64>,
        deduplicate: bool,
        throttle_per_sec: Option<u64>,
        retry_max_attempts: Option<u32>,
        retry_delay_ms: Option<u64>,
        schema_path: Option<String>,
    ) -> (r: MiddlewareConfig)
        ensures
            r.batch_size == (if batch_size is Some {
                batch_size
            } else {
                self.batch_size
            }),
            r.batch_timeout_ms == (if batch_timeout_ms is Some {
                batch_timeout_ms
            } else {
                self.batch_timeout_ms
            }),
            r.deduplicate == Some(deduplicate),
            r.throttle_per_sec == (if throttle_per_sec is Some {
                throttle_per_sec
            } else {
                self.throttle_per_sec
            }),
            r.retry_max_attempts == (if retry_max_attempts is Some {
                retry_max_attempts
            } else {
                self.retry_max_attempts
            }),
            r.retry_delay_ms == (if retry_delay_ms is Some {
                retry_delay_ms
            } else {
                self.retry_delay_ms
            }),
            r.schema_path == (if schema_path is Some {
                schema_path
            } else {
                self.schema_path
            }),
    {
        let mut config = self;
        if batch_size.is_some() {
            config.batch_size = batch_size;
        }
        if batch_timeout_ms.is_some() {
            config.batch_timeout_ms = batch_timeout_ms;
        }
        config.deduplicate = Some(deduplicate);
        if throttle_per_sec.is_some() {
            config.throttle_per_sec = throttle_per_sec;
        }
        if retry_max_attempts.is_some() {
            config.retry_max_attempts = retry_max_attempts;
        }
        if retry_delay_ms.is_some() {
            config.retry_delay_ms = retry_delay_ms;
        }
        if schema_path.is_some() {
            config.schema_path = schema_path;
        }
        config
    }
}

/// The value of an option, or `default` where it is absent.
pub open spec fn or_default(option: Option<u64>, default: u64) -> nat {
    match option {
        Some(v) => v as nat,
        None => default as nat,
    }
}

/// The stages that a configuration asks for, in the one order in which a
/// chain is assembled: validate, deduplicate, tag the retry policy, batch,
/// throttle. `schema` is the document found at the schema path.
pub open spec fn planned_stages(cfg: MiddlewareConfig, schema: Option<JsonView>) -> Seq<StageView> {
    let validate = if cfg.schema_path is Some {
        seq![StageView::Validator(schema)]
    } else {
        seq![]
    };
    let dedup = if cfg.deduplicate == Some(true) {
        seq![StageView::Dedup(Set::empty())]
    } else {
        seq![]
    };
    let retry = match cfg.retry_max_attempts {
        Some(max_retries) => seq![
            StageView::Retry {
                max_retries: max_retries as nat,
                retry_delay_ms: or_default(cfg.retry_delay_ms, DEFAULT_RETRY_DELAY_MS),
            },
        ],
        None => seq![],
    };
    let batch = match cfg.batch_size {
        Some(batch_size) => seq![
            StageView::Batch(
                BatcherView {
                    held: Seq::empty(),
                    batch_size: batch_size as nat,
                    last_flush: 0,
                    timeout_ms: or_default(cfg.batch_timeout_ms, DEFAULT_BATCH_TIMEOUT_MS),
                },
            ),
        ],
        None => seq![],
    };
    let throttle = match cfg.throttle_per_sec {
        Some(rate) => seq![
            StageView::Throttle(
                ThrottlerView { last_sent: 0, min_interval: min_interval_nanos(rate as nat) },
            ),
        ],
        None => seq![],
    };
    validate + dedup + retry + batch + throttle
}

/// Assembles the chain that `cfg` asks for. `schema` is the document found
/// at `cfg.schema_path`, or nothing where none could be read there.
pub fn build_middleware_chain(cfg: &MiddlewareConfig, schema: Option<Json>) -> (r: MiddlewareChain)
    requires
        cfg.throttle_per_sec != Some(0u64),
    ensures
        r@ == planned_stages(*cfg, optional_view(schema)),
{
    let mut chain = MiddlewareChain::new();
    if cfg.schema_path.is_some() {
        chain.add(Stage::Validator(SchemaValidator::new(schema)));
    }
    match cfg.deduplicate {
        Some(true) => {
            chain.add(Stage::Dedup(Deduplicator::new()));
        },
        _ => {},
    }
    match cfg.retry_max_attempts {
        Some(max_retries) => {
            let delay = match cfg.retry_delay_ms {
                Some(delay) => delay,
                None => DEFAULT_RETRY_DELAY_MS,
            };
            chain.add(Stage::Retry(RetryHandler::new(max_retries, delay)));
        },
        None => {},
    }
    match cfg.batch_size {
        Some(batch_size) => {
            let timeout = match cfg.batch_timeout_ms {
                Some(timeout) => timeout,
                None => DEFAULT_BATCH_TIMEOUT_MS,
            };
            chain.add(Stage::Batch(Batcher::new(batch_size, timeout)));
        },
        None => {},
    }
    match cfg.throttle_per_sec {
        Some(rate) => {
            chain.add(Stage::Throttle(Throttler::new(rate)));
        },
        None => {},
    }
    chain
}

// ---------------------------------------------------------------------------
// Retry policy
// ---------------------------------------------------------------------------

/// How often and how far apart delivery of one message is tried again.
#[derive(Clone, Copy, Debug, PartialEq, Eq, Structural)]
pub struct RetryPolicy {
    /// Further attempts after the first.
    pub max_retries: u32,
    /// Milliseconds between two attempts.
    pub retry_delay_ms: u64,
}

/// The number stored under `key`, or `default` where nothing is stored there
/// or what is stored is no number of at most `max`.
pub open spec fn number_in(meta: Map<Seq<char>, Seq<char>>, key: Seq<char>, max: nat, default: nat) -> nat {
    if meta.contains_key(key) {
        match parse_unsigned(meta[key], max) {
            Some(n) => n,
            None => default,
        }
    } else {
        default
    }
}

/// The retry policy that the metadata of a message asks for: no retry and a
/// second between attempts where it says nothing.
pub open spec fn policy_of(meta: Map<Seq<char>, Seq<char>>) -> RetryPolicy {
    RetryPolicy {
        max_retries: number_in(meta, "max_retries"@, u32::MAX as nat, 0) as u32,
        retry_delay_ms: number_in(
            meta,
            "retry_delay_ms"@,
            u64::MAX as nat,
            DEFAULT_RETRY_DELAY_MS as nat,
        ) as u64,
    }
}

/// Reads the number stored under `key`.
fn read_number(meta: &StringMap, key: &str, max: u64, default: u64) -> (r: u64)
    requires
        default <= max,
    ensures
        r == number_in(meta@, key@, max as nat, default as nat),
        r <= max,
{
    match meta.get(key) {
        Some(text) => match parse_bounded(text.as_str(), max) {
            Some(n) => n,
            None => default,
        },
        None => default,
    }
}

/// Reads the retry policy out of the metadata of a message.
pub fn retry_policy(meta: &StringMap) -> (r: RetryPolicy)
    ensures
        r == policy_of(meta@),
{
    let max_retries = read_number(meta, "max_retries", 0xffff_ffff, 0);
    let retry_delay_ms = read_number(
        meta,
        "retry_delay_ms",
        0xffff_ffff_ffff_ffff,
        DEFAULT_RETRY_DELAY_MS,
    );
    RetryPolicy { max_retries: max_retries as u32, retry_delay_ms }
}

/// The policy that the retry stage writes is the policy that the
/// orchestrator reads.
pub proof fn lemma_policy_of_tagged(msg: MessageView, max_retries: u32, retry_delay_ms: u64)
    ensures
        policy_of(retry_tagged(msg, max_retries as nat, retry_delay_ms as nat).meta) == (RetryPolicy {
            max_retries,
            retry_delay_ms,
        }),
{
    reveal_strlit("max_retries");
    reveal_strlit("retry_delay_ms");
    assert("max_retries"@.len() != "retry_delay_ms"@.len());
    lemma_decimal_round_trip(max_retries as nat, u32::MAX as nat);
    lemma_decimal_round_trip(retry_delay_ms as nat, u64::MAX as nat);
}

/// The retry policy travels with a batch: the policy that the orchestrator
/// reads from the batch record is the policy of the message that made the
/// batch due.
pub proof fn lemma_batch_keeps_retry_policy(b: BatcherView, msg: MessageView, tick: Tick)
    requires
        flush_due(BatcherView { held: b.held.push(msg), ..b }, tick.nanos as nat),
    ensures
        batch_outcome(b, msg, tick) matches OutcomeView::Forward(out) && policy_of(out.meta)
            == policy_of(msg.meta),
{
    lemma_batch_keeps_retry_tags(b, msg, tick);
}

// ---------------------------------------------------------------------------
// The bridge
// ---------------------------------------------------------------------------

/// What the bridge is waiting for.
#[derive(Clone, Copy, Debug, PartialEq, Eq, Structural)]
pub enum Phase {
    /// The next message of the source.
    Receiving,
    /// The end of a wait that a stage asked for.
    Paused,
    /// The result of a delivery attempt.
    Sending,
    /// The end of the wait before the next attempt.
    Backoff,
    /// The result of the final flush.
    Flushing,
    /// The end of the source task.
    Joining,
    /// Nothing: the run is over.
    Finished,
}

/// Why a run ended in failure.
#[derive(Clone, Copy, Debug, PartialEq, Eq, Structural)]
pub enum BridgeError {
    /// The sink failed to flush.
    FlushFailed,
    /// The source ended with an error.
    SourceFailed,
}

/// Something that happened while the bridge ran.
#[derive(Debug)]
pub enum BridgeEvent {
    /// The source produced a message.
    Received(Message),
    /// The source will produce no more.
    SourceClosed,
    /// The wait that was asked for is over.
    Waited,
    /// The sink took the message (`true`) or failed (`false`).
    Sent(bool),
    /// The sink flushed (`true`) or failed to (`false`).
    Flushed(bool),
    /// The source task ended well (`true`) or with an error (`false`).
    Joined(bool),
}

/// The mathematical value of a [`BridgeEvent`].
pub ghost enum BridgeEventView {
    Received(MessageView),
    SourceClosed,
    Waited,
    Sent(bool),
    Flushed(bool),
    Joined(bool),
}

impl View for BridgeEvent {
    type V = BridgeEventView;

    open spec fn view(&self) -> BridgeEventView {
        match self {
            BridgeEvent::Received(m) => BridgeEventView::Received(m@),
            BridgeEvent::SourceClosed => BridgeEventView::SourceClosed,
            BridgeEvent::Waited => BridgeEventView::Waited,
            BridgeEvent::Sent(ok) => BridgeEventView::Sent(*ok),
            BridgeEvent::Flushed(ok) => BridgeEventView::Flushed(*ok),
            BridgeEvent::Joined(ok) => BridgeEventView::Joined(*ok),
        }
    }
}

/// What the runner of the bridge has to do next.
#[derive(Debug)]
pub enum BridgeAction {
    /// Take the next message from the source and report it.
    Receive,
    /// Wait this many nanoseconds and report `Waited`.
    Wait(u128),
    /// Hand this message to the sink and report `Sent`.
    Send(Message),
    /// Stage `stage` dropped the input; then as for `Receive`.
    Dropped { stage: usize, reason: DropReason },
    /// Delivery was given up after this many attempts; then as for `Receive`.
    GaveUp { attempts: u64 },
    /// Flush the sink and report `Flushed`.
    Flush,
    /// Wait for the source task to end and report `Joined`.
    Join,
    /// The run is over, with this result.
    Finish(Result<(), BridgeError>),
    /// The event does not fit what the bridge was waiting for; nothing changed.
    Unexpected,
}

/// The mathematical value of a [`BridgeAction`].
pub ghost enum BridgeActionView {
    Receive,
    Wait(nat),
    Send(MessageView),
    Dropped { stage: int, reason: DropReasonView },
    GaveUp { attempts: nat },
    Flush,
    Join,
    Finish(Result<(), BridgeError>),
    Unexpected,
}

impl View for BridgeAction {
    type V = BridgeActionView;

    open spec fn view(&self) -> BridgeActionView {
        match self {
            BridgeAction::Receive => BridgeActionView::Receive,
            BridgeAction::Wait(nanos) => BridgeActionView::Wait(*nanos as nat),
            BridgeAction::Send(m) => BridgeActionView::Send(m@),
            BridgeAction::Dropped { stage, reason } => BridgeActionView::Dropped {
                stage: *stage as int,
                reason: reason@,
            },
            BridgeAction::GaveUp { attempts } => BridgeActionView::GaveUp {
                attempts: *attempts as nat,
            },
            BridgeAction::Flush => BridgeActionView::Flush,
            BridgeAction::Join => BridgeActionView::Join,
            BridgeAction::Finish(result) => BridgeActionView::Finish(*result),
            BridgeAction::Unexpected => BridgeActionView::Unexpected,
        }
    }
}

/// One source, one chain, one sink: the state of a bridge between two of
/// the things that happen to it.
pub struct Bridge {
    chain: MiddlewareChain,
    phase: Phase,
    pending: Option<Message>,
    stage: usize,
    attempt: u32,
    policy: RetryPolicy,
}

/// The mathematical value of a [`Bridge`].
pub ghost struct BridgeView {
    /// The stages of the chain.
    pub stages: Seq<StageView>,
    /// What the bridge is waiting for.
    pub phase: Phase,
    /// The message that is held back or being delivered.
    pub pending: Option<MessageView>,
    /// The stage that holds the message back, while paused.
    pub stage: int,
    /// Retries made for the message being delivered.
    pub attempt: nat,
    /// The retry policy of the message being delivered.
    pub policy: RetryPolicy,
}

impl View for Bridge {
    type V = BridgeView;

    closed spec fn view(&self) -> BridgeView {
        BridgeView {
            stages: self.chain@,
            phase: self.phase,
            pending: match self.pending {
                Some(m) => Some(m@),
                None => None,
            },
            stage: self.stage as int,
            attempt: self.attempt as nat,
            policy: self.policy,
        }
    }
}

/// The bridge and its next action once the chain has dealt with an input.
pub open spec fn after_chain(b: BridgeView, stages: Seq<StageView>, step: ChainStepView) -> (
    BridgeView,
    BridgeActionView,
) {
    match step {
        ChainStepView::Forward(m) => (
            BridgeView {
                stages,
                phase: Phase::Sending,
                pending: Some(m),
                attempt: 0,
                policy: policy_of(m.meta),
                ..b
            },
            BridgeActionView::Send(m),
        ),
        ChainStepView::Pause { message, nanos, stage } => (
            BridgeView { stages, phase: Phase::Paused, pending: Some(message), stage, ..b },
            BridgeActionView::Wait(nanos),
        ),
        ChainStepView::Drop { stage, reason } => (
            BridgeView { stages, phase: Phase::Receiving, pending: None, ..b },
            BridgeActionView::Dropped { stage, reason },
        ),
    }
}

/// The bridge and its next action once `event` has happened under the clock
/// reading `tick`.
///
/// A message that comes out of the chain is sent; each failure is followed
/// by a wait and another attempt until the retries of the message's policy
/// are used up, and then the message is given up and the run goes on. When
/// the source closes, the sink is flushed once and the source task awaited.
pub open spec fn bridge_next(b: BridgeView, event: BridgeEventView, tick: Tick) -> (
    BridgeView,
    BridgeActionView,
) {
    match (b.phase, event, b.pending) {
        (Phase::Receiving, BridgeEventView::Received(msg), _) => after_chain(
            b,
            chain_state(b.stages, 0, msg, tick),
            chain_step(b.stages, 0, msg, tick),
        ),
        (Phase::Paused, BridgeEventView::Waited, Some(msg)) => if 0 <= b.stage < b.stages.len() {
            let resumed = b.stages.update(b.stage, stage_resumed(b.stages[b.stage], tick));
            after_chain(
                b,
                chain_state(resumed, b.stage + 1, msg, tick),
                chain_step(resumed, b.stage + 1, msg, tick),
            )
        } else {
            (b, BridgeActionView::Unexpected)
        },
        (Phase::Sending, BridgeEventView::Sent(true), _) => (
            BridgeView { phase: Phase::Receiving, pending: None, ..b },
            BridgeActionView::Receive,
        ),
        (Phase::Sending, BridgeEventView::Sent(false), _) => if b.attempt >= b.policy.max_retries {
            (
                BridgeView { phase: Phase::Receiving, pending: None, ..b },
                BridgeActionView::GaveUp { attempts: b.policy.max_retries as nat + 1 },
            )
        } else {
            (
                BridgeView { phase: Phase::Backoff, attempt: b.attempt + 1, ..b },
                BridgeActionView::Wait(b.policy.retry_delay_ms as nat * 1_000_000),
            )
        },
        (Phase::Backoff, BridgeEventView::Waited, Some(msg)) => (
            BridgeView { phase: Phase::Sending, ..b },
            BridgeActionView::Send(msg),
        ),
        (Phase::Receiving, BridgeEventView::SourceClosed, _) => (
            BridgeView { phase: Phase::Flushing, ..b },
            BridgeActionView::Flush,
        ),
        (Phase::Flushing, BridgeEventView::Flushed(true), _) => (
            BridgeView { phase: Phase::Joining, ..b },
            BridgeActionView::Join,
        ),
        (Phase::Flushing, BridgeEventView::Flushed(false), _) => (
            BridgeView { phase: Phase::Finished, ..b },
            BridgeActionView::Finish(Err(BridgeError::FlushFailed)),
        ),
        (Phase::Joining, BridgeEventView::Joined(true), _) => (
            BridgeView { phase: Phase::Finished, ..b },
            BridgeActionView::Finish(Ok(())),
        ),
        (Phase::Joining, BridgeEventView::Joined(false), _) => (
            BridgeView { phase: Phase::Finished, ..b },
            BridgeActionView::Finish(Err(BridgeError::SourceFailed)),
        ),
        _ => (b, BridgeActionView::Unexpected),
    }
}

impl Bridge {
    /// A bridge over `chain` that waits for the first message of the source.
    pub fn new(chain: MiddlewareChain) -> (r: Bridge)
        ensures
            r@ == (BridgeView {
                stages: chain@,
                phase: Phase::Receiving,
                pending: None,
                stage: 0,
                attempt: 0,
                policy: RetryPolicy { max_retries: 0, retry_delay_ms: DEFAULT_RETRY_DELAY_MS },
            }),
    {
        Bridge {
            chain,
            phase: Phase::Receiving,
            pending: None,
            stage: 0,
            attempt: 0,
            policy: RetryPolicy { max_retries: 0, retry_delay_ms: DEFAULT_RETRY_DELAY_MS },
        }
    }

    /// What the bridge is waiting for.
    pub fn phase(&self) -> (r: Phase)
        ensures
            r == self@.phase,
    {
        self.phase
    }

    /// Takes in what the chain made of an input.
    fn settle(&mut self, step: ChainStep) -> (r: BridgeAction)
        ensures
            (final(self)@, r@) == after_chain(old(self)@, old(self)@.stages, step@),
    {
        match step {
            ChainStep::Forward(m) => {
                self.policy = retry_policy(&m.meta);
                self.attempt = 0;
                self.phase = Phase::Sending;
                let copy = m.clone();
                self.pending = Some(m);
                BridgeAction::Send(copy)
            },
            ChainStep::Pause { message, nanos, stage } => {
                self.phase = Phase::Paused;
                self.stage = stage;
                self.pending = Some(message);
                BridgeAction::Wait(nanos)
            },
            ChainStep::Drop { stage, reason } => {
                self.phase = Phase::Receiving;
                self.pending = None;
                BridgeAction::Dropped { stage, reason }
            },
        }
    }

    /// Takes in `event`, which happened under the clock reading `tick`, and
    /// says what to do next.
    pub fn step_at(&mut self, event: BridgeEvent, tick: &Tick) -> (r: BridgeAction)
        ensures
            (final(self)@, r@) == bridge_next(old(self)@, event@, *tick),
    {
        match (self.phase, event) {
            (Phase::Receiving, BridgeEvent::Received(msg)) => {
                let step = self.chain.process_at(msg, tick);
                self.settle(step)
            },
            (Phase::Paused, BridgeEvent::Waited) => {
                if self.stage >= self.chain.len() {
                    return BridgeAction::Unexpected;
                }
                match self.pending.take() {
                    Some(msg) => {
                        let stage = self.stage;
                        let step = self.chain.resume_at(stage, msg, tick);
                        self.settle(step)
                    },
                    None => BridgeAction::Unexpected,
                }
            },
            (Phase::Sending, BridgeEvent::Sent(true)) => {
                self.phase = Phase::Receiving;
                self.pending = None;
                BridgeAction::Receive
            },
            (Phase::Sending, BridgeEvent::Sent(false)) => {
                if self.attempt >= self.policy.max_retries {
                    self.phase = Phase::Receiving;
                    self.pending = None;
                    BridgeAction::GaveUp { attempts: self.policy.max_retries as u64 + 1 }
                } else {
                    self.phase = Phase::Backoff;
                    self.attempt = self.attempt + 1;
                    BridgeAction::Wait(self.policy.retry_delay_ms as u128 * 1_000_000)
                }
            },
            (Phase::Backoff, BridgeEvent::Waited) => {
                match &self.pending {
                    Some(msg) => {
                        let copy = msg.clone();
                        self.phase = Phase::Sending;
                        BridgeAction::Send(copy)
                    },
                    None => BridgeAction::Unexpected,
                }
            },
            (Phase::Receiving, BridgeEvent::SourceClosed) => {
                self.phase = Phase::Flushing;
                BridgeAction::Flush
            },
            (Phase::Flushing, BridgeEvent::Flushed(true)) => {
                self.phase = Phase::Joining;
                BridgeAction::Join
            },
            (Phase::Flushing, BridgeEvent::Flushed(false)) => {
                self.phase = Phase::Finished;
                BridgeAction::Finish(Err(BridgeError::FlushFailed))
            },
            (Phase::Joining, BridgeEvent::Joined(true)) => {
                self.phase = Phase::Finished;
                BridgeAction::Finish(Ok(()))
            },
            (Phase::Joining, BridgeEvent::Joined(false)) => {
                self.phase = Phase::Finished;
                BridgeAction::Finish(Err(BridgeError::SourceFailed))
            },
            _ => BridgeAction::Unexpected,
        }
    }

    /// Takes in `event` under a reading of the chain's clock. What comes back
    /// is what `step_at` gives for that reading.
    pub fn step(&mut self, event: BridgeEvent) -> (r: BridgeAction)
        ensures
            exists|tick: Tick| (final(self)@, r@) == bridge_next(old(self)@, event@, tick),
    {
        let tick = self.chain.tick();
        self.step_at(event, &tick)
    }
}

/// The deliveries that follow the first one when every delivery of the
/// message fails, counted from a bridge that waits for the result of one.
pub open spec fn resends_if_failing(b: BridgeView, tick: Tick) -> nat
    decreases b.policy.max_retries - b.attempt,
{
    if b.phase != Phase::Sending || b.pending is None || b.attempt >= b.policy.max_retries {
        0
    } else {
        let waiting = bridge_next(b, BridgeEventView::Sent(false), tick).0;
        let sending = bridge_next(waiting, BridgeEventView::Waited, tick).0;
        1 + resends_if_failing(sending, tick)
    }
}

/// The bridge once every delivery of the message has failed.
pub open spec fn after_failing(b: BridgeView, tick: Tick) -> (BridgeView, BridgeActionView)
    decreases b.policy.max_retries - b.attempt,
{
    if b.phase != Phase::Sending || b.pending is None || b.attempt >= b.policy.max_retries {
        bridge_next(b, BridgeEventView::Sent(false), tick)
    } else {
        let waiting = bridge_next(b, BridgeEventView::Sent(false), tick).0;
        let sending = bridge_next(waiting, BridgeEventView::Waited, tick).0;
        after_failing(sending, tick)
    }
}

/// A sink that always fails is handed a message once and then once more for
/// each retry that the message's policy allows; after that the message is
/// given up and the bridge takes the next one.
pub proof fn lemma_retry_exhaustion(b: BridgeView, tick: Tick)
    requires
        b.phase == Phase::Sending,
        b.pending is Some,
        b.attempt <= b.policy.max_retries,
    ensures
        1 + resends_if_failing(b, tick) == b.policy.max_retries - b.attempt + 1,
        after_failing(b, tick).0.phase == Phase::Receiving,
        after_failing(b, tick).0.stages == b.stages,
        after_failing(b, tick).1 == (BridgeActionView::GaveUp {
            attempts: b.policy.max_retries as nat + 1,
        }),
    decreases b.policy.max_retries - b.attempt,
{
    if b.attempt < b.policy.max_retries {
        let waiting = bridge_next(b, BridgeEventView::Sent(false), tick).0;
        let sending = bridge_next(waiting, BridgeEventView::Waited, tick).0;
        lemma_retry_exhaustion(sending, tick);
    }
}

} // verus!
