//! The pipe orchestrator: one source, a chain of actions, and any number of
//! sinks that each get every message that survives the chain.

use crate::json::JsonView;
use crate::message::{messages_view, Message, MessageView, Timestamp};
use crate::pipe_actions::{
    action_outputs, action_state, answers_given, final_given, final_outputs, Action, ActionView,
    Answers, Arithmetic, PipeAction,
};
use vstd::prelude::*;

verus! {

/// The views of `actions`, in order.
pub open spec fn actions_view(actions: Seq<Action>) -> Seq<ActionView> {
    Seq::new(actions.len(), |i: int| actions[i]@)
}

/// What the arithmetic answered for message `i` of a stage; no answer where
/// none is recorded.
pub open spec fn answers_for(answers: Seq<Answers>, i: int) -> Answers {
    if 0 <= i < answers.len() {
        answers[i]
    } else {
        Answers { order: None, values: Seq::empty() }
    }
}

/// What the arithmetic answered for stage `k`, message by message.
pub open spec fn stage_answers(answers: Seq<Seq<Answers>>, k: int) -> Seq<Answers> {
    if 0 <= k < answers.len() {
        answers[k]
    } else {
        Seq::empty()
    }
}

/// The action once it has handled `msgs`, one after the other.
pub open spec fn stage_after(a: ActionView, msgs: Seq<MessageView>) -> ActionView
    decreases msgs.len(),
{
    if msgs.len() == 0 {
        a
    } else {
        action_state(stage_after(a, msgs.drop_last()), msgs.last())
    }
}

/// What the action gives back for `msgs`, one after the other: the outputs
/// for each message, in the order of the messages.
pub open spec fn stage_outputs(a: ActionView, msgs: Seq<MessageView>, answers: Seq<Answers>) -> Seq<MessageView>
    decreases msgs.len(),
{
    if msgs.len() == 0 {
        Seq::empty()
    } else {
        stage_outputs(a, msgs.drop_last(), answers) + action_outputs(
            stage_after(a, msgs.drop_last()),
            msgs.last(),
            answers_for(answers, msgs.len() - 1),
        )
    }
}

/// The messages that leave the first `n` actions when `msg` enters the
/// chain: each action handles every message that left the one before it.
pub open spec fn flow(actions: Seq<ActionView>, msg: MessageView, answers: Seq<Seq<Answers>>, n: nat) -> Seq<MessageView>
    decreases n,
{
    if n == 0 || n > actions.len() {
        seq![msg]
    } else {
        stage_outputs(
            actions[n - 1],
            flow(actions, msg, answers, (n - 1) as nat),
            stage_answers(answers, n - 1),
        )
    }
}

/// The actions once `msg` went through the chain.
pub open spec fn actions_after(actions: Seq<ActionView>, msg: MessageView, answers: Seq<Seq<Answers>>) -> Seq<ActionView> {
    Seq::new(actions.len(), |k: int| stage_after(actions[k], flow(actions, msg, answers, k as nat)))
}

/// Whether `answers` holds, for each of `msgs`, what the arithmetic
/// answered while the action handled it.
pub open spec fn stage_answered<A: Arithmetic>(
    arith: &A,
    a: ActionView,
    msgs: Seq<MessageView>,
    answers: Seq<Answers>,
) -> bool
    decreases msgs.len(),
{
    msgs.len() == 0 || (stage_answered(arith, a, msgs.drop_last(), answers) && answers_given(
        arith,
        stage_after(a, msgs.drop_last()),
        msgs.last(),
        answers_for(answers, msgs.len() - 1),
    ))
}

/// Whether `answers` holds, for each of the first `n` actions and each
/// message that reached it, what the arithmetic answered.
pub open spec fn flow_answered<A: Arithmetic>(
    arith: &A,
    actions: Seq<ActionView>,
    msg: MessageView,
    answers: Seq<Seq<Answers>>,
    n: nat,
) -> bool
    decreases n,
{
    n == 0 || n > actions.len() || (flow_answered(arith, actions, msg, answers, (n - 1) as nat)
        && stage_answered(
        arith,
        actions[n - 1],
        flow(actions, msg, answers, (n - 1) as nat),
        stage_answers(answers, n - 1),
    ))
}

/// The answers to a stage are judged by those for the messages it saw.
pub proof fn lemma_stage_answered_answers<A: Arithmetic>(
    arith: &A,
    a: ActionView,
    msgs: Seq<MessageView>,
    x: Seq<Answers>,
    y: Seq<Answers>,
)
    requires
        forall|i: int| 0 <= i < msgs.len() ==> answers_for(x, i) == answers_for(y, i),
    ensures
        stage_answered(arith, a, msgs, x) == stage_answered(arith, a, msgs, y),
    decreases msgs.len(),
{
    if msgs.len() > 0 {
        lemma_stage_answered_answers(arith, a, msgs.drop_last(), x, y);
    }
}

/// The answers to the first `n` actions are judged without those to later
/// ones.
pub proof fn lemma_flow_answered_answers<A: Arithmetic>(
    arith: &A,
    actions: Seq<ActionView>,
    msg: MessageView,
    x: Seq<Seq<Answers>>,
    y: Seq<Seq<Answers>>,
    n: nat,
)
    requires
        forall|k: int| 0 <= k < n ==> stage_answers(x, k) == stage_answers(y, k),
    ensures
        flow_answered(arith, actions, msg, x, n) == flow_answered(arith, actions, msg, y, n),
    decreases n,
{
    if n > 0 && n <= actions.len() {
        lemma_flow_answered_answers(arith, actions, msg, x, y, (n - 1) as nat);
        lemma_flow_answers(actions, msg, x, y, (n - 1) as nat);
    }
}

/// The outputs of a stage do not depend on answers that were given for
/// messages it never saw.
pub proof fn lemma_stage_outputs_answers(
    a: ActionView,
    msgs: Seq<MessageView>,
    x: Seq<Answers>,
    y: Seq<Answers>,
)
    requires
        forall|i: int| 0 <= i < msgs.len() ==> answers_for(x, i) == answers_for(y, i),
    ensures
        stage_outputs(a, msgs, x) == stage_outputs(a, msgs, y),
    decreases msgs.len(),
{
    if msgs.len() > 0 {
        lemma_stage_outputs_answers(a, msgs.drop_last(), x, y);
    }
}

/// What leaves the first `n` actions does not depend on answers that were
/// given to later ones.
pub proof fn lemma_flow_answers(
    actions: Seq<ActionView>,
    msg: MessageView,
    x: Seq<Seq<Answers>>,
    y: Seq<Seq<Answers>>,
    n: nat,
)
    requires
        forall|k: int| 0 <= k < n ==> stage_answers(x, k) == stage_answers(y, k),
    ensures
        flow(actions, msg, x, n) == flow(actions, msg, y, n),
    decreases n,
{
    if n > 0 && n <= actions.len() {
        lemma_flow_answers(actions, msg, x, y, (n - 1) as nat);
    }
}

/// Runs the messages that left one action through the next.
fn run_stage<A: Arithmetic>(action: &mut Action, messages: Vec<Message>, arith: &A) -> (r: Vec<Message>)
    ensures
        final(action)@ == stage_after(old(action)@, messages_view(messages@)),
        exists|answers: Seq<Answers>|
            messages_view(r@) == #[trigger] stage_outputs(
                old(action)@,
                messages_view(messages@),
                answers,
            ) && stage_answered(arith, old(action)@, messages_view(messages@), answers),
{
    let ghost given = messages_view(messages@);
    let ghost start = action@;
    let ghost mut answers: Seq<Answers> = Seq::empty();
    let mut rest = messages;
    let mut out: Vec<Message> = Vec::new();
    let mut i: usize = 0;
    let n = rest.len();
    proof {
        assert(given.skip(0) =~= given);
        assert(given.take(0) =~= Seq::empty());
    }
    while i < n
        invariant
            i <= n,
            n == given.len(),
            rest.len() == n - i,
            messages_view(rest@) == given.skip(i as int),
            answers.len() == i,
            action@ == stage_after(start, given.take(i as int)),
            messages_view(out@) == stage_outputs(start, given.take(i as int), answers),
            stage_answered(arith, start, given.take(i as int), answers),
        decreases n - i,
    {
        let ghost before = action@;
        let ghost waiting = rest@;
        let msg = rest.remove(0);
        proof {
            assert(msg@ == given[i as int]) by {
                assert(messages_view(waiting)[0] == given.skip(i as int)[0]);
            }
            assert(messages_view(rest@) =~= given.skip(i + 1)) by {
                assert forall|j: int| 0 <= j < rest.len() implies messages_view(rest@)[j]
                    == given.skip(i + 1)[j] by {
                    assert(messages_view(waiting)[j + 1] == given.skip(i as int)[j + 1]);
                }
            }
        }
        let mut produced = action.execute(msg, arith);
        let ghost answer = choose|answer: Answers|
            messages_view(produced@) == #[trigger] action_outputs(before, msg@, answer)
                && answers_given(arith, before, msg@, answer);
        out.append(&mut produced);
        proof {
            let extended = answers.push(answer);
            assert(given.take(i + 1).drop_last() =~= given.take(i as int));
            assert(given.take(i + 1).last() == msg@);
            assert(answers_for(extended, i as int) == answer);
            lemma_stage_outputs_answers(start, given.take(i as int), answers, extended);
            lemma_stage_answered_answers(arith, start, given.take(i as int), answers, extended);
            answers = extended;
        }
        i += 1;
    }
    proof {
        assert(given.take(n as int) =~= given);
    }
    out
}

/// Runs `msg` through the chain: the outputs of each action go through the
/// next, one by one and in order.
pub fn run_actions<A: Arithmetic>(actions: &mut Vec<Action>, msg: Message, arith: &A) -> (r: Vec<Message>)
    ensures
        exists|answers: Seq<Seq<Answers>>|
            actions_view(final(actions)@) == actions_after(actions_view(old(actions)@), msg@, answers)
                && messages_view(r@) == #[trigger] flow(
                actions_view(old(actions)@),
                msg@,
                answers,
                old(actions).len() as nat,
            ) && flow_answered(
                arith,
                actions_view(old(actions)@),
                msg@,
                answers,
                old(actions).len() as nat,
            ),
{
    let ghost start = actions_view(actions@);
    let ghost mut answers: Seq<Seq<Answers>> = Seq::empty();
    let mut messages: Vec<Message> = Vec::new();
    messages.push(msg);
    let n = actions.len();
    let mut k: usize = 0;
    while k < n
        invariant
            k <= n,
            n == start.len(),
            actions.len() == n,
            answers.len() == k,
            messages_view(messages@) == flow(start, msg@, answers, k as nat),
            flow_answered(arith, start, msg@, answers, k as nat),
            forall|j: int|
                0 <= j < k ==> (#[trigger] actions[j])@ == stage_after(
                    start[j],
                    flow(start, msg@, answers, j as nat),
                ),
            forall|j: int| k <= j < n ==> (#[trigger] actions[j])@ == start[j],
        decreases n - k,
    {
        let ghost entering = messages_view(messages@);
        let mut taken: Vec<Message> = Vec::new();
        std::mem::swap(&mut messages, &mut taken);
        let produced = run_stage(&mut actions[k], taken, arith);
        proof {
            let given = choose|given: Seq<Answers>|
                messages_view(produced@) == #[trigger] stage_outputs(
                    start[k as int],
                    entering,
                    given,
                ) && stage_answered(arith, start[k as int], entering, given);
            let extended = answers.push(given);
            lemma_flow_answers(start, msg@, extended, answers, k as nat);
            lemma_flow_answered_answers(arith, start, msg@, extended, answers, k as nat);
            assert(stage_answers(extended, k as int) == given);
            assert forall|j: int| 0 <= j < k + 1 implies (#[trigger] actions[j])@ == stage_after(
                start[j],
                flow(start, msg@, extended, j as nat),
            ) by {
                lemma_flow_answers(start, msg@, extended, answers, j as nat);
            }
            assert forall|j: int| k + 1 <= j < n implies (#[trigger] actions[j])@ == start[j] by {
            }
            answers = extended;
        }
        messages = produced;
        k += 1;
    }
    proof {
        assert(actions_view(actions@) =~= actions_after(start, msg@, answers));
    }
    messages
}

/// The results of the arithmetic for action `k` at the end of the input.
pub open spec fn results_for(results: Seq<Seq<Seq<JsonView>>>, k: int) -> Seq<Seq<JsonView>> {
    if 0 <= k < results.len() {
        results[k]
    } else {
        Seq::empty()
    }
}

/// The time stamp that action `k` put on its records.
pub open spec fn stamp_for(stamps: Seq<Timestamp>, k: int) -> Timestamp {
    if 0 <= k < stamps.len() {
        stamps[k]
    } else {
        Timestamp { secs: 0, nanos: 0 }
    }
}

/// What the first `n` actions give back at the end of the input, in chain
/// order. What an action gives back then goes to the sinks as it is, not
/// through the actions behind it.
pub open spec fn final_flow(
    actions: Seq<ActionView>,
    results: Seq<Seq<Seq<JsonView>>>,
    stamps: Seq<Timestamp>,
    n: nat,
) -> Seq<MessageView>
    decreases n,
{
    if n == 0 || n > actions.len() {
        Seq::empty()
    } else {
        final_flow(actions, results, stamps, (n - 1) as nat) + final_outputs(
            actions[n - 1],
            results_for(results, n - 1),
            stamp_for(stamps, n - 1),
        )
    }
}

/// Whether `results` holds, for each of the first `n` actions, what the
/// arithmetic gave it at the end of the input.
pub open spec fn final_answered<A: Arithmetic>(
    arith: &A,
    actions: Seq<ActionView>,
    results: Seq<Seq<Seq<JsonView>>>,
    n: nat,
) -> bool
    decreases n,
{
    n == 0 || n > actions.len() || (final_answered(arith, actions, results, (n - 1) as nat)
        && final_given(arith, actions[n - 1], results_for(results, n - 1)))
}

/// The results for the first `n` actions are judged without those for
/// later ones.
pub proof fn lemma_final_answered_answers<A: Arithmetic>(
    arith: &A,
    actions: Seq<ActionView>,
    x: Seq<Seq<Seq<JsonView>>>,
    y: Seq<Seq<Seq<JsonView>>>,
    n: nat,
)
    requires
        forall|k: int| 0 <= k < n ==> results_for(x, k) == results_for(y, k),
    ensures
        final_answered(arith, actions, x, n) == final_answered(arith, actions, y, n),
    decreases n,
{
    if n > 0 && n <= actions.len() {
        lemma_final_answered_answers(arith, actions, x, y, (n - 1) as nat);
    }
}

/// What the first `n` actions give back at the end does not depend on what
/// was answered to later ones.
pub proof fn lemma_final_flow_answers(
    actions: Seq<ActionView>,
    x: Seq<Seq<Seq<JsonView>>>,
    s: Seq<Timestamp>,
    y: Seq<Seq<Seq<JsonView>>>,
    t: Seq<Timestamp>,
    n: nat,
)
    requires
        forall|k: int| 0 <= k < n ==> results_for(x, k) == results_for(y, k),
        forall|k: int| 0 <= k < n ==> stamp_for(s, k) == stamp_for(t, k),
    ensures
        final_flow(actions, x, s, n) == final_flow(actions, y, t, n),
    decreases n,
{
    if n > 0 && n <= actions.len() {
        lemma_final_flow_answers(actions, x, s, y, t, (n - 1) as nat);
    }
}

/// Runs the end-of-input hook of every action, in chain order.
pub fn finalize_actions<A: Arithmetic>(actions: &mut Vec<Action>, arith: &A) -> (r: Vec<Message>)
    ensures
        actions_view(final(actions)@) == actions_view(old(actions)@),
        exists|results: Seq<Seq<Seq<JsonView>>>, stamps: Seq<Timestamp>|
            messages_view(r@) == #[trigger] final_flow(
                actions_view(old(actions)@),
                results,
                stamps,
                old(actions).len() as nat,
            ) && final_answered(
                arith,
                actions_view(old(actions)@),
                results,
                old(actions).len() as nat,
            ),
{
    let ghost start = actions_view(actions@);
    let ghost mut results: Seq<Seq<Seq<JsonView>>> = Seq::empty();
    let ghost mut stamps: Seq<Timestamp> = Seq::empty();
    let mut out: Vec<Message> = Vec::new();
    let n = actions.len();
    let mut k: usize = 0;
    while k < n
        invariant
            k <= n,
            n == start.len(),
            actions.len() == n,
            results.len() == k,
            stamps.len() == k,
            actions_view(actions@) == start,
            messages_view(out@) == final_flow(start, results, stamps, k as nat),
            final_answered(arith, start, results, k as nat),
        decreases n - k,
    {
        let mut produced = actions[k].finalize(arith);
        let ghost added = messages_view(produced@);
        out.append(&mut produced);
        proof {
            let (given, stamp) = choose|given: Seq<Seq<JsonView>>, stamp: Timestamp|
                added == #[trigger] final_outputs(start[k as int], given, stamp) && final_given(
                    arith,
                    start[k as int],
                    given,
                );
            let more_results = results.push(given);
            let more_stamps = stamps.push(stamp);
            lemma_final_flow_answers(start, results, stamps, more_results, more_stamps, k as nat);
            lemma_final_answered_answers(arith, start, results, more_results, k as nat);
            assert(results_for(more_results, k as int) == given);
            assert(actions_view(actions@) =~= start) by {
                assert forall|j: int| 0 <= j < n implies actions_view(actions@)[j] == start[j] by {
                }
            }
            results = more_results;
            stamps = more_stamps;
        }
        k += 1;
    }
    out
}

// ---------------------------------------------------------------------------
// The pipe
// ---------------------------------------------------------------------------

/// What the pipe is waiting for.
#[derive(Clone, Copy, Debug, PartialEq, Eq, Structural)]
pub enum PipePhase {
    /// The next message of the source.
    Receiving,
    /// The result of a delivery.
    Delivering,
    /// The result of the flush of a sink.
    Flushing,
    /// The end of the source task.
    Joining,
    /// Nothing: the run is over.
    Finished,
}

/// Why a run ended in failure.
#[derive(Clone, Copy, Debug, PartialEq, Eq, Structural)]
pub enum PipeError {
    /// The source ended with an error.
    SourceFailed,
}

/// Something that happened while the pipe ran.
#[derive(Debug)]
pub enum PipeEvent {
    /// The source produced a message.
    Received(Message),
    /// The source will produce no more.
    SourceClosed,
    /// The sink that was handed a message took it (`true`) or failed (`false`).
    Sent(bool),
    /// The sink that was asked to flush did (`true`) or failed (`false`).
    Flushed(bool),
    /// The source task ended well (`true`) or with an error (`false`).
    Joined(bool),
}

/// The mathematical value of a [`PipeEvent`].
pub ghost enum PipeEventView {
    Received(MessageView),
    SourceClosed,
    Sent(bool),
    Flushed(bool),
    Joined(bool),
}

impl View for PipeEvent {
    type V = PipeEventView;

    open spec fn view(&self) -> PipeEventView {
        match self {
            PipeEvent::Received(m) => PipeEventView::Received(m@),
            PipeEvent::SourceClosed => PipeEventView::SourceClosed,
            PipeEvent::Sent(ok) => PipeEventView::Sent(*ok),
            PipeEvent::Flushed(ok) => PipeEventView::Flushed(*ok),
            PipeEvent::Joined(ok) => PipeEventView::Joined(*ok),
        }
    }
}

/// What the runner of the pipe has to do next.
#[derive(Debug)]
pub enum PipeStep {
    /// Take the next message from the source and report it.
    Receive,
    /// Hand this message to sink `sink` and report `Sent`.
    Send { sink: usize, message: Message },
    /// Flush sink `sink` and report `Flushed`.
    Flush { sink: usize },
    /// Wait for the source task to end and report `Joined`.
    Join,
    /// The run is over, with this result.
    Finish(Result<(), PipeError>),
    /// The event does not fit what the pipe was waiting for; nothing changed.
    Unexpected,
}

/// The mathematical value of a [`PipeStep`].
pub ghost enum PipeStepView {
    Receive,
    Send { sink: int, message: MessageView },
    Flush { sink: int },
    Join,
    Finish(Result<(), PipeError>),
    Unexpected,
}

impl View for PipeStep {
    type V = PipeStepView;

    open spec fn view(&self) -> PipeStepView {
        match self {
            PipeStep::Receive => PipeStepView::Receive,
            PipeStep::Send { sink, message } => PipeStepView::Send {
                sink: *sink as int,
                message: message@,
            },
            PipeStep::Flush { sink } => PipeStepView::Flush { sink: *sink as int },
            PipeStep::Join => PipeStepView::Join,
            PipeStep::Finish(result) => PipeStepView::Finish(*result),
            PipeStep::Unexpected => PipeStepView::Unexpected,
        }
    }
}

/// One source, a chain of actions and a number of sinks: the state of a pipe
/// between two of the things that happen to it.
pub struct Pipe {
    actions: Vec<Action>,
    sinks: usize,
    phase: PipePhase,
    queue: Vec<Message>,
    next_message: usize,
    next_sink: usize,
    closing: bool,
}

/// The mathematical value of a [`Pipe`].
pub ghost struct PipeView {
    /// The actions of the chain.
    pub actions: Seq<ActionView>,
    /// How many sinks there are; they are numbered from zero.
    pub sinks: nat,
    /// What the pipe is waiting for.
    pub phase: PipePhase,
    /// The messages that are being delivered.
    pub queue: Seq<MessageView>,
    /// The message of the queue that is being delivered.
    pub next_message: nat,
    /// The sink that was last handed a message or asked to flush.
    pub next_sink: nat,
    /// Whether the source has closed.
    pub closing: bool,
}

impl View for Pipe {
    type V = PipeView;

    closed spec fn view(&self) -> PipeView {
        PipeView {
            actions: actions_view(self.actions@),
            sinks: self.sinks as nat,
            phase: self.phase,
            queue: messages_view(self.queue@),
            next_message: self.next_message as nat,
            next_sink: self.next_sink as nat,
            closing: self.closing,
        }
    }
}

/// The pipe and its next step once nothing is left to deliver: back to the
/// source while it is open; after it has closed, on to the flush of every
/// sink and then to the end of the source task.
pub open spec fn after_delivery(p: PipeView) -> (PipeView, PipeStepView) {
    let idle = PipeView { queue: Seq::empty(), next_message: 0, next_sink: 0, ..p };
    if !p.closing {
        (PipeView { phase: PipePhase::Receiving, ..idle }, PipeStepView::Receive)
    } else if p.sinks == 0 {
        (PipeView { phase: PipePhase::Joining, ..idle }, PipeStepView::Join)
    } else {
        (PipeView { phase: PipePhase::Flushing, ..idle }, PipeStepView::Flush { sink: 0 })
    }
}

/// The pipe and its next step once `queue` came out of the chain: the first
/// message goes to the first sink.
pub open spec fn begin_delivery(p: PipeView, queue: Seq<MessageView>) -> (PipeView, PipeStepView) {
    if queue.len() == 0 || p.sinks == 0 {
        after_delivery(p)
    } else {
        (
            PipeView { phase: PipePhase::Delivering, queue, next_message: 0, next_sink: 0, ..p },
            PipeStepView::Send { sink: 0, message: queue[0] },
        )
    }
}

/// The pipe and its next step once `event` has happened. `actions` and
/// `outputs` are what the chain made of the event, where the event is a
/// message or the end of the input.
///
/// Every message that comes out of the chain goes to every sink, sink by
/// sink in their order, before the next message is looked at; whether a sink
/// took a message or failed makes no difference to what follows.
pub open spec fn pipe_next(
    p: PipeView,
    event: PipeEventView,
    actions: Seq<ActionView>,
    outputs: Seq<MessageView>,
) -> (PipeView, PipeStepView) {
    match (p.phase, event) {
        (PipePhase::Receiving, PipeEventView::Received(_)) => begin_delivery(
            PipeView { actions, ..p },
            outputs,
        ),
        (PipePhase::Receiving, PipeEventView::SourceClosed) => begin_delivery(
            PipeView { actions, closing: true, ..p },
            outputs,
        ),
        (PipePhase::Delivering, PipeEventView::Sent(_)) => if p.next_sink + 1 < p.sinks
            && p.next_message < p.queue.len() {
            (
                PipeView { next_sink: p.next_sink + 1, ..p },
                PipeStepView::Send {
                    sink: p.next_sink as int + 1,
                    message: p.queue[p.next_message as int],
                },
            )
        } else if p.next_message + 1 < p.queue.len() {
            (
                PipeView { next_message: p.next_message + 1, next_sink: 0, ..p },
                PipeStepView::Send { sink: 0, message: p.queue[p.next_message as int + 1] },
            )
        } else {
            after_delivery(p)
        },
        (PipePhase::Flushing, PipeEventView::Flushed(_)) => if p.next_sink + 1 < p.sinks {
            (
                PipeView { next_sink: p.next_sink + 1, ..p },
                PipeStepView::Flush { sink: p.next_sink as int + 1 },
            )
        } else {
            (PipeView { phase: PipePhase::Joining, next_sink: 0, ..p }, PipeStepView::Join)
        },
        (PipePhase::Joining, PipeEventView::Joined(true)) => (
            PipeView { phase: PipePhase::Finished, ..p },
            PipeStepView::Finish(Ok(())),
        ),
        (PipePhase::Joining, PipeEventView::Joined(false)) => (
            PipeView { phase: PipePhase::Finished, ..p },
            PipeStepView::Finish(Err(PipeError::SourceFailed)),
        ),
        _ => (p, PipeStepView::Unexpected),
    }
}

/// What the chain made of `event`, given what the arithmetic answered.
pub open spec fn chain_actions(p: PipeView, event: PipeEventView, answers: Seq<Seq<Answers>>) -> Seq<ActionView> {
    match (p.phase, event) {
        (PipePhase::Receiving, PipeEventView::Received(msg)) => actions_after(p.actions, msg, answers),
        _ => p.actions,
    }
}

/// Whether `answers` and `results` are what the arithmetic gave while the
/// chain dealt with `event`.
pub open spec fn chain_answered<A: Arithmetic>(
    arith: &A,
    p: PipeView,
    event: PipeEventView,
    answers: Seq<Seq<Answers>>,
    results: Seq<Seq<Seq<JsonView>>>,
) -> bool {
    match (p.phase, event) {
        (PipePhase::Receiving, PipeEventView::Received(msg)) => flow_answered(
            arith,
            p.actions,
            msg,
            answers,
            p.actions.len(),
        ),
        (PipePhase::Receiving, PipeEventView::SourceClosed) => final_answered(
            arith,
            p.actions,
            results,
            p.actions.len(),
        ),
        _ => true,
    }
}

/// What came out of the chain for `event`, given what the arithmetic
/// answered and the time stamps put on the records.
pub open spec fn chain_outputs(
    p: PipeView,
    event: PipeEventView,
    answers: Seq<Seq<Answers>>,
    results: Seq<Seq<Seq<JsonView>>>,
    stamps: Seq<Timestamp>,
) -> Seq<MessageView> {
    match (p.phase, event) {
        (PipePhase::Receiving, PipeEventView::Received(msg)) => flow(
            p.actions,
            msg,
            answers,
            p.actions.len(),
        ),
        (PipePhase::Receiving, PipeEventView::SourceClosed) => final_flow(
            p.actions,
            results,
            stamps,
            p.actions.len(),
        ),
        _ => Seq::empty(),
    }
}

impl Pipe {
    /// A pipe over `actions` and `sinks` sinks that waits for the first
    /// message of the source.
    pub fn new(actions: Vec<Action>, sinks: usize) -> (r: Pipe)
        ensures
            r@ == (PipeView {
                actions: actions_view(actions@),
                sinks: sinks as nat,
                phase: PipePhase::Receiving,
                queue: Seq::empty(),
                next_message: 0,
                next_sink: 0,
                closing: false,
            }),
    {
        let r = Pipe {
            actions,
            sinks,
            phase: PipePhase::Receiving,
            queue: Vec::new(),
            next_message: 0,
            next_sink: 0,
            closing: false,
        };
        proof {
            assert(r@.queue =~= Seq::empty());
        }
        r
    }

    /// What the pipe is waiting for.
    pub fn phase(&self) -> (r: PipePhase)
        ensures
            r == self@.phase,
    {
        self.phase
    }

    /// Goes on once nothing is left to deliver.
    fn settle(&mut self) -> (r: PipeStep)
        ensures
            (final(self)@, r@) == after_delivery(old(self)@),
    {
        self.queue = Vec::new();
        self.next_message = 0;
        self.next_sink = 0;
        proof {
            assert(self@.queue =~= Seq::empty());
        }
        if !self.closing {
            self.phase = PipePhase::Receiving;
            PipeStep::Receive
        } else if self.sinks == 0 {
            self.phase = PipePhase::Joining;
            PipeStep::Join
        } else {
            self.phase = PipePhase::Flushing;
            PipeStep::Flush { sink: 0 }
        }
    }

    /// Starts to deliver what came out of the chain.
    fn deliver(&mut self, queue: Vec<Message>) -> (r: PipeStep)
        ensures
            (final(self)@, r@) == begin_delivery(old(self)@, messages_view(queue@)),
    {
        if queue.len() == 0 || self.sinks == 0 {
            return self.settle();
        }
        let first = queue[0].clone();
        self.queue = queue;
        self.next_message = 0;
        self.next_sink = 0;
        self.phase = PipePhase::Delivering;
        PipeStep::Send { sink: 0, message: first }
    }

    /// Takes in `event` and says what to do next. A message is run through
    /// the chain, and so is the end of the input; `arith` answers what the
    /// actions ask.
    pub fn step<A: Arithmetic>(&mut self, event: PipeEvent, arith: &A) -> (r: PipeStep)
        ensures
            exists|answers: Seq<Seq<Answers>>, results: Seq<Seq<Seq<JsonView>>>, stamps: Seq<Timestamp>|
                (final(self)@, r@) == pipe_next(
                    old(self)@,
                    event@,
                    chain_actions(old(self)@, event@, answers),
                    #[trigger] chain_outputs(old(self)@, event@, answers, results, stamps),
                ) && chain_answered(arith, old(self)@, event@, answers, results),
    {
        let ghost before = self@;
        let ghost happened = event@;
        let ghost no_answers = Seq::<Seq<Answers>>::empty();
        let ghost no_results = Seq::<Seq<Seq<JsonView>>>::empty();
        let ghost no_stamps = Seq::<Timestamp>::empty();
        match (self.phase, event) {
            (PipePhase::Receiving, PipeEvent::Received(msg)) => {
                let queue = run_actions(&mut self.actions, msg, arith);
                let ghost answers = choose|answers: Seq<Seq<Answers>>|
                    actions_view(self.actions@) == actions_after(before.actions, msg@, answers)
                        && messages_view(queue@) == #[trigger] flow(
                        before.actions,
                        msg@,
                        answers,
                        before.actions.len(),
                    ) && flow_answered(arith, before.actions, msg@, answers, before.actions.len());
                let r = self.deliver(queue);
                proof {
                    assert((self@, r@) == pipe_next(
                        before,
                        happened,
                        chain_actions(before, happened, answers),
                        chain_outputs(before, happened, answers, no_results, no_stamps),
                    ) && chain_answered(arith, before, happened, answers, no_results));
                }
                r
            },
            (PipePhase::Receiving, PipeEvent::SourceClosed) => {
                let queue = finalize_actions(&mut self.actions, arith);
                let ghost (results, stamps) = choose|
                    results: Seq<Seq<Seq<JsonView>>>,
                    stamps: Seq<Timestamp>,
                |
                    messages_view(queue@) == #[trigger] final_flow(
                        before.actions,
                        results,
                        stamps,
                        before.actions.len(),
                    ) && final_answered(arith, before.actions, results, before.actions.len());
                self.closing = true;
                let r = self.deliver(queue);
                proof {
                    assert((self@, r@) == pipe_next(
                        before,
                        happened,
                        chain_actions(before, happened, no_answers),
                        chain_outputs(before, happened, no_answers, results, stamps),
                    ) && chain_answered(arith, before, happened, no_answers, results));
                }
                r
            },
            (PipePhase::Delivering, PipeEvent::Sent(_)) => {
                assert(before.queue.len() == self.queue.len());
                let r = if self.next_sink < usize::MAX && self.next_sink + 1 < self.sinks
                    && self.next_message < self.queue.len() {
                    self.next_sink = self.next_sink + 1;
                    let message = self.queue[self.next_message].clone();
                    PipeStep::Send { sink: self.next_sink, message }
                } else if self.next_message < usize::MAX && self.next_message + 1
                    < self.queue.len() {
                    self.next_message = self.next_message + 1;
                    self.next_sink = 0;
                    let message = self.queue[self.next_message].clone();
                    PipeStep::Send { sink: 0, message }
                } else {
                    self.settle()
                };
                proof {
                    assert((self@, r@) == pipe_next(
                        before,
                        happened,
                        chain_actions(before, happened, no_answers),
                        chain_outputs(before, happened, no_answers, no_results, no_stamps),
                    ) && chain_answered(arith, before, happened, no_answers, no_results));
                }
                r
            },
            (PipePhase::Flushing, PipeEvent::Flushed(_)) => {
                let r = if self.next_sink < usize::MAX && self.next_sink + 1 < self.sinks {
                    self.next_sink = self.next_sink + 1;
                    PipeStep::Flush { sink: self.next_sink }
                } else {
                    self.phase = PipePhase::Joining;
                    self.next_sink = 0;
                    PipeStep::Join
                };
                proof {
                    assert((self@, r@) == pipe_next(
                        before,
                        happened,
                        chain_actions(before, happened, no_answers),
                        chain_outputs(before, happened, no_answers, no_results, no_stamps),
                    ) && chain_answered(arith, before, happened, no_answers, no_results));
                }
                r
            },
            (PipePhase::Joining, PipeEvent::Joined(ok)) => {
                self.phase = PipePhase::Finished;
                let r = if ok {
                    PipeStep::Finish(Ok(()))
                } else {
                    PipeStep::Finish(Err(PipeError::SourceFailed))
                };
                proof {
                    assert((self@, r@) == pipe_next(
                        before,
                        happened,
                        chain_actions(before, happened, no_answers),
                        chain_outputs(before, happened, no_answers, no_results, no_stamps),
                    ) && chain_answered(arith, before, happened, no_answers, no_results));
                }
                r
            },
            _ => {
                let r = PipeStep::Unexpected;
                proof {
                    assert((self@, r@) == pipe_next(
                        before,
                        happened,
                        chain_actions(before, happened, no_answers),
                        chain_outputs(before, happened, no_answers, no_results, no_stamps),
                    ) && chain_answered(arith, before, happened, no_answers, no_results));
                }
                r
            },
        }
    }
}

/// The pipe once the sinks have answered `results`, one `Sent` for each,
/// while it delivers.
pub open spec fn after_sends(p: PipeView, results: Seq<bool>) -> PipeView
    decreases results.len(),
{
    if results.len() == 0 {
        p
    } else {
        pipe_next(
            after_sends(p, results.drop_last()),
            PipeEventView::Sent(results.last()),
            p.actions,
            Seq::empty(),
        ).0
    }
}

/// The step that the last of the answers `results` led to.
pub open spec fn step_after_sends(p: PipeView, results: Seq<bool>) -> PipeStepView
    recommends
        results.len() > 0,
{
    pipe_next(
        after_sends(p, results.drop_last()),
        PipeEventView::Sent(results.last()),
        p.actions,
        Seq::empty(),
    ).1
}

/// A message that came out of the chain alone is handed to each sink exactly
/// once, in the order of the sinks, whatever the sinks answer: the first
/// step sends it to sink zero, the answer of sink `i` leads to the send to
/// sink `i + 1`, and the answer of the last sink ends the delivery.
pub proof fn lemma_tee_sends_once_to_each_sink(p: PipeView, msg: MessageView, results: Seq<bool>)
    requires
        p.sinks > 0,
        0 < results.len() <= p.sinks,
    ensures
        begin_delivery(p, seq![msg]).1 == (PipeStepView::Send { sink: 0, message: msg }),
        results.len() < p.sinks ==> step_after_sends(begin_delivery(p, seq![msg]).0, results) == (
        PipeStepView::Send { sink: results.len() as int, message: msg }),
        results.len() == p.sinks ==> !(step_after_sends(begin_delivery(p, seq![msg]).0, results)
            is Send),
        results.len() == p.sinks ==> after_sends(begin_delivery(p, seq![msg]).0, results).phase
            != PipePhase::Delivering,
{
    lemma_delivering(p, msg, results.drop_last());
}

/// While fewer answers have come than there are sinks, the pipe still
/// delivers the one message, and the sink it waits for is the one after the
/// sinks that have answered.
proof fn lemma_delivering(p: PipeView, msg: MessageView, results: Seq<bool>)
    requires
        p.sinks > 0,
        results.len() < p.sinks,
    ensures
        ({
            let now = after_sends(begin_delivery(p, seq![msg]).0, results);
            &&& now.phase == PipePhase::Delivering
            &&& now.queue == seq![msg]
            &&& now.next_message == 0
            &&& now.next_sink == results.len()
            &&& now.sinks == p.sinks
            &&& now.closing == p.closing
            &&& now.actions == p.actions
        }),
    decreases results.len(),
{
    if results.len() > 0 {
        lemma_delivering(p, msg, results.drop_last());
    }
}

} // verus!
