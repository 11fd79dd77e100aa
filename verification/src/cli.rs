//! The command line: the commands, and the plan that the arguments of a pipe
//! write down.

use crate::endpoints::{parse_sink, EndpointError, EndpointErrorView, SinkType, SinkTypeView};
use crate::message::pairs_view;
use crate::text::{has_prefix, parse_bounded, parse_unsigned, starts_with, str_eq};
use vstd::prelude::*;

verus! {

/// The arguments of the program.
#[derive(Debug)]
pub struct Cli {
    pub command: Commands,
    pub batch_size: Option<usize>,
    pub deduplicate: Option<bool>,
    pub throttle_per_sec: Option<u64>,
    /// Path of a YAML configuration.
    pub config: Option<String>,
}

/// The commands of the program.
#[derive(Debug)]
pub enum Commands {
    /// Convert a file from one format to another.
    Convert { input: String, output: String, from: String, to: String },
    /// Bridge one source to one sink through the middleware chain.
    Bridge {
        source: String,
        sink: String,
        batch_size: Option<usize>,
        batch_timeout_ms: Option<u64>,
        deduplicate: bool,
        throttle_per_sec: Option<u64>,
        retry_max_attempts: Option<u32>,
        retry_delay_ms: Option<u64>,
        schema_path: Option<String>,
        config: Option<String>,
    },
    /// Pipe one source through actions to any number of sinks.
    Pipe { source: String, args: Vec<String> },
    /// Look at the messages of a Kafka topic.
    Kafka { topic: String, broker: String, group: String, head: Option<usize>, tail: Option<usize> },
}

/// How many messages a file sink holds back before it writes them.
pub const FILE_SINK_BUFFER: usize = 1024;

/// One action of a pipe, as the command line asks for it.
#[derive(Debug)]
pub enum ActionSpec {
    Filter(String),
    Transform(String),
    Aggregate { group_by: Option<String>, operations: Vec<(String, String)> },
    Normalize { schema_path: Option<String> },
    Validate { schema_path: Option<String> },
    Limit(usize),
    Sample(usize),
}

/// The mathematical value of an [`ActionSpec`].
pub ghost enum ActionSpecView {
    Filter(Seq<char>),
    Transform(Seq<char>),
    Aggregate { group_by: Option<Seq<char>>, operations: Seq<(Seq<char>, Seq<char>)> },
    Normalize { schema_path: Option<Seq<char>> },
    Validate { schema_path: Option<Seq<char>> },
    Limit(nat),
    Sample(nat),
}

/// The view of an optional text.
pub open spec fn optional_text(text: Option<String>) -> Option<Seq<char>> {
    match text {
        Some(text) => Some(text@),
        None => None,
    }
}

impl View for ActionSpec {
    type V = ActionSpecView;

    open spec fn view(&self) -> ActionSpecView {
        match self {
            ActionSpec::Filter(expr) => ActionSpecView::Filter(expr@),
            ActionSpec::Transform(expr) => ActionSpecView::Transform(expr@),
            ActionSpec::Aggregate { group_by, operations } => ActionSpecView::Aggregate {
                group_by: optional_text(*group_by),
                operations: pairs_view(operations@),
            },
            ActionSpec::Normalize { schema_path } => ActionSpecView::Normalize {
                schema_path: optional_text(*schema_path),
            },
            ActionSpec::Validate { schema_path } => ActionSpecView::Validate {
                schema_path: optional_text(*schema_path),
            },
            ActionSpec::Limit(n) => ActionSpecView::Limit(*n as nat),
            ActionSpec::Sample(n) => ActionSpecView::Sample(*n as nat),
        }
    }
}

/// Whether `s` is one of the words that start an action.
pub open spec fn is_action_word(s: Seq<char>) -> bool {
    s == "filter"@ || s == "transform"@ || s == "aggregate"@ || s == "normalize"@ || s
        == "validate"@ || s == "limit"@ || s == "sample"@ || s == "tee"@ || s == "buffer"@
}

/// Whether `s` is one of the words that start an action.
pub fn is_action(s: &str) -> (r: bool)
    ensures
        r == is_action_word(s@),
{
    str_eq(s, "filter") || str_eq(s, "transform") || str_eq(s, "aggregate") || str_eq(
        s,
        "normalize",
    ) || str_eq(s, "validate") || str_eq(s, "limit") || str_eq(s, "sample") || str_eq(s, "tee")
        || str_eq(s, "buffer")
}

/// Reads a sink argument of a pipe: `-` or `stdout` for the standard output,
/// else an endpoint as a bridge takes it.
pub fn parse_sink_endpoint(s: &str) -> (r: Result<SinkType, EndpointError>)
    ensures
        match r {
            Ok(sink) => parse_sink(s@) == Ok::<SinkTypeView, EndpointErrorView>(sink@),
            Err(e) => parse_sink(s@) == Err::<SinkTypeView, EndpointErrorView>(e@),
        },
{
    SinkType::parse(s)
}

/// The plan that the arguments of a pipe write down.
pub ghost struct PlanView {
    pub actions: Seq<ActionSpecView>,
    pub sinks: Seq<SinkTypeView>,
}

/// `plan` with one more action.
pub open spec fn with_action(plan: PlanView, action: ActionSpecView) -> PlanView {
    PlanView { actions: plan.actions.push(action), ..plan }
}

/// `plan` with the sink that `arg` names, where it names one.
pub open spec fn with_sink(plan: PlanView, arg: Seq<char>) -> PlanView {
    match parse_sink(arg) {
        Ok(sink) => PlanView { sinks: plan.sinks.push(sink), ..plan },
        Err(_) => plan,
    }
}

/// The schema path that follows `normalize` or `validate` at position `i`:
/// the argument after one that starts with `--schema`.
pub open spec fn schema_argument(args: Seq<Seq<char>>, i: int) -> Option<Seq<char>> {
    if i + 2 < args.len() && starts_with(args[i + 1], "--schema"@) {
        Some(args[i + 2])
    } else {
        None
    }
}

/// The plan once the arguments from position `i` on were read into `plan`.
///
/// `filter` and `transform` take the next argument as their expression, and
/// are passed over where none follows. `aggregate` stands alone. `normalize`
/// and `validate` may be followed by `--schema PATH`. `limit` and `sample`
/// take the next argument as a number and are dropped with it where it is
/// none. `tee` is followed by sinks up to the next action word. Any other
/// argument is a sink; one that names no sink is passed over.
pub open spec fn planned_from(args: Seq<Seq<char>>, i: int, plan: PlanView) -> PlanView
    decreases args.len() - i, 0nat,
{
    if i < 0 || i >= args.len() {
        plan
    } else if args[i] == "filter"@ {
        if i + 1 < args.len() {
            planned_from(args, i + 2, with_action(plan, ActionSpecView::Filter(args[i + 1])))
        } else {
            planned_from(args, i + 1, plan)
        }
    } else if args[i] == "transform"@ {
        if i + 1 < args.len() {
            planned_from(args, i + 2, with_action(plan, ActionSpecView::Transform(args[i + 1])))
        } else {
            planned_from(args, i + 1, plan)
        }
    } else if args[i] == "aggregate"@ {
        planned_from(
            args,
            i + 1,
            with_action(
                plan,
                ActionSpecView::Aggregate { group_by: None, operations: Seq::empty() },
            ),
        )
    } else if args[i] == "normalize"@ {
        match schema_argument(args, i) {
            Some(path) => planned_from(
                args,
                i + 3,
                with_action(plan, ActionSpecView::Normalize { schema_path: Some(path) }),
            ),
            None => planned_from(
                args,
                i + 1,
                with_action(plan, ActionSpecView::Normalize { schema_path: None }),
            ),
        }
    } else if args[i] == "validate"@ {
        match schema_argument(args, i) {
            Some(path) => planned_from(
                args,
                i + 3,
                with_action(plan, ActionSpecView::Validate { schema_path: Some(path) }),
            ),
            None => planned_from(
                args,
                i + 1,
                with_action(plan, ActionSpecView::Validate { schema_path: None }),
            ),
        }
    } else if args[i] == "limit"@ {
        if i + 1 < args.len() {
            match parse_unsigned(args[i + 1], usize::MAX as nat) {
                Some(n) => planned_from(args, i + 2, with_action(plan, ActionSpecView::Limit(n))),
                None => planned_from(args, i + 2, plan),
            }
        } else {
            planned_from(args, i + 1, plan)
        }
    } else if args[i] == "sample"@ {
        if i + 1 < args.len() {
            match parse_unsigned(args[i + 1], usize::MAX as nat) {
                Some(n) => planned_from(args, i + 2, with_action(plan, ActionSpecView::Sample(n))),
                None => planned_from(args, i + 2, plan),
            }
        } else {
            planned_from(args, i + 1, plan)
        }
    } else if args[i] == "tee"@ {
        teed_from(args, i + 1, plan)
    } else {
        planned_from(args, i + 1, with_sink(plan, args[i]))
    }
}

/// The plan once the sinks behind a `tee` were read from position `i` on,
/// and the rest of the arguments after them.
pub open spec fn teed_from(args: Seq<Seq<char>>, i: int, plan: PlanView) -> PlanView
    decreases args.len() - i, 1nat,
{
    if i < 0 || i >= args.len() || is_action_word(args[i]) {
        planned_from(args, i, plan)
    } else {
        teed_from(args, i + 1, with_sink(plan, args[i]))
    }
}

/// The plan that the arguments of a pipe write down; where they name no
/// sink, the standard output is the one sink.
pub open spec fn plan_of(args: Seq<Seq<char>>) -> PlanView {
    let plan = planned_from(args, 0, PlanView { actions: Seq::empty(), sinks: Seq::empty() });
    if plan.sinks.len() == 0 {
        PlanView { sinks: seq![SinkTypeView::Stdout], ..plan }
    } else {
        plan
    }
}

/// The views of `actions`, in order.
pub open spec fn specs_view(actions: Seq<ActionSpec>) -> Seq<ActionSpecView> {
    Seq::new(actions.len(), |i: int| actions[i]@)
}

/// The views of `sinks`, in order.
pub open spec fn sinks_view(sinks: Seq<SinkType>) -> Seq<SinkTypeView> {
    Seq::new(sinks.len(), |i: int| sinks[i]@)
}

/// The texts of `args`, in order.
pub open spec fn args_view(args: Seq<String>) -> Seq<Seq<char>> {
    Seq::new(args.len(), |i: int| args[i]@)
}

/// Adds the sink that `arg` names, where it names one.
fn push_sink(sinks: &mut Vec<SinkType>, arg: &str)
    ensures
        sinks_view(final(sinks)@) == match parse_sink(arg@) {
            Ok(sink) => sinks_view(old(sinks)@).push(sink),
            Err(_) => sinks_view(old(sinks)@),
        },
{
    match parse_sink_endpoint(arg) {
        Ok(sink) => {
            sinks.push(sink);
        },
        Err(_) => {},
    }
}

/// Adds an action.
fn push_action(actions: &mut Vec<ActionSpec>, action: ActionSpec)
    ensures
        specs_view(final(actions)@) == specs_view(old(actions)@).push(action@),
{
    actions.push(action);
}

/// The schema path that follows `normalize` or `validate` at position `i`.
fn schema_path_at(args: &Vec<String>, i: usize) -> (r: Option<String>)
    requires
        i < args.len(),
    ensures
        optional_text(r) == schema_argument(args_view(args@), i as int),
{
    if args.len() - i > 2 && has_prefix(args[i + 1].as_str(), "--schema") {
        Some(args[i + 2].clone())
    } else {
        None
    }
}

/// Reads a number of elements.
fn parse_count(s: &str) -> (r: Option<usize>)
    ensures
        match r {
            Some(n) => parse_unsigned(s@, usize::MAX as nat) == Some(n as nat),
            None => parse_unsigned(s@, usize::MAX as nat) is None,
        },
{
    match parse_bounded(s, usize::MAX as u64) {
        Some(n) => Some(n as usize),
        None => None,
    }
}

/// Reads the arguments of a pipe into the actions and the sinks that they
/// ask for.
pub fn parse_pipe_args(args: &Vec<String>) -> (r: (Vec<ActionSpec>, Vec<SinkType>))
    ensures
        specs_view(r.0@) == plan_of(args_view(args@)).actions,
        sinks_view(r.1@) == plan_of(args_view(args@)).sinks,
        r.1.len() > 0,
{
    let ghost all = args_view(args@);
    let ghost goal = planned_from(all, 0, PlanView { actions: Seq::empty(), sinks: Seq::empty() });
    let mut actions: Vec<ActionSpec> = Vec::new();
    let mut sinks: Vec<SinkType> = Vec::new();
    let n = args.len();
    let mut i: usize = 0;
    proof {
        assert(specs_view(actions@) =~= Seq::empty());
        assert(sinks_view(sinks@) =~= Seq::empty());
    }
    while i < n
        invariant
            i <= n,
            n == args.len(),
            all == args_view(args@),
            goal == planned_from(
                all,
                i as int,
                PlanView { actions: specs_view(actions@), sinks: sinks_view(sinks@) },
            ),
        decreases n - i,
    {
        let cmd = args[i].as_str();
        if str_eq(cmd, "filter") {
            if n - i > 1 {
                push_action(&mut actions, ActionSpec::Filter(args[i + 1].clone()));
                i += 2;
            } else {
                i += 1;
            }
        } else if str_eq(cmd, "transform") {
            if n - i > 1 {
                push_action(&mut actions, ActionSpec::Transform(args[i + 1].clone()));
                i += 2;
            } else {
                i += 1;
            }
        } else if str_eq(cmd, "aggregate") {
            let operations: Vec<(String, String)> = Vec::new();
            proof {
                assert(pairs_view(operations@) =~= Seq::empty());
            }
            push_action(&mut actions, ActionSpec::Aggregate { group_by: None, operations });
            i += 1;
        } else if str_eq(cmd, "normalize") {
            match schema_path_at(args, i) {
                Some(path) => {
                    push_action(&mut actions, ActionSpec::Normalize { schema_path: Some(path) });
                    i += 3;
                },
                None => {
                    push_action(&mut actions, ActionSpec::Normalize { schema_path: None });
                    i += 1;
                },
            }
        } else if str_eq(cmd, "validate") {
            match schema_path_at(args, i) {
                Some(path) => {
                    push_action(&mut actions, ActionSpec::Validate { schema_path: Some(path) });
                    i += 3;
                },
                None => {
                    push_action(&mut actions, ActionSpec::Validate { schema_path: None });
                    i += 1;
                },
            }
        } else if str_eq(cmd, "limit") {
            if n - i > 1 {
                match parse_count(args[i + 1].as_str()) {
                    Some(count) => {
                        push_action(&mut actions, ActionSpec::Limit(count));
                    },
                    None => {},
                }
                i += 2;
            } else {
                i += 1;
            }
        } else if str_eq(cmd, "sample") {
            if n - i > 1 {
                match parse_count(args[i + 1].as_str()) {
                    Some(count) => {
                        push_action(&mut actions, ActionSpec::Sample(count));
                    },
                    None => {},
                }
                i += 2;
            } else {
                i += 1;
            }
        } else if str_eq(cmd, "tee") {
            let ghost entered = i;
            i += 1;
            while i < n && !is_action(args[i].as_str())
                invariant
                    entered < i <= n,
                    n == args.len(),
                    all == args_view(args@),
                    goal == teed_from(
                        all,
                        i as int,
                        PlanView { actions: specs_view(actions@), sinks: sinks_view(sinks@) },
                    ),
                decreases n - i,
            {
                push_sink(&mut sinks, args[i].as_str());
                i += 1;
            }
        } else {
            push_sink(&mut sinks, cmd);
            i += 1;
        }
    }
    if sinks.len() == 0 {
        sinks.push(SinkType::Stdout);
    }
    (actions, sinks)
}

} // verus!
