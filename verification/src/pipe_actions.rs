//! The actions of a pipe: stages that each take one message and give back
//! zero or more, with a hook that runs once when the input has ended.

use crate::json::{fields_view, items_view, lemma_object_view, Json, JsonView};
use crate::message::{json_message, messages_view, Message, MessageView, Timestamp};
use crate::schema::{missing_required, missing_required_field, optional_view};
use crate::text::{
    split, split_on, split_once, split_once_at, str_eq, trim, trimmed, unquote, unquoted,
};
use crate::wire::{encoded_text, to_payload};
use vstd::prelude::*;
use vstd::string::StringExecFns;

verus! {

/// How one number stands to another.
#[derive(Clone, Copy, Debug, PartialEq, Eq, Structural)]
pub enum NumberOrder {
    Less,
    Equal,
    Greater,
    /// Neither less, equal nor greater: one of the two is not a number.
    Unordered,
}

/// One operator of an arithmetic expression.
#[derive(Clone, Copy, Debug, PartialEq, Eq, Structural)]
pub enum MathOp {
    Add,
    Sub,
    Mul,
    Div,
}

/// One step of an arithmetic expression: apply `op` to what was computed so
/// far and to the operand. The operand is the number that `token` writes,
/// or else `field`, the number that the document holds under that name.
#[derive(Debug)]
pub struct MathStep {
    pub op: MathOp,
    pub token: String,
    pub field: Option<serde_json::Number>,
}

/// The numbers that the actions compute with, and the operations on them.
/// The actions decide which numbers are combined, in which order and by which
/// operation; what a number is and what an operation gives is left to the
/// implementation. Nothing is assumed of an implementation: every action is
/// verified for whatever these methods return.
pub trait Arithmetic {
    /// A number.
    type Num;

    /// The number zero.
    fn zero(&self) -> Self::Num;

    /// A number above all others.
    fn infinity(&self) -> Self::Num;

    /// A number below all others.
    fn negative_infinity(&self) -> Self::Num;

    /// The number that `text` writes; nothing where it writes none.
    fn parse(&self, text: &str) -> Option<Self::Num>;

    /// The number that a JSON number holds; nothing where it holds none.
    fn of_number(&self, number: &serde_json::Number) -> Option<Self::Num>;

    /// The number of a count.
    fn of_count(&self, count: usize) -> Self::Num;

    /// How `a` stands to `b`.
    fn order(&self, a: &Self::Num, b: &Self::Num) -> NumberOrder;

    /// `a + b`.
    fn plus(&self, a: &Self::Num, b: &Self::Num) -> Self::Num;

    /// `a - b`.
    fn minus(&self, a: &Self::Num, b: &Self::Num) -> Self::Num;

    /// `a * b`.
    fn times(&self, a: &Self::Num, b: &Self::Num) -> Self::Num;

    /// `a / b`.
    fn divided(&self, a: &Self::Num, b: &Self::Num) -> Self::Num;

    /// The smaller of `a` and `b`.
    fn smaller(&self, a: &Self::Num, b: &Self::Num) -> Self::Num;

    /// The larger of `a` and `b`.
    fn larger(&self, a: &Self::Num, b: &Self::Num) -> Self::Num;

    /// The document that writes `a`: a JSON number, or `null` where JSON has
    /// no number for it.
    fn to_json(&self, a: &Self::Num) -> Json;
}

/// Whether `r` is what the arithmetic makes of the question how `value`
/// stands to the number that `literal` writes: the order that it gives for
/// the two numbers, or nothing where it finds no number in either.
pub open spec fn order_given<A: Arithmetic>(
    arith: &A,
    value: &serde_json::Number,
    literal: &str,
    r: Option<NumberOrder>,
) -> bool {
    exists|a: Option<A::Num>, b: Option<A::Num>|
        call_ensures(A::of_number, (arith, value), a) && call_ensures(A::parse, (arith, literal), b)
            && #[trigger] order_of(arith, a, b, r)
}

/// Whether `r` is the order that the arithmetic gives for `a` and `b`, or
/// nothing where one of them is no number.
pub open spec fn order_of<A: Arithmetic>(
    arith: &A,
    a: Option<A::Num>,
    b: Option<A::Num>,
    r: Option<NumberOrder>,
) -> bool {
    match (a, b, r) {
        (Some(x), Some(y), Some(order)) => call_ensures(A::order, (arith, &x, &y), order),
        (Some(_), Some(_), None) => false,
        (_, _, r) => r is None,
    }
}

/// How the number `value` stands to the number that `literal` writes;
/// nothing where either is no number.
fn numeric_order<A: Arithmetic>(value: &serde_json::Number, literal: &str, arith: &A) -> (r: Option<
    NumberOrder,
>)
    ensures
        order_given(arith, value, literal, r),
{
    let a = arith.of_number(value);
    let b = arith.parse(literal);
    let r = match (&a, &b) {
        (Some(x), Some(y)) => Some(arith.order(x, y)),
        _ => None,
    };
    proof {
        assert(order_of(arith, a, b, r));
    }
    r
}

/// Whether `r` is the operand that the arithmetic gives for `step`: the
/// number that the token writes, else the number of the field; nothing
/// where there is neither.
pub open spec fn operand_given<A: Arithmetic>(arith: &A, step: MathStep, r: Option<A::Num>) -> bool {
    exists|text: &str, written: Option<A::Num>|
        text@ == step.token@ && #[trigger] call_ensures(A::parse, (arith, text), written)
            && operand_from(arith, step, written, r)
}

/// Whether `r` is the operand of `step`, given the number that its token
/// writes.
pub open spec fn operand_from<A: Arithmetic>(
    arith: &A,
    step: MathStep,
    written: Option<A::Num>,
    r: Option<A::Num>,
) -> bool {
    match written {
        Some(n) => r == Some(n),
        None => match step.field {
            Some(number) => call_ensures(A::of_number, (arith, &number), r),
            None => r is None,
        },
    }
}

/// The operand of a step.
fn operand_of<A: Arithmetic>(step: &MathStep, arith: &A) -> (r: Option<A::Num>)
    ensures
        operand_given(arith, *step, r),
{
    let text = step.token.as_str();
    let written = arith.parse(text);
    let ghost seen = written;
    let r = match written {
        Some(n) => Some(n),
        None => match &step.field {
            Some(number) => arith.of_number(number),
            None => None,
        },
    };
    proof {
        assert(operand_from(arith, *step, seen, r));
    }
    r
}

/// Whether `r` is what the operator `op` makes of the result so far and the
/// next operand: their sum, difference, product or quotient.
pub open spec fn combined<A: Arithmetic>(
    arith: &A,
    op: MathOp,
    result: A::Num,
    operand: A::Num,
    r: A::Num,
) -> bool {
    match op {
        MathOp::Add => call_ensures(A::plus, (arith, &result, &operand), r),
        MathOp::Sub => call_ensures(A::minus, (arith, &result, &operand), r),
        MathOp::Mul => call_ensures(A::times, (arith, &result, &operand), r),
        MathOp::Div => call_ensures(A::divided, (arith, &result, &operand), r),
    }
}

/// What an operator makes of the result so far and the next operand.
fn combine<A: Arithmetic>(op: MathOp, result: A::Num, operand: A::Num, arith: &A) -> (r: A::Num)
    ensures
        combined(arith, op, result, operand, r),
{
    match op {
        MathOp::Add => arith.plus(&result, &operand),
        MathOp::Sub => arith.minus(&result, &operand),
        MathOp::Mul => arith.times(&result, &operand),
        MathOp::Div => arith.divided(&result, &operand),
    }
}

/// Whether `r` is what the first `n` steps evaluate to: zero for no step,
/// and for each further step what its operator makes of the result so far
/// and its operand.
pub open spec fn evaluated<A: Arithmetic>(arith: &A, steps: Seq<MathStep>, n: nat, r: A::Num) -> bool
    decreases n,
{
    if n == 0 || n > steps.len() {
        call_ensures(A::zero, (arith,), r)
    } else {
        exists|before: A::Num, operand: A::Num|
            evaluated(arith, steps, (n - 1) as nat, before) && operand_given(
                arith,
                steps[n - 1],
                Some(operand),
            ) && #[trigger] combined(arith, steps[n - 1].op, before, operand, r)
    }
}

/// Whether evaluation stops at step `i` for want of an operand.
pub open spec fn stuck_at<A: Arithmetic>(arith: &A, steps: Seq<MathStep>, i: nat) -> bool {
    i < steps.len() && operand_given(arith, steps[i as int], None::<A::Num>) && exists|before: A::Num| #[trigger]
        evaluated(arith, steps, i, before)
}

/// Evaluates the steps of an arithmetic expression from left to right,
/// starting from zero: each operator takes the result so far and the operand
/// behind it, without precedence. Nothing where a step has no operand.
fn eval_math<A: Arithmetic>(steps: &Vec<MathStep>, arith: &A) -> (r: Option<A::Num>)
    ensures
        match r {
            Some(value) => evaluated(arith, steps@, steps.len() as nat, value),
            None => exists|i: nat| stuck_at(arith, steps@, i),
        },
{
    let mut result = arith.zero();
    let mut i: usize = 0;
    while i < steps.len()
        invariant
            i <= steps.len(),
            evaluated(arith, steps@, i as nat, result),
        decreases steps.len() - i,
    {
        let ghost before = result;
        let found = operand_of(&steps[i], arith);
        let operand = match found {
            Some(operand) => operand,
            None => {
                proof {
                    assert(operand_given(arith, steps@[i as int], None::<A::Num>));
                    assert(evaluated(arith, steps@, i as nat, before));
                    assert(stuck_at(arith, steps@, i as nat));
                }
                return None;
            },
        };
        let ghost taken = operand;
        result = combine(steps[i].op, result, operand, arith);
        proof {
            assert(combined(arith, steps@[i as int].op, before, taken, result));
        }
        i += 1;
    }
    Some(result)
}

/// How the numbers of a field are folded.
#[derive(Clone, Copy, Debug, PartialEq, Eq, Structural)]
pub enum Fold {
    /// Added up, from zero.
    Sum,
    /// The smallest, from a number above all.
    Min,
    /// The largest, from a number below all.
    Max,
    /// Not looked at: the number of values in the group.
    Count,
    /// Not looked at: zero.
    Nothing,
}

/// The fold that the operation named `op` takes.
pub open spec fn fold_named(op: Seq<char>) -> Fold {
    if op == "min"@ {
        Fold::Min
    } else if op == "max"@ {
        Fold::Max
    } else if op == "sum"@ || op == "avg"@ {
        Fold::Sum
    } else if op == "count"@ {
        Fold::Count
    } else {
        Fold::Nothing
    }
}

/// Whether `r` is what a fold starts from.
pub open spec fn fold_start<A: Arithmetic>(arith: &A, fold: Fold, count: usize, r: A::Num) -> bool {
    match fold {
        Fold::Sum => call_ensures(A::zero, (arith,), r),
        Fold::Min => call_ensures(A::infinity, (arith,), r),
        Fold::Max => call_ensures(A::negative_infinity, (arith,), r),
        Fold::Count => call_ensures(A::of_count, (arith, count), r),
        Fold::Nothing => call_ensures(A::zero, (arith,), r),
    }
}

/// Whether `r` is what a fold makes of what it has so far and one more number.
pub open spec fn fold_step<A: Arithmetic>(arith: &A, fold: Fold, so_far: A::Num, n: A::Num, r: A::Num) -> bool {
    match fold {
        Fold::Sum => call_ensures(A::plus, (arith, &so_far, &n), r),
        Fold::Min => call_ensures(A::smaller, (arith, &so_far, &n), r),
        Fold::Max => call_ensures(A::larger, (arith, &so_far, &n), r),
        Fold::Count => r == so_far,
        Fold::Nothing => r == so_far,
    }
}

/// Whether `r` is what the fold makes of the first `n` of `numbers`, of
/// which `taken` hold a number for the arithmetic.
pub open spec fn folded<A: Arithmetic>(
    arith: &A,
    fold: Fold,
    count: usize,
    numbers: Seq<serde_json::Number>,
    n: nat,
    r: A::Num,
    taken: nat,
) -> bool
    decreases n,
{
    if n == 0 || n > numbers.len() {
        fold_start(arith, fold, count, r) && taken == 0
    } else {
        exists|so_far: A::Num, before: nat, converted: Option<A::Num>|
            folded(arith, fold, count, numbers, (n - 1) as nat, so_far, before) && call_ensures(
                A::of_number,
                (arith, &numbers[n - 1]),
                converted,
            ) && #[trigger] fold_link(arith, fold, so_far, before, converted, r, taken)
    }
}

/// Whether `r` and `taken` follow from what the fold had so far and what
/// the arithmetic makes of the next number: a number is folded in and
/// counted, anything else is passed over.
pub open spec fn fold_link<A: Arithmetic>(
    arith: &A,
    fold: Fold,
    so_far: A::Num,
    before: nat,
    converted: Option<A::Num>,
    r: A::Num,
    taken: nat,
) -> bool {
    match converted {
        Some(x) => taken == before + 1 && fold_step(arith, fold, so_far, x, r),
        None => taken == before && r == so_far,
    }
}

/// Whether `r` is the aggregate `op` of `numbers`, taken from a group of
/// `count` values: the fold of the numbers, divided by how many there are
/// for `avg`, written as a document.
pub open spec fn aggregate_given<A: Arithmetic>(
    arith: &A,
    op: Seq<char>,
    numbers: Seq<serde_json::Number>,
    count: usize,
    r: Json,
) -> bool {
    exists|total: A::Num, taken: nat|
        folded(arith, fold_named(op), count, numbers, numbers.len(), total, taken)
            && #[trigger] aggregate_written(arith, op, total, taken, r)
}

/// Whether `r` writes the aggregate `op` whose fold gave `total` over
/// `taken` numbers.
pub open spec fn aggregate_written<A: Arithmetic>(
    arith: &A,
    op: Seq<char>,
    total: A::Num,
    taken: nat,
    r: Json,
) -> bool {
    if op == "avg"@ {
        exists|divisor: A::Num, mean: A::Num|
            taken <= usize::MAX && call_ensures(A::of_count, (arith, taken as usize), divisor)
                && #[trigger] call_ensures(A::divided, (arith, &total, &divisor), mean)
                && call_ensures(A::to_json, (arith, &mean), r)
    } else {
        call_ensures(A::to_json, (arith, &total), r)
    }
}

/// The fold that the operation named `op` takes.
fn fold_of(op: &str) -> (r: Fold)
    ensures
        r == fold_named(op@),
{
    if str_eq(op, "min") {
        Fold::Min
    } else if str_eq(op, "max") {
        Fold::Max
    } else if str_eq(op, "sum") || str_eq(op, "avg") {
        Fold::Sum
    } else if str_eq(op, "count") {
        Fold::Count
    } else {
        Fold::Nothing
    }
}

/// The aggregate `op` over the numbers of a field, taken from a group of
/// `count` values: `avg`, `sum`, `min` and `max` of the numbers, `count` of
/// the values, and zero for any other name.
fn aggregate_value<A: Arithmetic>(
    op: &str,
    numbers: &Vec<serde_json::Number>,
    count: usize,
    arith: &A,
) -> (r: Json)
    ensures
        aggregate_given(arith, op@, numbers@, count, r),
{
    let fold = fold_of(op);
    let mut taken: usize = 0;
    let mut result = match fold {
        Fold::Sum => arith.zero(),
        Fold::Min => arith.infinity(),
        Fold::Max => arith.negative_infinity(),
        Fold::Count => arith.of_count(count),
        Fold::Nothing => arith.zero(),
    };
    let mut i: usize = 0;
    while i < numbers.len()
        invariant
            i <= numbers.len(),
            taken <= i,
            fold == fold_named(op@),
            folded(arith, fold, count, numbers@, i as nat, result, taken as nat),
        decreases numbers.len() - i,
    {
        let ghost so_far = result;
        let ghost held = taken;
        let converted = arith.of_number(&numbers[i]);
        let ghost seen = converted;
        match converted {
            Some(n) => {
                taken += 1;
                result = match fold {
                    Fold::Sum => arith.plus(&result, &n),
                    Fold::Min => arith.smaller(&result, &n),
                    Fold::Max => arith.larger(&result, &n),
                    Fold::Count => result,
                    Fold::Nothing => result,
                };
            },
            None => {},
        }
        proof {
            assert(fold_link(arith, fold, so_far, held as nat, seen, result, taken as nat));
        }
        i += 1;
    }
    let ghost total = result;
    if str_eq(op, "avg") {
        let divisor = arith.of_count(taken);
        result = arith.divided(&result, &divisor);
    }
    let r = arith.to_json(&result);
    proof {
        assert(aggregate_written(arith, op@, total, taken as nat, r));
    }
    r
}

/// What the arithmetic answered while one message was handled.
pub ghost struct Answers {
    /// The answer to the one comparison asked for.
    pub order: Option<NumberOrder>,
    /// The answers to the evaluations asked for, one for each assignment.
    pub values: Seq<Option<JsonView>>,
}

// ---------------------------------------------------------------------------
// Filter
// ---------------------------------------------------------------------------

/// The comparison operators of a filter expression.
#[derive(Clone, Copy, Debug, PartialEq, Eq, Structural)]
pub enum CompareOp {
    Ge,
    Le,
    Gt,
    Lt,
    Eq,
    Ne,
}

/// The text of a comparison operator.
pub open spec fn op_text(op: CompareOp) -> Seq<char> {
    match op {
        CompareOp::Ge => ">="@,
        CompareOp::Le => "<="@,
        CompareOp::Gt => ">"@,
        CompareOp::Lt => "<"@,
        CompareOp::Eq => "=="@,
        CompareOp::Ne => "!="@,
    }
}

/// A filter expression taken apart: `field OP literal`.
#[derive(Debug)]
pub struct Comparison {
    pub field: String,
    pub op: CompareOp,
    pub literal: String,
}

/// The mathematical value of a [`Comparison`].
pub ghost struct ComparisonView {
    pub field: Seq<char>,
    pub op: CompareOp,
    pub literal: Seq<char>,
}

impl View for Comparison {
    type V = ComparisonView;

    open spec fn view(&self) -> ComparisonView {
        ComparisonView { field: self.field@, op: self.op, literal: self.literal@ }
    }
}

/// `expr` split at the first occurrence of the operator `op`, both sides trimmed.
pub open spec fn split_at_op(expr: Seq<char>, op: CompareOp) -> Option<ComparisonView> {
    match split_once(expr, op_text(op)) {
        Some((field, literal)) => Some(ComparisonView { field: trim(field), op, literal: trim(literal) }),
        None => None,
    }
}

/// The comparison that a filter expression writes. The operators are looked
/// for in the order `>=`, `<=`, `>`, `<`, `==`, `!=`, and the first one found
/// splits the expression.
pub open spec fn parse_comparison(expression: Seq<char>) -> Option<ComparisonView> {
    let expr = trim(expression);
    if split_at_op(expr, CompareOp::Ge) is Some {
        split_at_op(expr, CompareOp::Ge)
    } else if split_at_op(expr, CompareOp::Le) is Some {
        split_at_op(expr, CompareOp::Le)
    } else if split_at_op(expr, CompareOp::Gt) is Some {
        split_at_op(expr, CompareOp::Gt)
    } else if split_at_op(expr, CompareOp::Lt) is Some {
        split_at_op(expr, CompareOp::Lt)
    } else if split_at_op(expr, CompareOp::Eq) is Some {
        split_at_op(expr, CompareOp::Eq)
    } else {
        split_at_op(expr, CompareOp::Ne)
    }
}

/// Whether two numbers that stand as `order` says satisfy `op`.
pub open spec fn order_satisfies(op: CompareOp, order: NumberOrder) -> bool {
    match op {
        CompareOp::Ge => order == NumberOrder::Greater || order == NumberOrder::Equal,
        CompareOp::Le => order == NumberOrder::Less || order == NumberOrder::Equal,
        CompareOp::Gt => order == NumberOrder::Greater,
        CompareOp::Lt => order == NumberOrder::Less,
        CompareOp::Eq => order == NumberOrder::Equal,
        CompareOp::Ne => order != NumberOrder::Equal,
    }
}

/// Whether the text `value` satisfies `op` against `literal`, which may be
/// quoted: `!=` asks for a different text, every other operator for the same.
pub open spec fn text_satisfies(op: CompareOp, value: Seq<char>, literal: Seq<char>) -> bool {
    let expected = match unquote(literal) {
        Some(inner) => inner,
        None => literal,
    };
    if op == CompareOp::Ne {
        value != expected
    } else {
        value == expected
    }
}

/// Whether `doc` satisfies the comparison. `order` is how the field, where it
/// is a number, stands to the literal read as a number, or nothing where the
/// literal writes none. A field that is absent, or neither number nor text,
/// satisfies nothing.
pub open spec fn comparison_holds(c: ComparisonView, doc: JsonView, order: Option<NumberOrder>) -> bool {
    match doc.get(c.field) {
        Some(JsonView::Number(_)) => match order {
            Some(o) => order_satisfies(c.op, o),
            None => false,
        },
        Some(JsonView::String(value)) => text_satisfies(c.op, value, c.literal),
        _ => false,
    }
}

/// Whether the filter keeps a message with the decoded value `doc`.
pub open spec fn filter_keeps(expression: Seq<char>, doc: JsonView, order: Option<NumberOrder>) -> bool {
    match parse_comparison(expression) {
        Some(c) => comparison_holds(c, doc, order),
        None => false,
    }
}

/// Whether handling `msg` takes a comparison of numbers.
pub open spec fn filter_asks(expression: Seq<char>, msg: MessageView) -> bool {
    match (msg.parsed, parse_comparison(expression)) {
        (Some(doc), Some(c)) => doc.get(c.field) matches Some(JsonView::Number(_)),
        _ => false,
    }
}

/// Whether `number` and `literal` are what has to be compared to judge
/// `msg`: the number that the field of the expression holds, and the literal
/// of the expression.
pub open spec fn filter_operands(
    expression: Seq<char>,
    msg: MessageView,
    number: serde_json::Number,
    literal: Seq<char>,
) -> bool {
    match (msg.parsed, parse_comparison(expression)) {
        (Some(doc), Some(c)) => doc.get(c.field) == Some(JsonView::Number(number)) && c.literal
            == literal,
        _ => false,
    }
}

/// What the filter gives back for `msg`: a message without a decoded value
/// always passes.
pub open spec fn filter_outputs(expression: Seq<char>, msg: MessageView, order: Option<NumberOrder>) -> Seq<MessageView> {
    match msg.parsed {
        Some(doc) => if filter_keeps(expression, doc, order) {
            seq![msg]
        } else {
            seq![]
        },
        None => seq![msg],
    }
}

/// Keeps the messages whose decoded value satisfies a comparison.
pub struct FilterAction {
    expression: String,
}

impl View for FilterAction {
    type V = Seq<char>;

    /// The filter expression.
    closed spec fn view(&self) -> Seq<char> {
        self.expression@
    }
}

/// Splits `expr` at the first occurrence of the operator `op`.
fn split_by(expr: &str, op: CompareOp) -> (r: Option<Comparison>)
    ensures
        match r {
            Some(c) => split_at_op(expr@, op) == Some(c@),
            None => split_at_op(expr@, op) is None,
        },
{
    let text = match op {
        CompareOp::Ge => ">=",
        CompareOp::Le => "<=",
        CompareOp::Gt => ">",
        CompareOp::Lt => "<",
        CompareOp::Eq => "==",
        CompareOp::Ne => "!=",
    };
    match split_once_at(expr, text) {
        Some((field, literal)) => Some(
            Comparison {
                field: trimmed(field.as_str()),
                op,
                literal: trimmed(literal.as_str()),
            },
        ),
        None => None,
    }
}

/// Takes a filter expression apart.
pub fn comparison_of(expression: &str) -> (r: Option<Comparison>)
    ensures
        match r {
            Some(c) => parse_comparison(expression@) == Some(c@),
            None => parse_comparison(expression@) is None,
        },
{
    let expr = trimmed(expression);
    let ge = split_by(expr.as_str(), CompareOp::Ge);
    if ge.is_some() {
        return ge;
    }
    let le = split_by(expr.as_str(), CompareOp::Le);
    if le.is_some() {
        return le;
    }
    let gt = split_by(expr.as_str(), CompareOp::Gt);
    if gt.is_some() {
        return gt;
    }
    let lt = split_by(expr.as_str(), CompareOp::Lt);
    if lt.is_some() {
        return lt;
    }
    let eq = split_by(expr.as_str(), CompareOp::Eq);
    if eq.is_some() {
        return eq;
    }
    split_by(expr.as_str(), CompareOp::Ne)
}

/// Whether two numbers that stand as `order` says satisfy `op`.
pub fn satisfies(op: CompareOp, order: NumberOrder) -> (r: bool)
    ensures
        r == order_satisfies(op, order),
{
    match op {
        CompareOp::Ge => order == NumberOrder::Greater || order == NumberOrder::Equal,
        CompareOp::Le => order == NumberOrder::Less || order == NumberOrder::Equal,
        CompareOp::Gt => order == NumberOrder::Greater,
        CompareOp::Lt => order == NumberOrder::Less,
        CompareOp::Eq => order == NumberOrder::Equal,
        CompareOp::Ne => order != NumberOrder::Equal,
    }
}

/// Whether the text `value` satisfies `op` against `literal`.
fn text_matches(op: CompareOp, value: &str, literal: &str) -> (r: bool)
    ensures
        r == text_satisfies(op, value@, literal@),
{
    let same = match unquoted(literal) {
        Some(inner) => str_eq(value, inner.as_str()),
        None => str_eq(value, literal),
    };
    if op == CompareOp::Ne {
        !same
    } else {
        same
    }
}

impl FilterAction {
    /// A filter for the expression `field OP literal`.
    pub fn new(expression: String) -> (r: FilterAction)
        ensures
            r@ == expression@,
    {
        FilterAction { expression }
    }

    /// The number and the literal that have to be compared before `doc` can
    /// be judged, where the expression names a field that holds a number.
    pub fn numeric_operands(&self, doc: &Json) -> (r: Option<(serde_json::Number, String)>)
        ensures
            match r {
                Some(pair) => parse_comparison(self@) is Some && doc@.get(
                    parse_comparison(self@)->0.field,
                ) == Some(JsonView::Number(pair.0)) && pair.1@ == parse_comparison(self@)->0.literal,
                None => !(parse_comparison(self@) is Some && doc@.get(
                    parse_comparison(self@)->0.field,
                ) matches Some(JsonView::Number(_))),
            },
    {
        match comparison_of(self.expression.as_str()) {
            Some(c) => match doc.get(c.field.as_str()) {
                Some(Json::Number(n)) => Some((crate::json::clone_number(n), c.literal)),
                _ => None,
            },
            None => None,
        }
    }

    /// Whether the filter keeps a message with the decoded value `doc`, given
    /// how the numbers named by `numeric_operands` stand to each other.
    pub fn evaluate(&self, doc: &Json, order: Option<NumberOrder>) -> (r: bool)
        ensures
            r == filter_keeps(self@, doc@, order),
    {
        match comparison_of(self.expression.as_str()) {
            Some(c) => match doc.get(c.field.as_str()) {
                Some(Json::Number(_)) => match order {
                    Some(o) => satisfies(c.op, o),
                    None => false,
                },
                Some(Json::String(value)) => text_matches(c.op, value.as_str(), c.literal.as_str()),
                _ => false,
            },
            None => false,
        }
    }

    /// Handles `msg`, given how the numbers named by `numeric_operands` stand
    /// to each other.
    pub fn execute_with(&self, msg: Message, order: Option<NumberOrder>) -> (r: Vec<Message>)
        ensures
            messages_view(r@) == filter_outputs(self@, msg@, order),
    {
        let keep = match &msg.parsed {
            Some(doc) => self.evaluate(doc, order),
            None => true,
        };
        let mut out: Vec<Message> = Vec::new();
        if keep {
            out.push(msg);
        }
        out
    }

    /// Handles `msg`, asking `arith` for the one comparison of numbers that
    /// the message may take. What comes back is what `execute_with` gives for
    /// the answer; where nothing is asked, for no answer.
    pub fn execute<A: Arithmetic>(&self, msg: Message, arith: &A) -> (r: Vec<Message>)
        ensures
            filter_asks(self@, msg@) ==> exists|
                number: serde_json::Number,
                literal: &str,
                order: Option<NumberOrder>,
            |
                #[trigger] order_given(arith, &number, literal, order) && filter_operands(
                    self@,
                    msg@,
                    number,
                    literal@,
                ) && messages_view(r@) == filter_outputs(self@, msg@, order),
            !filter_asks(self@, msg@) ==> messages_view(r@) == filter_outputs(self@, msg@, None),
    {
        let operands = match &msg.parsed {
            Some(doc) => self.numeric_operands(doc),
            None => None,
        };
        match operands {
            Some((number, literal)) => {
                let text = literal.as_str();
                let order = numeric_order(&number, text, arith);
                let r = self.execute_with(msg, order);
                proof {
                    assert(order_given(arith, &number, text, order) && filter_operands(
                        self@,
                        msg@,
                        number,
                        text@,
                    ));
                }
                r
            },
            None => self.execute_with(msg, None),
        }
    }
}

// ---------------------------------------------------------------------------
// Arithmetic expressions
// ---------------------------------------------------------------------------

/// Whether `c` is one of the four operators.
pub open spec fn is_operator(c: char) -> bool {
    c == '+' || c == '-' || c == '*' || c == '/'
}

/// The operator that `c` writes.
pub open spec fn operator_of(c: char) -> MathOp {
    if c == '+' {
        MathOp::Add
    } else if c == '-' {
        MathOp::Sub
    } else if c == '*' {
        MathOp::Mul
    } else {
        MathOp::Div
    }
}

/// The terms of `s`, read on from a state in which `op` is the operator last
/// seen and `token` the operand collected so far.
///
/// An operator ends the operand before it and becomes the operator of the
/// next operand; where no operand stands between two operators, the later
/// operator stands. Spaces are passed over. An operator after the last
/// operand is dropped.
pub open spec fn scan_terms(s: Seq<char>, op: MathOp, token: Seq<char>) -> Seq<(MathOp, Seq<char>)>
    decreases s.len(),
{
    if s.len() == 0 {
        if token.len() > 0 {
            seq![(op, token)]
        } else {
            seq![]
        }
    } else if is_operator(s[0]) {
        if token.len() > 0 {
            seq![(op, token)] + scan_terms(s.drop_first(), operator_of(s[0]), Seq::empty())
        } else {
            scan_terms(s.drop_first(), operator_of(s[0]), Seq::empty())
        }
    } else if s[0] == ' ' {
        scan_terms(s.drop_first(), op, token)
    } else {
        scan_terms(s.drop_first(), op, token.push(s[0]))
    }
}

/// The terms of an arithmetic expression: each operand with the operator
/// that stands before it, `+` before the first.
pub open spec fn math_terms(expr: Seq<char>) -> Seq<(MathOp, Seq<char>)> {
    scan_terms(expr, MathOp::Add, Seq::empty())
}

/// The mathematical value of a [`MathStep`].
pub ghost struct MathStepView {
    pub op: MathOp,
    pub token: Seq<char>,
    pub field: Option<serde_json::Number>,
}

impl View for MathStep {
    type V = MathStepView;

    open spec fn view(&self) -> MathStepView {
        MathStepView { op: self.op, token: self.token@, field: self.field }
    }
}

/// The step for one term: the field is looked up under the operand's text
/// without the whitespace around it.
pub open spec fn step_of(term: (MathOp, Seq<char>), doc: JsonView) -> MathStepView {
    MathStepView {
        op: term.0,
        token: term.1,
        field: match doc.get(trim(term.1)) {
            Some(JsonView::Number(n)) => Some(n),
            _ => None,
        },
    }
}

/// The steps of an arithmetic expression over the fields of `doc`.
pub open spec fn math_steps(expr: Seq<char>, doc: JsonView) -> Seq<MathStepView> {
    Seq::new(math_terms(expr).len(), |i: int| step_of(math_terms(expr)[i], doc))
}

/// The views of `steps`, in order.
pub open spec fn steps_view(steps: Seq<MathStep>) -> Seq<MathStepView> {
    Seq::new(steps.len(), |i: int| steps[i]@)
}

/// The terms that `steps` were made from.
pub open spec fn terms_of(steps: Seq<MathStepView>) -> Seq<(MathOp, Seq<char>)> {
    Seq::new(steps.len(), |i: int| (steps[i].op, steps[i].token))
}

/// Makes the step for one operand.
fn make_step(op: MathOp, token: String, doc: &Json) -> (r: MathStep)
    ensures
        r@ == step_of((op, token@), doc@),
{
    let name = trimmed(token.as_str());
    let field = match doc.get(name.as_str()) {
        Some(Json::Number(n)) => Some(crate::json::clone_number(n)),
        _ => None,
    };
    MathStep { op, token, field }
}

/// Takes an arithmetic expression apart into its steps over the fields of `doc`.
pub fn math_steps_of(expr: &str, doc: &Json) -> (r: Vec<MathStep>)
    ensures
        steps_view(r@) == math_steps(expr@, doc@),
{
    let chars = crate::text::chars_of(expr);
    let mut steps: Vec<MathStep> = Vec::new();
    let mut op = MathOp::Add;
    let mut token = String::new();
    let mut i: usize = 0;
    proof {
        assert(expr@.skip(0) =~= expr@);
    }
    while i < chars.len()
        invariant
            chars@ == expr@,
            i <= chars.len(),
            math_terms(expr@) == terms_of(steps_view(steps@)) + scan_terms(
                expr@.skip(i as int),
                op,
                token@,
            ),
            forall|j: int|
                0 <= j < steps.len() ==> (#[trigger] steps[j])@ == step_of(
                    (steps[j].op, steps[j].token@),
                    doc@,
                ),
        decreases chars.len() - i,
    {
        let c = chars[i];
        proof {
            assert(expr@.skip(i as int).drop_first() =~= expr@.skip(i + 1));
        }
        if c == '+' || c == '-' || c == '*' || c == '/' {
            let next = if c == '+' {
                MathOp::Add
            } else if c == '-' {
                MathOp::Sub
            } else if c == '*' {
                MathOp::Mul
            } else {
                MathOp::Div
            };
            if token.as_str().unicode_len() > 0 {
                let mut done = String::new();
                std::mem::swap(&mut token, &mut done);
                steps.push(make_step(op, done, doc));
            }
            proof {
                assert(token@ =~= Seq::<char>::empty());
            }
            op = next;
        } else if c != ' ' {
            let ghost before = token@;
            token.append(crate::text::slice_of(expr, i, i + 1).as_str());
            proof {
                assert(token@ =~= before.push(c));
            }
        }
        i += 1;
    }
    if token.as_str().unicode_len() > 0 {
        steps.push(make_step(op, token, doc));
    }
    proof {
        assert forall|j: int| 0 <= j < steps.len() implies steps_view(steps@)[j] == math_steps(
            expr@,
            doc@,
        )[j] by {
        }
    }
    steps
}

// ---------------------------------------------------------------------------
// Transform
// ---------------------------------------------------------------------------

/// The assignment that `part` writes: the field before the first `=` and the
/// expression after it, both trimmed.
pub open spec fn assignment_of(part: Seq<char>) -> Option<(Seq<char>, Seq<char>)> {
    match split_once(part, seq!['=']) {
        Some((field, expr)) => Some((trim(field), trim(expr))),
        None => None,
    }
}

/// The assignments that `parts` write, in order; a part without `=` writes none.
pub open spec fn assignments_in(parts: Seq<Seq<char>>) -> Seq<(Seq<char>, Seq<char>)>
    decreases parts.len(),
{
    if parts.len() == 0 {
        Seq::empty()
    } else {
        match assignment_of(parts.last()) {
            Some(a) => assignments_in(parts.drop_last()).push(a),
            None => assignments_in(parts.drop_last()),
        }
    }
}

/// The assignments of a transform expression: `field=expression`, separated
/// by commas.
pub open spec fn parse_assignments(expr: Seq<char>) -> Seq<(Seq<char>, Seq<char>)> {
    assignments_in(split(expr, ','))
}

/// Whether the expression of an assignment is to be handed to the
/// arithmetic: it is, unless it is a quoted text.
pub open spec fn is_computed(expr: Seq<char>) -> bool {
    unquote(trim(expr)) is None
}

/// The value of the expression of an assignment over `doc`: the text of a
/// quoted literal; else what the arithmetic answered; else the field of that
/// name. Where none of these gives a value, the assignment is passed over.
pub open spec fn resolve(doc: JsonView, expr: Seq<char>, answer: Option<JsonView>) -> Option<JsonView> {
    match unquote(trim(expr)) {
        Some(text) => Some(JsonView::String(text)),
        None => match answer {
            Some(value) => Some(value),
            None => doc.get(trim(expr)),
        },
    }
}

/// The answer to the evaluation asked for assignment `i`.
pub open spec fn answer_at(answers: Seq<Option<JsonView>>, i: int) -> Option<JsonView> {
    if 0 <= i < answers.len() {
        answers[i]
    } else {
        None
    }
}

/// `acc` once the first `n` assignments were made. Every expression is
/// evaluated over `doc`, the value before any assignment.
pub open spec fn assigned(
    doc: JsonView,
    acc: JsonView,
    assignments: Seq<(Seq<char>, Seq<char>)>,
    answers: Seq<Option<JsonView>>,
    n: nat,
) -> JsonView
    decreases n,
{
    if n == 0 || n > assignments.len() {
        acc
    } else {
        let before = assigned(doc, acc, assignments, answers, (n - 1) as nat);
        match resolve(doc, assignments[n - 1].1, answer_at(answers, n - 1)) {
            Some(value) => before.with_field(assignments[n - 1].0, value),
            None => before,
        }
    }
}

/// `msg` with all assignments made on its decoded value and its payload
/// written anew from it; a message without a decoded value is left as it is.
pub open spec fn transformed(
    assignments: Seq<(Seq<char>, Seq<char>)>,
    msg: MessageView,
    answers: Seq<Option<JsonView>>,
) -> MessageView {
    match msg.parsed {
        Some(doc) => {
            let value = assigned(doc, doc, assignments, answers, assignments.len());
            MessageView {
                parsed: Some(value),
                payload: vstd::utf8::encode_utf8(encoded_text(value)),
                ..msg
            }
        },
        None => msg,
    }
}

/// Whether `answer` is what the arithmetic makes of `steps`: the document
/// that writes what they evaluate to, or nothing where a step has no operand.
pub open spec fn steps_answered<A: Arithmetic>(
    arith: &A,
    steps: Seq<MathStep>,
    answer: Option<JsonView>,
) -> bool {
    match answer {
        Some(v) => exists|value: A::Num, written: Json|
            evaluated(arith, steps, steps.len(), value) && #[trigger] call_ensures(
                A::to_json,
                (arith, &value),
                written,
            ) && written@ == v,
        None => exists|i: nat| stuck_at(arith, steps, i),
    }
}

/// Whether `answer` is what the arithmetic makes of the expression of an
/// assignment over `doc`: the value of its steps, and nothing where the
/// expression is a quoted text, which is not handed to the arithmetic.
pub open spec fn answer_given<A: Arithmetic>(
    arith: &A,
    expr: Seq<char>,
    doc: JsonView,
    answer: Option<JsonView>,
) -> bool {
    if is_computed(expr) {
        exists|steps: Seq<MathStep>|
            steps_view(steps) == math_steps(trim(expr), doc) && #[trigger] steps_answered(
                arith,
                steps,
                answer,
            )
    } else {
        answer is None
    }
}

/// Whether `answers` holds, for each assignment, what the arithmetic makes
/// of its expression over `doc`.
pub open spec fn all_answered<A: Arithmetic>(
    arith: &A,
    assignments: Seq<(Seq<char>, Seq<char>)>,
    doc: JsonView,
    answers: Seq<Option<JsonView>>,
) -> bool {
    answers.len() == assignments.len() && forall|i: int|
        0 <= i < assignments.len() ==> answer_given(arith, assignments[i].1, doc, #[trigger] answers[i])
}

/// Sets fields of the decoded value from expressions over it.
pub struct TransformAction {
    transformations: Vec<(String, String)>,
}

/// The fields and expressions of `pairs`, as text.
pub open spec fn text_pairs(pairs: Seq<(String, String)>) -> Seq<(Seq<char>, Seq<char>)> {
    Seq::new(pairs.len(), |i: int| (pairs[i].0@, pairs[i].1@))
}

impl View for TransformAction {
    type V = Seq<(Seq<char>, Seq<char>)>;

    /// The assignments, in order.
    closed spec fn view(&self) -> Seq<(Seq<char>, Seq<char>)> {
        text_pairs(self.transformations@)
    }
}

/// The views of optional documents, in order.
pub open spec fn answers_view(answers: Seq<Option<Json>>) -> Seq<Option<JsonView>> {
    Seq::new(answers.len(), |i: int| optional_view(answers[i]))
}

impl TransformAction {
    /// A transform for the assignments that `expr` writes.
    pub fn new(expr: String) -> (r: TransformAction)
        ensures
            r@ == parse_assignments(expr@),
    {
        let parts = split_on(expr.as_str(), ',');
        let ghost all = parts@.map_values(|piece: String| piece@);
        let mut transformations: Vec<(String, String)> = Vec::new();
        let mut i: usize = 0;
        while i < parts.len()
            invariant
                i <= parts.len(),
                all == parts@.map_values(|piece: String| piece@),
                text_pairs(transformations@) == assignments_in(all.take(i as int)),
            decreases parts.len() - i,
        {
            proof {
                assert(all.take(i + 1).drop_last() =~= all.take(i as int));
            }
            match split_once_at(parts[i].as_str(), "=") {
                Some((field, value_expr)) => {
                    let field = trimmed(field.as_str());
                    let value_expr = trimmed(value_expr.as_str());
                    transformations.push((field, value_expr));
                    proof {
                        reveal_strlit("=");
                        assert("="@ =~= seq!['=']);
                    }
                },
                None => {
                    proof {
                        reveal_strlit("=");
                        assert("="@ =~= seq!['=']);
                    }
                },
            }
            i += 1;
        }
        proof {
            assert(all.take(parts.len() as int) =~= all);
        }
        TransformAction { transformations }
    }

    /// Number of assignments.
    pub fn len(&self) -> (r: usize)
        ensures
            r == self@.len(),
    {
        self.transformations.len()
    }

    /// The steps that the arithmetic has to evaluate for assignment `i` over
    /// `doc`, or nothing where the expression is a quoted text.
    pub fn request(&self, i: usize, doc: &Json) -> (r: Option<Vec<MathStep>>)
        requires
            i < self@.len(),
        ensures
            match r {
                Some(steps) => is_computed(self@[i as int].1) && steps_view(steps@) == math_steps(
                    trim(self@[i as int].1),
                    doc@,
                ),
                None => !is_computed(self@[i as int].1),
            },
    {
        let expr = trimmed(self.transformations[i].1.as_str());
        match unquoted(expr.as_str()) {
            Some(_) => None,
            None => Some(math_steps_of(expr.as_str(), doc)),
        }
    }

    /// The value of the expression of assignment `i` over `doc`, given what
    /// the arithmetic answered for it.
    pub fn evaluate_expr(&self, i: usize, doc: &Json, answer: &Option<Json>) -> (r: Option<Json>)
        requires
            i < self@.len(),
        ensures
            optional_view(r) == resolve(doc@, self@[i as int].1, optional_view(*answer)),
    {
        let expr = trimmed(self.transformations[i].1.as_str());
        match unquoted(expr.as_str()) {
            Some(text) => Some(Json::String(text)),
            None => match answer {
                Some(value) => Some(value.clone()),
                None => match doc.get(expr.as_str()) {
                    Some(value) => Some(value.clone()),
                    None => None,
                },
            },
        }
    }

    /// Handles `msg`, given what the arithmetic answered for each assignment.
    pub fn execute_with(&self, msg: Message, answers: &Vec<Option<Json>>) -> (r: Vec<Message>)
        ensures
            messages_view(r@) == seq![transformed(self@, msg@, answers_view(answers@))],
    {
        let mut msg = msg;
        let doc = match &msg.parsed {
            Some(doc) => doc.clone(),
            None => {
                let mut out: Vec<Message> = Vec::new();
                out.push(msg);
                return out;
            },
        };
        let mut value = doc.clone();
        let mut i: usize = 0;
        let none: Option<Json> = None;
        while i < self.transformations.len()
            invariant
                i <= self.transformations.len(),
                none is None,
                value@ == assigned(doc@, doc@, self@, answers_view(answers@), i as nat),
            decreases self.transformations.len() - i,
        {
            let answer = if i < answers.len() {
                &answers[i]
            } else {
                &none
            };
            match self.evaluate_expr(i, &doc, answer) {
                Some(result) => {
                    value = value.with_field(self.transformations[i].0.clone(), result);
                },
                None => {},
            }
            i += 1;
        }
        msg.payload = to_payload(&value);
        msg.parsed = Some(value);
        let mut out: Vec<Message> = Vec::new();
        out.push(msg);
        out
    }

    /// Handles `msg`, asking `arith` to evaluate every expression that is no
    /// quoted text. What comes back is what `execute_with` gives for the
    /// answers.
    pub fn execute<A: Arithmetic>(&self, msg: Message, arith: &A) -> (r: Vec<Message>)
        ensures
            exists|answers: Seq<Option<JsonView>>|
                messages_view(r@) == seq![#[trigger] transformed(self@, msg@, answers)] && (
                msg@.parsed matches Some(doc) ==> all_answered(arith, self@, doc, answers)),
    {
        let mut answers: Vec<Option<Json>> = Vec::new();
        match &msg.parsed {
            Some(doc) => {
                let mut i: usize = 0;
                while i < self.transformations.len()
                    invariant
                        i <= self.transformations.len(),
                        answers.len() == i,
                        forall|j: int|
                            0 <= j < i ==> answer_given(
                                arith,
                                self@[j].1,
                                doc@,
                                #[trigger] answers_view(answers@)[j],
                            ),
                    decreases self.transformations.len() - i,
                {
                    let ghost before = answers_view(answers@);
                    let answer = match self.request(i, doc) {
                        Some(steps) => {
                            let answer = match eval_math(&steps, arith) {
                                Some(value) => Some(arith.to_json(&value)),
                                None => None,
                            };
                            proof {
                                assert(steps_answered(arith, steps@, optional_view(answer)));
                            }
                            answer
                        },
                        None => None,
                    };
                    answers.push(answer);
                    proof {
                        assert(answers_view(answers@) =~= before.push(optional_view(answer)));
                    }
                    i += 1;
                }
            },
            None => {},
        }
        self.execute_with(msg, &answers)
    }
}

// ---------------------------------------------------------------------------
// Aggregate
// ---------------------------------------------------------------------------

/// Holds every decoded value it is given, in groups, and at the end of the
/// input gives back one record for each group.
pub struct AggregateAction {
    group_by: Option<String>,
    operations: Vec<(String, String)>,
    groups: Vec<(String, Vec<Json>)>,
}

/// The mathematical value of an [`AggregateAction`].
pub ghost struct AggregateView {
    /// The field whose text names the group of a value.
    pub group_by: Option<Seq<char>>,
    /// The operations asked for, each with the field it is taken over.
    pub operations: Seq<(Seq<char>, Seq<char>)>,
    /// The groups in the order in which they were first seen, each with its
    /// values in the order in which they came.
    pub groups: Seq<(Seq<char>, Seq<JsonView>)>,
}

/// The names and values of `groups`.
pub open spec fn groups_view(groups: Seq<(String, Vec<Json>)>) -> Seq<(Seq<char>, Seq<JsonView>)> {
    Seq::new(groups.len(), |i: int| (groups[i].0@, items_view(groups[i].1@)))
}

impl View for AggregateAction {
    type V = AggregateView;

    closed spec fn view(&self) -> AggregateView {
        AggregateView {
            group_by: match self.group_by {
                Some(field) => Some(field@),
                None => None,
            },
            operations: text_pairs(self.operations@),
            groups: groups_view(self.groups@),
        }
    }
}

/// The group that `doc` belongs to: the text of its group-by field, or
/// `_default_` where it has no such text; `_all_` where nothing is grouped by.
pub open spec fn group_key(group_by: Option<Seq<char>>, doc: JsonView) -> Seq<char> {
    match group_by {
        Some(field) => match doc.get(field) {
            Some(JsonView::String(text)) => text,
            _ => "_default_"@,
        },
        None => "_all_"@,
    }
}

/// Position of the group named `key`.
pub open spec fn group_index(groups: Seq<(Seq<char>, Seq<JsonView>)>, key: Seq<char>) -> Option<int> {
    crate::assoc::last_index(groups, key)
}

/// `groups` with `doc` put at the end of the group named `key`; a group that
/// is new goes behind the others.
pub open spec fn filed(groups: Seq<(Seq<char>, Seq<JsonView>)>, key: Seq<char>, doc: JsonView) -> Seq<
    (Seq<char>, Seq<JsonView>),
> {
    match group_index(groups, key) {
        Some(i) => groups.update(i, (key, groups[i].1.push(doc))),
        None => groups.push((key, seq![doc])),
    }
}

/// Whether no name stands for two of `groups`.
pub open spec fn names_distinct(groups: Seq<(Seq<char>, Seq<JsonView>)>) -> bool {
    forall|i: int, j: int|
        0 <= i < j < groups.len() ==> (#[trigger] groups[i]).0 != (#[trigger] groups[j]).0
}

/// Filing a value makes no second group of a name: where no name stands for
/// two groups before, none does after.
pub proof fn lemma_filed_keeps_names_distinct(
    groups: Seq<(Seq<char>, Seq<JsonView>)>,
    key: Seq<char>,
    doc: JsonView,
)
    requires
        names_distinct(groups),
    ensures
        names_distinct(filed(groups, key, doc)),
{
    crate::assoc::lemma_last_index_bounds(groups, key);
    let after = filed(groups, key, doc);
    match group_index(groups, key) {
        Some(at) => {
            assert forall|i: int, j: int| 0 <= i < j < after.len() implies (#[trigger] after[i]).0
                != (#[trigger] after[j]).0 by {
                assert(after[i].0 == groups[i].0);
                assert(after[j].0 == groups[j].0);
            }
        },
        None => {
            assert forall|i: int, j: int| 0 <= i < j < after.len() implies (#[trigger] after[i]).0
                != (#[trigger] after[j]).0 by {
                assert(after[i] == groups[i]);
                if j < groups.len() {
                    assert(after[j] == groups[j]);
                }
            }
        },
    }
}

/// The aggregate once `msg` was handled: its decoded value, where it has
/// one, is filed under its group.
pub open spec fn aggregate_state(a: AggregateView, msg: MessageView) -> AggregateView {
    match msg.parsed {
        Some(doc) => AggregateView { groups: filed(a.groups, group_key(a.group_by, doc), doc), ..a },
        None => a,
    }
}

/// The numbers that `values` hold under `field`, in order; a value that holds
/// none there is passed over.
pub open spec fn numbers_of(values: Seq<JsonView>, field: Seq<char>) -> Seq<serde_json::Number>
    decreases values.len(),
{
    if values.len() == 0 {
        Seq::empty()
    } else {
        match values.last().get(field) {
            Some(JsonView::Number(n)) => numbers_of(values.drop_last(), field).push(n),
            _ => numbers_of(values.drop_last(), field),
        }
    }
}

/// The name under which the result of `op` over `field` is recorded.
pub open spec fn result_name(op: Seq<char>, field: Seq<char>) -> Seq<char> {
    op + "_"@ + field
}

/// The answer of the arithmetic for operation `j` of group `g`; `null` where
/// none was given.
pub open spec fn result_at(answers: Seq<Seq<JsonView>>, g: int, j: int) -> JsonView {
    if 0 <= g < answers.len() && 0 <= j < answers[g].len() {
        answers[g][j]
    } else {
        JsonView::Null
    }
}

/// The record of group `g` once the first `n` operations were written into it.
pub open spec fn record_upto(a: AggregateView, answers: Seq<Seq<JsonView>>, g: int, n: nat) -> JsonView
    decreases n,
{
    if n == 0 || n > a.operations.len() {
        match a.group_by {
            Some(field) => JsonView::Object(Seq::empty()).with_field(
                field,
                JsonView::String(a.groups[g].0),
            ),
            None => JsonView::Object(Seq::empty()),
        }
    } else {
        record_upto(a, answers, g, (n - 1) as nat).with_field(
            result_name(a.operations[n - 1].0, a.operations[n - 1].1),
            result_at(answers, g, n - 1),
        )
    }
}

/// The record of group `g`: the group's name under the group-by field, where
/// there is one, and the result of each operation under `op_field`.
pub open spec fn record(a: AggregateView, answers: Seq<Seq<JsonView>>, g: int) -> JsonView {
    record_upto(a, answers, g, a.operations.len())
}

/// The message that carries the record of group `g`.
pub open spec fn record_message(a: AggregateView, answers: Seq<Seq<JsonView>>, g: int, now: Timestamp) -> MessageView {
    json_message(
        vstd::utf8::encode_utf8(encoded_text(record(a, answers, g))),
        Some(record(a, answers, g)),
        now,
    )
}

/// What the aggregate gives back at the end of the input: one record for
/// each group, in the order in which the groups were first seen.
pub open spec fn aggregate_outputs(a: AggregateView, answers: Seq<Seq<JsonView>>, now: Timestamp) -> Seq<MessageView> {
    Seq::new(a.groups.len(), |g: int| record_message(a, answers, g, now))
}

/// Whether `written` is what the arithmetic gives for operation `j` of
/// group `g`: the aggregate of the numbers that the group holds under the
/// operation's field, with the size of the group as the count.
pub open spec fn result_given<A: Arithmetic>(arith: &A, a: AggregateView, g: int, j: int, written: Json) -> bool {
    aggregate_given(
        arith,
        a.operations[j].0,
        numbers_of(a.groups[g].1, a.operations[j].1),
        a.groups[g].1.len() as usize,
        written,
    )
}

/// Whether `answer` is the view of what the arithmetic gives for operation
/// `j` of group `g`.
pub open spec fn result_viewed<A: Arithmetic>(arith: &A, a: AggregateView, g: int, j: int, answer: JsonView) -> bool {
    exists|written: Json| written@ == answer && #[trigger] result_given(arith, a, g, j, written)
}

/// Whether `answers` holds what the arithmetic gives for each operation of
/// group `g`.
pub open spec fn group_aggregated<A: Arithmetic>(arith: &A, a: AggregateView, g: int, answers: Seq<JsonView>) -> bool {
    answers.len() == a.operations.len() && forall|j: int|
        0 <= j < a.operations.len() ==> result_viewed(arith, a, g, j, #[trigger] answers[j])
}

/// Whether `answers` holds what the arithmetic gives for each operation of
/// each group.
pub open spec fn all_aggregated<A: Arithmetic>(arith: &A, a: AggregateView, answers: Seq<Seq<JsonView>>) -> bool {
    answers.len() == a.groups.len() && forall|g: int|
        0 <= g < a.groups.len() ==> group_aggregated(arith, a, g, #[trigger] answers[g])
}

/// The views of the answers for each group.
pub open spec fn results_view(answers: Seq<Vec<Json>>) -> Seq<Seq<JsonView>> {
    Seq::new(answers.len(), |g: int| items_view(answers[g]@))
}

impl AggregateAction {
    /// An aggregate that groups by `group_by` and computes `ops`, each an
    /// operation and the field it is taken over. It holds no value yet.
    pub fn new(group_by: Option<String>, ops: Vec<(String, String)>) -> (r: AggregateAction)
        ensures
            r@ == (AggregateView {
                group_by: match group_by {
                    Some(field) => Some(field@),
                    None => None,
                },
                operations: text_pairs(ops@),
                groups: Seq::empty(),
            }),
    {
        let r = AggregateAction { group_by, operations: ops, groups: Vec::new() };
        proof {
            assert(r@.groups =~= Seq::empty());
        }
        r
    }

    /// No name stands for two of the groups held.
    #[verifier::type_invariant]
    spec fn well_formed(self) -> bool {
        names_distinct(groups_view(self.groups@))
    }

    /// The group that `value` belongs to.
    pub fn get_group_key(&self, value: &Json) -> (r: String)
        ensures
            r@ == group_key(self@.group_by, value@),
    {
        match &self.group_by {
            Some(field) => match value.get(field.as_str()) {
                Some(Json::String(text)) => text.clone(),
                _ => String::from_str("_default_"),
            },
            None => String::from_str("_all_"),
        }
    }

    /// Position of the group named `key`.
    fn find_group(groups: &Vec<(String, Vec<Json>)>, key: &str) -> (r: Option<usize>)
        ensures
            match r {
                Some(i) => group_index(groups_view(groups@), key@) == Some(i as int) && i
                    < groups.len(),
                None => group_index(groups_view(groups@), key@) is None,
            },
    {
        let ghost all = groups_view(groups@);
        let mut i: usize = groups.len();
        proof {
            assert(all.take(i as int) =~= all);
        }
        while i > 0
            invariant
                i <= groups.len(),
                all == groups_view(groups@),
                crate::assoc::last_index(all, key@) == crate::assoc::last_index(
                    all.take(i as int),
                    key@,
                ),
            decreases i,
        {
            i -= 1;
            proof {
                assert(all.take(i + 1).drop_last() =~= all.take(i as int));
            }
            if str_eq(groups[i].0.as_str(), key) {
                return Some(i);
            }
        }
        None
    }

    /// Files the decoded value of `msg` under its group and gives nothing back.
    pub fn execute(&mut self, msg: Message) -> (r: Vec<Message>)
        ensures
            final(self)@ == aggregate_state(old(self)@, msg@),
            names_distinct(final(self)@.groups),
            r@.len() == 0,
    {
        proof {
            use_type_invariant(&*self);
        }
        match &msg.parsed {
            Some(doc) => {
                let key = self.get_group_key(doc);
                let ghost before = self@.groups;
                proof {
                    lemma_filed_keeps_names_distinct(before, key@, doc@);
                }
                let mut groups: Vec<(String, Vec<Json>)> = Vec::new();
                proof {
                    assert(groups_view(groups@) =~= Seq::empty());
                }
                std::mem::swap(&mut self.groups, &mut groups);
                match Self::find_group(&groups, key.as_str()) {
                    Some(i) => {
                        let ghost values = items_view(groups[i as int].1@);
                        groups[i].1.push(doc.clone());
                        proof {
                            crate::assoc::lemma_last_index_bounds(before, key@);
                            assert(items_view(groups[i as int].1@) =~= values.push(doc@));
                            assert forall|k: int| 0 <= k < groups.len() && k != i implies (
                            #[trigger] groups_view(groups@)[k]) == before[k] by {
                            }
                            assert(groups_view(groups@) =~= before.update(
                                i as int,
                                (key@, values.push(doc@)),
                            ));
                        }
                    },
                    None => {
                        let mut values: Vec<Json> = Vec::new();
                        values.push(doc.clone());
                        proof {
                            assert(items_view(values@) =~= seq![doc@]);
                        }
                        groups.push((key, values));
                        proof {
                            assert(groups_view(groups@) =~= before.push((key@, seq![doc@])));
                        }
                    },
                }
                std::mem::swap(&mut self.groups, &mut groups);
            },
            None => {},
        }
        Vec::new()
    }

    /// Number of groups.
    pub fn group_count(&self) -> (r: usize)
        ensures
            r == self@.groups.len(),
    {
        self.groups.len()
    }

    /// Number of operations.
    pub fn operation_count(&self) -> (r: usize)
        ensures
            r == self@.operations.len(),
    {
        self.operations.len()
    }

    /// Number of values in group `g`.
    pub fn group_size(&self, g: usize) -> (r: usize)
        requires
            g < self@.groups.len(),
        ensures
            r == self@.groups[g as int].1.len(),
    {
        self.groups[g].1.len()
    }

    /// The name of operation `j`.
    pub fn operation(&self, j: usize) -> (r: &str)
        requires
            j < self@.operations.len(),
        ensures
            r@ == self@.operations[j as int].0,
    {
        self.operations[j].0.as_str()
    }

    /// The numbers that operation `j` is taken over in group `g`.
    pub fn numbers(&self, g: usize, j: usize) -> (r: Vec<serde_json::Number>)
        requires
            g < self@.groups.len(),
            j < self@.operations.len(),
        ensures
            r@ == numbers_of(self@.groups[g as int].1, self@.operations[j as int].1),
    {
        let values = &self.groups[g].1;
        let field = self.operations[j].1.as_str();
        let ghost all = items_view(values@);
        let mut out: Vec<serde_json::Number> = Vec::new();
        let mut i: usize = 0;
        while i < values.len()
            invariant
                i <= values.len(),
                all == items_view(values@),
                out@ == numbers_of(all.take(i as int), field@),
            decreases values.len() - i,
        {
            proof {
                assert(all.take(i + 1).drop_last() =~= all.take(i as int));
            }
            match values[i].get(field) {
                Some(Json::Number(n)) => {
                    out.push(crate::json::clone_number(n));
                },
                _ => {},
            }
            i += 1;
        }
        proof {
            assert(all.take(values.len() as int) =~= all);
        }
        out
    }

    /// The record of group `g`, given the results of its operations.
    fn record_of(&self, g: usize, answers: &Vec<Vec<Json>>) -> (r: Json)
        requires
            g < self@.groups.len(),
        ensures
            r@ == record(self@, results_view(answers@), g as int),
    {
        let mut fields: Vec<(String, Json)> = Vec::new();
        let mut value = Json::Object(fields);
        proof {
            lemma_object_view(fields);
            assert(fields_view(fields@) =~= Seq::empty());
        }
        match &self.group_by {
            Some(field) => {
                value = value.with_field(field.clone(), Json::String(self.groups[g].0.clone()));
            },
            None => {},
        }
        let mut j: usize = 0;
        while j < self.operations.len()
            invariant
                j <= self.operations.len(),
                g < self@.groups.len(),
                value@ == record_upto(self@, results_view(answers@), g as int, j as nat),
            decreases self.operations.len() - j,
        {
            let result = if g < answers.len() && j < answers[g].len() {
                answers[g][j].clone()
            } else {
                Json::Null
            };
            let mut name = self.operations[j].0.clone();
            name.append("_");
            name.append(self.operations[j].1.as_str());
            value = value.with_field(name, result);
            j += 1;
        }
        value
    }

    /// The records of all groups, given the results of the operations for
    /// each group, stamped `now`: one record for each group, and no two
    /// groups of one name.
    pub fn finalize_with(&self, answers: &Vec<Vec<Json>>, now: Timestamp) -> (r: Vec<Message>)
        ensures
            messages_view(r@) == aggregate_outputs(self@, results_view(answers@), now),
            names_distinct(self@.groups),
    {
        proof {
            use_type_invariant(self);
        }
        let mut out: Vec<Message> = Vec::new();
        let mut g: usize = 0;
        while g < self.groups.len()
            invariant
                g <= self.groups.len(),
                out.len() == g,
                forall|k: int|
                    0 <= k < g ==> (#[trigger] out[k])@ == record_message(
                        self@,
                        results_view(answers@),
                        k,
                        now,
                    ),
            decreases self.groups.len() - g,
        {
            let value = self.record_of(g, answers);
            let payload = to_payload(&value);
            out.push(Message::json(payload, Some(value), now));
            g += 1;
        }
        out
    }

    /// The records of all groups, with every result asked of `arith` and the
    /// wall clock read for the time stamp. What comes back is what
    /// `finalize_with` gives for those answers and that reading.
    pub fn finalize<A: Arithmetic>(&self, arith: &A) -> (r: Vec<Message>)
        ensures
            exists|answers: Seq<Seq<JsonView>>, now: Timestamp|
                messages_view(r@) == #[trigger] aggregate_outputs(self@, answers, now)
                    && all_aggregated(arith, self@, answers),
            names_distinct(self@.groups),
    {
        let mut answers: Vec<Vec<Json>> = Vec::new();
        let mut g: usize = 0;
        while g < self.groups.len()
            invariant
                g <= self.groups.len(),
                answers.len() == g,
                forall|k: int|
                    0 <= k < g ==> group_aggregated(
                        arith,
                        self@,
                        k,
                        #[trigger] results_view(answers@)[k],
                    ),
            decreases self.groups.len() - g,
        {
            let mut results: Vec<Json> = Vec::new();
            let mut j: usize = 0;
            while j < self.operations.len()
                invariant
                    g < self.groups.len(),
                    j <= self.operations.len(),
                    results.len() == j,
                    forall|k: int|
                        0 <= k < j ==> result_given(arith, self@, g as int, k, #[trigger] results[k]),
                decreases self.operations.len() - j,
            {
                let numbers = self.numbers(g, j);
                let result = aggregate_value(
                    self.operation(j),
                    &numbers,
                    self.group_size(g),
                    arith,
                );
                results.push(result);
                j += 1;
            }
            let ghost before = results_view(answers@);
            proof {
                assert forall|k: int| 0 <= k < self@.operations.len() implies result_viewed(
                    arith,
                    self@,
                    g as int,
                    k,
                    #[trigger] items_view(results@)[k],
                ) by {
                    assert(result_given(arith, self@, g as int, k, results[k]));
                }
            }
            answers.push(results);
            proof {
                assert(results_view(answers@) =~= before.push(items_view(results@)));
            }
            g += 1;
        }
        self.finalize_with(&answers, Timestamp::now())
    }
}

// ---------------------------------------------------------------------------
// Normalize
// ---------------------------------------------------------------------------

/// The fields that a schema lists under `properties`, where it lists any.
pub open spec fn properties_of(schema: JsonView) -> Option<Seq<(Seq<char>, JsonView)>> {
    match schema.get("properties"@) {
        Some(JsonView::Object(properties)) => Some(properties),
        _ => None,
    }
}

/// The object that holds, of the first `n` properties and in their order,
/// those that `doc` has a field for, each with the value that `doc` holds.
pub open spec fn kept_upto(properties: Seq<(Seq<char>, JsonView)>, doc: JsonView, n: nat) -> JsonView
    decreases n,
{
    if n == 0 || n > properties.len() {
        JsonView::Object(Seq::empty())
    } else {
        let before = kept_upto(properties, doc, (n - 1) as nat);
        match doc.get(properties[n - 1].0) {
            Some(value) => before.with_field(properties[n - 1].0, value),
            None => before,
        }
    }
}

/// `msg` with its decoded value cut down to the properties of the schema and
/// its payload written anew from it. Without a schema, without `properties`
/// in it, or without a decoded value, the message is left as it is.
pub open spec fn normalized(schema: Option<JsonView>, msg: MessageView) -> MessageView {
    match (schema, msg.parsed) {
        (Some(s), Some(doc)) => match properties_of(s) {
            Some(properties) => {
                let value = kept_upto(properties, doc, properties.len());
                MessageView {
                    parsed: Some(value),
                    payload: vstd::utf8::encode_utf8(encoded_text(value)),
                    ..msg
                }
            },
            None => msg,
        },
        _ => msg,
    }
}

/// Cuts the decoded value down to the fields that a schema names.
pub struct NormalizeAction {
    schema: Option<Json>,
}

impl View for NormalizeAction {
    type V = Option<JsonView>;

    /// The schema, where there is one.
    closed spec fn view(&self) -> Option<JsonView> {
        optional_view(self.schema)
    }
}

impl NormalizeAction {
    /// A normalizer for the schema given; without one, every message is left
    /// as it is.
    pub fn new(schema: Option<Json>) -> (r: NormalizeAction)
        ensures
            r@ == optional_view(schema),
    {
        NormalizeAction { schema }
    }

    /// Handles `msg`.
    pub fn execute(&self, msg: Message) -> (r: Vec<Message>)
        ensures
            messages_view(r@) == seq![normalized(self@, msg@)],
    {
        let mut msg = msg;
        let mut out: Vec<Message> = Vec::new();
        let properties = match &self.schema {
            Some(schema) => match schema.get("properties") {
                Some(Json::Object(properties)) => Some(properties),
                _ => None,
            },
            None => None,
        };
        let value = match (properties, &msg.parsed) {
            (Some(properties), Some(doc)) => {
                proof {
                    lemma_object_view(*properties);
                }
                let ghost names = fields_view(properties@);
                let empty: Vec<(String, Json)> = Vec::new();
                proof {
                    lemma_object_view(empty);
                    assert(fields_view(empty@) =~= Seq::empty());
                }
                let mut value = Json::Object(empty);
                let mut i: usize = 0;
                while i < properties.len()
                    invariant
                        i <= properties.len(),
                        names == fields_view(properties@),
                        value@ == kept_upto(names, doc@, i as nat),
                    decreases properties.len() - i,
                {
                    match doc.get(properties[i].0.as_str()) {
                        Some(found) => {
                            value = value.with_field(properties[i].0.clone(), found.clone());
                        },
                        None => {},
                    }
                    i += 1;
                }
                Some(value)
            },
            _ => None,
        };
        match value {
            Some(value) => {
                msg.payload = to_payload(&value);
                msg.parsed = Some(value);
            },
            None => {},
        }
        out.push(msg);
        out
    }
}

// ---------------------------------------------------------------------------
// Validate
// ---------------------------------------------------------------------------

/// What the validate action gives back for `msg`: nothing where the decoded
/// value lacks a required field.
pub open spec fn validated(schema: Option<JsonView>, msg: MessageView) -> Seq<MessageView> {
    match msg.parsed {
        Some(doc) => if missing_required(schema, doc) is Some {
            seq![]
        } else {
            seq![msg]
        },
        None => seq![msg],
    }
}

/// Drops the messages whose decoded value lacks a field that the schema requires.
pub struct ValidateAction {
    schema: Option<Json>,
}

impl View for ValidateAction {
    type V = Option<JsonView>;

    /// The schema, where there is one.
    closed spec fn view(&self) -> Option<JsonView> {
        optional_view(self.schema)
    }
}

impl ValidateAction {
    /// A validator for the schema given; without one, every message passes.
    pub fn new(schema: Option<Json>) -> (r: ValidateAction)
        ensures
            r@ == optional_view(schema),
    {
        ValidateAction { schema }
    }

    /// Whether `value` has every field that the schema requires.
    pub fn validate(&self, value: &Json) -> (r: bool)
        ensures
            r == missing_required(self@, value@).is_none(),
    {
        missing_required_field(&self.schema, value).is_none()
    }

    /// Handles `msg`.
    pub fn execute(&self, msg: Message) -> (r: Vec<Message>)
        ensures
            messages_view(r@) == validated(self@, msg@),
    {
        let keep = match &msg.parsed {
            Some(doc) => self.validate(doc),
            None => true,
        };
        let mut out: Vec<Message> = Vec::new();
        if keep {
            out.push(msg);
        }
        out
    }
}

// ---------------------------------------------------------------------------
// Limit
// ---------------------------------------------------------------------------

/// Passes the first `limit` messages and drops all that follow.
pub struct LimitAction {
    limit: usize,
    count: usize,
}

/// The mathematical value of a [`LimitAction`].
pub ghost struct LimitView {
    /// How many messages pass.
    pub limit: nat,
    /// How many have passed.
    pub count: nat,
}

impl View for LimitAction {
    type V = LimitView;

    closed spec fn view(&self) -> LimitView {
        LimitView { limit: self.limit as nat, count: self.count as nat }
    }
}

/// The limit once a message was handled.
pub open spec fn limit_state(l: LimitView) -> LimitView {
    if l.count < l.limit {
        LimitView { count: l.count + 1, ..l }
    } else {
        l
    }
}

/// What the limit gives back for `msg`.
pub open spec fn limit_outputs(l: LimitView, msg: MessageView) -> Seq<MessageView> {
    if l.count < l.limit {
        seq![msg]
    } else {
        seq![]
    }
}

impl LimitAction {
    /// A limit that lets `limit` messages pass.
    pub fn new(limit: usize) -> (r: LimitAction)
        ensures
            r@ == (LimitView { limit: limit as nat, count: 0 }),
    {
        LimitAction { limit, count: 0 }
    }

    /// Handles `msg`.
    pub fn execute(&mut self, msg: Message) -> (r: Vec<Message>)
        ensures
            final(self)@ == limit_state(old(self)@),
            messages_view(r@) == limit_outputs(old(self)@, msg@),
    {
        let mut out: Vec<Message> = Vec::new();
        if self.count < self.limit {
            self.count += 1;
            out.push(msg);
        }
        out
    }
}

/// A fresh limit passes message `k`, counted from zero, exactly when `k` is
/// below the limit.
pub proof fn lemma_limit_passes_first(limit: nat, k: nat)
    ensures
        limit_after(limit, k).limit == limit,
        limit_after(limit, k).count == if k < limit {
            k
        } else {
            limit
        },
        limit_outputs(limit_after(limit, k), arbitrary()).len() == if k < limit {
            1nat
        } else {
            0nat
        },
    decreases k,
{
    if k > 0 {
        lemma_limit_passes_first(limit, (k - 1) as nat);
    }
}

/// A fresh limit once `k` messages were handled.
pub open spec fn limit_after(limit: nat, k: nat) -> LimitView
    decreases k,
{
    if k == 0 {
        LimitView { limit, count: 0 }
    } else {
        limit_state(limit_after(limit, (k - 1) as nat))
    }
}

// ---------------------------------------------------------------------------
// Sample
// ---------------------------------------------------------------------------

/// Passes every `rate`-th message and drops the others.
pub struct SampleAction {
    rate: usize,
    count: usize,
}

/// The mathematical value of a [`SampleAction`].
pub ghost struct SampleView {
    /// Every how many messages one passes.
    pub rate: nat,
    /// How many messages came since the last one that passed.
    pub count: nat,
}

impl View for SampleAction {
    type V = SampleView;

    closed spec fn view(&self) -> SampleView {
        SampleView { rate: self.rate as nat, count: self.count as nat }
    }
}

/// The sample once a message was handled.
pub open spec fn sample_state(s: SampleView) -> SampleView {
    if s.count + 1 >= s.rate {
        SampleView { count: 0, ..s }
    } else {
        SampleView { count: s.count + 1, ..s }
    }
}

/// What the sample gives back for `msg`.
pub open spec fn sample_outputs(s: SampleView, msg: MessageView) -> Seq<MessageView> {
    if s.count + 1 >= s.rate {
        seq![msg]
    } else {
        seq![]
    }
}

impl SampleAction {
    /// A sample that lets every `rate`-th message pass.
    pub fn new(rate: usize) -> (r: SampleAction)
        requires
            rate > 0,
        ensures
            r@ == (SampleView { rate: rate as nat, count: 0 }),
    {
        SampleAction { rate, count: 0 }
    }

    #[verifier::type_invariant]
    spec fn well_formed(self) -> bool {
        self.count < self.rate
    }

    /// Handles `msg`.
    pub fn execute(&mut self, msg: Message) -> (r: Vec<Message>)
        ensures
            final(self)@ == sample_state(old(self)@),
            messages_view(r@) == sample_outputs(old(self)@, msg@),
    {
        proof {
            use_type_invariant(&*self);
        }
        let mut out: Vec<Message> = Vec::new();
        if self.count + 1 >= self.rate {
            self.count = 0;
            out.push(msg);
        } else {
            self.count += 1;
        }
        out
    }
}

/// A fresh sample once `k` messages were handled.
pub open spec fn sample_after(rate: nat, k: nat) -> SampleView
    decreases k,
{
    if k == 0 {
        SampleView { rate, count: 0 }
    } else {
        sample_state(sample_after(rate, (k - 1) as nat))
    }
}

/// A fresh sample passes the `k`-th message, counted from one, exactly when
/// `k` is a multiple of the rate.
pub proof fn lemma_sample_passes_every_nth(rate: nat, k: nat)
    requires
        rate > 0,
        k > 0,
    ensures
        sample_after(rate, (k - 1) as nat).rate == rate,
        sample_after(rate, (k - 1) as nat).count == (k - 1) % (rate as int),
        sample_outputs(sample_after(rate, (k - 1) as nat), arbitrary()).len() == if k % rate == 0 {
            1nat
        } else {
            0nat
        },
    decreases k,
{
    let r = rate as int;
    let n = k as int;
    if k > 1 {
        lemma_sample_passes_every_nth(rate, (k - 1) as nat);
        lemma_next_remainder(n - 2, r);
    } else {
        assert(0int % r == 0) by (nonlinear_arith)
            requires
                r > 0,
        ;
    }
    lemma_next_remainder(n - 1, r);
}

/// The remainder of the next number is the next remainder, or zero where
/// that reaches the divisor.
proof fn lemma_next_remainder(n: int, r: int)
    requires
        n >= 0,
        r > 0,
    ensures
        (n + 1) % r == if n % r + 1 >= r {
            0
        } else {
            n % r + 1
        },
{
    assert((n + 1) % r == if n % r + 1 >= r {
        0
    } else {
        n % r + 1
    }) by (nonlinear_arith)
        requires
            n >= 0,
            r > 0,
    ;
}

// ---------------------------------------------------------------------------
// The actions as one type
// ---------------------------------------------------------------------------

/// A stage of the action chain.
pub trait PipeAction {
    /// Handles one message and gives back what comes of it.
    fn execute<A: Arithmetic>(&mut self, msg: Message, arith: &A) -> Vec<Message>;

    /// Runs once after the last message and gives back what the stage held.
    fn finalize<A: Arithmetic>(&mut self, arith: &A) -> Vec<Message>;
}

/// One of the built-in actions.
pub enum Action {
    Filter(FilterAction),
    Transform(TransformAction),
    Aggregate(AggregateAction),
    Normalize(NormalizeAction),
    Validate(ValidateAction),
    Limit(LimitAction),
    Sample(SampleAction),
}

/// The mathematical value of an [`Action`].
pub ghost enum ActionView {
    Filter(Seq<char>),
    Transform(Seq<(Seq<char>, Seq<char>)>),
    Aggregate(AggregateView),
    Normalize(Option<JsonView>),
    Validate(Option<JsonView>),
    Limit(LimitView),
    Sample(SampleView),
}

impl View for Action {
    type V = ActionView;

    open spec fn view(&self) -> ActionView {
        match self {
            Action::Filter(a) => ActionView::Filter(a@),
            Action::Transform(a) => ActionView::Transform(a@),
            Action::Aggregate(a) => ActionView::Aggregate(a@),
            Action::Normalize(a) => ActionView::Normalize(a@),
            Action::Validate(a) => ActionView::Validate(a@),
            Action::Limit(a) => ActionView::Limit(a@),
            Action::Sample(a) => ActionView::Sample(a@),
        }
    }
}

/// The action once `msg` was handled.
pub open spec fn action_state(a: ActionView, msg: MessageView) -> ActionView {
    match a {
        ActionView::Aggregate(v) => ActionView::Aggregate(aggregate_state(v, msg)),
        ActionView::Limit(v) => ActionView::Limit(limit_state(v)),
        ActionView::Sample(v) => ActionView::Sample(sample_state(v)),
        other => other,
    }
}

/// What the action gives back for `msg`, given what the arithmetic answered.
pub open spec fn action_outputs(a: ActionView, msg: MessageView, answers: Answers) -> Seq<MessageView> {
    match a {
        ActionView::Filter(expression) => filter_outputs(expression, msg, answers.order),
        ActionView::Transform(assignments) => seq![transformed(assignments, msg, answers.values)],
        ActionView::Aggregate(_) => seq![],
        ActionView::Normalize(schema) => seq![normalized(schema, msg)],
        ActionView::Validate(schema) => validated(schema, msg),
        ActionView::Limit(v) => limit_outputs(v, msg),
        ActionView::Sample(v) => sample_outputs(v, msg),
    }
}

/// What the action gives back at the end of the input, given the results of
/// the arithmetic and the time stamp put on the records.
pub open spec fn final_outputs(a: ActionView, results: Seq<Seq<JsonView>>, now: Timestamp) -> Seq<MessageView> {
    match a {
        ActionView::Aggregate(v) => aggregate_outputs(v, results, now),
        _ => seq![],
    }
}

/// Whether `answers` is what the arithmetic answered while the action
/// handled `msg`: for a filter, the order of the number and the literal that
/// have to be compared, and nothing where no number is compared; for a
/// transform, the value of each expression that is computed.
pub open spec fn answers_given<A: Arithmetic>(arith: &A, a: ActionView, msg: MessageView, answers: Answers) -> bool {
    match a {
        ActionView::Filter(expression) => if filter_asks(expression, msg) {
            exists|number: serde_json::Number, literal: &str|
                #[trigger] order_given(arith, &number, literal, answers.order) && filter_operands(
                    expression,
                    msg,
                    number,
                    literal@,
                )
        } else {
            answers.order is None
        },
        ActionView::Transform(assignments) => match msg.parsed {
            Some(doc) => all_answered(arith, assignments, doc, answers.values),
            None => true,
        },
        _ => true,
    }
}

/// Whether `results` is what the arithmetic gave at the end of the input:
/// for an aggregate, the result of each operation of each group.
pub open spec fn final_given<A: Arithmetic>(arith: &A, a: ActionView, results: Seq<Seq<JsonView>>) -> bool {
    match a {
        ActionView::Aggregate(v) => all_aggregated(arith, v, results),
        _ => true,
    }
}

impl PipeAction for Action {
    fn execute<A: Arithmetic>(&mut self, msg: Message, arith: &A) -> (r: Vec<Message>)
        ensures
            final(self)@ == action_state(old(self)@, msg@),
            exists|answers: Answers|
                messages_view(r@) == #[trigger] action_outputs(old(self)@, msg@, answers)
                    && answers_given(arith, old(self)@, msg@, answers),
    {
        match self {
            Action::Filter(a) => {
                let r = a.execute(msg, arith);
                proof {
                    if filter_asks(a@, msg@) {
                        let (number, literal, order) = choose|
                            number: serde_json::Number,
                            literal: &str,
                            order: Option<NumberOrder>,
                        |
                            #[trigger] order_given(arith, &number, literal, order)
                                && filter_operands(a@, msg@, number, literal@) && messages_view(r@)
                                == filter_outputs(a@, msg@, order);
                        let answers = Answers { order, values: Seq::empty() };
                        assert(order_given(arith, &number, literal, answers.order));
                        assert(messages_view(r@) == action_outputs(old(self)@, msg@, answers)
                            && answers_given(arith, old(self)@, msg@, answers));
                    } else {
                        let answers = Answers { order: None, values: Seq::empty() };
                        assert(messages_view(r@) == action_outputs(old(self)@, msg@, answers)
                            && answers_given(arith, old(self)@, msg@, answers));
                    }
                }
                r
            },
            Action::Transform(a) => {
                let r = a.execute(msg, arith);
                proof {
                    let values = choose|values: Seq<Option<JsonView>>|
                        messages_view(r@) == seq![#[trigger] transformed(a@, msg@, values)] && (
                        msg@.parsed matches Some(doc) ==> all_answered(arith, a@, doc, values));
                    let answers = Answers { order: None, values };
                    assert(messages_view(r@) == action_outputs(old(self)@, msg@, answers)
                        && answers_given(arith, old(self)@, msg@, answers));
                }
                r
            },
            Action::Aggregate(a) => {
                let r = a.execute(msg);
                proof {
                    let answers = Answers { order: None, values: Seq::empty() };
                    assert(messages_view(r@) =~= action_outputs(old(self)@, msg@, answers)
                        && answers_given(arith, old(self)@, msg@, answers));
                }
                r
            },
            Action::Normalize(a) => {
                let r = a.execute(msg);
                proof {
                    let answers = Answers { order: None, values: Seq::empty() };
                    assert(messages_view(r@) == action_outputs(old(self)@, msg@, answers)
                        && answers_given(arith, old(self)@, msg@, answers));
                }
                r
            },
            Action::Validate(a) => {
                let r = a.execute(msg);
                proof {
                    let answers = Answers { order: None, values: Seq::empty() };
                    assert(messages_view(r@) == action_outputs(old(self)@, msg@, answers)
                        && answers_given(arith, old(self)@, msg@, answers));
                }
                r
            },
            Action::Limit(a) => {
                let r = a.execute(msg);
                proof {
                    let answers = Answers { order: None, values: Seq::empty() };
                    assert(messages_view(r@) == action_outputs(old(self)@, msg@, answers)
                        && answers_given(arith, old(self)@, msg@, answers));
                }
                r
            },
            Action::Sample(a) => {
                let r = a.execute(msg);
                proof {
                    let answers = Answers { order: None, values: Seq::empty() };
                    assert(messages_view(r@) == action_outputs(old(self)@, msg@, answers)
                        && answers_given(arith, old(self)@, msg@, answers));
                }
                r
            },
        }
    }

    fn finalize<A: Arithmetic>(&mut self, arith: &A) -> (r: Vec<Message>)
        ensures
            final(self)@ == old(self)@,
            exists|results: Seq<Seq<JsonView>>, now: Timestamp|
                messages_view(r@) == #[trigger] final_outputs(old(self)@, results, now)
                    && final_given(arith, old(self)@, results),
    {
        match self {
            Action::Aggregate(a) => {
                let r = a.finalize(arith);
                proof {
                    let (results, now) = choose|results: Seq<Seq<JsonView>>, now: Timestamp|
                        messages_view(r@) == #[trigger] aggregate_outputs(a@, results, now)
                            && all_aggregated(arith, a@, results);
                    assert(messages_view(r@) == final_outputs(old(self)@, results, now)
                        && final_given(arith, old(self)@, results));
                }
                r
            },
            _ => {
                let r: Vec<Message> = Vec::new();
                proof {
                    let results = Seq::<Seq<JsonView>>::empty();
                    let now = Timestamp { secs: 0, nanos: 0 };
                    assert(messages_view(r@) =~= final_outputs(old(self)@, results, now)
                        && final_given(arith, old(self)@, results));
                }
                r
            },
        }
    }
}

} // verus!
