use fluxmux::json::Json;
use fluxmux::message::{Format, Message, Timestamp};
use fluxmux::pipe_actions::{
    comparison_of, math_steps_of, satisfies, Action, AggregateAction, Arithmetic, CompareOp,
    FilterAction, LimitAction, MathOp, NormalizeAction, NumberOrder, PipeAction, SampleAction,
    TransformAction, ValidateAction,
};
use fluxmux::pipe_engine::{
    finalize_actions, run_actions, Pipe, PipeError, PipeEvent, PipePhase, PipeStep,
};
use fluxmux::wire::{from_bytes, from_text, to_text};

/// Arithmetic on double-precision floats.
struct Floats;

impl Arithmetic for Floats {
    type Num = f64;

    fn zero(&self) -> f64 {
        0.0
    }

    fn infinity(&self) -> f64 {
        f64::INFINITY
    }

    fn negative_infinity(&self) -> f64 {
        f64::NEG_INFINITY
    }

    fn parse(&self, text: &str) -> Option<f64> {
        text.parse::<f64>().ok()
    }

    fn of_number(&self, number: &serde_json::Number) -> Option<f64> {
        number.as_f64()
    }

    fn of_count(&self, count: usize) -> f64 {
        count as f64
    }

    fn order(&self, a: &f64, b: &f64) -> NumberOrder {
        if a < b {
            NumberOrder::Less
        } else if a > b {
            NumberOrder::Greater
        } else if a == b {
            NumberOrder::Equal
        } else {
            NumberOrder::Unordered
        }
    }

    fn plus(&self, a: &f64, b: &f64) -> f64 {
        a + b
    }

    fn minus(&self, a: &f64, b: &f64) -> f64 {
        a - b
    }

    fn times(&self, a: &f64, b: &f64) -> f64 {
        a * b
    }

    fn divided(&self, a: &f64, b: &f64) -> f64 {
        a / b
    }

    fn smaller(&self, a: &f64, b: &f64) -> f64 {
        a.min(*b)
    }

    fn larger(&self, a: &f64, b: &f64) -> f64 {
        a.max(*b)
    }

    fn to_json(&self, a: &f64) -> Json {
        match serde_json::Number::from_f64(*a) {
            Some(n) => Json::Number(n),
            None => Json::Null,
        }
    }
}

fn doc(text: &str) -> Json {
    from_text(text).unwrap()
}

fn message(text: &str) -> Message {
    Message::json(text.as_bytes().to_vec(), Some(doc(text)), Timestamp { secs: 1, nanos: 0 })
}

fn raw(bytes: &[u8]) -> Message {
    let mut msg = message("null");
    msg.payload = bytes.to_vec();
    msg.parsed = None;
    msg.format = Some(Format::Binary);
    msg
}

fn payloads(messages: &Vec<Message>) -> Vec<String> {
    messages.iter().map(|m| String::from_utf8(m.payload.clone()).unwrap()).collect()
}

fn keeps(expression: &str, text: &str) -> bool {
    FilterAction::new(expression.to_string()).execute(message(text), &Floats).len() == 1
}

#[test]
fn filter_expression_is_split_at_the_first_operator_found() {
    let c = comparison_of(" temp >= 30 ").unwrap();
    assert_eq!((c.field.as_str(), c.op, c.literal.as_str()), ("temp", CompareOp::Ge, "30"));
    let c = comparison_of("a<=b").unwrap();
    assert_eq!((c.field.as_str(), c.op, c.literal.as_str()), ("a", CompareOp::Le, "b"));
    let c = comparison_of("a>b").unwrap();
    assert_eq!(c.op, CompareOp::Gt);
    let c = comparison_of("a<b").unwrap();
    assert_eq!(c.op, CompareOp::Lt);
    let c = comparison_of("name == \"bob\"").unwrap();
    assert_eq!((c.field.as_str(), c.op, c.literal.as_str()), ("name", CompareOp::Eq, "\"bob\""));
    let c = comparison_of("a!=1").unwrap();
    assert_eq!((c.field.as_str(), c.op, c.literal.as_str()), ("a", CompareOp::Ne, "1"));
    let c = comparison_of("a=>b").unwrap();
    assert_eq!((c.field.as_str(), c.op, c.literal.as_str()), ("a=", CompareOp::Gt, "b"));
    let c = comparison_of("a<b>=c").unwrap();
    assert_eq!((c.field.as_str(), c.op, c.literal.as_str()), ("a<b", CompareOp::Ge, "c"));
    assert!(comparison_of("no operator").is_none());
    assert!(comparison_of("a=1").is_none());
}

#[test]
fn orders_satisfy_operators() {
    let orders = [
        NumberOrder::Less,
        NumberOrder::Equal,
        NumberOrder::Greater,
        NumberOrder::Unordered,
    ];
    let table = [
        (CompareOp::Ge, [false, true, true, false]),
        (CompareOp::Le, [true, true, false, false]),
        (CompareOp::Gt, [false, false, true, false]),
        (CompareOp::Lt, [true, false, false, false]),
        (CompareOp::Eq, [false, true, false, false]),
        (CompareOp::Ne, [true, false, true, true]),
    ];
    for (op, expected) in table {
        for (order, want) in orders.into_iter().zip(expected) {
            assert_eq!(satisfies(op, order), want, "{:?} {:?}", op, order);
        }
    }
}

#[test]
fn filter_compares_numbers() {
    assert!(keeps("temp>30", "{\"temp\":31}"));
    assert!(!keeps("temp>30", "{\"temp\":30}"));
    assert!(keeps("temp>=30", "{\"temp\":30}"));
    assert!(keeps("temp<30.5", "{\"temp\":30.25}"));
    assert!(keeps("temp<=-1", "{\"temp\":-1}"));
    assert!(keeps("temp==3", "{\"temp\":3.0}"));
    assert!(keeps("temp!=3", "{\"temp\":4}"));
    assert!(!keeps("temp!=3", "{\"temp\":3}"));
    assert!(keeps("temp!=nan", "{\"temp\":3}"));
    assert!(!keeps("temp==nan", "{\"temp\":3}"));
}

#[test]
fn filter_compares_texts() {
    assert!(keeps("name==bob", "{\"name\":\"bob\"}"));
    assert!(keeps("name==\"bob\"", "{\"name\":\"bob\"}"));
    assert!(!keeps("name==alice", "{\"name\":\"bob\"}"));
    assert!(keeps("name!=alice", "{\"name\":\"bob\"}"));
    assert!(!keeps("name!=bob", "{\"name\":\"bob\"}"));
    assert!(keeps("name>=bob", "{\"name\":\"bob\"}"));
    assert!(!keeps("name>bo", "{\"name\":\"bob\"}"));
    assert!(keeps("name==30", "{\"name\":\"30\"}"));
}

#[test]
fn filter_drops_what_cannot_be_compared() {
    assert!(!keeps("temp>30", "{\"other\":31}"));
    assert!(!keeps("temp>hot", "{\"temp\":31}"));
    assert!(!keeps("temp>30", "{\"temp\":true}"));
    assert!(!keeps("temp>30", "{\"temp\":null}"));
    assert!(!keeps("temp>30", "[31]"));
    assert!(!keeps("temp", "{\"temp\":31}"));
    assert!(!keeps("", "{\"temp\":31}"));
}

#[test]
fn filter_passes_messages_without_decoded_value() {
    let filter = FilterAction::new("temp>30".to_string());
    assert_eq!(filter.execute(raw(b"\x00\x01"), &Floats).len(), 1);
    assert_eq!(filter.execute_with(raw(b"x"), None).len(), 1);
}

#[test]
fn filter_names_what_has_to_be_compared() {
    let filter = FilterAction::new("temp >= 30".to_string());
    let operands = filter.numeric_operands(&doc("{\"temp\":31}")).unwrap();
    assert_eq!(operands.0.as_f64(), Some(31.0));
    assert_eq!(operands.1, "30");
    assert!(filter.numeric_operands(&doc("{\"temp\":\"31\"}")).is_none());
    assert!(filter.numeric_operands(&doc("{}")).is_none());
    assert!(filter.evaluate(&doc("{\"temp\":31}"), Some(NumberOrder::Greater)));
    assert!(!filter.evaluate(&doc("{\"temp\":31}"), Some(NumberOrder::Less)));
    assert!(!filter.evaluate(&doc("{\"temp\":31}"), None));
    assert_eq!(filter.execute_with(message("{\"temp\":1}"), Some(NumberOrder::Equal)).len(), 1);
    assert_eq!(filter.execute_with(message("{\"temp\":1}"), Some(NumberOrder::Less)).len(), 0);
}

fn steps(expr: &str, text: &str) -> Vec<(MathOp, String, Option<f64>)> {
    math_steps_of(expr, &doc(text))
        .into_iter()
        .map(|s| (s.op, s.token, s.field.and_then(|n| n.as_f64())))
        .collect()
}

#[test]
fn arithmetic_expression_is_taken_apart() {
    assert_eq!(
        steps("temp*1.8+32", "{\"temp\":10}"),
        vec![
            (MathOp::Add, "temp".to_string(), Some(10.0)),
            (MathOp::Mul, "1.8".to_string(), None),
            (MathOp::Add, "32".to_string(), None),
        ]
    );
    assert_eq!(
        steps(" a - b / 2 ", "{\"a\":1,\"b\":\"x\"}"),
        vec![
            (MathOp::Add, "a".to_string(), Some(1.0)),
            (MathOp::Sub, "b".to_string(), None),
            (MathOp::Div, "2".to_string(), None),
        ]
    );
    assert_eq!(steps("-5", "{}"), vec![(MathOp::Sub, "5".to_string(), None)]);
    assert_eq!(
        steps("a*-b", "{}"),
        vec![(MathOp::Add, "a".to_string(), None), (MathOp::Sub, "b".to_string(), None)]
    );
    assert_eq!(steps("3+", "{}"), vec![(MathOp::Add, "3".to_string(), None)]);
    assert_eq!(steps("a b", "{\"ab\":4}"), vec![(MathOp::Add, "ab".to_string(), Some(4.0))]);
    assert_eq!(steps("", "{}"), Vec::new());
    assert_eq!(steps("+-*/ ", "{}"), Vec::new());
    assert_eq!(steps("\tx\t", "{\"x\":2}"), vec![(MathOp::Add, "\tx\t".to_string(), Some(2.0))]);
}

fn transformed(expr: &str, text: &str) -> String {
    let out = TransformAction::new(expr.to_string()).execute(message(text), &Floats);
    assert_eq!(out.len(), 1);
    assert_eq!(out[0].payload, to_text(out[0].parsed.as_ref().unwrap()).into_bytes());
    String::from_utf8(out[0].payload.clone()).unwrap()
}

#[test]
fn transform_sets_fields_from_expressions() {
    assert_eq!(
        transformed("fahrenheit=temp*1.8+32", "{\"temp\":10}"),
        "{\"temp\":10,\"fahrenheit\":50.0}"
    );
    assert_eq!(
        transformed("temp=temp+1, unit = \"C\" ,copy=name", "{\"temp\":1,\"name\":\"n\"}"),
        "{\"temp\":2.0,\"name\":\"n\",\"unit\":\"C\",\"copy\":\"n\"}"
    );
    assert_eq!(transformed("a=b,b=a", "{\"a\":1,\"b\":2}"), "{\"a\":2.0,\"b\":1.0}");
    assert_eq!(transformed("x=2*3-1/5", "{}"), "{\"x\":1.0}");
    assert_eq!(transformed("x=", "{}"), "{\"x\":0.0}");
    assert_eq!(transformed("x=1/0", "{}"), "{\"x\":null}");
    assert_eq!(transformed("x=\"a,b\"", "{}"), "{}");
    assert_eq!(transformed("x=\"1+1\"", "{}"), "{\"x\":\"1+1\"}");
}

#[test]
fn product_and_quotient_take_a_zero_result_as_any_other() {
    assert_eq!(transformed("x=a*2", "{\"a\":0}"), "{\"a\":0,\"x\":0.0}");
    assert_eq!(transformed("x=5-5*3", "{}"), "{\"x\":0.0}");
    assert_eq!(transformed("x=0/4", "{}"), "{\"x\":0.0}");
    assert_eq!(transformed("x=*2", "{}"), "{\"x\":0.0}");
}

#[test]
fn transform_passes_over_what_has_no_value() {
    assert_eq!(transformed("x=missing", "{\"a\":1}"), "{\"a\":1}");
    assert_eq!(transformed("x=a+missing", "{\"a\":1}"), "{\"a\":1}");
    assert_eq!(transformed("no assignment", "{\"a\":1}"), "{\"a\":1}");
    assert_eq!(transformed("x=1", "[1,2]"), "[1,2]");
    assert_eq!(transformed("x=flag", "{\"flag\":true}"), "{\"flag\":true,\"x\":true}");
}

#[test]
fn transform_leaves_undecoded_messages_alone() {
    let out = TransformAction::new("x=1".to_string()).execute(raw(b"abc"), &Floats);
    assert_eq!(out.len(), 1);
    assert_eq!(out[0].payload, b"abc".to_vec());
    assert_eq!(out[0].parsed, None);
}

#[test]
fn transform_asks_only_for_expressions_that_are_computed() {
    let transform = TransformAction::new("a=\"text\",b=x+1".to_string());
    assert_eq!(transform.len(), 2);
    let value = doc("{\"x\":2}");
    assert!(transform.request(0, &value).is_none());
    assert_eq!(transform.request(1, &value).unwrap().len(), 2);
    assert_eq!(
        transform.evaluate_expr(0, &value, &Some(Json::Null)),
        Some(Json::String("text".to_string()))
    );
    assert_eq!(transform.evaluate_expr(1, &value, &Some(Json::Bool(true))), Some(Json::Bool(true)));
    assert_eq!(transform.evaluate_expr(1, &value, &None), None);
    let out = transform.execute_with(message("{\"x\":2}"), &vec![None, Some(doc("3"))]);
    assert_eq!(payloads(&out), vec!["{\"x\":2,\"a\":\"text\",\"b\":3}"]);
    let out = transform.execute_with(message("{\"x\":2}"), &Vec::new());
    assert_eq!(payloads(&out), vec!["{\"x\":2,\"a\":\"text\"}"]);
}

fn records(mut aggregate: AggregateAction, inputs: &[&str]) -> Vec<Json> {
    for input in inputs {
        assert!(aggregate.execute(message(input)).is_empty());
    }
    let out = aggregate.finalize(&Floats);
    for msg in &out {
        assert_eq!(msg.format, Some(Format::Json));
        assert_eq!(msg.id, None);
        assert_eq!(msg.key, None);
        assert_eq!(from_bytes(&msg.payload).ok(), msg.parsed);
    }
    out.into_iter().map(|m| m.parsed.unwrap()).collect()
}

fn field(record: &Json, name: &str) -> f64 {
    record.get(name).unwrap().as_number().unwrap().as_f64().unwrap()
}

#[test]
fn aggregate_sums_by_group() {
    let aggregate = AggregateAction::new(
        Some("g".to_string()),
        vec![("sum".to_string(), "v".to_string())],
    );
    let out = records(
        aggregate,
        &["{\"g\":\"x\",\"v\":10}", "{\"g\":\"x\",\"v\":20}", "{\"g\":\"y\",\"v\":5}"],
    );
    assert_eq!(out.len(), 2);
    let x = out.iter().find(|r| r.get("g").unwrap().as_str() == Some("x")).unwrap();
    let y = out.iter().find(|r| r.get("g").unwrap().as_str() == Some("y")).unwrap();
    assert_eq!(field(x, "sum_v"), 30.0);
    assert_eq!(field(y, "sum_v"), 5.0);
    assert_eq!(to_text(x), "{\"g\":\"x\",\"sum_v\":30.0}");
    assert_eq!(to_text(y), "{\"g\":\"y\",\"sum_v\":5.0}");
}

#[test]
fn aggregate_computes_every_operation() {
    let ops = ["avg", "sum", "min", "max", "count", "median"]
        .iter()
        .map(|op| (op.to_string(), "v".to_string()))
        .collect();
    let out = records(
        AggregateAction::new(None, ops),
        &["{\"v\":1}", "{\"v\":4}", "{\"v\":\"text\"}", "{\"w\":9}", "{\"v\":-2.5}"],
    );
    assert_eq!(out.len(), 1);
    assert_eq!(
        to_text(&out[0]),
        "{\"avg_v\":0.8333333333333334,\"sum_v\":2.5,\"min_v\":-2.5,\"max_v\":4.0,\"count_v\":5.0,\"median_v\":0.0}"
    );
}

#[test]
fn aggregate_groups_values_without_group_text_together() {
    let aggregate = AggregateAction::new(
        Some("g".to_string()),
        vec![("count".to_string(), "_".to_string())],
    );
    assert_eq!(aggregate.get_group_key(&doc("{\"g\":\"a\"}")), "a");
    assert_eq!(aggregate.get_group_key(&doc("{\"g\":1}")), "_default_");
    assert_eq!(aggregate.get_group_key(&doc("{}")), "_default_");
    assert_eq!(AggregateAction::new(None, Vec::new()).get_group_key(&doc("{\"g\":\"a\"}")), "_all_");
    let out = records(aggregate, &["{\"g\":1}", "{\"g\":\"a\"}", "{}", "[]"]);
    assert_eq!(out.len(), 2);
    assert_eq!(to_text(&out[0]), "{\"g\":\"_default_\",\"count__\":3.0}");
    assert_eq!(to_text(&out[1]), "{\"g\":\"a\",\"count__\":1.0}");
}

#[test]
fn aggregate_gives_null_where_there_is_no_number() {
    let ops = vec![
        ("avg".to_string(), "v".to_string()),
        ("min".to_string(), "v".to_string()),
        ("max".to_string(), "v".to_string()),
        ("sum".to_string(), "v".to_string()),
    ];
    let out = records(AggregateAction::new(None, ops), &["{\"v\":\"x\"}"]);
    assert_eq!(out[0].get("avg_v"), Some(&Json::Null));
    assert_eq!(out[0].get("min_v"), Some(&Json::Null));
    assert_eq!(out[0].get("max_v"), Some(&Json::Null));
    assert_eq!(field(&out[0], "sum_v"), 0.0);
}

#[test]
fn aggregate_holds_nothing_without_input() {
    let mut aggregate = AggregateAction::new(None, vec![("sum".to_string(), "v".to_string())]);
    assert!(aggregate.finalize(&Floats).is_empty());
    assert!(aggregate.execute(raw(b"x")).is_empty());
    assert!(aggregate.finalize(&Floats).is_empty());
    assert_eq!(aggregate.group_count(), 0);
    assert_eq!(aggregate.operation_count(), 1);
    assert_eq!(aggregate.operation(0), "sum");
}

#[test]
fn aggregate_takes_results_from_outside() {
    let mut aggregate = AggregateAction::new(
        Some("g".to_string()),
        vec![("sum".to_string(), "v".to_string()), ("max".to_string(), "w".to_string())],
    );
    aggregate.execute(message("{\"g\":\"a\",\"v\":1,\"w\":2}"));
    aggregate.execute(message("{\"g\":\"b\",\"v\":3}"));
    aggregate.execute(message("{\"g\":\"a\",\"v\":5}"));
    assert_eq!(aggregate.group_count(), 2);
    assert_eq!(aggregate.group_size(0), 2);
    assert_eq!(aggregate.group_size(1), 1);
    let numbers: Vec<f64> = aggregate.numbers(0, 0).iter().map(|n| n.as_f64().unwrap()).collect();
    assert_eq!(numbers, vec![1.0, 5.0]);
    assert!(aggregate.numbers(1, 1).is_empty());
    let now = Timestamp { secs: 9, nanos: 8 };
    let out = aggregate.finalize_with(&vec![vec![doc("6"), doc("2")], vec![doc("3")]], now);
    assert_eq!(
        payloads(&out),
        vec!["{\"g\":\"a\",\"sum_v\":6,\"max_w\":2}", "{\"g\":\"b\",\"sum_v\":3,\"max_w\":null}"]
    );
    assert_eq!(out[0].timestamp, now);
}

#[test]
fn normalize_keeps_the_properties_of_the_schema_in_their_order() {
    let schema = doc("{\"properties\":{\"b\":{},\"zz\":{},\"a\":{\"type\":\"string\"}}}");
    let normalize = NormalizeAction::new(Some(schema));
    let out = normalize.execute(message("{\"a\":1,\"x\":2,\"b\":[3]}"));
    assert_eq!(payloads(&out), vec!["{\"b\":[3],\"a\":1}"]);
    assert_eq!(out[0].parsed, Some(doc("{\"b\":[3],\"a\":1}")));
    assert_eq!(payloads(&normalize.execute(message("[1]"))), vec!["{}"]);
    assert_eq!(payloads(&normalize.execute(raw(b"raw"))), vec!["raw"]);
}

#[test]
fn normalize_without_properties_changes_nothing() {
    let text = "{\"b\":1, \"a\":2}";
    assert_eq!(payloads(&NormalizeAction::new(None).execute(message(text))), vec![text]);
    let no_properties = NormalizeAction::new(Some(doc("{\"required\":[]}")));
    assert_eq!(payloads(&no_properties.execute(message(text))), vec![text]);
    let not_an_object = NormalizeAction::new(Some(doc("{\"properties\":[\"a\"]}")));
    assert_eq!(payloads(&not_an_object.execute(message(text))), vec![text]);
}

#[test]
fn validate_drops_what_lacks_a_required_field() {
    let validate = ValidateAction::new(Some(doc("{\"required\":[\"id\",\"name\"]}")));
    assert!(validate.validate(&doc("{\"id\":1,\"name\":null}")));
    assert!(!validate.validate(&doc("{\"id\":1}")));
    assert!(validate.validate(&doc("7")));
    assert_eq!(validate.execute(message("{\"id\":1,\"name\":2}")).len(), 1);
    assert_eq!(validate.execute(message("{\"name\":2}")).len(), 0);
    assert_eq!(validate.execute(raw(b"x")).len(), 1);
    assert_eq!(ValidateAction::new(None).execute(message("{}")).len(), 1);
}

#[test]
fn limit_passes_the_first_messages_only() {
    let mut limit = LimitAction::new(2);
    let passed: Vec<usize> = (0..5).map(|_| limit.execute(message("1")).len()).collect();
    assert_eq!(passed, vec![1, 1, 0, 0, 0]);
    let mut none = LimitAction::new(0);
    assert_eq!(none.execute(message("1")).len(), 0);
}

#[test]
fn sample_passes_every_nth_message() {
    let mut sample = SampleAction::new(3);
    let passed: Vec<usize> = (0..7).map(|_| sample.execute(message("1")).len()).collect();
    assert_eq!(passed, vec![0, 0, 1, 0, 0, 1, 0]);
    let mut all = SampleAction::new(1);
    let passed: Vec<usize> = (0..3).map(|_| all.execute(message("1")).len()).collect();
    assert_eq!(passed, vec![1, 1, 1]);
}

fn chain() -> Vec<Action> {
    vec![
        Action::Validate(ValidateAction::new(Some(doc("{\"required\":[\"temp\"]}")))),
        Action::Filter(FilterAction::new("temp>30".to_string())),
        Action::Transform(TransformAction::new("f=temp*2".to_string())),
        Action::Normalize(NormalizeAction::new(Some(doc("{\"properties\":{\"f\":{}}}")))),
        Action::Sample(SampleAction::new(2)),
        Action::Limit(LimitAction::new(1)),
    ]
}

#[test]
fn actions_run_in_chain_order() {
    let mut actions = chain();
    let inputs = ["{\"temp\":40}", "{\"x\":1}", "{\"temp\":10}", "{\"temp\":50}", "{\"temp\":60}", "{\"temp\":70}"];
    let mut out = Vec::new();
    for input in inputs {
        out.extend(payloads(&run_actions(&mut actions, message(input), &Floats)));
    }
    assert_eq!(out, vec!["{\"f\":100.0}"]);
    assert!(finalize_actions(&mut actions, &Floats).is_empty());
    assert_eq!(payloads(&run_actions(&mut Vec::new(), message("1"), &Floats)), vec!["1"]);
}

#[test]
fn single_actions_answer_through_the_common_interface() {
    let mut filter = Action::Filter(FilterAction::new("a==1".to_string()));
    assert_eq!(filter.execute(message("{\"a\":1}"), &Floats).len(), 1);
    assert!(filter.finalize(&Floats).is_empty());
    let mut aggregate = Action::Aggregate(AggregateAction::new(
        None,
        vec![("count".to_string(), "_".to_string())],
    ));
    assert!(aggregate.execute(message("{}"), &Floats).is_empty());
    assert_eq!(payloads(&aggregate.finalize(&Floats)), vec!["{\"count__\":1.0}"]);
}

#[test]
fn end_of_input_output_goes_past_later_actions() {
    let mut actions = vec![
        Action::Aggregate(AggregateAction::new(None, vec![("sum".to_string(), "v".to_string())])),
        Action::Limit(LimitAction::new(0)),
    ];
    assert!(run_actions(&mut actions, message("{\"v\":2}"), &Floats).is_empty());
    assert!(run_actions(&mut actions, message("{\"v\":3}"), &Floats).is_empty());
    assert_eq!(payloads(&finalize_actions(&mut actions, &Floats)), vec!["{\"sum_v\":5.0}"]);
}

fn sends(pipe: &mut Pipe, first: PipeStep, results: &[bool]) -> (Vec<(usize, String)>, PipeStep) {
    let mut log = Vec::new();
    let mut step = first;
    let mut answers = results.iter();
    loop {
        match step {
            PipeStep::Send { sink, message } => {
                log.push((sink, String::from_utf8(message.payload).unwrap()));
                let ok = *answers.next().expect("more sends than answers");
                step = pipe.step(PipeEvent::Sent(ok), &Floats);
            }
            other => return (log, other),
        }
    }
}

#[test]
fn tee_sends_each_message_once_to_every_sink() {
    for n in 1..5usize {
        for failing in [false, true] {
            let mut pipe = Pipe::new(Vec::new(), n);
            let first = pipe.step(PipeEvent::Received(message("7")), &Floats);
            assert_eq!(pipe.phase(), PipePhase::Delivering);
            let results: Vec<bool> = (0..n).map(|i| !(failing && i % 2 == 0)).collect();
            let (log, next) = sends(&mut pipe, first, &results);
            let expected: Vec<(usize, String)> = (0..n).map(|i| (i, "7".to_string())).collect();
            assert_eq!(log, expected);
            assert!(matches!(next, PipeStep::Receive));
            assert_eq!(pipe.phase(), PipePhase::Receiving);
        }
    }
}

#[test]
fn pipe_delivers_flushes_and_joins() {
    let actions = vec![
        Action::Filter(FilterAction::new("v>1".to_string())),
        Action::Aggregate(AggregateAction::new(None, vec![("sum".to_string(), "v".to_string())])),
    ];
    let mut pipe = Pipe::new(actions, 2);
    assert!(matches!(pipe.step(PipeEvent::Received(message("{\"v\":1}")), &Floats), PipeStep::Receive));
    assert!(matches!(pipe.step(PipeEvent::Received(message("{\"v\":2}")), &Floats), PipeStep::Receive));
    assert!(matches!(pipe.step(PipeEvent::Received(message("{\"v\":3}")), &Floats), PipeStep::Receive));
    let first = pipe.step(PipeEvent::SourceClosed, &Floats);
    let (log, next) = sends(&mut pipe, first, &[false, true]);
    assert_eq!(log, vec![(0, "{\"sum_v\":5.0}".to_string()), (1, "{\"sum_v\":5.0}".to_string())]);
    assert!(matches!(next, PipeStep::Flush { sink: 0 }));
    assert_eq!(pipe.phase(), PipePhase::Flushing);
    assert!(matches!(pipe.step(PipeEvent::Flushed(false), &Floats), PipeStep::Flush { sink: 1 }));
    assert!(matches!(pipe.step(PipeEvent::Flushed(true), &Floats), PipeStep::Join));
    assert_eq!(pipe.phase(), PipePhase::Joining);
    assert!(matches!(pipe.step(PipeEvent::Joined(true), &Floats), PipeStep::Finish(Ok(()))));
    assert_eq!(pipe.phase(), PipePhase::Finished);
    assert!(matches!(pipe.step(PipeEvent::Joined(true), &Floats), PipeStep::Unexpected));
}

#[test]
fn pipe_reports_the_error_of_the_source() {
    let mut pipe = Pipe::new(Vec::new(), 1);
    assert!(matches!(pipe.step(PipeEvent::SourceClosed, &Floats), PipeStep::Flush { sink: 0 }));
    assert!(matches!(pipe.step(PipeEvent::Flushed(true), &Floats), PipeStep::Join));
    assert!(matches!(
        pipe.step(PipeEvent::Joined(false), &Floats),
        PipeStep::Finish(Err(PipeError::SourceFailed))
    ));
}

#[test]
fn pipe_without_sinks_sends_nothing() {
    let mut pipe = Pipe::new(Vec::new(), 0);
    assert!(matches!(pipe.step(PipeEvent::Received(message("1")), &Floats), PipeStep::Receive));
    assert!(matches!(pipe.step(PipeEvent::SourceClosed, &Floats), PipeStep::Join));
}

#[test]
fn pipe_ignores_events_that_do_not_fit() {
    let mut pipe = Pipe::new(Vec::new(), 1);
    assert!(matches!(pipe.step(PipeEvent::Sent(true), &Floats), PipeStep::Unexpected));
    assert!(matches!(pipe.step(PipeEvent::Flushed(true), &Floats), PipeStep::Unexpected));
    assert!(matches!(pipe.step(PipeEvent::Joined(true), &Floats), PipeStep::Unexpected));
    assert!(matches!(pipe.step(PipeEvent::Received(message("1")), &Floats), PipeStep::Send { sink: 0, .. }));
    assert!(matches!(pipe.step(PipeEvent::Received(message("2")), &Floats), PipeStep::Unexpected));
    assert!(matches!(pipe.step(PipeEvent::SourceClosed, &Floats), PipeStep::Unexpected));
    assert_eq!(pipe.phase(), PipePhase::Delivering);
}
