use fluxmux::inspector::{head_settings, render_display, tail_settings, HeadWindow, TailWindow};

fn pairs(values: &[(&str, &str)]) -> Vec<(String, String)> {
    values.iter().map(|(a, b)| (a.to_string(), b.to_string())).collect()
}

fn texts(slots: &Vec<Option<String>>) -> Vec<Option<&str>> {
    slots.iter().map(|s| s.as_deref()).collect()
}

#[test]
fn display_numbers_the_slots_from_one() {
    let slots = vec![Some("first".to_string()), None, Some("third".to_string())];
    assert_eq!(
        render_display(&slots),
        "\x1b[2K1) first\n\x1b[2K2) <nil>\n\x1b[2K3) third\n\x1b[J"
    );
    assert_eq!(render_display(&Vec::new()), "\x1b[J");
    let many: Vec<Option<String>> = vec![None; 10];
    assert!(render_display(&many).ends_with("\x1b[2K10) <nil>\n\x1b[J"));
}

#[test]
fn head_window_fills_from_the_top_and_then_stops() {
    let mut window = HeadWindow::new(2);
    assert_eq!(texts(window.slots()), vec![None, None]);
    assert!(!window.push("a".to_string()));
    assert_eq!(texts(window.slots()), vec![Some("a"), None]);
    assert!(window.push("b".to_string()));
    assert!(window.push("c".to_string()));
    assert_eq!(texts(window.slots()), vec![Some("a"), Some("b")]);
    let mut none = HeadWindow::new(0);
    assert!(none.push("x".to_string()));
    assert!(none.slots().is_empty());
}

#[test]
fn tail_window_shows_the_latest_messages_oldest_first() {
    let mut window = TailWindow::new(3);
    assert_eq!(texts(&window.shown()), vec![None, None, None]);
    window.push("a".to_string());
    window.push("b".to_string());
    assert_eq!(texts(&window.shown()), vec![Some("a"), Some("b"), None]);
    window.push("c".to_string());
    assert_eq!(texts(&window.shown()), vec![Some("a"), Some("b"), Some("c")]);
    window.push("d".to_string());
    assert_eq!(texts(&window.shown()), vec![Some("b"), Some("c"), Some("d")]);
    window.push("e".to_string());
    assert_eq!(texts(&window.shown()), vec![Some("c"), Some("d"), Some("e")]);
    for text in ["f", "g", "h"] {
        window.push(text.to_string());
    }
    assert_eq!(texts(&window.shown()), vec![Some("f"), Some("g"), Some("h")]);
    let mut one = TailWindow::new(1);
    one.push("x".to_string());
    one.push("y".to_string());
    assert_eq!(texts(&one.shown()), vec![Some("y")]);
}

#[test]
fn inspector_consumers_are_set_up_for_head_and_tail() {
    assert_eq!(
        head_settings("b:9092", "g"),
        pairs(&[
            ("group.id", "g"),
            ("bootstrap.servers", "b:9092"),
            ("enable.auto.commit", "false"),
            ("auto.offset.reset", "earliest"),
            ("fetch.min.bytes", "1"),
            ("fetch.wait.max.ms", "100"),
        ])
    );
    assert_eq!(
        tail_settings("b:9092", "g"),
        pairs(&[
            ("group.id", "g"),
            ("bootstrap.servers", "b:9092"),
            ("enable.auto.commit", "true"),
            ("auto.offset.reset", "latest"),
            ("fetch.min.bytes", "1"),
            ("fetch.wait.max.ms", "50"),
            ("session.timeout.ms", "6000"),
            ("heartbeat.interval.ms", "2000"),
        ])
    );
}
