use span_profiler::{finish, in_micros, in_millis, parse_level, sink_header, start, Duration,
    ThreadState, TraceSink};

const MS: u64 = 1_000_000;

fn enabled_state(level: usize) -> ThreadState {
    ThreadState::new(Some(level))
}

#[test]
fn level_one_nested_report() {
    // Enabled at level 1: "outer" wraps "inner-a" (10 ms) and "inner-b" (5 ms).
    let mut st = enabled_state(1);
    let outer = start(&mut st, 0, String::from("outer"));
    let inner_a = start(&mut st, 1 * MS, String::from("inner-a"));
    let out_a = finish(inner_a, &mut st, 11 * MS, 1, 1, false);
    assert!(out_a.event.is_none());
    assert!(out_a.report.is_none());
    let inner_b = start(&mut st, 12 * MS, String::from("inner-b"));
    let out_b = finish(inner_b, &mut st, 17 * MS, 1, 1, false);
    assert!(out_b.report.is_none());
    let out = finish(outer, &mut st, 17 * MS + MS / 2, 1, 1, false);
    let report = out.report.expect("outermost span must render the report");
    let mut expected = String::from("         17ms - outer\n");
    expected.push_str("             10ms - inner-a\n");
    expected.push_str("              5ms - inner-b\n");
    assert_eq!(report, expected);
    assert_eq!(st.depth(), 0);
}

#[test]
fn level_zero_prints_only_outermost() {
    // Level 0 with spans three levels deep: only the depth-0 line prints.
    let mut st = enabled_state(0);
    let a = start(&mut st, 0, String::from("a"));
    let b = start(&mut st, 1 * MS, String::from("b"));
    let c = start(&mut st, 2 * MS, String::from("c"));
    let out_c = finish(c, &mut st, 3 * MS, 1, 1, false);
    assert!(out_c.report.is_none());
    let out_b = finish(b, &mut st, 4 * MS, 1, 1, false);
    assert!(out_b.report.is_none());
    let out_a = finish(a, &mut st, 5 * MS, 1, 1, false);
    let report = out_a.report.expect("outermost span must render the report");
    assert_eq!(report, "          5ms - a\n");
    assert!(!report.contains('b'));
    assert!(!report.contains('c'));
}

#[test]
fn disabled_touches_nothing() {
    // No configured level: no stack use, no report, no event, inert handles.
    let mut st = ThreadState::new(None);
    let p = start(&mut st, 0, String::from("ignored"));
    assert_eq!(p.desc, "");
    assert_eq!(st.depth(), 0);
    let q = start(&mut st, 0, String::from("also ignored"));
    let out = finish(q, &mut st, 0, 1, 1, false);
    assert!(out.event.is_none());
    assert!(out.report.is_none());
    let out = finish(p, &mut st, 0, 1, 1, true);
    assert!(out.event.is_none());
    assert!(out.report.is_none());
    assert_eq!(st.depth(), 0);
}

#[test]
fn deep_spans_skipped_in_report_but_traced() {
    // Level 1 with an open sink: the depth-2 span is absent from the report
    // yet still produces a trace event.
    let mut st = enabled_state(1);
    let outer = start(&mut st, 0, String::from("outer"));
    let mid = start(&mut st, 1 * MS, String::from("mid"));
    let leaf = start(&mut st, 2 * MS, String::from("leaf"));
    let out_leaf = finish(leaf, &mut st, 3 * MS, 1, 1, true);
    assert!(out_leaf.event.is_some());
    assert!(out_leaf.report.is_none());
    let out_mid = finish(mid, &mut st, 4 * MS, 1, 1, true);
    assert!(out_mid.event.is_some());
    let out = finish(outer, &mut st, 5 * MS, 1, 1, true);
    assert!(out.event.is_some());
    let report = out.report.expect("outermost span must render the report");
    assert!(report.contains("outer"));
    assert!(report.contains("mid"));
    assert!(!report.contains("leaf"));
}

#[test]
fn event_line_exact_text() {
    let mut st = enabled_state(3);
    let p = start(&mut st, 2_000, String::from("work"));
    let out = finish(p, &mut st, 1_002_000, 42, 7, true);
    let event = out.event.expect("open sink must receive the event");
    assert_eq!(
        event,
        "{\"name\":\"work\",\"ph\":\"X\",\"ts\":2,\"dur\":1000,\"pid\":42,\"tid\":7,\"args\":null},\n"
    );
}

#[test]
fn event_name_is_escaped() {
    let mut st = enabled_state(3);
    let p = start(&mut st, 0, String::from("a\"b\\c\nd"));
    let out = finish(p, &mut st, 5_000, 1, 2, true);
    let event = out.event.expect("open sink must receive the event");
    assert!(event.starts_with("{\"name\":\"a\\\"b\\\\c\\nd\","));
    let p = start(&mut st, 5_000, String::from("t\tb\u{1}e"));
    let out = finish(p, &mut st, 6_000, 1, 2, true);
    let event = out.event.expect("open sink must receive the event");
    assert!(event.starts_with("{\"name\":\"t\\tb\\u0001e\","));
}

#[test]
fn event_carries_attached_args() {
    let mut st = enabled_state(3);
    let mut p = start(&mut st, 0, String::from("step"));
    p.args(serde_json::Value::from(5));
    let out = finish(p, &mut st, 1_000, 1, 2, true);
    let event = out.event.expect("open sink must receive the event");
    assert!(event.ends_with("\"args\":5},\n"));
}

#[test]
fn attached_args_replace_earlier_ones() {
    let mut st = enabled_state(3);
    let mut p = start(&mut st, 0, String::from("step"));
    p.args(serde_json::Value::from(1));
    p.args(serde_json::Value::from(true));
    let out = finish(p, &mut st, 1_000, 1, 2, true);
    let event = out.event.expect("open sink must receive the event");
    assert!(event.ends_with("\"args\":true},\n"));
}

#[test]
fn events_parse_as_json_with_required_fields() {
    // Every emitted event, once its array separator is stripped, is a
    // well-formed JSON object holding all required fields.
    let mut st = enabled_state(2);
    let outer = start(&mut st, 0, String::from("outer"));
    let mut inner = start(&mut st, 1_000, String::from("inner"));
    inner.args(serde_json::Value::from("detail"));
    let mut events: Vec<String> = Vec::new();
    let out = finish(inner, &mut st, 11_000, 9, 4, true);
    events.push(out.event.unwrap());
    let out = finish(outer, &mut st, 20_000, 9, 4, true);
    events.push(out.event.unwrap());
    let mut last_end: u64 = 0;
    for event in &events {
        let body = event.strip_suffix(",\n").expect("array separator");
        let value: serde_json::Value =
            serde_json::from_str(body).expect("event must be well-formed JSON");
        let obj = value.as_object().expect("event must be a JSON object");
        for field in ["name", "ph", "ts", "dur", "pid", "tid", "args"] {
            assert!(obj.contains_key(field), "missing field {field}");
        }
        assert_eq!(obj["ph"], serde_json::Value::from("X"));
        assert_eq!(obj["pid"], serde_json::Value::from(9));
        assert_eq!(obj["tid"], serde_json::Value::from(4));
        let end = obj["ts"].as_u64().unwrap() + obj["dur"].as_u64().unwrap();
        assert!(end >= last_end, "completion instants must not decrease");
        last_end = end;
    }
}

#[test]
fn duration_conversions_are_exact() {
    let d = Duration::between(0, 1_234_567_890);
    assert_eq!(d.secs, 1);
    assert_eq!(d.nanos, 234_567_890);
    assert_eq!(in_micros(&d), 1_234_567);
    assert_eq!(in_millis(&d), 1_234);
    let z = Duration::between(5, 5);
    assert_eq!(in_micros(&z), 0);
    assert_eq!(in_millis(&z), 0);
}

#[test]
fn parse_level_accepts_machine_word_texts() {
    assert_eq!(parse_level("0"), Some(0));
    assert_eq!(parse_level("1"), Some(1));
    assert_eq!(parse_level("+10"), Some(10));
    assert_eq!(parse_level("007"), Some(7));
    assert_eq!(parse_level("18446744073709551615"), Some(usize::MAX));
}

#[test]
fn parse_level_rejects_everything_else() {
    assert_eq!(parse_level(""), None);
    assert_eq!(parse_level("+"), None);
    assert_eq!(parse_level("abc"), None);
    assert_eq!(parse_level("1x"), None);
    assert_eq!(parse_level(" 1"), None);
    assert_eq!(parse_level("-1"), None);
    assert_eq!(parse_level("1.5"), None);
    assert_eq!(parse_level("18446744073709551616"), None);
}

#[test]
fn sink_state_machine() {
    assert_eq!(sink_header(), "[\n");
    let mut sink = TraceSink::new();
    assert!(sink.needs_init());
    assert!(!sink.is_open());
    sink.complete_init(true);
    assert!(!sink.needs_init());
    assert!(sink.is_open());
    let mut closed = TraceSink::new();
    closed.complete_init(false);
    assert!(!closed.needs_init());
    assert!(!closed.is_open());
}

#[test]
fn sibling_subtrees_stay_separate() {
    // Two depth-0 spans in sequence on one thread: the first renders and
    // clears the buffer, so the second report holds only its own subtree.
    let mut st = enabled_state(5);
    let first = start(&mut st, 0, String::from("first"));
    let child = start(&mut st, 1 * MS, String::from("child"));
    let _ = finish(child, &mut st, 2 * MS, 1, 1, false);
    let out = finish(first, &mut st, 3 * MS, 1, 1, false);
    let report = out.report.unwrap();
    assert!(report.contains("first"));
    assert!(report.contains("child"));
    let second = start(&mut st, 4 * MS, String::from("second"));
    let out = finish(second, &mut st, 6 * MS, 1, 1, false);
    let report = out.report.unwrap();
    assert_eq!(report, "          2ms - second\n");
}
