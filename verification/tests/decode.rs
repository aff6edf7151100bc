use test_runner::dispatch::run_events;
use test_runner::messages::{CargoTestMessage, TestState};

fn decode(line: &str) -> CargoTestMessage {
    let mut accum = String::new();
    CargoTestMessage::from_line(line, &mut accum)
}

fn expect_custom(line: &str) {
    match decode(line) {
        CargoTestMessage::Custom { text } => assert_eq!(text, line),
        other => panic!("expected Custom, got {:?}", other),
    }
}

fn expect_test(line: &str, name: &str) -> TestState {
    match decode(line) {
        CargoTestMessage::Test { name: n, state } => {
            assert_eq!(n, name);
            state
        },
        other => panic!("expected Test, got {:?}", other),
    }
}

#[test]
fn failed_with_stdout_decodes_to_test() {
    let state = decode_failed_line();
    match state {
        TestState::Failed { stdout } => assert_eq!(stdout, "panic!"),
        other => panic!("expected Failed, got {:?}", other),
    }
}

fn decode_failed_line() -> TestState {
    expect_test(
        "{\"type\":\"test\",\"event\":\"failed\",\"name\":\"mod::f\",\"stdout\":\"panic!\"}",
        "mod::f",
    )
}

#[test]
fn plain_text_decodes_to_custom() {
    expect_custom("running 3 tests");
}

#[test]
fn started_ok_ignored_decode() {
    let s = expect_test("{\"type\":\"test\",\"event\":\"started\",\"name\":\"a::b\"}", "a::b");
    assert!(matches!(s, TestState::Started));
    let s = expect_test("{\"type\":\"test\",\"event\":\"ok\",\"name\":\"a::b\"}", "a::b");
    assert!(matches!(s, TestState::Passed));
    let s = expect_test("{\"type\":\"test\",\"event\":\"ignored\",\"name\":\"a::b\"}", "a::b");
    assert!(matches!(s, TestState::Ignored));
}

#[test]
fn failed_without_stdout_restores_empty() {
    let s = expect_test("{\"type\":\"test\",\"event\":\"failed\",\"name\":\"x\"}", "x");
    match s {
        TestState::Failed { stdout } => assert_eq!(stdout, ""),
        other => panic!("expected Failed, got {:?}", other),
    }
}

#[test]
fn suite_and_finished_decode() {
    assert!(matches!(decode("{\"type\":\"suite\"}"), CargoTestMessage::Suite));
    assert!(matches!(decode("{\"type\":\"finished\"}"), CargoTestMessage::Finished));
    assert!(matches!(
        decode("  { \"type\" : \"suite\" , \"event\" : { \"nested\" : [1, 2.5e3, true, null] } }"),
        CargoTestMessage::Suite
    ));
}

#[test]
fn member_order_does_not_matter() {
    let s = expect_test("{\"name\":\"m::t\",\"stdout\":\"boom\",\"event\":\"failed\",\"type\":\"test\"}", "m::t");
    match s {
        TestState::Failed { stdout } => assert_eq!(stdout, "boom"),
        other => panic!("expected Failed, got {:?}", other),
    }
}

#[test]
fn empty_line_is_custom() {
    expect_custom("");
}

#[test]
fn malformed_lines_are_custom() {
    expect_custom("{\"type\":\"test\"");
    expect_custom("{\"type\":\"test\",\"event\":\"ok\"}"); // no name
    expect_custom("{\"type\":\"test\",\"name\":\"x\"}"); // no event
    expect_custom("{\"type\":\"test\",\"event\":\"exploded\",\"name\":\"x\"}");
    expect_custom("{\"type\":5}");
    expect_custom("{\"type\":\"custom\",\"text\":\"hi\"}"); // not a known shape
    expect_custom("{\"type\":\"suite\",\"type\":\"suite\"}"); // repeated tag
    expect_custom("{\"type\":\"test\",\"event\":\"failed\",\"name\":\"x\",\"stdout\":7}");
    expect_custom("[{\"type\":\"suite\"}]"); // not an object
    expect_custom("\"type\"");
    expect_custom("{\"type\":\"suite\",\"n\":01}"); // leading zero
    expect_custom("{\"type\":\"suite\",\"s\":\"\\uD834\"}"); // lone surrogate
    expect_custom("{\"type\":\"suite\",\"s\":\"a\tb\"}"); // raw control character
}

#[test]
fn number_forms_in_extra_members() {
    assert!(matches!(
        decode("{\"type\":\"suite\",\"a\":-0,\"b\":1e5,\"c\":0.5,\"d\":-12.25E-3}"),
        CargoTestMessage::Suite
    ));
    expect_custom("{\"type\":\"suite\",\"a\":1.}");
    expect_custom("{\"type\":\"suite\",\"a\":+1}");
    expect_custom("{\"type\":\"suite\",\"a\":1e}");
}

#[test]
fn non_ascii_name_passes_through() {
    let s = expect_test(
        "{\"type\":\"test\",\"event\":\"ok\",\"name\":\"módulo::prüfung::試験\"}",
        "módulo::prüfung::試験",
    );
    assert!(matches!(s, TestState::Passed));
}

#[test]
fn trailing_text_after_object_is_ignored() {
    assert!(matches!(decode("{\"type\":\"finished\"} trailing words"), CargoTestMessage::Finished));
}

#[test]
fn escapes_decode_in_strings() {
    let s = expect_test(
        "{\"type\":\"test\",\"event\":\"failed\",\"name\":\"q\\\"\\\\\\n\",\"stdout\":\"\\u0041\\uD834\\uDD1E\"}",
        "q\"\\\n",
    );
    match s {
        TestState::Failed { stdout } => assert_eq!(stdout, "A\u{1D11E}"),
        other => panic!("expected Failed, got {:?}", other),
    }
}

#[test]
fn run_ends_with_finished_without_finished_line() {
    let lines = vec![
        String::from("{\"type\":\"suite\"}"),
        String::from("{\"type\":\"test\",\"event\":\"ok\",\"name\":\"t1\"}"),
        String::from("noise"),
    ];
    let events = run_events(&lines);
    assert_eq!(events.len(), 4);
    assert!(matches!(events[0], CargoTestMessage::Suite));
    assert!(matches!(events[1], CargoTestMessage::Test { .. }));
    assert!(matches!(events[2], CargoTestMessage::Custom { .. }));
    assert!(matches!(events[3], CargoTestMessage::Finished));
}

#[test]
fn run_duplicates_explicit_finished_marker() {
    let lines = vec![String::from("{\"type\":\"finished\"}")];
    let events = run_events(&lines);
    assert_eq!(events.len(), 2);
    assert!(matches!(events[0], CargoTestMessage::Finished));
    assert!(matches!(events[1], CargoTestMessage::Finished));
}

#[test]
fn empty_run_still_finishes() {
    let events = run_events(&Vec::new());
    assert_eq!(events.len(), 1);
    assert!(matches!(events[0], CargoTestMessage::Finished));
}

#[test]
fn two_runs_keep_independent_ordered_sequences() {
    let lines_a = vec![
        String::from("{\"type\":\"test\",\"event\":\"started\",\"name\":\"a\"}"),
        String::from("{\"type\":\"test\",\"event\":\"ok\",\"name\":\"a\"}"),
    ];
    let lines_b = vec![String::from("{\"type\":\"test\",\"event\":\"failed\",\"name\":\"b\"}")];
    let events_a = run_events(&lines_a);
    let events_b = run_events(&lines_b);
    assert_eq!(events_a.len(), 3);
    assert_eq!(events_b.len(), 2);
    match &events_a[0] {
        CargoTestMessage::Test { name, state } => {
            assert_eq!(name, "a");
            assert!(matches!(state, TestState::Started));
        },
        other => panic!("expected Test, got {:?}", other),
    }
    match &events_a[1] {
        CargoTestMessage::Test { name, state } => {
            assert_eq!(name, "a");
            assert!(matches!(state, TestState::Passed));
        },
        other => panic!("expected Test, got {:?}", other),
    }
    match &events_b[0] {
        CargoTestMessage::Test { name, state } => {
            assert_eq!(name, "b");
            assert!(matches!(state, TestState::Failed { .. }));
        },
        other => panic!("expected Test, got {:?}", other),
    }
    assert!(matches!(events_a[2], CargoTestMessage::Finished));
    assert!(matches!(events_b[1], CargoTestMessage::Finished));
}

#[test]
fn from_eof_is_finished() {
    assert!(matches!(CargoTestMessage::from_eof(), CargoTestMessage::Finished));
}
