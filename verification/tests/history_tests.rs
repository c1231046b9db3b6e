use wash::history::{history_append, history_expansion, HistoryExpansion};

fn v(s: &str) -> Vec<u8> {
    s.as_bytes().to_vec()
}

fn sample_history() -> Vec<Vec<u8>> {
    vec![v("ls"), v("echo hi"), v("pwd")]
}

fn expect_expanded(r: HistoryExpansion, want: &str) {
    match r {
        HistoryExpansion::Expanded(t) => assert_eq!(t, v(want)),
        _ => panic!("expected an expansion to {:?}", want),
    }
}

#[test]
fn bang_bang_expands_to_most_recent() {
    let r = history_expansion(&sample_history(), &v("!!"));
    expect_expanded(r, "pwd");
}

#[test]
fn bang_one_expands_to_first_entry() {
    let r = history_expansion(&sample_history(), &v("!1"));
    expect_expanded(r, "ls");
}

#[test]
fn bang_minus_two_expands_from_the_end() {
    let r = history_expansion(&sample_history(), &v("!-2"));
    expect_expanded(r, "echo hi");
}

#[test]
fn bang_prefix_expands_to_newest_match() {
    let r = history_expansion(&sample_history(), &v("!ec"));
    expect_expanded(r, "echo hi");
}

#[test]
fn bang_unknown_prefix_is_event_not_found() {
    let r = history_expansion(&sample_history(), &v("!zz"));
    match r {
        HistoryExpansion::EventNotFound(t) => assert_eq!(t, v("!zz")),
        _ => panic!("expected event not found"),
    }
}

#[test]
fn bang_bang_with_empty_history_is_event_not_found() {
    let r = history_expansion(&Vec::new(), &v("!!"));
    match r {
        HistoryExpansion::EventNotFound(t) => assert_eq!(t, v("!!")),
        _ => panic!("expected event not found"),
    }
}

#[test]
fn bang_zero_is_event_not_found() {
    let r = history_expansion(&sample_history(), &v("!0"));
    match r {
        HistoryExpansion::EventNotFound(t) => assert_eq!(t, v("!0")),
        _ => panic!("expected event not found"),
    }
}

#[test]
fn bang_minus_zero_is_event_not_found() {
    let r = history_expansion(&sample_history(), &v("!-0"));
    match r {
        HistoryExpansion::EventNotFound(t) => assert_eq!(t, v("!-0")),
        _ => panic!("expected event not found"),
    }
}

#[test]
fn bang_past_the_end_is_event_not_found() {
    let r = history_expansion(&sample_history(), &v("!4"));
    match r {
        HistoryExpansion::EventNotFound(t) => assert_eq!(t, v("!4")),
        _ => panic!("expected event not found"),
    }
}

#[test]
fn bang_huge_number_is_event_not_found() {
    let r = history_expansion(&sample_history(), &v("!99999999999999999999999999"));
    match r {
        HistoryExpansion::EventNotFound(t) => assert_eq!(t, v("!99999999999999999999999999")),
        _ => panic!("expected event not found"),
    }
}

#[test]
fn expansion_inside_a_line() {
    let r = history_expansion(&sample_history(), &v("time !-3 -la"));
    expect_expanded(r, "time ls -la");
}

#[test]
fn plain_line_is_unchanged() {
    let r = history_expansion(&sample_history(), &v("echo hello"));
    assert!(matches!(r, HistoryExpansion::Unchanged));
}

#[test]
fn lone_bang_is_unchanged() {
    let r = history_expansion(&sample_history(), &v("echo ! done"));
    assert!(matches!(r, HistoryExpansion::Unchanged));
}

#[test]
fn failure_stops_at_first_unresolved_reference() {
    // The leading reference resolves, the second does not: the reported
    // token is the second one.
    let r = history_expansion(&sample_history(), &v("!1 && !zz"));
    match r {
        HistoryExpansion::EventNotFound(t) => assert_eq!(t, v("!zz")),
        _ => panic!("expected event not found"),
    }
}

#[test]
fn appending_same_line_twice_keeps_one_entry() {
    let mut history: Vec<Vec<u8>> = Vec::new();
    assert!(history_append(&mut history, &v("make")));
    assert!(!history_append(&mut history, &v("make")));
    assert_eq!(history, vec![v("make")]);
}

#[test]
fn appending_with_something_between_keeps_both() {
    let mut history: Vec<Vec<u8>> = Vec::new();
    assert!(history_append(&mut history, &v("make")));
    assert!(history_append(&mut history, &v("ls")));
    assert!(history_append(&mut history, &v("make")));
    assert_eq!(history, vec![v("make"), v("ls"), v("make")]);
}

#[test]
fn empty_line_is_never_appended() {
    let mut history: Vec<Vec<u8>> = Vec::new();
    assert!(!history_append(&mut history, &Vec::new()));
    assert!(history.is_empty());
}
