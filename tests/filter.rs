use ctxgrep::lookback::LookBackBuffer;
use ctxgrep::predicate::PredicateSet;
use ctxgrep::window::{filter_classified, filter_lines, ContextWindow};

fn strings(xs: &[&str]) -> Vec<String> {
    xs.iter().map(|s| s.to_string()).collect()
}

fn predicates(patterns: &[&str]) -> PredicateSet {
    match PredicateSet::new(&strings(patterns)) {
        Ok(set) => set,
        Err(i) => panic!("pattern {} does not compile", i),
    }
}

#[test]
fn before_and_after_one_line() {
    let lines = strings(&["a", "b", "MATCH1", "c", "d"]);
    let out = filter_lines(&lines, &predicates(&["MATCH"]), 1, 1);
    assert_eq!(out, strings(&["b", "MATCH1", "c"]));
}

#[test]
fn after_window_consumes_line_before_second_match() {
    let lines = strings(&["x", "MATCH", "y", "MATCH", "z"]);
    let out = filter_lines(&lines, &predicates(&["MATCH"]), 0, 1);
    assert_eq!(out, strings(&["MATCH", "y", "MATCH", "z"]));
}

#[test]
fn empty_predicate_set_emits_nothing() {
    let lines = strings(&["MATCH", "a", "b", "anything"]);
    let out = filter_lines(&lines, &predicates(&[]), 2, 2);
    assert!(out.is_empty());
    let out = filter_lines(&strings(&[]), &predicates(&[]), 0, 0);
    assert!(out.is_empty());
}

#[test]
fn look_back_of_two_before_match() {
    let lines = strings(&["l1", "l2", "l3", "MATCH"]);
    let out = filter_lines(&lines, &predicates(&["MATCH"]), 2, 0);
    assert_eq!(out, strings(&["l2", "l3", "MATCH"]));
}

#[test]
fn after_window_line_is_not_retested() {
    // The second MATCH lies inside the first after-window: it is emitted as
    // after-context, and the window is not restarted by it.
    let lines = strings(&["MATCH", "MATCH", "a", "b"]);
    let out = filter_lines(&lines, &predicates(&["MATCH"]), 0, 1);
    assert_eq!(out, strings(&["MATCH", "MATCH"]));
}

#[test]
fn overlap_does_not_reflush_context() {
    let lines = strings(&["p", "q", "MATCH", "r", "MATCH", "s", "t", "u"]);
    let out = filter_lines(&lines, &predicates(&["MATCH"]), 2, 2);
    assert_eq!(out, strings(&["p", "q", "MATCH", "r", "MATCH"]));
}

#[test]
fn no_after_context() {
    let lines = strings(&["a", "MATCH", "b", "c"]);
    let out = filter_lines(&lines, &predicates(&["MATCH"]), 1, 0);
    assert_eq!(out, strings(&["a", "MATCH"]));
}

#[test]
fn no_before_context() {
    let lines = strings(&["a", "b", "c", "MATCH", "d"]);
    let out = filter_lines(&lines, &predicates(&["MATCH"]), 0, 0);
    assert_eq!(out, strings(&["MATCH"]));
}

#[test]
fn held_lines_are_dropped_at_end_of_stream() {
    let lines = strings(&["MATCH", "a", "b", "c"]);
    let out = filter_lines(&lines, &predicates(&["MATCH"]), 3, 0);
    assert_eq!(out, strings(&["MATCH"]));
}

#[test]
fn any_predicate_matches() {
    let lines = strings(&["one", "two", "three", "four"]);
    let out = filter_lines(&lines, &predicates(&["^tw", "ee$"]), 0, 0);
    assert_eq!(out, strings(&["two", "three"]));
}

#[test]
fn running_twice_gives_the_same_output() {
    let lines = strings(&["a", "MATCH", "b", "c", "MATCH", "d", "e"]);
    let set = predicates(&["MATCH"]);
    let first = filter_lines(&lines, &set, 1, 1);
    let second = filter_lines(&lines, &set, 1, 1);
    assert_eq!(first, second);
    assert_eq!(first, strings(&["a", "MATCH", "b", "c", "MATCH", "d"]));
}

#[test]
fn classified_run_follows_flags() {
    let lines = strings(&["a", "b", "c", "d", "e"]);
    let flags = vec![false, false, true, false, false];
    let out = filter_classified(&lines, &flags, 1, 1);
    assert_eq!(out, strings(&["b", "c", "d"]));
}

#[test]
fn invalid_pattern_reports_first_bad_index() {
    assert!(matches!(PredicateSet::new(&strings(&["ok", "foo(bar", "[x"])), Err(1)));
    assert!(matches!(PredicateSet::new(&strings(&["[x"])), Err(0)));
}

#[test]
fn predicate_set_tests_lines() {
    let set = predicates(&["a+b", "^z"]);
    assert_eq!(set.len(), 2);
    assert!(set.is_match_any("xxaab"));
    assert!(set.is_match_any("zoo"));
    assert!(!set.is_match_any("b"));
    assert!(!set.is_match_any("oz"));
}

#[test]
fn lookback_buffer_evicts_oldest() {
    let mut buf = LookBackBuffer::new(2);
    assert!(buf.is_empty());
    buf.push("a".to_string());
    buf.push("b".to_string());
    buf.push("c".to_string());
    assert_eq!(buf.len(), 2);
    assert_eq!(buf.drain_in_order(), strings(&["b", "c"]));
    assert!(buf.is_empty());
    assert_eq!(buf.drain_in_order(), Vec::<String>::new());
}

#[test]
fn lookback_buffer_of_capacity_zero_stays_empty() {
    let mut buf = LookBackBuffer::new(0);
    buf.push("a".to_string());
    assert!(buf.is_empty());
    assert_eq!(buf.len(), 0);
}

#[test]
fn controller_state_per_line() {
    let set = predicates(&["MATCH"]);
    let mut w = ContextWindow::new(1, 2);
    assert!(w.feed("a".to_string(), &set).is_empty());
    assert!(w.feed("b".to_string(), &set).is_empty());
    assert_eq!(w.held_len(), 1);
    assert_eq!(w.feed("MATCH".to_string(), &set), strings(&["b", "MATCH"]));
    assert!(w.in_after_window());
    assert_eq!(w.held_len(), 0);
    assert_eq!(w.feed("c".to_string(), &set), strings(&["c"]));
    assert_eq!(w.feed("d".to_string(), &set), strings(&["d"]));
    assert!(!w.in_after_window());
    assert!(w.feed("e".to_string(), &set).is_empty());
    assert_eq!(w.feed_classified("f".to_string(), true), strings(&["e", "f"]));
    assert_eq!(w.feed_classified("g".to_string(), false), strings(&["g"]));
}
