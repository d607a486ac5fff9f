use tinfo::builder::build_windowlist;
use tinfo::error::{Cardinality, Error, Query};

#[test]
fn a_malformed_line_is_quoted() {
    let e = Error::Parse { query: Query::Sessions, line: "work 1 0".to_string() };
    assert_eq!(e.message(), "malformed line in the session listing: work 1 0");
    let e = Error::Parse { query: Query::Windows, line: "1:1: b".to_string() };
    assert_eq!(e.message(), "malformed line in the window listing: 1:1: b");
}

#[test]
fn a_failed_query_tells_its_cause() {
    let e = Error::Query { query: Query::Sessions, cause: "no such file".to_string() };
    assert_eq!(e.message(), "cannot get the session listing: no such file");
    let e = Error::Query { query: Query::Windows, cause: "exit status: 1".to_string() };
    assert_eq!(e.message(), "cannot get the window listing: exit status: 1");
}

#[test]
fn an_unknown_session_is_named() {
    let e = Error::Consistency { session: 9, line: "9:0: x (1 panes) [1x1]".to_string() };
    assert_eq!(e.message(), "window of unknown session 9: 9:0: x (1 panes) [1x1]");
}

#[test]
fn a_selection_that_fails_says_how() {
    let message = |found| Error::Cardinality { found }.message();
    assert_eq!(message(Cardinality::NoSession), "empty selection: no session matches");
    assert_eq!(
        message(Cardinality::ManySessions),
        "ambiguous selection: more than one session matches"
    );
    assert_eq!(message(Cardinality::NoWindow), "empty selection: the session has no window");
    assert_eq!(
        message(Cardinality::ManyWindows),
        "ambiguous selection: more than one window matches"
    );
    assert_eq!(Cardinality::ManyWindows.text(), "ambiguous selection: more than one window matches");
}

#[test]
fn a_failed_request_tells_its_cause() {
    let e = Error::Dispatch { cause: "no such file".to_string() };
    assert_eq!(e.message(), "cannot reach the multiplexer: no such file");
}

#[test]
fn a_listing_has_its_word() {
    assert_eq!(Query::Sessions.word(), "session");
    assert_eq!(Query::Windows.word(), "window");
}

#[test]
fn a_failure_of_the_build_has_its_message() {
    let e = build_windowlist("7 2 1\n", "9:0: x (1 panes) [1x1]").unwrap_err();
    assert_eq!(e.message(), "window of unknown session 9: 9:0: x (1 panes) [1x1]");
    let e = build_windowlist("7 2\n", "").unwrap_err();
    assert_eq!(e.message(), "malformed line in the session listing: 7 2");
}
