use tinfo::builder::{build_windowlist, output_to_windows};
use tinfo::directory::WindowList;
use tinfo::error::{Error, Query};
use tinfo::model::Tab;

fn tabs(list: &WindowList, id: usize) -> Vec<(usize, String, usize)> {
    list.get(id)
        .expect("a session")
        .tabs
        .iter()
        .map(|t| (t.number, t.name.clone(), t.panes))
        .collect()
}

fn sorted_ids(list: &WindowList) -> Vec<usize> {
    let mut ids = list.ids();
    ids.sort();
    ids
}

fn tab(number: usize, name: &str, panes: usize) -> (usize, String, usize) {
    (number, name.to_string(), panes)
}

#[test]
fn two_windows_of_one_attached_session() {
    let list = build_windowlist(
        "7 2 1",
        "7:0: shell (1 panes) [80x24]\n7:1: editor (1 panes) [80x24]\n",
    )
    .unwrap();
    assert_eq!(list.len(), 1);
    assert_eq!(sorted_ids(&list), vec![7]);
    assert!(list.get(7).unwrap().attached);
    assert_eq!(tabs(&list, 7), vec![tab(0, "shell", 1), tab(1, "editor", 1)]);
}

#[test]
fn a_window_of_an_unknown_session_is_a_failure() {
    let e = build_windowlist("7 2 1\n", "9:0: x (1 panes) [1x1]").unwrap_err();
    match e {
        Error::Consistency { session, line } => {
            assert_eq!(session, 9);
            assert_eq!(line, "9:0: x (1 panes) [1x1]");
        },
        other => panic!("{:?}", other),
    }
}

#[test]
fn a_window_of_an_unknown_session_is_a_failure_without_sessions() {
    let e = build_windowlist("", "9:0: x (1 panes) [1x1]").unwrap_err();
    assert!(matches!(e, Error::Consistency { session: 9, .. }));
}

#[test]
fn sessions_are_those_of_the_session_listing() {
    let list = build_windowlist(
        "0 2 0\n3 1 1\n12 0 0\n",
        "3:0: mail (1 panes) [80x24]\n0:0: a (2 panes) [80x24]\n0:5: b (1 panes) [80x24]\n",
    )
    .unwrap();
    assert_eq!(list.len(), 3);
    assert_eq!(sorted_ids(&list), vec![0, 3, 12]);
    assert_eq!(tabs(&list, 0), vec![tab(0, "a", 2), tab(5, "b", 1)]);
    assert_eq!(tabs(&list, 3), vec![tab(0, "mail", 1)]);
    assert_eq!(tabs(&list, 12), vec![]);
    assert!(!list.get(0).unwrap().attached);
    assert!(list.get(3).unwrap().attached);
    assert!(!list.get(12).unwrap().attached);
    assert!(list.contains(12));
    assert!(!list.contains(1));
    assert!(list.get(1).is_none());
}

#[test]
fn tabs_keep_the_order_of_the_listing() {
    let list = build_windowlist(
        "1 3 0\n2 1 0",
        "1:2: c (1 panes) [1x1]\n2:0: z (1 panes) [1x1]\n1:0: a (1 panes) [1x1]\n1:1: b (1 panes) [1x1]",
    )
    .unwrap();
    assert_eq!(tabs(&list, 1), vec![tab(2, "c", 1), tab(0, "a", 1), tab(1, "b", 1)]);
    assert_eq!(tabs(&list, 2), vec![tab(0, "z", 1)]);
}

#[test]
fn nothing_listed_gives_an_empty_directory() {
    let list = build_windowlist("", "").unwrap();
    assert_eq!(list.len(), 0);
    assert!(list.ids().is_empty());
}

#[test]
fn a_session_may_have_no_window() {
    let list = build_windowlist("3 0 0\n", "").unwrap();
    assert_eq!(sorted_ids(&list), vec![3]);
    assert!(list.get(3).unwrap().is_empty());
}

#[test]
fn an_empty_line_ends_a_listing() {
    let list = build_windowlist(
        "1 1 0\n\n2 1 0\n",
        "1:0: a (1 panes) [1x1]\n\n1:1: b (1 panes) [1x1]\nnot a line\n",
    )
    .unwrap();
    assert_eq!(sorted_ids(&list), vec![1]);
    assert_eq!(tabs(&list, 1), vec![tab(0, "a", 1)]);
}

#[test]
fn of_two_session_lines_with_one_id_the_later_counts() {
    let list = build_windowlist("5 1 0\n5 1 1\n", "5:0: a (1 panes) [1x1]\n").unwrap();
    assert_eq!(list.len(), 1);
    assert!(list.get(5).unwrap().attached);
    assert_eq!(tabs(&list, 5), vec![tab(0, "a", 1)]);
}

#[test]
fn a_malformed_session_line_is_a_failure() {
    let e = build_windowlist("1 1 0\nwork 1 0\n2 1 0\n", "1:0: a (1 panes) [1x1]\n").unwrap_err();
    match e {
        Error::Parse { query, line } => {
            assert_eq!(query, Query::Sessions);
            assert_eq!(line, "work 1 0");
        },
        other => panic!("{:?}", other),
    }
}

#[test]
fn a_malformed_window_line_is_a_failure() {
    let e = build_windowlist("1 1 0\n", "1:0: a (1 panes) [1x1]\n1:1: b\n").unwrap_err();
    match e {
        Error::Parse { query, line } => {
            assert_eq!(query, Query::Windows);
            assert_eq!(line, "1:1: b");
        },
        other => panic!("{:?}", other),
    }
}

#[test]
fn the_first_failure_is_reported() {
    let e = build_windowlist("1 1 0\n", "2:0: a (1 panes) [1x1]\n1:1: b\n").unwrap_err();
    assert!(matches!(e, Error::Consistency { session: 2, .. }));
    let e = build_windowlist("1 1 0\n", "1:1: b\n2:0: a (1 panes) [1x1]\n").unwrap_err();
    assert!(matches!(e, Error::Parse { query: Query::Windows, .. }));
    let e = build_windowlist("x\n", "nonsense\n").unwrap_err();
    assert!(matches!(e, Error::Parse { query: Query::Sessions, .. }));
}

#[test]
fn the_skeleton_holds_sessions_without_tabs() {
    let list = WindowList::from_sessions("7 2 1\n8 1 0\n").unwrap();
    assert_eq!(sorted_ids(&list), vec![7, 8]);
    assert!(list.get(7).unwrap().is_empty());
    assert!(list.get(7).unwrap().attached);
    assert!(list.get(8).unwrap().is_empty());
    assert!(!list.get(8).unwrap().attached);
}

#[test]
fn populating_adds_after_the_tabs_that_are_there() {
    let mut list = WindowList::from_sessions("7 2 1\n").unwrap();
    list.populate("7:0: a (1 panes) [1x1]\n").unwrap();
    list.populate("7:1: b (2 panes) [1x1]\n").unwrap();
    assert_eq!(tabs(&list, 7), vec![tab(0, "a", 1), tab(1, "b", 2)]);
}

#[test]
fn populating_keeps_what_was_filed_before_a_failure() {
    let mut list = WindowList::from_sessions("7 2 1\n8 1 0\n").unwrap();
    let e = list
        .populate("7:0: a (1 panes) [1x1]\n8:0: b (1 panes) [1x1]\n9:0: c (1 panes) [1x1]\n7:1: d (1 panes) [1x1]\n")
        .unwrap_err();
    assert!(matches!(e, Error::Consistency { session: 9, .. }));
    assert_eq!(sorted_ids(&list), vec![7, 8]);
    assert_eq!(tabs(&list, 7), vec![tab(0, "a", 1)]);
    assert_eq!(tabs(&list, 8), vec![tab(0, "b", 1)]);
}

#[test]
fn windows_alone_give_their_sessions() {
    let list = output_to_windows(
        "1:0: a (1 panes) [1x1]\n4:0: b (2 panes) [1x1]\n1:1: c (1 panes) [1x1]\n",
    )
    .unwrap();
    assert_eq!(sorted_ids(&list), vec![1, 4]);
    assert_eq!(tabs(&list, 1), vec![tab(0, "a", 1), tab(1, "c", 1)]);
    assert_eq!(tabs(&list, 4), vec![tab(0, "b", 2)]);
    assert!(!list.get(1).unwrap().attached);
    assert!(!list.get(4).unwrap().attached);
}

#[test]
fn windows_alone_end_at_an_empty_line() {
    let list = output_to_windows("1:0: a (1 panes) [1x1]\n\n2:0: b (1 panes) [1x1]\n").unwrap();
    assert_eq!(sorted_ids(&list), vec![1]);
    assert_eq!(output_to_windows("").unwrap().len(), 0);
}

#[test]
fn windows_alone_fail_on_a_malformed_line() {
    let e = output_to_windows("1:0: a (1 panes) [1x1]\nwhat\n").unwrap_err();
    match e {
        Error::Parse { query, line } => {
            assert_eq!(query, Query::Windows);
            assert_eq!(line, "what");
        },
        other => panic!("{:?}", other),
    }
}

#[test]
fn a_tab_is_pushed_or_its_session_entered() {
    let mut list = WindowList::new();
    list.insert_or_push(2, Tab::new("a", 0, 1));
    assert_eq!(sorted_ids(&list), vec![2]);
    assert!(!list.get(2).unwrap().attached);
    list.insert_or_push(2, Tab::new("b", 1, 3));
    list.insert_or_push(5, Tab::new("c", 0, 1));
    assert_eq!(sorted_ids(&list), vec![2, 5]);
    assert_eq!(tabs(&list, 2), vec![tab(0, "a", 1), tab(1, "b", 3)]);
    assert_eq!(tabs(&list, 5), vec![tab(0, "c", 1)]);
}

#[test]
fn a_pushed_tab_leaves_the_attached_flag() {
    let mut list = WindowList::from_sessions("2 1 1\n").unwrap();
    list.insert_or_push(2, Tab::new("a", 0, 1));
    assert!(list.get(2).unwrap().attached);
    assert_eq!(tabs(&list, 2), vec![tab(0, "a", 1)]);
}
