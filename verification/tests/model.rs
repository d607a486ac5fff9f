use tinfo::directory::WindowList;
use tinfo::model::{Tab, Window};

#[test]
fn a_tab_holds_what_it_was_made_with() {
    let tab = Tab::new("shell", 3, 2);
    assert_eq!(tab.name, "shell");
    assert_eq!(tab.number, 3);
    assert_eq!(tab.panes, 2);
}

#[test]
fn a_cloned_tab_is_equal_and_apart() {
    let tab = Tab::new("shell", 3, 2);
    let mut copy = tab.clone();
    assert_eq!(copy.name, "shell");
    assert_eq!(copy.number, 3);
    assert_eq!(copy.panes, 2);
    copy.name.push('!');
    assert_eq!(tab.name, "shell");
}

#[test]
fn a_tab_matches_by_substring() {
    let tab = Tab::new("editor", 1, 1);
    assert!(tab.matches("edit"));
    assert!(tab.matches("editor"));
    assert!(tab.matches("tor"));
    assert!(tab.matches("d"));
    assert!(tab.matches(""));
    assert!(!tab.matches("Edit"));
    assert!(!tab.matches("editors"));
    assert!(!tab.matches("eitor"));
    assert!(!Tab::new("", 0, 1).matches("a"));
    assert!(Tab::new("", 0, 1).matches(""));
}

#[test]
fn a_tab_matches_other_scripts_by_character() {
    let tab = Tab::new("na\u{ef}ve \u{65e5}\u{672c}", 1, 1);
    assert!(tab.matches("\u{ef}v"));
    assert!(tab.matches("\u{65e5}\u{672c}"));
    assert!(!tab.matches("\u{672c}\u{65e5}"));
}

#[test]
fn a_window_holds_what_it_was_made_with() {
    let window = Window::new(vec![Tab::new("a", 0, 1)], true);
    assert!(window.attached);
    assert_eq!(window.tabs.len(), 1);
    assert!(!window.is_empty());
    assert!(!window.empty());
    let window = Window::new(Vec::new(), false);
    assert!(!window.attached);
    assert!(window.is_empty());
    assert!(window.empty());
}

#[test]
fn a_pushed_tab_comes_last() {
    let mut window = Window::new(Vec::new(), false);
    window.push(Tab::new("a", 0, 1));
    window.push(Tab::new("b", 1, 1));
    assert!(!window.is_empty());
    assert_eq!(window.tabs.len(), 2);
    assert_eq!(window.tabs[0].name, "a");
    assert_eq!(window.tabs[1].name, "b");
    assert!(!window.attached);
}

#[test]
fn a_window_selects_its_matching_tabs_in_order() {
    let window = Window::new(
        vec![Tab::new("vim a", 0, 1), Tab::new("shell", 1, 2), Tab::new("vim b", 2, 3)],
        true,
    );
    let found = window.select("vim");
    assert!(found.attached);
    let names: Vec<(usize, &str, usize)> =
        found.tabs.iter().map(|t| (t.number, t.name.as_str(), t.panes)).collect();
    assert_eq!(names, vec![(0, "vim a", 1), (2, "vim b", 3)]);
    assert_eq!(window.tabs.len(), 3);
    assert!(window.select("emacs").is_empty());
    assert_eq!(window.select("").tabs.len(), 3);
}

#[test]
fn a_directory_holds_what_is_inserted() {
    let mut list = WindowList::new();
    assert_eq!(list.len(), 0);
    list.insert(4, Window::new(vec![Tab::new("a", 0, 1)], true));
    list.insert(9, Window::new(Vec::new(), false));
    assert_eq!(list.len(), 2);
    assert!(list.contains(4));
    assert!(list.contains(9));
    assert!(!list.contains(5));
    assert!(list.get(4).unwrap().attached);
    assert_eq!(list.get(4).unwrap().tabs[0].name, "a");
    assert!(list.get(5).is_none());
    let mut ids = list.ids();
    ids.sort();
    assert_eq!(ids, vec![4, 9]);
}

#[test]
fn an_inserted_session_takes_the_place_of_the_old() {
    let mut list = WindowList::new();
    list.insert(4, Window::new(vec![Tab::new("a", 0, 1)], true));
    list.insert(4, Window::new(Vec::new(), false));
    assert_eq!(list.len(), 1);
    assert!(list.get(4).unwrap().is_empty());
    assert!(!list.get(4).unwrap().attached);
}
