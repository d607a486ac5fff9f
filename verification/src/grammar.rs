//! The grammars of the two listings, one line at a time.
//!
//! A session line is `<id> <windows> <attached>`: three numbers with one
//! space between them. A window line is
//! `<session>:<index>: <name> (<panes> panes) [<width>x<height>]`. Either may
//! go on after its last field. A number is a run of ASCII decimal digits that
//! is as long as it can be, and it must fit a machine word where its worth is
//! kept: all numbers but the width and the height of a window.

use crate::digits::{lemma_run_end, number, read_number, run_end, scan_digits};
use crate::error::{Error, ErrorView, Query};
use crate::model::{Tab, TabView};
use crate::text::{occurs_at, string_of, to_chars};
use vstd::prelude::*;

verus! {

/// What a session line says: the session's id, and whether a client is
/// attached to it.
#[derive(Debug, Clone, Copy, PartialEq, Eq, Structural)]
pub struct SessionRecord {
    pub id: usize,
    pub attached: bool,
}

/// What a window line says, as a mathematical value.
pub struct WindowRecordView {
    pub session: usize,
    pub tab: TabView,
}

/// What a window line says: the id of the session that owns the window, and
/// the window itself.
#[derive(Debug)]
pub struct WindowRecord {
    pub session: usize,
    pub tab: Tab,
}

impl View for WindowRecord {
    type V = WindowRecordView;

    open spec fn view(&self) -> WindowRecordView {
        WindowRecordView { session: self.session, tab: self.tab@ }
    }
}

/// Whether `line` holds the character `c` at index `at`.
pub open spec fn char_at(line: Seq<char>, at: int, c: char) -> bool {
    0 <= at < line.len() && line[at] == c
}

/// What a session line says, if it follows the grammar: the first number is
/// the id, the second must be a number, the third tells by being other than
/// zero that a client is attached.
pub open spec fn session_record(line: Seq<char>) -> Option<SessionRecord> {
    let e1 = run_end(line, 0);
    let e2 = run_end(line, e1 + 1);
    let e3 = run_end(line, e2 + 1);
    if 0 < e1 && char_at(line, e1, ' ') && e1 + 1 < e2 && char_at(line, e2, ' ') && e2 + 1 < e3 {
        match (
            number(line.subrange(0, e1)),
            number(line.subrange(e1 + 1, e2)),
            number(line.subrange(e2 + 1, e3)),
        ) {
            (Some(id), Some(_), Some(flag)) => Some(SessionRecord { id, attached: flag > 0 }),
            _ => None,
        }
    } else {
        None
    }
}

/// What stands between the pane count of a window line and its width.
pub open spec fn pane_marker() -> Seq<char> {
    " panes) ["@
}

/// Whether what follows the name of a window line can start at index `at`:
/// ` (<panes> panes) [<width>x<height>]`, each of the three a run of digits.
pub open spec fn tail_at(line: Seq<char>, at: int) -> bool {
    let b = run_end(line, at + 2);
    let c = b + pane_marker().len();
    let d = run_end(line, c);
    let e = run_end(line, d + 1);
    &&& char_at(line, at, ' ')
    &&& char_at(line, at + 1, '(')
    &&& at + 2 < b
    &&& occurs_at(pane_marker(), line, b)
    &&& c < d
    &&& char_at(line, d, 'x')
    &&& d + 1 < e
    &&& char_at(line, e, ']')
}

/// The last index in `from..upto` at which the tail of a window line can
/// start, if there is one.
pub open spec fn last_tail(line: Seq<char>, from: int, upto: int) -> Option<int>
    decreases upto - from,
{
    if upto <= from {
        None
    } else if tail_at(line, upto - 1) {
        Some(upto - 1)
    } else {
        last_tail(line, from, upto - 1)
    }
}

/// What a window line says, if it follows the grammar. The name is all that
/// stands between the space after the second colon and the last place at
/// which the tail can start, so a name that itself holds such a tail is not
/// cut short. The pane count is at least one.
pub open spec fn window_record(line: Seq<char>) -> Option<WindowRecordView> {
    let e1 = run_end(line, 0);
    let e2 = run_end(line, e1 + 1);
    let start = e2 + 2;
    if 0 < e1 && char_at(line, e1, ':') && e1 + 1 < e2 && char_at(line, e2, ':') && char_at(
        line,
        e2 + 1,
        ' ',
    ) {
        match last_tail(line, start, line.len() as int) {
            Some(at) => match (
                number(line.subrange(0, e1)),
                number(line.subrange(e1 + 1, e2)),
                number(line.subrange(at + 2, run_end(line, at + 2))),
            ) {
                (Some(session), Some(index), Some(panes)) => if panes > 0 {
                    Some(
                        WindowRecordView {
                            session,
                            tab: TabView {
                                name: line.subrange(start, at),
                                number: index,
                                panes,
                            },
                        },
                    )
                } else {
                    None
                },
                _ => None,
            },
            None => None,
        }
    } else {
        None
    }
}

/// What [`last_tail`] finds is a place in the range at which the tail can
/// start, and the tail can start at no later place in the range; it finds
/// nothing only where the tail can start nowhere in the range.
pub proof fn lemma_last_tail(line: Seq<char>, from: int, upto: int)
    ensures
        match last_tail(line, from, upto) {
            Some(at) => from <= at < upto && tail_at(line, at) && forall|later: int|
                at < later < upto ==> !tail_at(line, later),
            None => forall|at: int| from <= at < upto ==> !tail_at(line, at),
        },
    decreases upto - from,
{
    if upto > from && !tail_at(line, upto - 1) {
        lemma_last_tail(line, from, upto - 1);
    }
}

/// Executable form of [`char_at`].
fn holds_at(line: &Vec<char>, at: usize, c: char) -> (holds: bool)
    ensures
        holds == char_at(line@, at as int, c),
{
    at < line.len() && line[at] == c
}

/// Whether `line` holds the characters of `lit` from index `at` on.
fn holds_all_at(line: &Vec<char>, at: usize, lit: &Vec<char>) -> (holds: bool)
    ensures
        holds == occurs_at(lit@, line@, at as int),
{
    if at > line.len() || lit.len() > line.len() - at {
        return false;
    }
    let mut i: usize = 0;
    while i < lit.len()
        invariant
            i <= lit.len(),
            at + lit.len() <= line.len(),
            line@.subrange(at as int, at + i) == lit@.take(i as int),
        decreases lit.len() - i,
    {
        if line[at + i] != lit[i] {
            assert(line@.subrange(at as int, at + lit.len())[i as int] != lit@[i as int]);
            return false;
        }
        assert(line@.subrange(at as int, at + i + 1) =~= line@.subrange(at as int, at + i).push(
            line@[at + i],
        ));
        assert(lit@.take(i + 1) =~= lit@.take(i as int).push(lit@[i as int]));
        i = i + 1;
    }
    assert(lit@.take(lit.len() as int) =~= lit@);
    true
}

/// The characters of [`pane_marker`].
fn pane_marker_chars() -> (marker: Vec<char>)
    ensures
        marker@ == pane_marker(),
{
    to_chars(" panes) [")
}

/// Executable form of [`tail_at`].
fn tail_starts_at(line: &Vec<char>, marker: &Vec<char>, at: usize) -> (starts: bool)
    requires
        marker@ == pane_marker(),
    ensures
        starts == tail_at(line@, at as int),
{
    let n = line.len();
    if !(holds_at(line, at, ' ') && at + 1 < n && holds_at(line, at + 1, '(')) {
        return false;
    }
    let b = scan_digits(line, at + 2);
    if b == at + 2 || !holds_all_at(line, b, marker) {
        return false;
    }
    let c = b + marker.len();
    let d = scan_digits(line, c);
    if d == c || !holds_at(line, d, 'x') {
        return false;
    }
    let e = scan_digits(line, d + 1);
    d + 1 < e && holds_at(line, e, ']')
}

/// Executable form of [`last_tail`], up to the end of the line.
fn find_last_tail(line: &Vec<char>, from: usize) -> (found: Option<usize>)
    ensures
        match found {
            Some(at) => last_tail(line@, from as int, line.len() as int) == Some(at as int),
            None => last_tail(line@, from as int, line.len() as int) is None,
        },
{
    let marker = pane_marker_chars();
    let mut upto: usize = line.len();
    while upto > from
        invariant
            upto <= line.len(),
            marker@ == pane_marker(),
            last_tail(line@, from as int, line.len() as int) == last_tail(
                line@,
                from as int,
                upto as int,
            ),
        decreases upto,
    {
        if tail_starts_at(line, &marker, upto - 1) {
            return Some(upto - 1);
        }
        upto = upto - 1;
    }
    None
}

/// Reads a session line that is given by its characters.
pub fn read_session(line: &Vec<char>) -> (record: Option<SessionRecord>)
    ensures
        record == session_record(line@),
{
    let e1 = scan_digits(line, 0);
    if e1 == 0 || !holds_at(line, e1, ' ') {
        return None;
    }
    let e2 = scan_digits(line, e1 + 1);
    if e2 == e1 + 1 || !holds_at(line, e2, ' ') {
        return None;
    }
    let e3 = scan_digits(line, e2 + 1);
    if e3 == e2 + 1 {
        return None;
    }
    proof {
        lemma_run_end(line@, 0);
        lemma_run_end(line@, e1 + 1);
        lemma_run_end(line@, e2 + 1);
    }
    let id = read_number(line, 0, e1);
    let windows = read_number(line, e1 + 1, e2);
    let flag = read_number(line, e2 + 1, e3);
    match (id, windows, flag) {
        (Some(id), Some(_), Some(flag)) => Some(SessionRecord { id, attached: flag > 0 }),
        _ => None,
    }
}

/// Reads a window line that is given by its characters.
pub fn read_window(line: &Vec<char>) -> (record: Option<WindowRecord>)
    ensures
        match record {
            Some(r) => window_record(line@) == Some(r@),
            None => window_record(line@) is None,
        },
{
    let n = line.len();
    let e1 = scan_digits(line, 0);
    if e1 == 0 || !holds_at(line, e1, ':') {
        return None;
    }
    let e2 = scan_digits(line, e1 + 1);
    if e2 == e1 + 1 || !holds_at(line, e2, ':') || !holds_at(line, e2 + 1, ' ') {
        return None;
    }
    let start = e2 + 2;
    let at = match find_last_tail(line, start) {
        Some(at) => at,
        None => {
            return None;
        },
    };
    proof {
        lemma_last_tail(line@, start as int, n as int);
        lemma_run_end(line@, 0);
        lemma_run_end(line@, e1 + 1);
        lemma_run_end(line@, at + 2);
    }
    let b = scan_digits(line, at + 2);
    let session = read_number(line, 0, e1);
    let index = read_number(line, e1 + 1, e2);
    let panes = read_number(line, at + 2, b);
    match (session, index, panes) {
        (Some(session), Some(index), Some(panes)) => {
            if panes > 0 {
                let name = string_of(line, start, at);
                Some(WindowRecord { session, tab: Tab { name, number: index, panes } })
            } else {
                None
            }
        },
        _ => None,
    }
}

/// Reads one line of the session listing.
pub fn parse_session_line(line: &str) -> (parsed: Result<SessionRecord, Error>)
    ensures
        match parsed {
            Ok(record) => session_record(line@) == Some(record),
            Err(e) => session_record(line@) is None && e@ == (ErrorView::Parse {
                query: Query::Sessions,
                line: line@,
            }),
        },
{
    let chars = to_chars(line);
    match read_session(&chars) {
        Some(record) => Ok(record),
        None => Err(Error::Parse { query: Query::Sessions, line: line.to_owned() }),
    }
}

/// Reads one line of the window listing.
pub fn parse_window_line(line: &str) -> (parsed: Result<WindowRecord, Error>)
    ensures
        match parsed {
            Ok(record) => window_record(line@) == Some(record@),
            Err(e) => window_record(line@) is None && e@ == (ErrorView::Parse {
                query: Query::Windows,
                line: line@,
            }),
        },
{
    let chars = to_chars(line);
    match read_window(&chars) {
        Some(record) => Ok(record),
        None => Err(Error::Parse { query: Query::Windows, line: line.to_owned() }),
    }
}

} // verus!
