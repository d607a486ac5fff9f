//! Building a directory from the two listings: first a session without tabs
//! for each line of the session listing, then each line of the window listing
//! filed under its session.

use crate::directory::{with_tab, WindowList};
use crate::error::{Error, ErrorView, Query};
use crate::grammar::{read_session, read_window, session_record, window_record};
use crate::model::{TabView, Window, WindowView};
use crate::text::{leading_lines, line_views, split_lines, string_of};
use vstd::prelude::*;

verus! {

/// A session without tabs.
pub open spec fn bare(attached: bool) -> WindowView {
    WindowView { tabs: Seq::empty(), attached }
}

/// The directory after one more line of the session listing: the line's
/// session is entered without tabs, in place of an earlier one with its id.
pub open spec fn entered(dir: Map<usize, WindowView>, line: Seq<char>) -> Result<
    Map<usize, WindowView>,
    ErrorView,
> {
    match session_record(line) {
        Some(record) => Ok(dir.insert(record.id, bare(record.attached))),
        None => Err(ErrorView::Parse { query: Query::Sessions, line }),
    }
}

/// The directory of the sessions that `lines` report, none with a tab yet, or
/// the failure of the first line that does not follow the grammar.
pub open spec fn skeleton(lines: Seq<Seq<char>>) -> Result<Map<usize, WindowView>, ErrorView>
    decreases lines.len(),
{
    if lines.len() == 0 {
        Ok(Map::empty())
    } else {
        match skeleton(lines.drop_last()) {
            Ok(dir) => entered(dir, lines.last()),
            Err(e) => Err(e),
        }
    }
}

/// The directory after one more line of the window listing: the line's
/// window is added to its session, which the directory must hold.
pub open spec fn filed(dir: Map<usize, WindowView>, line: Seq<char>) -> Result<
    Map<usize, WindowView>,
    ErrorView,
> {
    match window_record(line) {
        Some(record) => if dir.contains_key(record.session) {
            Ok(with_tab(dir, record.session, record.tab))
        } else {
            Err(ErrorView::Consistency { session: record.session, line })
        },
        None => Err(ErrorView::Parse { query: Query::Windows, line }),
    }
}

/// The directory `dir` with the windows that `lines` report, or the failure
/// of the first line that does not follow the grammar or names a session that
/// the directory does not hold.
pub open spec fn populated(dir: Map<usize, WindowView>, lines: Seq<Seq<char>>) -> Result<
    Map<usize, WindowView>,
    ErrorView,
>
    decreases lines.len(),
{
    if lines.len() == 0 {
        Ok(dir)
    } else {
        match populated(dir, lines.drop_last()) {
            Ok(so_far) => filed(so_far, lines.last()),
            Err(e) => Err(e),
        }
    }
}

/// The directory `dir` with the windows that `lines` report up to the first
/// line that fails, or all of them where none fails.
pub open spec fn progress(dir: Map<usize, WindowView>, lines: Seq<Seq<char>>) -> Map<
    usize,
    WindowView,
>
    decreases lines.len(),
{
    if lines.len() == 0 {
        dir
    } else {
        match populated(dir, lines.drop_last()) {
            Ok(so_far) => match filed(so_far, lines.last()) {
                Ok(next) => next,
                Err(_) => so_far,
            },
            Err(_) => progress(dir, lines.drop_last()),
        }
    }
}

/// The directory that the two listings describe, or the first failure: of the
/// session listing, if it has one, else of the window listing.
pub open spec fn built(sessions: Seq<char>, windows: Seq<char>) -> Result<
    Map<usize, WindowView>,
    ErrorView,
> {
    match skeleton(leading_lines(sessions)) {
        Ok(dir) => populated(dir, leading_lines(windows)),
        Err(e) => Err(e),
    }
}

/// The directory after one more line of a window listing that is read
/// without a session listing: the line's window is filed under its session,
/// which is entered if the directory does not hold it.
pub open spec fn noted(dir: Map<usize, WindowView>, line: Seq<char>) -> Result<
    Map<usize, WindowView>,
    ErrorView,
> {
    match window_record(line) {
        Some(record) => Ok(with_tab(dir, record.session, record.tab)),
        None => Err(ErrorView::Parse { query: Query::Windows, line }),
    }
}

/// The directory of the windows that `lines` report, each session entered
/// where its first window is, or the failure of the first line that does not
/// follow the grammar.
pub open spec fn gathered(lines: Seq<Seq<char>>) -> Result<Map<usize, WindowView>, ErrorView>
    decreases lines.len(),
{
    if lines.len() == 0 {
        Ok(Map::empty())
    } else {
        match gathered(lines.drop_last()) {
            Ok(dir) => noted(dir, lines.last()),
            Err(e) => Err(e),
        }
    }
}

/// A failure is final: once a prefix of the session lines has failed, more
/// lines change nothing.
pub proof fn lemma_skeleton_stops(lines: Seq<Seq<char>>, k: int)
    requires
        0 <= k <= lines.len(),
        skeleton(lines.take(k)) is Err,
    ensures
        skeleton(lines) == skeleton(lines.take(k)),
    decreases lines.len(),
{
    if k == lines.len() {
        assert(lines.take(k) =~= lines);
    } else {
        assert(lines.drop_last().take(k) =~= lines.take(k));
        lemma_skeleton_stops(lines.drop_last(), k);
    }
}

/// A failure is final: once a prefix of the window lines has failed, more
/// lines change neither the failure nor the directory.
pub proof fn lemma_populated_stops(dir: Map<usize, WindowView>, lines: Seq<Seq<char>>, k: int)
    requires
        0 <= k <= lines.len(),
        populated(dir, lines.take(k)) is Err,
    ensures
        populated(dir, lines) == populated(dir, lines.take(k)),
        progress(dir, lines) == progress(dir, lines.take(k)),
    decreases lines.len(),
{
    if k == lines.len() {
        assert(lines.take(k) =~= lines);
    } else {
        assert(lines.drop_last().take(k) =~= lines.take(k));
        lemma_populated_stops(dir, lines.drop_last(), k);
    }
}

/// Where no line fails, all of them are filed.
pub proof fn lemma_progress_done(dir: Map<usize, WindowView>, lines: Seq<Seq<char>>)
    requires
        populated(dir, lines) is Ok,
    ensures
        populated(dir, lines) == Ok::<Map<usize, WindowView>, ErrorView>(progress(dir, lines)),
{
}

/// A failure is final: once a prefix of the lines has failed, more lines
/// change nothing.
pub proof fn lemma_gathered_stops(lines: Seq<Seq<char>>, k: int)
    requires
        0 <= k <= lines.len(),
        gathered(lines.take(k)) is Err,
    ensures
        gathered(lines) == gathered(lines.take(k)),
    decreases lines.len(),
{
    if k == lines.len() {
        assert(lines.take(k) =~= lines);
    } else {
        assert(lines.drop_last().take(k) =~= lines.take(k));
        lemma_gathered_stops(lines.drop_last(), k);
    }
}

/// Whether each of the session lines follows the grammar.
pub open spec fn sessions_well_formed(lines: Seq<Seq<char>>) -> bool {
    forall|i: int| 0 <= i < lines.len() ==> session_record(#[trigger] lines[i]) is Some
}

/// The ids that the session lines report.
pub open spec fn reported_ids(lines: Seq<Seq<char>>) -> Set<usize> {
    Set::new(
        |id: usize|
            exists|i: int|
                0 <= i < lines.len() && session_record(#[trigger] lines[i]) is Some
                    && session_record(lines[i])->0.id == id,
    )
}

/// Whether a window line follows the grammar and names the session `id`.
pub open spec fn names_session(line: Seq<char>, id: usize) -> bool {
    window_record(line) is Some && window_record(line)->0.session == id
}

/// Whether each of the window lines follows the grammar and names a session
/// of `ids`.
pub open spec fn windows_well_formed(lines: Seq<Seq<char>>, ids: Set<usize>) -> bool {
    forall|i: int|
        0 <= i < lines.len() ==> window_record(#[trigger] lines[i]) is Some && ids.contains(
            window_record(lines[i])->0.session,
        )
}

/// How many of the window lines name the session `id`.
pub open spec fn count_naming(lines: Seq<Seq<char>>, id: usize) -> nat
    decreases lines.len(),
{
    if lines.len() == 0 {
        0
    } else if names_session(lines.last(), id) {
        count_naming(lines.drop_last(), id) + 1
    } else {
        count_naming(lines.drop_last(), id)
    }
}

/// The windows that the window lines report for the session `id`, in the
/// order of the lines.
pub open spec fn tabs_reported(lines: Seq<Seq<char>>, id: usize) -> Seq<TabView>
    decreases lines.len(),
{
    if lines.len() == 0 {
        Seq::empty()
    } else if names_session(lines.last(), id) {
        tabs_reported(lines.drop_last(), id).push(window_record(lines.last())->0.tab)
    } else {
        tabs_reported(lines.drop_last(), id)
    }
}

/// As many windows are reported for a session as lines name it.
pub proof fn lemma_tabs_reported_len(lines: Seq<Seq<char>>, id: usize)
    ensures
        tabs_reported(lines, id).len() == count_naming(lines, id),
    decreases lines.len(),
{
    if lines.len() > 0 {
        lemma_tabs_reported_len(lines.drop_last(), id);
    }
}

/// Session lines that all follow the grammar give a directory of exactly the
/// sessions that they report, none of them with a tab.
pub proof fn lemma_skeleton_of_well_formed(lines: Seq<Seq<char>>)
    requires
        sessions_well_formed(lines),
    ensures
        skeleton(lines) is Ok,
        skeleton(lines)->Ok_0.dom() == reported_ids(lines),
        forall|id: usize| #[trigger]
            skeleton(lines)->Ok_0.contains_key(id) ==> skeleton(lines)->Ok_0[id].tabs.len() == 0,
    decreases lines.len(),
{
    if lines.len() == 0 {
        assert(skeleton(lines)->Ok_0.dom() =~= reported_ids(lines));
    } else {
        let front = lines.drop_last();
        assert forall|i: int| 0 <= i < front.len() implies session_record(
            #[trigger] front[i],
        ) is Some by {
            assert(front[i] == lines[i]);
        }
        lemma_skeleton_of_well_formed(front);
        let record = session_record(lines.last())->0;
        assert(session_record(lines[lines.len() - 1]) is Some);
        let dir = skeleton(lines)->Ok_0;
        assert forall|id: usize| dir.dom().contains(id) <==> reported_ids(lines).contains(
            id,
        ) by {
            if dir.dom().contains(id) {
                if id == record.id {
                    assert(session_record(lines[lines.len() - 1])->0.id == id);
                } else {
                    assert(reported_ids(front).contains(id));
                    let i = choose|i: int|
                        0 <= i < front.len() && session_record(#[trigger] front[i]) is Some
                            && session_record(front[i])->0.id == id;
                    assert(front[i] == lines[i]);
                }
            }
            if reported_ids(lines).contains(id) {
                let i = choose|i: int|
                    0 <= i < lines.len() && session_record(#[trigger] lines[i]) is Some
                        && session_record(lines[i])->0.id == id;
                if i < front.len() {
                    assert(front[i] == lines[i]);
                    assert(reported_ids(front).contains(id));
                }
            }
        }
        assert(dir.dom() =~= reported_ids(lines));
    }
}

/// Window lines that all follow the grammar and name sessions of the
/// directory are all filed: the directory keeps its sessions, and each
/// session gets, after the tabs it had, the windows that the lines report
/// for it, in their order.
pub proof fn lemma_populated_of_well_formed(dir: Map<usize, WindowView>, lines: Seq<Seq<char>>)
    requires
        windows_well_formed(lines, dir.dom()),
    ensures
        populated(dir, lines) is Ok,
        populated(dir, lines)->Ok_0.dom() == dir.dom(),
        forall|id: usize| #[trigger]
            dir.contains_key(id) ==> populated(dir, lines)->Ok_0[id] == (WindowView {
                tabs: dir[id].tabs + tabs_reported(lines, id),
                attached: dir[id].attached,
            }),
    decreases lines.len(),
{
    if lines.len() == 0 {
        assert forall|id: usize| #[trigger] dir.contains_key(id) implies dir[id] == (WindowView {
            tabs: dir[id].tabs + tabs_reported(lines, id),
            attached: dir[id].attached,
        }) by {
            assert(dir[id].tabs + Seq::<TabView>::empty() =~= dir[id].tabs);
        }
    } else {
        let front = lines.drop_last();
        assert forall|i: int| 0 <= i < front.len() implies window_record(
            #[trigger] front[i],
        ) is Some && dir.dom().contains(window_record(front[i])->0.session) by {
            assert(front[i] == lines[i]);
        }
        lemma_populated_of_well_formed(dir, front);
        let so_far = populated(dir, front)->Ok_0;
        let record = window_record(lines.last())->0;
        assert(window_record(lines[lines.len() - 1]) is Some);
        assert(so_far.contains_key(record.session));
        let next = populated(dir, lines)->Ok_0;
        assert(next == with_tab(so_far, record.session, record.tab));
        assert(next.dom() =~= dir.dom());
        assert forall|id: usize| #[trigger] dir.contains_key(id) implies next[id] == (WindowView {
            tabs: dir[id].tabs + tabs_reported(lines, id),
            attached: dir[id].attached,
        }) by {
            if id == record.session {
                assert((dir[id].tabs + tabs_reported(front, id)).push(record.tab) =~= dir[id].tabs
                    + tabs_reported(lines, id));
            }
        }
    }
}

/// Two listings of which each line follows its grammar, the second naming
/// only sessions that the first reports, give a directory. Its sessions are
/// exactly those that the session listing reports, and each holds the windows
/// that the window listing reports for it, in the listing's order: as many as
/// lines of the window listing name the session.
pub proof fn lemma_built_of_well_formed(sessions: Seq<char>, windows: Seq<char>)
    requires
        sessions_well_formed(leading_lines(sessions)),
        windows_well_formed(leading_lines(windows), reported_ids(leading_lines(sessions))),
    ensures
        built(sessions, windows) is Ok,
        built(sessions, windows)->Ok_0.dom() == reported_ids(leading_lines(sessions)),
        forall|id: usize| #[trigger]
            built(sessions, windows)->Ok_0.contains_key(id) ==> {
                &&& built(sessions, windows)->Ok_0[id].tabs == tabs_reported(
                    leading_lines(windows),
                    id,
                )
                &&& built(sessions, windows)->Ok_0[id].tabs.len() == count_naming(
                    leading_lines(windows),
                    id,
                )
            },
{
    let s = leading_lines(sessions);
    let w = leading_lines(windows);
    lemma_skeleton_of_well_formed(s);
    let dir = skeleton(s)->Ok_0;
    lemma_populated_of_well_formed(dir, w);
    let made = built(sessions, windows)->Ok_0;
    assert forall|id: usize| #[trigger] made.contains_key(id) implies made[id].tabs
        == tabs_reported(w, id) && made[id].tabs.len() == count_naming(w, id) by {
        assert(dir.contains_key(id));
        assert(dir[id].tabs =~= Seq::<TabView>::empty());
        assert(dir[id].tabs + tabs_reported(w, id) =~= tabs_reported(w, id));
        lemma_tabs_reported_len(w, id);
    }
}

/// The characters of a line as a string.
fn string_of_line(line: &Vec<char>) -> (text: String)
    ensures
        text@ == line@,
{
    let text = string_of(line, 0, line.len());
    assert(line@.subrange(0, line.len() as int) =~= line@);
    text
}

/// The failure of a line that does not follow its listing's grammar.
fn malformed(query: Query, line: &Vec<char>) -> (e: Error)
    ensures
        e@ == (ErrorView::Parse { query, line: line@ }),
{
    Error::Parse { query, line: string_of_line(line) }
}

impl WindowList {
    /// The directory of the sessions that the session listing `text`
    /// reports, none of them with a tab yet. Of two lines with one id the
    /// later one counts. The listing ends at its first empty line.
    pub fn from_sessions(text: &str) -> (made: Result<WindowList, Error>)
        ensures
            match made {
                Ok(list) => skeleton(leading_lines(text@)) == Ok::<_, ErrorView>(list@),
                Err(e) => skeleton(leading_lines(text@)) == Err::<Map<usize, WindowView>, _>(e@),
            },
    {
        let lines = split_lines(text);
        let ghost all = leading_lines(text@);
        let mut list = WindowList::new();
        let mut i: usize = 0;
        while i < lines.len()
            invariant
                i <= lines.len(),
                all == leading_lines(text@),
                line_views(lines@) == all,
                skeleton(all.take(i as int)) == Ok::<_, ErrorView>(list@),
            decreases lines.len() - i,
        {
            let line = &lines[i];
            proof {
                assert(all[i as int] == line@);
                assert(all.take(i + 1).drop_last() =~= all.take(i as int));
                assert(all.take(i + 1).last() == line@);
                assert(skeleton(all.take(i + 1)) == entered(list@, line@));
            }
            match read_session(line) {
                Some(record) => {
                    let window = Window::new(Vec::new(), record.attached);
                    assert(window@.tabs =~= Seq::<TabView>::empty());
                    list.insert(record.id, window);
                },
                None => {
                    proof {
                        lemma_skeleton_stops(all, i + 1);
                    }
                    return Err(malformed(Query::Sessions, line));
                },
            }
            i = i + 1;
        }
        assert(all.take(lines.len() as int) =~= all);
        Ok(list)
    }

    /// Files each window that the window listing `text` reports under its
    /// session. The listing ends at its first empty line. A line that does
    /// not follow the grammar, or that names a session that the directory
    /// does not hold, ends the work with its failure; the windows of the
    /// lines before it stay filed.
    pub fn populate(&mut self, text: &str) -> (done: Result<(), Error>)
        ensures
            match done {
                Ok(_) => populated(old(self)@, leading_lines(text@)) == Ok::<_, ErrorView>(
                    final(self)@,
                ),
                Err(e) => populated(old(self)@, leading_lines(text@)) == Err::<
                    Map<usize, WindowView>,
                    _,
                >(e@),
            },
            final(self)@ == progress(old(self)@, leading_lines(text@)),
    {
        let lines = split_lines(text);
        let ghost all = leading_lines(text@);
        let ghost start = self@;
        let mut i: usize = 0;
        while i < lines.len()
            invariant
                i <= lines.len(),
                all == leading_lines(text@),
                line_views(lines@) == all,
                start == old(self)@,
                populated(start, all.take(i as int)) == Ok::<_, ErrorView>(self@),
            decreases lines.len() - i,
        {
            let line = &lines[i];
            proof {
                assert(all[i as int] == line@);
                assert(all.take(i + 1).drop_last() =~= all.take(i as int));
                assert(all.take(i + 1).last() == line@);
                assert(populated(start, all.take(i + 1)) == filed(self@, line@));
                lemma_progress_done(start, all.take(i as int));
            }
            match read_window(line) {
                Some(record) => {
                    if !self.contains(record.session) {
                        proof {
                            lemma_populated_stops(start, all, i + 1);
                        }
                        return Err(
                            Error::Consistency {
                                session: record.session,
                                line: string_of_line(line),
                            },
                        );
                    }
                    self.insert_or_push(record.session, record.tab);
                },
                None => {
                    proof {
                        lemma_populated_stops(start, all, i + 1);
                    }
                    return Err(malformed(Query::Windows, line));
                },
            }
            i = i + 1;
        }
        proof {
            assert(all.take(lines.len() as int) =~= all);
            lemma_progress_done(start, all);
        }
        Ok(())
    }
}

/// The directory that the session listing `sessions` and the window listing
/// `windows` describe: the sessions of the first, each with the windows that
/// the second reports for it, in the second's order.
pub fn build_windowlist(sessions: &str, windows: &str) -> (made: Result<WindowList, Error>)
    ensures
        match made {
            Ok(list) => built(sessions@, windows@) == Ok::<_, ErrorView>(list@),
            Err(e) => built(sessions@, windows@) == Err::<Map<usize, WindowView>, _>(e@),
        },
{
    let mut list = match WindowList::from_sessions(sessions) {
        Ok(list) => list,
        Err(e) => {
            return Err(e);
        },
    };
    match list.populate(windows) {
        Ok(_) => Ok(list),
        Err(e) => Err(e),
    }
}

/// The directory that the window listing `rdr` describes by itself: each
/// session is entered, without a client, where the listing first names it.
/// The listing ends at its first empty line.
pub fn output_to_windows(rdr: &str) -> (made: Result<WindowList, Error>)
    ensures
        match made {
            Ok(list) => gathered(leading_lines(rdr@)) == Ok::<_, ErrorView>(list@),
            Err(e) => gathered(leading_lines(rdr@)) == Err::<Map<usize, WindowView>, _>(e@),
        },
{
    let lines = split_lines(rdr);
    let ghost all = leading_lines(rdr@);
    let mut list = WindowList::new();
    let mut i: usize = 0;
    while i < lines.len()
        invariant
            i <= lines.len(),
            all == leading_lines(rdr@),
            line_views(lines@) == all,
            gathered(all.take(i as int)) == Ok::<_, ErrorView>(list@),
        decreases lines.len() - i,
    {
        let line = &lines[i];
        proof {
            assert(all[i as int] == line@);
            assert(all.take(i + 1).drop_last() =~= all.take(i as int));
            assert(all.take(i + 1).last() == line@);
            assert(gathered(all.take(i + 1)) == noted(list@, line@));
        }
        match read_window(line) {
            Some(record) => {
                list.insert_or_push(record.session, record.tab);
            },
            None => {
                proof {
                    lemma_gathered_stops(all, i + 1);
                }
                return Err(malformed(Query::Windows, line));
            },
        }
        i = i + 1;
    }
    assert(all.take(lines.len() as int) =~= all);
    Ok(list)
}

} // verus!
