//! The search: which sessions and tabs of a directory a term selects.

use crate::directory::{lists, WindowList};
use crate::model::{matching, name_holds, TabView, WindowView};
use crate::text::{is_substring, occurs_at};
use vstd::prelude::*;

verus! {

/// What `term` selects of `dir`: of each session the tabs whose name holds
/// `term`, and only the sessions of which a tab is left.
pub open spec fn select(dir: Map<usize, WindowView>, term: Seq<char>) -> Map<usize, WindowView> {
    Map::new(
        |id: usize| dir.contains_key(id) && matching(dir[id].tabs, term).len() > 0,
        |id: usize| dir[id].select(term),
    )
}

/// Whether each session of `dir` holds a tab.
pub open spec fn no_empty_session(dir: Map<usize, WindowView>) -> bool {
    forall|id: usize| dir.contains_key(id) ==> (#[trigger] dir[id]).tabs.len() > 0
}

/// The empty term occurs in every name.
pub proof fn lemma_empty_term(name: Seq<char>)
    ensures
        is_substring(Seq::<char>::empty(), name),
{
    assert(name.subrange(0, 0) =~= Seq::<char>::empty());
    assert(occurs_at(Seq::<char>::empty(), name, 0));
}

/// Tabs that all hold the term are all kept.
pub proof fn lemma_matching_all(tabs: Seq<TabView>, term: Seq<char>)
    requires
        forall|i: int| 0 <= i < tabs.len() ==> (#[trigger] tabs[i]).matches(term),
    ensures
        matching(tabs, term) == tabs,
    decreases tabs.len(),
{
    if tabs.len() == 0 {
        assert(matching(tabs, term).len() <= tabs.len()) by {
            tabs.lemma_filter_len(name_holds(term));
        }
        assert(matching(tabs, term) =~= tabs);
    } else {
        let front = tabs.drop_last();
        assert forall|i: int| 0 <= i < front.len() implies (#[trigger] front[i]).matches(term) by {
            assert(front[i] == tabs[i]);
        }
        lemma_matching_all(front, term);
        front.lemma_filter_push(tabs.last(), name_holds(term));
        assert(front.push(tabs.last()) =~= tabs);
    }
}

/// Each tab that is kept holds the term.
pub proof fn lemma_matching_holds(tabs: Seq<TabView>, term: Seq<char>)
    ensures
        forall|i: int|
            0 <= i < matching(tabs, term).len() ==> (#[trigger] matching(tabs, term)[i]).matches(
                term,
            ),
{
    assert forall|i: int| 0 <= i < matching(tabs, term).len() implies (#[trigger] matching(
        tabs,
        term,
    )[i]).matches(term) by {
        tabs.lemma_filter_pred(name_holds(term), i);
    }
}

/// To select among what was selected by the same term changes nothing.
pub proof fn lemma_matching_twice(tabs: Seq<TabView>, term: Seq<char>)
    ensures
        matching(matching(tabs, term), term) == matching(tabs, term),
{
    lemma_matching_holds(tabs, term);
    lemma_matching_all(matching(tabs, term), term);
}

/// A search leaves no session without a tab.
pub proof fn lemma_select_no_empty_session(dir: Map<usize, WindowView>, term: Seq<char>)
    ensures
        no_empty_session(select(dir, term)),
{
}

/// A search adds nothing: each session that it leaves is a session of the
/// directory, with the same attached flag, and each tab that it leaves holds
/// the term.
pub proof fn lemma_select_within(dir: Map<usize, WindowView>, term: Seq<char>)
    ensures
        select(dir, term).dom().subset_of(dir.dom()),
        forall|id: usize| #[trigger]
            select(dir, term).contains_key(id) ==> select(dir, term)[id].attached
                == dir[id].attached,
        forall|id: usize, i: int|
            select(dir, term).contains_key(id) && 0 <= i < select(dir, term)[id].tabs.len()
                ==> (#[trigger] select(dir, term)[id].tabs[i]).matches(term),
{
    assert forall|id: usize, i: int|
        select(dir, term).contains_key(id) && 0 <= i < select(
            dir,
            term,
        )[id].tabs.len() implies (#[trigger] select(dir, term)[id].tabs[i]).matches(term) by {
        lemma_matching_holds(dir[id].tabs, term);
    }
}

/// A search for the empty term gives back a directory in which each session
/// holds a tab.
pub proof fn lemma_select_empty_term(dir: Map<usize, WindowView>)
    requires
        no_empty_session(dir),
    ensures
        select(dir, Seq::<char>::empty()) == dir,
{
    let term = Seq::<char>::empty();
    assert forall|id: usize| dir.contains_key(id) implies matching(dir[id].tabs, term)
        == dir[id].tabs by {
        assert forall|i: int| 0 <= i < dir[id].tabs.len() implies (#[trigger] dir[id].tabs[i]).matches(
            term,
        ) by {
            lemma_empty_term(dir[id].tabs[i].name);
        }
        lemma_matching_all(dir[id].tabs, term);
    }
    assert forall|id: usize| dir.contains_key(id) implies select(dir, term).contains_key(id)
        && select(dir, term)[id] == dir[id] by {
        assert(dir[id].tabs.len() > 0);
    }
    assert(select(dir, term) =~= dir);
}

/// To search twice for the same term is to search once.
pub proof fn lemma_select_twice(dir: Map<usize, WindowView>, term: Seq<char>)
    ensures
        select(select(dir, term), term) == select(dir, term),
{
    let once = select(dir, term);
    assert forall|id: usize| once.contains_key(id) implies select(once, term).contains_key(id)
        && select(once, term)[id] == once[id] by {
        lemma_matching_twice(dir[id].tabs, term);
    }
    assert(select(once, term) =~= once);
}

impl WindowList {
    /// A directory of copies of what `searchterm` selects: of each session
    /// the tabs whose name holds the term as a substring, and only the
    /// sessions of which a tab is left. The directory itself stays as it is.
    pub fn select_tabs(&self, searchterm: &str) -> (found: WindowList)
        ensures
            found@ == select(self@, searchterm@),
            no_empty_session(found@),
    {
        let ids = self.ids();
        let mut found = WindowList::new();
        let mut i: usize = 0;
        while i < ids.len()
            invariant
                i <= ids.len(),
                lists(ids@, self@),
                found@ == select(self@, searchterm@).restrict(ids@.take(i as int).to_set()),
            decreases ids.len() - i,
        {
            let id = ids[i];
            proof {
                assert(ids@.take(i + 1) =~= ids@.take(i as int).push(id));
                ids@.take(i as int).lemma_push_to_set_commute(id);
                assert(ids@.to_set().contains(id));
            }
            match self.get(id) {
                Some(window) => {
                    let kept = window.select(searchterm);
                    if !kept.is_empty() {
                        found.insert(id, kept);
                    }
                },
                None => {},
            }
            assert(found@ =~= select(self@, searchterm@).restrict(
                ids@.take(i + 1).to_set(),
            ));
            i = i + 1;
        }
        proof {
            assert(ids@.take(ids.len() as int) =~= ids@);
            assert(found@ =~= select(self@, searchterm@));
        }
        found
    }
}

} // verus!
