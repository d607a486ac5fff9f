//! The directory: the sessions of the multiplexer, each found by its id.

use crate::model::{Tab, TabView, Window, WindowView};
use std::collections::HashMap;
use vstd::std_specs::hash::spec_keys_iter;
use vstd::std_specs::iter::IteratorSpec;
use vstd::prelude::*;

verus! {

broadcast use vstd::std_specs::hash::group_hash_axioms;

/// A session that holds `tab` alone and has no client attached.
pub open spec fn lone(tab: TabView) -> WindowView {
    WindowView { tabs: seq![tab], attached: false }
}

/// The directory `dir` after `tab` was filed under the session `id`: added
/// after the session's tabs where the directory holds the session, and as the
/// only tab of a new session without a client where it does not.
pub open spec fn with_tab(dir: Map<usize, WindowView>, id: usize, tab: TabView) -> Map<
    usize,
    WindowView,
> {
    if dir.contains_key(id) {
        dir.insert(id, dir[id].push(tab))
    } else {
        dir.insert(id, lone(tab))
    }
}

/// Whether `order` names each session of `dir` once, and nothing else.
pub open spec fn lists(order: Seq<usize>, dir: Map<usize, WindowView>) -> bool {
    order.no_duplicates() && order.to_set() == dir.dom()
}

/// The sessions of the multiplexer by id. The view is the map from each id to
/// its session's view.
#[derive(Debug)]
pub struct WindowList {
    sessions: HashMap<usize, Window>,
}

impl View for WindowList {
    type V = Map<usize, WindowView>;

    closed spec fn view(&self) -> Map<usize, WindowView> {
        self.sessions@.map_values(|w: Window| w@)
    }
}

impl WindowList {
    /// A directory without sessions.
    pub fn new() -> (list: WindowList)
        ensures
            list@ == Map::<usize, WindowView>::empty(),
    {
        let list = WindowList { sessions: HashMap::new() };
        assert(list@ =~= Map::<usize, WindowView>::empty());
        list
    }

    /// A directory is finite.
    pub proof fn lemma_finite(&self)
        ensures
            self@.dom().finite(),
    {
        assert(self@.dom() =~= self.sessions@.dom());
    }

    /// The number of sessions.
    pub fn len(&self) -> (n: usize)
        ensures
            n == self@.dom().len(),
    {
        assert(self@.dom() =~= self.sessions@.dom());
        self.sessions.len()
    }

    /// Whether the directory holds a session with the id `id`.
    pub fn contains(&self, id: usize) -> (held: bool)
        ensures
            held == self@.contains_key(id),
    {
        self.sessions.contains_key(&id)
    }

    /// The session with the id `id`, if the directory holds one.
    pub fn get(&self, id: usize) -> (found: Option<&Window>)
        ensures
            match found {
                Some(window) => self@.contains_key(id) && self@[id] == window@,
                None => !self@.contains_key(id),
            },
    {
        self.sessions.get(&id)
    }

    /// Files `window` under `id`, in place of the session that the directory
    /// held under that id, if any.
    pub fn insert(&mut self, id: usize, window: Window)
        ensures
            final(self)@ == old(self)@.insert(id, window@),
    {
        self.sessions.insert(id, window);
        assert(self@ =~= old(self)@.insert(id, window@));
    }

    /// The ids of the sessions, each once, in the order in which the
    /// directory happens to hold them.
    pub fn ids(&self) -> (ids: Vec<usize>)
        ensures
            lists(ids@, self@),
    {
        let mut ids: Vec<usize> = Vec::new();
        for id in it: self.sessions.keys()
            invariant
                ids@ == it.seq().unref().take(it.index()),
                it.seq() == spec_keys_iter(&self.sessions).remaining(),
        {
            ids.push(*id);
        }
        proof {
            let keys = spec_keys_iter(&self.sessions).remaining();
            assert(ids@ =~= keys.unref());
            assert forall|i: int, j: int| 0 <= i < j < ids@.len() implies ids@[i] != ids@[j] by {
                assert(keys[i] != keys[j]);
            }
            assert(self@.dom() =~= self.sessions@.dom());
        }
        ids
    }

    /// Files `tab` under the session `win`: after the session's tabs where
    /// the directory holds the session, and as the only tab of a new session
    /// without a client where it does not.
    pub fn insert_or_push(&mut self, win: usize, tab: Tab)
        ensures
            final(self)@ == with_tab(old(self)@, win, tab@),
    {
        match self.sessions.remove(&win) {
            Some(mut window) => {
                assert(old(self)@.contains_key(win) && old(self)@[win] == window@);
                window.push(tab);
                self.sessions.insert(win, window);
                assert(self@ =~= old(self)@.insert(win, old(self)@[win].push(tab@)));
            },
            None => {
                assert(!old(self)@.contains_key(win));
                let mut tabs: Vec<Tab> = Vec::new();
                tabs.push(tab);
                let window = Window::new(tabs, false);
                assert(window@.tabs =~= seq![tab@]);
                self.sessions.insert(win, window);
                assert(self@ =~= old(self)@.insert(win, lone(tab@)));
            },
        }
    }
}

} // verus!
