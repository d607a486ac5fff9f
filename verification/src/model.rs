//! The two kinds of entry in a directory: a tab, which is one window of the
//! multiplexer, and the session that owns a sequence of tabs.

use crate::text::{contains, is_substring};
use vstd::prelude::*;

verus! {

/// A tab as a mathematical value.
pub struct TabView {
    pub name: Seq<char>,
    pub number: usize,
    pub panes: usize,
}

/// A session as a mathematical value: its tabs in the order in which they
/// were found, and whether a client is attached to it.
pub struct WindowView {
    pub tabs: Seq<TabView>,
    pub attached: bool,
}

impl TabView {
    /// Whether the tab's name holds `term` as a substring.
    pub open spec fn matches(self, term: Seq<char>) -> bool {
        is_substring(term, self.name)
    }
}

/// The test that [`matching`] keeps tabs by.
pub open spec fn name_holds(term: Seq<char>) -> spec_fn(TabView) -> bool {
    |t: TabView| t.matches(term)
}

/// The tabs of `tabs` whose name holds `term`, in their order.
pub open spec fn matching(tabs: Seq<TabView>, term: Seq<char>) -> Seq<TabView> {
    tabs.filter(name_holds(term))
}

impl WindowView {
    /// The session with only those tabs whose name holds `term`.
    pub open spec fn select(self, term: Seq<char>) -> WindowView {
        WindowView { tabs: matching(self.tabs, term), attached: self.attached }
    }

    /// The session with `tab` added after its tabs.
    pub open spec fn push(self, tab: TabView) -> WindowView {
        WindowView { tabs: self.tabs.push(tab), attached: self.attached }
    }
}

/// One window of a session: its name, its index within the session, and the
/// number of panes it is split into.
#[derive(Debug)]
pub struct Tab {
    pub name: String,
    pub number: usize,
    pub panes: usize,
}

impl View for Tab {
    type V = TabView;

    open spec fn view(&self) -> TabView {
        TabView { name: self.name@, number: self.number, panes: self.panes }
    }
}

impl Clone for Tab {
    /// A copy that shares nothing with this tab.
    fn clone(&self) -> (copy: Tab)
        ensures
            copy == *self,
    {
        Tab { name: self.name.clone(), number: self.number, panes: self.panes }
    }
}

impl Tab {
    /// A tab with a copy of `name`.
    pub fn new(name: &str, number: usize, panes: usize) -> (tab: Tab)
        ensures
            tab@ == (TabView { name: name@, number, panes }),
    {
        Tab { name: name.to_owned(), number, panes }
    }

    /// Whether the tab's name holds `term` as a substring.
    pub fn matches(&self, term: &str) -> (found: bool)
        ensures
            found == self@.matches(term@),
    {
        contains(self.name.as_str(), term)
    }
}

/// The views of a sequence of tabs.
pub open spec fn tab_views(tabs: Seq<Tab>) -> Seq<TabView> {
    tabs.map_values(|t: Tab| t@)
}

/// A session: its tabs in the order in which they were found, and whether a
/// client is attached to it.
#[derive(Debug)]
pub struct Window {
    pub tabs: Vec<Tab>,
    pub attached: bool,
}

impl View for Window {
    type V = WindowView;

    open spec fn view(&self) -> WindowView {
        WindowView { tabs: tab_views(self.tabs@), attached: self.attached }
    }
}

impl Window {
    /// A session that holds `tabs`.
    pub fn new(tabs: Vec<Tab>, attached: bool) -> (window: Window)
        ensures
            window.tabs == tabs,
            window.attached == attached,
    {
        Window { tabs, attached }
    }

    /// Adds `tab` after the tabs that the session holds.
    pub fn push(&mut self, tab: Tab)
        ensures
            final(self).tabs@ == old(self).tabs@.push(tab),
            final(self).attached == old(self).attached,
            final(self)@ == old(self)@.push(tab@),
    {
        self.tabs.push(tab);
        assert(tab_views(self.tabs@) =~= tab_views(old(self).tabs@).push(tab@));
    }

    /// Whether the session holds no tab.
    pub fn is_empty(&self) -> (none: bool)
        ensures
            none == (self@.tabs.len() == 0),
    {
        self.tabs.len() == 0
    }

    /// Whether the session holds no tab; the same as [`Window::is_empty`].
    pub fn empty(&self) -> (none: bool)
        ensures
            none == (self@.tabs.len() == 0),
    {
        self.is_empty()
    }

    /// A session with copies of those tabs whose name holds `term`, in their
    /// order, and with the same attached flag.
    pub fn select(&self, term: &str) -> (found: Window)
        ensures
            found@ == self@.select(term@),
    {
        let mut found = Window::new(Vec::new(), self.attached);
        let mut i: usize = 0;
        while i < self.tabs.len()
            invariant
                i <= self.tabs.len(),
                found.attached == self.attached,
                found@.tabs == matching(self@.tabs.take(i as int), term@),
            decreases self.tabs.len() - i,
        {
            let tab = &self.tabs[i];
            proof {
                assert(self@.tabs.take(i + 1) =~= self@.tabs.take(i as int).push(tab@));
                self@.tabs.take(i as int).lemma_filter_push(tab@, name_holds(term@));
            }
            if tab.matches(term) {
                found.push(tab.clone());
            }
            i = i + 1;
        }
        proof {
            assert(self@.tabs.take(self.tabs.len() as int) =~= self@.tabs);
        }
        found
    }
}

} // verus!
