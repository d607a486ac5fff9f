//! The listing: a directory written out for the user, a heading for each
//! session and a line for each of its tabs.

use crate::digits::{decimal, decimal_digits};
use crate::directory::{lists, WindowList};
use crate::model::{Tab, TabView, Window, WindowView};
use crate::text::push_chars;
use vstd::prelude::*;

verus! {

/// The line of a tab: two spaces, the tab's index, a colon and a space, the
/// tab's name, and a line break.
pub open spec fn tab_line(tab: TabView) -> Seq<char> {
    "  "@ + decimal(tab.number as nat) + ": "@ + tab.name + "\n"@
}

/// The lines of `tabs`, in their order.
pub open spec fn tab_lines(tabs: Seq<TabView>) -> Seq<char>
    decreases tabs.len(),
{
    if tabs.len() == 0 {
        Seq::empty()
    } else {
        tab_lines(tabs.drop_last()) + tab_line(tabs.last())
    }
}

/// What marks the heading of a session to which a client is attached.
pub open spec fn attached_mark(attached: bool) -> Seq<char> {
    if attached {
        " (attached)"@
    } else {
        Seq::empty()
    }
}

/// The heading of a session: `Session: `, the session's id, the mark of an
/// attached client where there is one, and a line break.
pub open spec fn heading(id: usize, attached: bool) -> Seq<char> {
    "Session: "@ + decimal(id as nat) + attached_mark(attached) + "\n"@
}

/// What is written for a session: its heading, then the lines of its tabs.
pub open spec fn block(id: usize, window: WindowView) -> Seq<char> {
    heading(id, window.attached) + tab_lines(window.tabs)
}

/// What is written for the sessions of `dir` that `order` names, one after
/// the other as `order` names them. An id under which `dir` holds no session
/// adds nothing.
pub open spec fn listing(dir: Map<usize, WindowView>, order: Seq<usize>) -> Seq<char>
    decreases order.len(),
{
    if order.len() == 0 {
        Seq::empty()
    } else if dir.contains_key(order.last()) {
        listing(dir, order.drop_last()) + block(order.last(), dir[order.last()])
    } else {
        listing(dir, order.drop_last())
    }
}

impl Tab {
    /// Appends the tab's line to `out`.
    pub fn write_line(&self, out: &mut String)
        ensures
            final(out)@ == old(out)@ + tab_line(self@),
    {
        out.append("  ");
        let digits = decimal_digits(self.number);
        push_chars(out, &digits);
        out.append(": ");
        out.append(self.name.as_str());
        out.append("\n");
        assert(out@ =~= old(out)@ + tab_line(self@));
    }
}

impl Window {
    /// Appends to `out` what is written for the session under the id `id`.
    pub fn write_block(&self, id: usize, out: &mut String)
        ensures
            final(out)@ == old(out)@ + block(id, self@),
    {
        out.append("Session: ");
        let digits = decimal_digits(id);
        push_chars(out, &digits);
        if self.attached {
            out.append(" (attached)");
        }
        out.append("\n");
        assert(out@ =~= old(out)@ + heading(id, self.attached));
        let mut i: usize = 0;
        while i < self.tabs.len()
            invariant
                i <= self.tabs.len(),
                out@ == old(out)@ + heading(id, self.attached) + tab_lines(
                    self@.tabs.take(i as int),
                ),
            decreases self.tabs.len() - i,
        {
            proof {
                assert(self@.tabs.take(i + 1).drop_last() =~= self@.tabs.take(i as int));
                assert(self@.tabs.take(i + 1).last() == self.tabs[i as int]@);
            }
            self.tabs[i].write_line(out);
            assert(out@ =~= old(out)@ + heading(id, self.attached) + tab_lines(
                self@.tabs.take(i + 1),
            ));
            i = i + 1;
        }
        proof {
            assert(self@.tabs.take(self.tabs.len() as int) =~= self@.tabs);
            assert(out@ =~= old(out)@ + block(id, self@));
        }
    }
}

impl WindowList {
    /// What is written for the sessions that `order` names, one after the
    /// other as `order` names them.
    pub fn dump_in(&self, order: &Vec<usize>) -> (text: String)
        ensures
            text@ == listing(self@, order@),
    {
        let mut text = String::new();
        let mut i: usize = 0;
        while i < order.len()
            invariant
                i <= order.len(),
                text@ == listing(self@, order@.take(i as int)),
            decreases order.len() - i,
        {
            proof {
                assert(order@.take(i + 1).drop_last() =~= order@.take(i as int));
                assert(order@.take(i + 1).last() == order@[i as int]);
            }
            match self.get(order[i]) {
                Some(window) => {
                    window.write_block(order[i], &mut text);
                },
                None => {},
            }
            i = i + 1;
        }
        assert(order@.take(order.len() as int) =~= order@);
        text
    }

    /// What is written for the directory: each session once, in the order in
    /// which the directory happens to hold them.
    pub fn dump(&self) -> (text: String)
        ensures
            exists|order: Seq<usize>| lists(order, self@) && text@ == listing(self@, order),
    {
        let order = self.ids();
        self.dump_in(&order)
    }
}

} // verus!
