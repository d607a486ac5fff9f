//! What a run does: which command the flags ask for, and which request to the
//! multiplexer a selection allows.

use crate::digits::{decimal, decimal_digits};
use crate::directory::{lists, WindowList};
use crate::error::{Cardinality, Error, ErrorView, Query};
use crate::model::WindowView;
use crate::render::listing;
use crate::search::select;
use crate::text::push_chars;
use vstd::prelude::*;

verus! {

/// A request to the multiplexer. It is issued and not waited for.
#[derive(Debug, Clone, Copy, PartialEq, Eq, Structural)]
pub enum Request {
    /// Move the window with the index `index` of the session `session` to
    /// where the user is.
    MoveWindow { session: usize, index: usize },
    /// Attach the user's terminal to the session `session`.
    AttachSession { session: usize },
}

/// What can be done with a directory.
#[derive(Debug, Clone, Copy, PartialEq, Eq, Structural)]
pub enum Action {
    /// Write out the directory, or what the search term selects of it.
    List,
    /// Move the one window that the search term selects to where the user is.
    Relocate,
    /// Attach to the one session that the search term selects.
    Attach,
}

/// What the user asks for.
#[derive(Debug, Clone, Copy, PartialEq, Eq, Structural)]
pub enum Command {
    /// Explain the usage, and ask the multiplexer nothing.
    Help,
    /// Build the directory and do `action` with it.
    Act { action: Action },
}

/// What is to be done for the user once the directory is built.
#[derive(Debug)]
pub enum Outcome {
    /// Write the text to the user.
    Print { text: String },
    /// Issue the request to the multiplexer.
    Issue { request: Request },
}

/// An outcome as a mathematical value.
pub enum OutcomeView {
    Print { text: Seq<char> },
    Issue { request: Request },
}

impl View for Outcome {
    type V = OutcomeView;

    open spec fn view(&self) -> OutcomeView {
        match *self {
            Outcome::Print { text } => OutcomeView::Print { text: text@ },
            Outcome::Issue { request } => OutcomeView::Issue { request },
        }
    }
}

/// Which command the flags ask for, if they agree. Help comes before all
/// else. To ask both to move a window and to attach to a session is a
/// contradiction. Without a search term the directory is listed, whichever
/// of the two is asked.
pub open spec fn command_of(help: bool, get: bool, attach: bool, term: bool) -> Option<Command> {
    if help {
        Some(Command::Help)
    } else if get && attach {
        None
    } else if term && get {
        Some(Command::Act { action: Action::Relocate })
    } else if term && attach {
        Some(Command::Act { action: Action::Attach })
    } else {
        Some(Command::Act { action: Action::List })
    }
}

/// Executable form of [`command_of`]: `None` where the flags contradict
/// each other.
pub fn command(help: bool, get: bool, attach: bool, term: bool) -> (asked: Option<Command>)
    ensures
        asked == command_of(help, get, attach, term),
{
    if help {
        Some(Command::Help)
    } else if get && attach {
        None
    } else if term && get {
        Some(Command::Act { action: Action::Relocate })
    } else if term && attach {
        Some(Command::Act { action: Action::Attach })
    } else {
        Some(Command::Act { action: Action::List })
    }
}

/// What an action works on: what the search term selects of `dir`, or `dir`
/// itself where there is no term.
pub open spec fn chosen(dir: Map<usize, WindowView>, term: Option<Seq<char>>) -> Map<
    usize,
    WindowView,
> {
    match term {
        Some(t) => select(dir, t),
        None => dir,
    }
}

/// Whether `outcome` is what `action` comes to on the directory `dir`: for a
/// listing the text of `dir` in some order of its sessions, for the others
/// the request that `dir` allows, or the failure that says why it allows
/// none.
pub open spec fn comes_to(
    dir: Map<usize, WindowView>,
    action: Action,
    outcome: Result<OutcomeView, ErrorView>,
) -> bool {
    match action {
        Action::List => exists|order: Seq<usize>|
            lists(order, dir) && outcome == Ok::<_, ErrorView>(
                OutcomeView::Print { text: listing(dir, order) },
            ),
        Action::Relocate => outcome == answer(relocation(dir)),
        Action::Attach => outcome == answer(attachment(dir)),
    }
}

/// The outcome for a request that a directory allows or fails to allow.
pub open spec fn answer(made: Result<Request, Cardinality>) -> Result<OutcomeView, ErrorView> {
    match made {
        Ok(request) => Ok(OutcomeView::Issue { request }),
        Err(found) => Err(ErrorView::Cardinality { found }),
    }
}

/// Whether `dir` holds exactly one session.
pub open spec fn one_session(dir: Map<usize, WindowView>) -> bool {
    dir.dom().finite() && dir.dom().len() == 1
}

/// Whether `dir` holds exactly one session, and that session exactly one
/// window.
pub open spec fn one_window(dir: Map<usize, WindowView>) -> bool {
    one_session(dir) && dir[dir.dom().choose()].tabs.len() == 1
}

/// The request that attaches to the one session of `dir`, or in which way
/// `dir` fails to hold exactly one.
pub open spec fn attachment(dir: Map<usize, WindowView>) -> Result<Request, Cardinality> {
    if dir.dom().len() == 0 {
        Err(Cardinality::NoSession)
    } else if dir.dom().len() > 1 {
        Err(Cardinality::ManySessions)
    } else {
        Ok(Request::AttachSession { session: dir.dom().choose() })
    }
}

/// The request that moves the one window of the one session of `dir`, or in
/// which way `dir` fails to hold exactly one of each.
pub open spec fn relocation(dir: Map<usize, WindowView>) -> Result<Request, Cardinality> {
    let id = dir.dom().choose();
    if dir.dom().len() == 0 {
        Err(Cardinality::NoSession)
    } else if dir.dom().len() > 1 {
        Err(Cardinality::ManySessions)
    } else if dir[id].tabs.len() == 0 {
        Err(Cardinality::NoWindow)
    } else if dir[id].tabs.len() > 1 {
        Err(Cardinality::ManyWindows)
    } else {
        Ok(Request::MoveWindow { session: id, index: dir[id].tabs[0].number })
    }
}

/// A directory allows to attach exactly where it holds one session, and to
/// move a window exactly where that session holds one window. The request
/// names the session, and the window, that stand alone.
pub proof fn lemma_requests(dir: Map<usize, WindowView>)
    requires
        dir.dom().finite(),
    ensures
        attachment(dir) is Ok <==> one_session(dir),
        relocation(dir) is Ok <==> one_window(dir),
        forall|id: usize|
            one_session(dir) && dir.contains_key(id) ==> attachment(dir) == Ok::<_, Cardinality>(
                Request::AttachSession { session: id },
            ),
        forall|id: usize|
            one_window(dir) && dir.contains_key(id) ==> relocation(dir) == Ok::<_, Cardinality>(
                Request::MoveWindow { session: id, index: dir[id].tabs[0].number },
            ),
{
    assert forall|id: usize| one_session(dir) && dir.contains_key(id) implies dir.dom().choose()
        == id by {
        lemma_only(dir.dom(), id);
    }
}

/// The one element of a set of one element is the element that is chosen.
pub proof fn lemma_only(ids: Set<usize>, id: usize)
    requires
        ids.finite(),
        ids.len() == 1,
        ids.contains(id),
    ensures
        ids.choose() == id,
        ids == set![id],
{
    let rest = ids.remove(id);
    assert(rest.len() == 0);
    assert(rest =~= Set::empty());
    assert(ids.contains(ids.choose()));
    if ids.choose() != id {
        assert(rest.contains(ids.choose()));
    }
    assert(ids =~= set![id]);
}

impl Request {
    /// What names the target of the request to the multiplexer: the session's
    /// id, and for a window its index after a colon.
    pub open spec fn target_of(self) -> Seq<char> {
        match self {
            Request::MoveWindow { session, index } => decimal(session as nat) + ":"@ + decimal(
                index as nat,
            ),
            Request::AttachSession { session } => decimal(session as nat),
        }
    }

    /// Executable form of [`Request::target_of`].
    pub fn target(&self) -> (name: String)
        ensures
            name@ == self.target_of(),
    {
        let mut name = String::new();
        match *self {
            Request::MoveWindow { session, index } => {
                let digits = decimal_digits(session);
                push_chars(&mut name, &digits);
                name.append(":");
                let digits = decimal_digits(index);
                push_chars(&mut name, &digits);
                assert(name@ =~= self.target_of());
            },
            Request::AttachSession { session } => {
                let digits = decimal_digits(session);
                push_chars(&mut name, &digits);
                assert(name@ =~= self.target_of());
            },
        }
        name
    }
}

/// The views of a sequence of strings.
pub open spec fn strings(words: Seq<String>) -> Seq<Seq<char>> {
    words.map_values(|word: String| word@)
}

/// The three words `a`, `b` and `c` as strings of their own.
fn three(a: &str, b: &str, c: &str) -> (words: Vec<String>)
    ensures
        strings(words@) == seq![a@, b@, c@],
{
    let mut words: Vec<String> = Vec::new();
    words.push(a.to_owned());
    words.push(b.to_owned());
    words.push(c.to_owned());
    assert(strings(words@) =~= seq![a@, b@, c@]);
    words
}

/// The name of the multiplexer's program.
pub fn program() -> (name: &'static str)
    ensures
        name@ == "tmux"@,
{
    "tmux"
}

impl Query {
    /// The arguments with which the multiplexer gives the listing. The
    /// session listing is asked for in the form that the grammar of session
    /// lines describes: name, number of windows, number of attached clients.
    pub open spec fn arguments_of(self) -> Seq<Seq<char>> {
        match self {
            Query::Sessions => seq![
                "list-sessions"@,
                "-F"@,
                "#{session_name} #{session_windows} #{session_attached}"@,
            ],
            Query::Windows => seq!["list-windows"@, "-a"@],
        }
    }

    /// Executable form of [`Query::arguments_of`].
    pub fn arguments(self) -> (words: Vec<String>)
        ensures
            strings(words@) == self.arguments_of(),
    {
        match self {
            Query::Sessions => three(
                "list-sessions",
                "-F",
                "#{session_name} #{session_windows} #{session_attached}",
            ),
            Query::Windows => {
                let mut words: Vec<String> = Vec::new();
                words.push("list-windows".to_owned());
                words.push("-a".to_owned());
                assert(strings(words@) =~= seq!["list-windows"@, "-a"@]);
                words
            },
        }
    }
}

impl Request {
    /// The arguments with which the multiplexer takes the request.
    pub open spec fn arguments_of(self) -> Seq<Seq<char>> {
        match self {
            Request::MoveWindow { .. } => seq!["move-window"@, "-s"@, self.target_of()],
            Request::AttachSession { .. } => seq!["attach-session"@, "-t"@, self.target_of()],
        }
    }

    /// Executable form of [`Request::arguments_of`].
    pub fn arguments(&self) -> (words: Vec<String>)
        ensures
            strings(words@) == self.arguments_of(),
    {
        let target = self.target();
        match *self {
            Request::MoveWindow { .. } => three("move-window", "-s", target.as_str()),
            Request::AttachSession { .. } => three("attach-session", "-t", target.as_str()),
        }
    }
}

impl WindowList {
    /// The request that attaches to the session of the directory, which must
    /// be the only one. How many tabs it holds does not matter.
    pub fn attach_cmd(&self) -> (made: Result<Request, Error>)
        ensures
            match made {
                Ok(request) => attachment(self@) == Ok::<_, Cardinality>(request),
                Err(e) => attachment(self@) is Err && e@ == (ErrorView::Cardinality {
                    found: attachment(self@)->Err_0,
                }),
            },
            made is Ok <==> one_session(self@),
    {
        proof {
            self.lemma_finite();
            lemma_requests(self@);
        }
        let ids = self.ids();
        proof {
            ids@.unique_seq_to_set();
        }
        if ids.len() == 0 {
            Err(Error::Cardinality { found: Cardinality::NoSession })
        } else if ids.len() > 1 {
            Err(Error::Cardinality { found: Cardinality::ManySessions })
        } else {
            assert(self@.contains_key(ids@[0])) by {
                assert(ids@.to_set().contains(ids@[0]));
            }
            Ok(Request::AttachSession { session: ids[0] })
        }
    }

    /// The request that moves the window of the directory, which must be the
    /// only window of the only session.
    pub fn get_cmd(&self) -> (made: Result<Request, Error>)
        ensures
            match made {
                Ok(request) => relocation(self@) == Ok::<_, Cardinality>(request),
                Err(e) => relocation(self@) is Err && e@ == (ErrorView::Cardinality {
                    found: relocation(self@)->Err_0,
                }),
            },
            made is Ok <==> one_window(self@),
    {
        proof {
            self.lemma_finite();
            lemma_requests(self@);
        }
        let ids = self.ids();
        proof {
            ids@.unique_seq_to_set();
        }
        if ids.len() == 0 {
            return Err(Error::Cardinality { found: Cardinality::NoSession });
        }
        if ids.len() > 1 {
            return Err(Error::Cardinality { found: Cardinality::ManySessions });
        }
        let id = ids[0];
        assert(self@.contains_key(id)) by {
            assert(ids@.to_set().contains(ids@[0]));
        }
        proof {
            lemma_only(self@.dom(), id);
        }
        match self.get(id) {
            Some(window) => {
                if window.tabs.len() == 0 {
                    Err(Error::Cardinality { found: Cardinality::NoWindow })
                } else if window.tabs.len() > 1 {
                    Err(Error::Cardinality { found: Cardinality::ManyWindows })
                } else {
                    assert(window@.tabs[0] == window.tabs[0]@);
                    Ok(Request::MoveWindow { session: id, index: window.tabs[0].number })
                }
            },
            None => Err(Error::Cardinality { found: Cardinality::NoSession }),
        }
    }

    /// Does `action` with what `term` selects of the directory, or with the
    /// directory itself where there is no term: the text to write, or the
    /// request to issue.
    pub fn perform(&self, action: Action, term: Option<&str>) -> (done: Result<Outcome, Error>)
        ensures
            comes_to(
                chosen(
                    self@,
                    match term {
                        Some(t) => Some(t@),
                        None => None,
                    },
                ),
                action,
                match done {
                    Ok(outcome) => Ok(outcome@),
                    Err(e) => Err(e@),
                },
            ),
    {
        match term {
            Some(t) => self.select_tabs(t).act(action),
            None => self.act(action),
        }
    }

    /// Does `action` with the directory.
    pub fn act(&self, action: Action) -> (done: Result<Outcome, Error>)
        ensures
            comes_to(
                self@,
                action,
                match done {
                    Ok(outcome) => Ok(outcome@),
                    Err(e) => Err(e@),
                },
            ),
    {
        match action {
            Action::List => Ok(Outcome::Print { text: self.dump() }),
            Action::Relocate => match self.get_cmd() {
                Ok(request) => Ok(Outcome::Issue { request }),
                Err(e) => Err(e),
            },
            Action::Attach => match self.attach_cmd() {
                Ok(request) => Ok(Outcome::Issue { request }),
                Err(e) => Err(e),
            },
        }
    }
}

} // verus!
