//! The dispatcher: the whole decision, one probe at a time.
//!
//! A [`Dispatch`] never looks at the file system. It names the next path
//! whose existence matters, takes the answer, and ends with the command to
//! launch or with nothing to do. Whoever drives it makes the probes, and only
//! the probes that the decision needs: Prettier's configurations are asked
//! about only once Biome's have all been ruled out.

use vstd::prelude::*;
use crate::path::FsPath;
use crate::path::PathView;
use crate::locator::Search;
use crate::locator::SearchAction;
use crate::locator::SearchView;
use crate::locator::first_present;
use crate::locator::listed;
use crate::locator::listing_view;
use crate::locator::lemma_step_keeps_outcome;
use crate::locator::probe_order;
use crate::selector::Formatter;
use crate::selector::Invocation;
use crate::selector::InvocationView;
use crate::selector::command_view;
use crate::selector::plan;

verus! {

/// The mathematical state of a dispatch.
pub struct DispatchView {
    /// The formatter whose configuration is being searched for.
    pub tool: Formatter,
    /// The search for that configuration.
    pub search: SearchView,
    /// The probes of the search that follows if this one finds nothing.
    pub fallback: Seq<PathView>,
    /// The file that the input stands for.
    pub target: Seq<char>,
}

impl DispatchView {
    /// The state before the first probe.
    pub open spec fn begin(start: PathView, boundary: PathView, target: Seq<char>) -> DispatchView {
        DispatchView {
            tool: Formatter::Biome,
            search: SearchView::begin(start, boundary, Formatter::Biome.spec_config_names()),
            fallback: probe_order(start, boundary, Formatter::Prettier.spec_config_names()),
            target,
        }.settle()
    }

    /// The path whose existence the dispatch asks about next, if it still
    /// asks.
    pub open spec fn pending(self) -> Option<PathView> {
        self.search.pending()
    }

    /// Whether the current search has ended without a file.
    pub open spec fn came_up_empty(self) -> bool {
        self.search.pending().is_none() && self.search.hit.is_none()
    }

    /// Whether the dispatch is not waiting to fall back: a search that has
    /// come up empty has none to follow it.
    pub open spec fn settled(self) -> bool {
        self.came_up_empty() ==> self.fallback.len() == 0
    }

    /// Moves on to the fallback search where the current one has come up
    /// empty.
    pub open spec fn settle(self) -> DispatchView {
        if self.settled() {
            self
        } else {
            DispatchView {
                tool: Formatter::Prettier,
                search: SearchView { remaining: self.fallback, hit: None },
                fallback: Seq::empty(),
                target: self.target,
            }
        }
    }

    /// The state after the answer `exists` to the pending probe.
    pub open spec fn step(self, exists: bool) -> DispatchView {
        DispatchView {
            tool: self.tool,
            search: self.search.step(exists),
            fallback: self.fallback,
            target: self.target,
        }.settle()
    }

    /// What the dispatch wants next.
    pub open spec fn action(self) -> ActionView {
        match self.pending() {
            Some(probe) => ActionView::Probe(probe),
            None => match self.search.hit {
                Some(config) => ActionView::Launch(
                    InvocationView::of(self.tool, config, self.target),
                ),
                None => ActionView::Nothing,
            },
        }
    }

    /// The command that the dispatch ends with if every remaining answer
    /// agrees with `fs`.
    pub open spec fn outcome(self, fs: Set<PathView>) -> Option<InvocationView> {
        match self.search.outcome(fs) {
            Some(config) => Some(InvocationView::of(self.tool, config, self.target)),
            None => match first_present(fs, self.fallback) {
                Some(config) => Some(InvocationView::of(Formatter::Prettier, config, self.target)),
                None => None,
            },
        }
    }
}

/// What a dispatch wants next.
#[derive(Debug, PartialEq, Eq)]
pub enum Action {
    /// Say whether this path exists.
    Probe(FsPath),
    /// The decision is made: launch this command.
    Launch(Invocation),
    /// The decision is made: there is nothing to launch.
    Nothing,
}

/// The mathematical value of an [`Action`].
pub enum ActionView {
    Probe(PathView),
    Launch(InvocationView),
    Nothing,
}

impl View for Action {
    type V = ActionView;

    open spec fn view(&self) -> ActionView {
        match self {
            Action::Probe(p) => ActionView::Probe(p@),
            Action::Launch(c) => ActionView::Launch(c@),
            Action::Nothing => ActionView::Nothing,
        }
    }
}

/// A dispatch in progress.
pub struct Dispatch {
    tool: Formatter,
    search: Search,
    start: FsPath,
    boundary: FsPath,
    target: String,
}

impl View for Dispatch {
    type V = DispatchView;

    closed spec fn view(&self) -> DispatchView {
        DispatchView {
            tool: self.tool,
            search: self.search@,
            fallback: match self.tool {
                Formatter::Biome => probe_order(
                    self.start@,
                    self.boundary@,
                    Formatter::Prettier.spec_config_names(),
                ),
                Formatter::Prettier => Seq::empty(),
            },
            target: self.target@,
        }
    }
}

impl Dispatch {
    #[verifier::type_invariant]
    spec fn never_waiting(self) -> bool {
        self@.settled()
    }

    /// Starts a dispatch for a process that works in `start`, whose searches
    /// are bounded by `boundary`, and whose input stands for `target`.
    pub fn new(start: FsPath, boundary: FsPath, target: String) -> (dispatch: Dispatch)
        ensures
            dispatch@ == DispatchView::begin(start@, boundary@, target@),
    {
        let search = Search::new(start.clone(), boundary.clone(), Formatter::Biome.config_names());
        Dispatch { tool: Formatter::Biome, search, start, boundary, target }
    }

    /// What the dispatch wants next.
    pub fn action(&self) -> (action: Action)
        ensures
            action@ == self@.action(),
            self@.settled(),
    {
        proof {
            use_type_invariant(self);
        }
        match self.search.action() {
            SearchAction::Probe(probe) => Action::Probe(probe),
            SearchAction::Found(config) => Action::Launch(
                self.tool.invocation(&config, self.target.as_str()),
            ),
            SearchAction::Absent => Action::Nothing,
        }
    }

    /// Takes the answer to the pending probe and moves on. A dispatch that
    /// has made its decision stays as it is.
    pub fn step(self, exists: bool) -> (next: Dispatch)
        ensures
            next@ == self@.step(exists),
    {
        let search = self.search.step(exists);
        let fall_back = match self.tool {
            Formatter::Biome => search.is_absent(),
            Formatter::Prettier => false,
        };
        if fall_back {
            let search = Search::new(
                self.start.clone(),
                self.boundary.clone(),
                Formatter::Prettier.config_names(),
            );
            Dispatch {
                tool: Formatter::Prettier,
                search,
                start: self.start,
                boundary: self.boundary,
                target: self.target,
            }
        } else {
            Dispatch {
                tool: self.tool,
                search,
                start: self.start,
                boundary: self.boundary,
                target: self.target,
            }
        }
    }
}

/// A fresh dispatch ends with the planned command.
pub proof fn lemma_begin_plan(
    fs: Set<PathView>,
    start: PathView,
    boundary: PathView,
    target: Seq<char>,
)
    ensures
        DispatchView::begin(start, boundary, target).settled(),
        DispatchView::begin(start, boundary, target).outcome(fs) == plan(
            fs,
            start,
            boundary,
            target,
        ),
{
}

/// An answer that agrees with the file system does not change the command
/// that the dispatch ends with, and leaves the dispatch settled.
pub proof fn lemma_step_keeps_plan(state: DispatchView, fs: Set<PathView>, exists: bool)
    requires
        state.pending() matches Some(probe) ==> exists == fs.contains(probe),
    ensures
        state.step(exists).settled(),
        state.step(exists).outcome(fs) == state.outcome(fs),
{
    lemma_step_keeps_outcome(state.search, fs, exists);
    assert(first_present(fs, Seq::empty()).is_none());
}

/// A settled dispatch that asks nothing more has made its decision: its
/// action is to launch the command it ends with, or nothing where there is
/// none, whatever the file system holds.
pub proof fn lemma_decided(state: DispatchView, fs: Set<PathView>)
    requires
        state.settled(),
        state.pending().is_none(),
    ensures
        match state.outcome(fs) {
            Some(command) => state.action() == ActionView::Launch(command),
            None => state.action() == ActionView::Nothing,
        },
{
}

/// Chooses the command to run for a process that works in `start`, given the
/// files in `existing`: Biome's where a `biome.json` is located between
/// `start` and `boundary`, else Prettier's where one of its configurations
/// is, else none.
pub fn select_tool(start: &FsPath, boundary: &FsPath, target: &str, existing: &Vec<FsPath>) -> (command:
    Option<Invocation>)
    ensures
        command_view(command) == plan(listing_view(existing@), start@, boundary@, target@),
{
    let ghost fs = listing_view(existing@);
    let ghost wanted = plan(fs, start@, boundary@, target@);
    let mut dispatch = Dispatch::new(start.clone(), boundary.clone(), target.to_owned());
    proof {
        lemma_begin_plan(fs, start@, boundary@, target@);
    }
    loop
        invariant
            fs == listing_view(existing@),
            wanted == plan(fs, start@, boundary@, target@),
            dispatch@.outcome(fs) == wanted,
        decreases dispatch@.search.remaining.len() + dispatch@.fallback.len(),
    {
        match dispatch.action() {
            Action::Probe(probe) => {
                let exists = listed(existing, &probe);
                proof {
                    lemma_step_keeps_plan(dispatch@, fs, exists);
                }
                dispatch = dispatch.step(exists);
            },
            Action::Launch(command) => {
                proof {
                    lemma_decided(dispatch@, fs);
                }
                return Some(command);
            },
            Action::Nothing => {
                proof {
                    lemma_decided(dispatch@, fs);
                }
                return None;
            },
        }
    }
}

} // verus!
