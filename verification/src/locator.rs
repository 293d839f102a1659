//! The configuration locator: an upward search through the directory tree.
//!
//! The search asks, for one directory after another, whether any of a list of
//! candidate file names exists there. It starts in a given directory, moves to
//! the parent when none of the names is present, and gives up once it has
//! looked in the boundary directory or has run out of parents.
//!
//! The file system itself is never touched here. [`Search`] is a state
//! machine: it names the next path to probe, takes the answer, and moves on.
//! [`get_file_path`] runs the same machine against a listing that the caller
//! already holds.

use vstd::prelude::*;
use crate::path::FsPath;
use crate::path::PathView;
use crate::path::strings_view;
use crate::path::clone_strings;

verus! {

/// The candidate files of one directory, in the order of `names`.
pub open spec fn candidates(dir: PathView, names: Seq<Seq<char>>) -> Seq<PathView> {
    Seq::new(names.len(), |i: int| dir.join(names[i]))
}

/// Whether the search ends with `dir`: it is the boundary, or has no parent.
pub open spec fn stops_at(dir: PathView, boundary: PathView) -> bool {
    dir == boundary || !dir.has_parent()
}

/// The directories that the search visits, nearest first.
pub open spec fn chain(dir: PathView, boundary: PathView) -> Seq<PathView>
    decreases dir.segments.len(),
{
    if stops_at(dir, boundary) {
        seq![dir]
    } else {
        seq![dir] + chain(dir.parent(), boundary)
    }
}

/// Every path that the search may probe, in the order in which it does:
/// all candidates of the starting directory, then those of its parent, and so
/// on up to the last directory of the chain.
pub open spec fn probe_order(dir: PathView, boundary: PathView, names: Seq<Seq<char>>) -> Seq<
    PathView,
>
    decreases dir.segments.len(),
{
    if stops_at(dir, boundary) {
        candidates(dir, names)
    } else {
        candidates(dir, names) + probe_order(dir.parent(), boundary, names)
    }
}

/// The first of `probes` that is among the existing files `fs`.
pub open spec fn first_present(fs: Set<PathView>, probes: Seq<PathView>) -> Option<PathView>
    decreases probes.len(),
{
    if probes.len() == 0 {
        None
    } else if fs.contains(probes[0]) {
        Some(probes[0])
    } else {
        first_present(fs, probes.drop_first())
    }
}

/// What the locator finds in a file system whose existing files are `fs`.
pub open spec fn locate(
    fs: Set<PathView>,
    start: PathView,
    boundary: PathView,
    names: Seq<Seq<char>>,
) -> Option<PathView> {
    first_present(fs, probe_order(start, boundary, names))
}

/// The mathematical state of a search: the probes still to make, the pending
/// one first, and the file found, once there is one.
pub struct SearchView {
    pub remaining: Seq<PathView>,
    pub hit: Option<PathView>,
}

impl SearchView {
    /// The state before the first probe.
    pub open spec fn begin(start: PathView, boundary: PathView, names: Seq<Seq<char>>) -> SearchView {
        SearchView { remaining: probe_order(start, boundary, names), hit: None }
    }

    /// The path whose existence the search asks about next, if it still asks.
    pub open spec fn pending(self) -> Option<PathView> {
        if self.hit.is_none() && self.remaining.len() > 0 {
            Some(self.remaining[0])
        } else {
            None
        }
    }

    /// What the search wants next.
    pub open spec fn action(self) -> SearchActionView {
        match self.pending() {
            Some(probe) => SearchActionView::Probe(probe),
            None => match self.hit {
                Some(found) => SearchActionView::Found(found),
                None => SearchActionView::Absent,
            },
        }
    }

    /// The state after the answer `exists` to the pending probe. A search that
    /// asks nothing stays as it is.
    pub open spec fn step(self, exists: bool) -> SearchView {
        if self.pending().is_none() {
            self
        } else if exists {
            SearchView { remaining: Seq::empty(), hit: Some(self.remaining[0]) }
        } else {
            SearchView { remaining: self.remaining.drop_first(), hit: None }
        }
    }

    /// Where the search ends if every remaining answer agrees with `fs`.
    pub open spec fn outcome(self, fs: Set<PathView>) -> Option<PathView> {
        match self.hit {
            Some(found) => Some(found),
            None => first_present(fs, self.remaining),
        }
    }
}

/// What a search wants next.
#[derive(Debug, PartialEq, Eq)]
pub enum SearchAction {
    /// Say whether this path exists.
    Probe(FsPath),
    /// The search is over: this file was found.
    Found(FsPath),
    /// The search is over: no candidate exists.
    Absent,
}

/// The mathematical value of a [`SearchAction`].
pub enum SearchActionView {
    Probe(PathView),
    Found(PathView),
    Absent,
}

impl View for SearchAction {
    type V = SearchActionView;

    open spec fn view(&self) -> SearchActionView {
        match self {
            SearchAction::Probe(p) => SearchActionView::Probe(p@),
            SearchAction::Found(p) => SearchActionView::Found(p@),
            SearchAction::Absent => SearchActionView::Absent,
        }
    }
}

/// An upward search in progress.
pub struct Search {
    dir: FsPath,
    boundary: FsPath,
    names: Vec<String>,
    index: usize,
    hit: Option<FsPath>,
    exhausted: bool,
}

impl View for Search {
    type V = SearchView;

    closed spec fn view(&self) -> SearchView {
        SearchView {
            remaining: if self.hit.is_some() || self.exhausted {
                Seq::empty()
            } else {
                probe_order(self.dir@, self.boundary@, strings_view(self.names@)).skip(
                    self.index as int,
                )
            },
            hit: match self.hit {
                Some(found) => Some(found@),
                None => None,
            },
        }
    }
}

/// With no names to look for there is nothing to probe.
proof fn lemma_no_names_no_probes(dir: PathView, boundary: PathView)
    ensures
        probe_order(dir, boundary, Seq::empty()) == Seq::<PathView>::empty(),
    decreases dir.segments.len(),
{
    assert(candidates(dir, Seq::empty()) =~= Seq::<PathView>::empty());
    if !stops_at(dir, boundary) {
        lemma_no_names_no_probes(dir.parent(), boundary);
    }
}

impl Search {
    #[verifier::type_invariant]
    spec fn cursor_on_probe(self) -> bool {
        self.hit.is_none() && !self.exhausted ==> self.index < self.names.len()
    }

    /// Starts a search in `start` for any of `names`, bounded by `boundary`.
    pub fn new(start: FsPath, boundary: FsPath, names: Vec<String>) -> (search: Search)
        ensures
            search@ == SearchView::begin(start@, boundary@, strings_view(names@)),
    {
        let exhausted = names.len() == 0;
        proof {
            let probes = probe_order(start@, boundary@, strings_view(names@));
            if exhausted {
                assert(strings_view(names@) =~= Seq::empty());
                lemma_no_names_no_probes(start@, boundary@);
            } else {
                assert(probes.skip(0) =~= probes);
            }
        }
        Search { dir: start, boundary, names, index: 0, hit: None, exhausted }
    }

    /// What the search wants next.
    pub fn action(&self) -> (action: SearchAction)
        ensures
            action@ == self@.action(),
    {
        proof {
            use_type_invariant(self);
        }
        match &self.hit {
            Some(found) => SearchAction::Found(found.clone()),
            None => if self.exhausted {
                SearchAction::Absent
            } else {
                SearchAction::Probe(self.dir.join(self.names[self.index].as_str()))
            },
        }
    }

    /// Whether the search is over without a file found.
    pub fn is_absent(&self) -> (absent: bool)
        ensures
            absent == (self@.pending().is_none() && self@.hit.is_none()),
    {
        proof {
            use_type_invariant(self);
            let probes = probe_order(self.dir@, self.boundary@, strings_view(self.names@));
            assert(self.index < self.names.len() ==> probes.skip(self.index as int).len() > 0);
        }
        self.hit.is_none() && self.exhausted
    }

    /// Takes the answer to the pending probe and moves on.
    pub fn step(self, exists: bool) -> (next: Search)
        ensures
            next@ == self@.step(exists),
    {
        proof {
            use_type_invariant(&self);
        }
        if self.hit.is_some() || self.exhausted {
            return self;
        }
        let ghost names = strings_view(self.names@);
        let ghost here = probe_order(self.dir@, self.boundary@, names);
        assert(here.skip(self.index as int).drop_first() =~= here.skip(self.index + 1));
        if exists {
            let found = self.dir.join(self.names[self.index].as_str());
            Search {
                dir: self.dir,
                boundary: self.boundary,
                names: self.names,
                index: self.index,
                hit: Some(found),
                exhausted: false,
            }
        } else if self.index + 1 < self.names.len() {
            Search {
                dir: self.dir,
                boundary: self.boundary,
                names: self.names,
                index: self.index + 1,
                hit: None,
                exhausted: false,
            }
        } else {
            let mut dir = self.dir;
            let ascended = dir != self.boundary && dir.pop();
            proof {
                if ascended {
                    assert(here.skip(names.len() as int) =~= probe_order(
                        dir@,
                        self.boundary@,
                        names,
                    ).skip(0));
                } else {
                    assert(here.skip(names.len() as int) =~= Seq::empty());
                }
            }
            Search {
                dir,
                boundary: self.boundary,
                names: self.names,
                index: 0,
                hit: None,
                exhausted: !ascended,
            }
        }
    }
}

/// The set of files that a listing names.
pub open spec fn listing_view(listing: Seq<FsPath>) -> Set<PathView> {
    Set::new(|p: PathView| exists|i: int| 0 <= i < listing.len() && #[trigger] listing[i]@ == p)
}

/// The view of an optional path.
pub open spec fn found_view(found: Option<FsPath>) -> Option<PathView> {
    match found {
        Some(p) => Some(p@),
        None => None,
    }
}

/// Whether `listing` names `path`.
pub(crate) fn listed(listing: &Vec<FsPath>, path: &FsPath) -> (present: bool)
    ensures
        present == listing_view(listing@).contains(path@),
{
    let mut i: usize = 0;
    while i < listing.len()
        invariant
            i <= listing.len(),
            forall|k: int| 0 <= k < i ==> #[trigger] listing[k]@ != path@,
        decreases listing.len() - i,
    {
        if listing[i] == *path {
            return true;
        }
        i += 1;
    }
    false
}

/// Searches upward from `path` for the first of `target_names` that is among
/// the files in `existing`, looking no higher than `end_path`.
///
/// Every directory from `path` up to `end_path` is tried in turn, and within a
/// directory every name in the order given. The result is the first such file
/// that `existing` names, or `None` when it names none of them. Where
/// `end_path` is neither `path` nor above it, the search ends with the
/// topmost directory instead.
pub fn get_file_path(
    path: &FsPath,
    end_path: &FsPath,
    target_names: &Vec<String>,
    existing: &Vec<FsPath>,
) -> (found: Option<FsPath>)
    ensures
        found_view(found) == locate(
            listing_view(existing@),
            path@,
            end_path@,
            strings_view(target_names@),
        ),
{
    let ghost fs = listing_view(existing@);
    let ghost wanted = locate(fs, path@, end_path@, strings_view(target_names@));
    let mut search = Search::new(path.clone(), end_path.clone(), clone_strings(target_names));
    proof {
        lemma_begin_outcome(fs, path@, end_path@, strings_view(target_names@));
    }
    loop
        invariant
            fs == listing_view(existing@),
            wanted == locate(fs, path@, end_path@, strings_view(target_names@)),
            search@.outcome(fs) == wanted,
        decreases search@.remaining.len(),
    {
        match search.action() {
            SearchAction::Probe(probe) => {
                let exists = listed(existing, &probe);
                proof {
                    lemma_step_keeps_outcome(search@, fs, exists);
                }
                search = search.step(exists);
            },
            SearchAction::Found(file) => {
                proof {
                    lemma_finished_outcome(search@, fs);
                }
                return Some(file);
            },
            SearchAction::Absent => {
                proof {
                    lemma_finished_outcome(search@, fs);
                }
                return None;
            },
        }
    }
}

/// An answer that agrees with the file system does not change where the
/// search ends.
pub proof fn lemma_step_keeps_outcome(state: SearchView, fs: Set<PathView>, exists: bool)
    requires
        state.pending() matches Some(probe) ==> exists == fs.contains(probe),
    ensures
        state.step(exists).outcome(fs) == state.outcome(fs),
{
}

/// A search that asks nothing more has reached its outcome, whatever the file
/// system holds.
pub proof fn lemma_finished_outcome(state: SearchView, fs: Set<PathView>)
    requires
        state.pending().is_none(),
    ensures
        state.outcome(fs) == state.hit,
{
}

/// A fresh search ends where the locator says.
pub proof fn lemma_begin_outcome(
    fs: Set<PathView>,
    start: PathView,
    boundary: PathView,
    names: Seq<Seq<char>>,
)
    ensures
        SearchView::begin(start, boundary, names).outcome(fs) == locate(fs, start, boundary, names),
{
}

/// The first present probe exists, and no probe before it does; there is none
/// exactly when no probe exists. The result of the lemma is the position of
/// that probe.
pub proof fn lemma_first_present(fs: Set<PathView>, probes: Seq<PathView>) -> (at: int)
    ensures
        match first_present(fs, probes) {
            Some(file) => {
                &&& 0 <= at < probes.len()
                &&& probes[at] == file
                &&& fs.contains(file)
                &&& forall|j: int| 0 <= j < at ==> !fs.contains(#[trigger] probes[j])
            },
            None => forall|j: int| 0 <= j < probes.len() ==> !fs.contains(#[trigger] probes[j]),
        },
    decreases probes.len(),
{
    if probes.len() == 0 || fs.contains(probes[0]) {
        0
    } else {
        let rest = probes.drop_first();
        let below = lemma_first_present(fs, rest);
        assert forall|j: int| 0 < j < probes.len() implies probes[j] == rest[j - 1] by {}
        match first_present(fs, probes) {
            Some(_) => {
                assert forall|j: int| 0 <= j < below + 1 implies !fs.contains(
                    #[trigger] probes[j],
                ) by {
                    if j > 0 {
                        assert(!fs.contains(rest[j - 1]));
                    }
                }
            },
            None => {
                assert forall|j: int| 0 <= j < probes.len() implies !fs.contains(
                    #[trigger] probes[j],
                ) by {
                    if j > 0 {
                        assert(!fs.contains(rest[j - 1]));
                    }
                }
            },
        }
        below + 1
    }
}

/// How many levels the search may climb from `dir`: up to the boundary where
/// the boundary is `dir` or lies above it, else up to the topmost directory.
pub open spec fn climb(dir: PathView, boundary: PathView) -> int {
    if boundary.encloses(dir) {
        dir.segments.len() - boundary.segments.len()
    } else {
        dir.segments.len() as int
    }
}

/// The chain is the starting directory followed by its ancestors, one level
/// at a time, as far as the search may climb. Where the boundary is the start
/// or lies above it, the chain therefore ends with the boundary itself.
pub proof fn lemma_chain_shape(dir: PathView, boundary: PathView)
    ensures
        climb(dir, boundary) >= 0,
        chain(dir, boundary) == Seq::new(
            (climb(dir, boundary) + 1) as nat,
            |k: int| dir.ancestor(k),
        ),
        boundary.encloses(dir) ==> chain(dir, boundary).last() == boundary,
    decreases dir.segments.len(),
{
    let depth = dir.segments.len() as int;
    let shape = Seq::new((climb(dir, boundary) + 1) as nat, |k: int| dir.ancestor(k));
    assert(dir.segments.take(depth) =~= dir.segments);
    if boundary.encloses(dir) && boundary.segments.len() == depth {
        assert(boundary.segments =~= dir.segments);
    }
    if stops_at(dir, boundary) {
        assert(chain(dir, boundary) =~= shape);
    } else {
        let up = dir.parent();
        lemma_chain_shape(up, boundary);
        let reach = boundary.segments.len() as int;
        if reach < depth {
            assert(up.segments.take(reach) =~= dir.segments.take(reach));
        }
        assert(climb(dir, boundary) == climb(up, boundary) + 1);
        assert forall|k: int| 0 <= k <= climb(up, boundary) implies up.ancestor(k) == dir.ancestor(
            k + 1,
        ) by {
            assert(up.segments.take(depth - 1 - k) =~= dir.segments.take(depth - (k + 1)));
        }
        assert(chain(dir, boundary) =~= shape);
    }
    if boundary.encloses(dir) {
        assert(dir.ancestor(climb(dir, boundary)).segments =~= boundary.segments);
    }
}

/// Every probe is a candidate name joined to a directory of the chain. The
/// result of the lemma names the directory's place in the chain and the
/// name's place among the names.
pub proof fn lemma_probe_on_chain(
    dir: PathView,
    boundary: PathView,
    names: Seq<Seq<char>>,
    at: int,
) -> (place: (int, int))
    requires
        0 <= at < probe_order(dir, boundary, names).len(),
    ensures
        0 <= place.0 < chain(dir, boundary).len(),
        0 <= place.1 < names.len(),
        probe_order(dir, boundary, names)[at] == chain(dir, boundary)[place.0].join(
            names[place.1],
        ),
    decreases dir.segments.len(),
{
    if at < names.len() {
        (0, at)
    } else {
        let up = lemma_probe_on_chain(dir.parent(), boundary, names, at - names.len());
        (up.0 + 1, up.1)
    }
}

/// Every candidate name in every directory of the chain is probed. The result
/// of the lemma is its position in the probing order.
pub proof fn lemma_chain_probed(
    dir: PathView,
    boundary: PathView,
    names: Seq<Seq<char>>,
    k: int,
    i: int,
) -> (at: int)
    requires
        0 <= k < chain(dir, boundary).len(),
        0 <= i < names.len(),
    ensures
        0 <= at < probe_order(dir, boundary, names).len(),
        probe_order(dir, boundary, names)[at] == chain(dir, boundary)[k].join(names[i]),
    decreases dir.segments.len(),
{
    if k == 0 {
        i
    } else {
        lemma_chain_probed(dir.parent(), boundary, names, k - 1, i) + names.len()
    }
}

/// Where the boundary is the starting directory or lies above it, a located
/// file sits directly in a directory of the chain from the start up to and
/// including the boundary, under one of the candidate names: never above the
/// boundary, never beside the chain.
pub proof fn lemma_located_within_chain(
    fs: Set<PathView>,
    start: PathView,
    boundary: PathView,
    names: Seq<Seq<char>>,
)
    requires
        boundary.encloses(start),
    ensures
        locate(fs, start, boundary, names) matches Some(file) ==> {
            &&& file.has_parent()
            &&& names.contains(file.segments.last())
            &&& chain(start, boundary).contains(file.parent())
            &&& boundary.encloses(file.parent())
            &&& file.parent().encloses(start)
        },
{
    if let Some(file) = locate(fs, start, boundary, names) {
        let at = lemma_first_present(fs, probe_order(start, boundary, names));
        let (k, i) = lemma_probe_on_chain(start, boundary, names, at);
        let dir = chain(start, boundary)[k];
        lemma_chain_shape(start, boundary);
        assert(dir == start.ancestor(k));
        assert(dir.segments.take(boundary.segments.len() as int) =~= start.segments.take(
            boundary.segments.len() as int,
        ));
        assert(file.parent().segments =~= dir.segments);
        assert(file.segments.last() == names[i]);
    }
}

/// Nearest wins: where a candidate exists in the starting directory itself,
/// the locator returns a file of that directory, the first of the names that
/// exists there, whatever lies above.
pub proof fn lemma_nearest_wins(
    fs: Set<PathView>,
    start: PathView,
    boundary: PathView,
    names: Seq<Seq<char>>,
    i: int,
)
    requires
        0 <= i < names.len(),
        fs.contains(start.join(names[i])),
    ensures
        locate(fs, start, boundary, names) matches Some(file) && {
            &&& fs.contains(file)
            &&& file.has_parent()
            &&& file.parent() == start
            &&& exists|j: int|
                0 <= j <= i && file == start.join(#[trigger] names[j]) && forall|e: int|
                    0 <= e < j ==> !fs.contains(start.join(#[trigger] names[e]))
        },
{
    let probes = probe_order(start, boundary, names);
    assert(probes[i] == start.join(names[i]));
    let at = lemma_first_present(fs, probes);
    assert(at <= i);
    let file = probes[at];
    assert(file == start.join(names[at]));
    assert(file.parent().segments =~= start.segments);
    assert forall|e: int| 0 <= e < at implies !fs.contains(start.join(#[trigger] names[e])) by {
        assert(probes[e] == start.join(names[e]));
    }
}

/// The locator reports absence exactly when no candidate name exists in any
/// directory of the chain.
pub proof fn lemma_absent_iff_none_exists(
    fs: Set<PathView>,
    start: PathView,
    boundary: PathView,
    names: Seq<Seq<char>>,
)
    ensures
        locate(fs, start, boundary, names).is_none() <==> forall|k: int, i: int|
            0 <= k < chain(start, boundary).len() && 0 <= i < names.len() ==> !fs.contains(
                #[trigger] chain(start, boundary)[k].join(names[i]),
            ),
{
    let probes = probe_order(start, boundary, names);
    let at = lemma_first_present(fs, probes);
    if locate(fs, start, boundary, names).is_none() {
        assert forall|k: int, i: int|
            0 <= k < chain(start, boundary).len() && 0 <= i < names.len() implies !fs.contains(
            #[trigger] chain(start, boundary)[k].join(names[i]),
        ) by {
            let seen = lemma_chain_probed(start, boundary, names, k, i);
            assert(!fs.contains(probes[seen]));
        }
    } else {
        let (k, i) = lemma_probe_on_chain(start, boundary, names, at);
        assert(fs.contains(chain(start, boundary)[k].join(names[i])));
    }
}

} // verus!
