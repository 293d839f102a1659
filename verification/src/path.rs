//! A plain-value model of file-system paths.
//!
//! A path is an anchor (a root, a drive prefix, or nothing for a relative
//! path) followed by the components beneath it. Going to the parent drops the
//! last component; an anchor alone has no parent. Two paths are the same when
//! their anchors and components are.

use vstd::prelude::*;

verus! {

/// The view of a list of strings: each string by its characters.
pub open spec fn strings_view(v: Seq<String>) -> Seq<Seq<char>> {
    Seq::new(v.len(), |i: int| v[i]@)
}

/// The mathematical value of a path.
pub struct PathView {
    pub anchor: Seq<char>,
    pub segments: Seq<Seq<char>>,
}

impl PathView {
    /// Whether a parent exists: an anchor alone (or the empty path) has none.
    pub open spec fn has_parent(self) -> bool {
        self.segments.len() > 0
    }

    /// The path one level up; meaningful when `has_parent()`.
    pub open spec fn parent(self) -> PathView {
        PathView { anchor: self.anchor, segments: self.segments.drop_last() }
    }

    /// The parent where there is one, else the path itself.
    pub open spec fn popped(self) -> PathView {
        if self.has_parent() {
            self.parent()
        } else {
            self
        }
    }

    /// The path of the entry `name` directly beneath this one.
    pub open spec fn join(self, name: Seq<char>) -> PathView {
        PathView { anchor: self.anchor, segments: self.segments.push(name) }
    }

    /// The path `levels` steps up from this one.
    pub open spec fn ancestor(self, levels: int) -> PathView {
        PathView {
            anchor: self.anchor,
            segments: self.segments.take(self.segments.len() - levels),
        }
    }

    /// Whether this path is `other` or lies above it.
    pub open spec fn encloses(self, other: PathView) -> bool {
        &&& self.anchor == other.anchor
        &&& self.segments.len() <= other.segments.len()
        &&& other.segments.take(self.segments.len() as int) == self.segments
    }
}

/// A path held as plain strings.
#[derive(Debug)]
pub struct FsPath {
    anchor: String,
    segments: Vec<String>,
}

impl View for FsPath {
    type V = PathView;

    closed spec fn view(&self) -> PathView {
        PathView { anchor: self.anchor@, segments: strings_view(self.segments@) }
    }
}

impl PartialEq for FsPath {
    /// Whether both paths have the same anchor and the same components.
    fn eq(&self, other: &FsPath) -> (same: bool) {
        if self.anchor != other.anchor {
            return false;
        }
        if self.segments.len() != other.segments.len() {
            assert(self@.segments.len() != other@.segments.len());
            return false;
        }
        let mut i: usize = 0;
        while i < self.segments.len()
            invariant
                i <= self.segments.len(),
                self.segments.len() == other.segments.len(),
                forall|k: int| 0 <= k < i ==> self.segments[k]@ == other.segments[k]@,
            decreases self.segments.len() - i,
        {
            if self.segments[i] != other.segments[i] {
                assert(self@.segments[i as int] != other@.segments[i as int]);
                return false;
            }
            i += 1;
        }
        assert(self@.segments =~= other@.segments);
        true
    }
}

impl Eq for FsPath {}

impl vstd::std_specs::cmp::PartialEqSpecImpl for FsPath {
    open spec fn obeys_eq_spec() -> bool {
        true
    }

    open spec fn eq_spec(&self, other: &FsPath) -> bool {
        self@ == other@
    }
}

impl Clone for FsPath {
    fn clone(&self) -> (p: FsPath)
        ensures
            p@ == self@,
    {
        FsPath { anchor: self.anchor.clone(), segments: clone_strings(&self.segments) }
    }
}

impl FsPath {
    /// Builds a path from its anchor and its components, outermost first.
    pub fn new(anchor: String, segments: Vec<String>) -> (p: FsPath)
        ensures
            p@.anchor == anchor@,
            p@.segments == strings_view(segments@),
    {
        FsPath { anchor, segments }
    }

    /// The anchor: empty for a relative path.
    pub fn anchor(&self) -> (s: &str)
        ensures
            s@ == self@.anchor,
    {
        self.anchor.as_str()
    }

    /// The components beneath the anchor, outermost first.
    pub fn segments(&self) -> (v: &Vec<String>)
        ensures
            strings_view(v@) == self@.segments,
    {
        &self.segments
    }

    /// Drops the last component, if there is one, and says whether it did.
    pub fn pop(&mut self) -> (popped: bool)
        ensures
            popped == old(self)@.has_parent(),
            final(self)@ == old(self)@.popped(),
    {
        match self.segments.pop() {
            Some(_) => {
                assert(self@.segments =~= old(self)@.segments.drop_last());
                true
            },
            None => false,
        }
    }

    /// Appends one component.
    pub fn push(&mut self, name: &str)
        ensures
            final(self)@ == old(self)@.join(name@),
    {
        self.segments.push(name.to_owned());
        assert(self@.segments =~= old(self)@.segments.push(name@));
    }

    /// The path one level up, or `None` where this path is an anchor alone.
    pub fn parent(&self) -> (up: Option<FsPath>)
        ensures
            self@.has_parent() ==> up.is_some() && up.unwrap()@ == self@.parent(),
            !self@.has_parent() ==> up.is_none(),
    {
        let mut up = self.clone();
        if up.pop() {
            Some(up)
        } else {
            None
        }
    }

    /// The path of the entry `name` directly beneath this one.
    pub fn join(&self, name: &str) -> (below: FsPath)
        ensures
            below@ == self@.join(name@),
    {
        let mut below = self.clone();
        below.push(name);
        below
    }
}

/// An independent copy of a list of strings.
pub(crate) fn clone_strings(v: &Vec<String>) -> (copy: Vec<String>)
    ensures
        strings_view(copy@) == strings_view(v@),
{
    let mut copy: Vec<String> = Vec::new();
    let mut i: usize = 0;
    while i < v.len()
        invariant
            i <= v.len(),
            copy.len() == i,
            forall|k: int| 0 <= k < i ==> copy[k]@ == v[k]@,
        decreases v.len() - i,
    {
        copy.push(v[i].clone());
        i += 1;
    }
    assert(strings_view(copy@) =~= strings_view(v@));
    copy
}

} // verus!
