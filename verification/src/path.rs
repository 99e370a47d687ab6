//! Paths as ordered lists of name segments.
//!
//! The planning engine never interprets platform path syntax; a path is just
//! the sequence of names leading from a root to an entry.  Joining a relative
//! path onto a root is sequence concatenation, which keeps the re-rooting
//! done by the tree walk easy to state exactly.

use vstd::prelude::*;

verus! {

/// A filesystem path: an ordered list of name segments.
#[derive(Debug, Clone, PartialEq, Eq)]
pub struct FsPath {
    pub segments: Vec<String>,
}

impl View for FsPath {
    type V = Seq<Seq<char>>;

    open spec fn view(&self) -> Seq<Seq<char>> {
        self.segments.deep_view()
    }
}

impl FsPath {
    /// The empty path.
    pub fn empty() -> (r: FsPath)
        ensures
            r@ == Seq::<Seq<char>>::empty(),
    {
        let r = FsPath { segments: Vec::new() };
        proof {
            assert(r@ =~~= Seq::<Seq<char>>::empty());
        }
        r
    }

    /// Builds a path from its segments.
    pub fn from_segments(segments: Vec<String>) -> (r: FsPath)
        ensures
            r@ == segments.deep_view(),
    {
        FsPath { segments }
    }

    /// Appends one segment at the end.
    pub fn push(&mut self, segment: String)
        ensures
            final(self)@ == old(self)@.push(segment@),
    {
        self.segments.push(segment);
        proof {
            assert(self@ =~~= old(self)@.push(segment@));
        }
    }

    /// Number of segments.
    pub fn len(&self) -> (r: usize)
        ensures
            r == self@.len(),
    {
        self.segments.len()
    }

    /// Structural equality of two paths.
    pub fn path_eq(&self, other: &FsPath) -> (r: bool)
        ensures
            r == (self@ == other@),
    {
        if self.segments.len() != other.segments.len() {
            proof {
                assert(self@.len() != other@.len());
            }
            return false;
        }
        for i in 0..self.segments.len()
            invariant
                self.segments.len() == other.segments.len(),
                forall|j: int| 0 <= j < i ==> self@[j] == other@[j],
        {
            if !(self.segments[i] == other.segments[i]) {
                proof {
                    assert(self@[i as int] != other@[i as int]);
                }
                return false;
            }
        }
        proof {
            assert(self@ =~~= other@);
        }
        true
    }

    /// An identical copy of the path.
    pub fn duplicate(&self) -> (r: FsPath)
        ensures
            r@ == self@,
    {
        let mut segments: Vec<String> = Vec::new();
        for i in 0..self.segments.len()
            invariant
                segments@.len() == i,
                forall|j: int| #![auto] 0 <= j < i ==> segments@[j]@ == self.segments@[j]@,
        {
            segments.push(self.segments[i].clone());
        }
        let r = FsPath { segments };
        proof {
            assert(r@ =~~= self@);
        }
        r
    }

    /// The path one segment below `self`.
    pub fn child(&self, segment: &String) -> (r: FsPath)
        ensures
            r@ == self@.push(segment@),
    {
        let mut r = self.duplicate();
        r.push(segment.clone());
        r
    }

    /// The concatenation `self` then `other`.
    pub fn join(&self, other: &FsPath) -> (r: FsPath)
        ensures
            r@ == self@ + other@,
    {
        let mut joined = self.duplicate();
        for i in 0..other.segments.len()
            invariant
                joined@ =~~= self@ + other@.take(i as int),
        {
            joined.push(other.segments[i].clone());
        }
        proof {
            assert(joined@ =~~= self@ + other@);
        }
        joined
    }
}

} // verus!
