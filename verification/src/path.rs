//! Names under which the parameters of the encoder are registered.

use vstd::prelude::*;

verus! {

/// One step of a parameter path: a fixed name, or the position of a block or
/// group among its siblings.
#[derive(Clone, Copy, Debug, PartialEq, Eq)]
pub enum Segment {
    Name(&'static str),
    Index(i64),
}

/// Path from the root of a parameter store down to one component.
#[derive(Debug, PartialEq, Eq)]
pub struct ParamPath {
    segments: Vec<Segment>,
}

impl View for ParamPath {
    type V = Seq<Segment>;

    closed spec fn view(&self) -> Seq<Segment> {
        self.segments@
    }
}

impl ParamPath {
    /// The empty path.
    pub fn root() -> (path: ParamPath)
        ensures
            path@ == Seq::<Segment>::empty(),
    {
        ParamPath { segments: Vec::new() }
    }

    /// The segments from the root downwards.
    pub fn segments(&self) -> (segments: &Vec<Segment>)
        ensures
            segments@ == self@,
    {
        &self.segments
    }

    fn extended(&self, last: Segment) -> (path: ParamPath)
        ensures
            path@ == self@.push(last),
    {
        let mut segments: Vec<Segment> = Vec::new();
        let mut i: usize = 0;
        while i < self.segments.len()
            invariant
                i <= self.segments.len(),
                segments@ == self.segments@.take(i as int),
            decreases self.segments.len() - i,
        {
            segments.push(self.segments[i]);
            assert(self.segments@.take(i + 1) =~= self.segments@.take(i as int).push(
                self.segments@[i as int],
            ));
            i = i + 1;
        }
        assert(self.segments@.take(i as int) =~= self.segments@);
        segments.push(last);
        ParamPath { segments }
    }

    /// This path followed by `name`.
    pub fn child(&self, name: &'static str) -> (path: ParamPath)
        ensures
            path@ == self@.push(Segment::Name(name)),
    {
        self.extended(Segment::Name(name))
    }

    /// This path followed by the position `index`.
    pub fn child_index(&self, index: i64) -> (path: ParamPath)
        ensures
            path@ == self@.push(Segment::Index(index)),
    {
        self.extended(Segment::Index(index))
    }
}

} // verus!
