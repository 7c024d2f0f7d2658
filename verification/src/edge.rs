use vstd::prelude::*;

verus! {

/// A directed boundary segment of a polygon: the ring positions of its tail
/// (field `0`) and of its head (field `1`). An edge owns no apex; it only says
/// where in the polygon's ring its two endpoints are stored.
#[derive(Clone, Copy, Debug, PartialEq, Eq, Structural)]
pub struct Edge(pub usize, pub usize);

impl Edge {
    /// Both endpoints are positions in a ring of `count` apexes.
    pub open spec fn within(self, count: usize) -> bool {
        self.0 < count && self.1 < count
    }

    /// Ring position of the apex the edge starts from.
    pub fn tail(&self) -> (t: usize)
        ensures
            t == self.0,
    {
        self.0
    }

    /// Ring position of the apex the edge points to.
    pub fn head(&self) -> (h: usize)
        ensures
            h == self.1,
    {
        self.1
    }
}

} // verus!
