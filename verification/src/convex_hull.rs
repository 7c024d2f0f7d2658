use crate::edge::Edge;
use vstd::arithmetic::div_mod::lemma_fundamental_div_mod;
use vstd::arithmetic::div_mod::lemma_fundamental_div_mod_converse;
use vstd::prelude::*;

verus! {

/// Rotational sense in which a polygon's boundary is walked.
#[derive(Clone, Copy, Debug, PartialEq, Eq, Structural)]
pub enum Direction {
    Clockwise,
    CounterClockwise,
}

/// Side on which a polygon's third apex lies, seen from the directed edge
/// between its first two apexes.
#[derive(Clone, Copy, Debug, PartialEq, Eq, Structural)]
pub enum Turn {
    Left,
    Straight,
    Right,
}

/// Why a polygon is refused.
#[derive(Clone, Copy, Debug, PartialEq, Eq, Structural)]
pub enum GeometryError {
    /// Fewer than three apexes, or the first three are collinear.
    DegeneratePolygon,
}

impl Direction {
    /// The signed unit step over ring positions that this direction stands for.
    pub open spec fn step_int(self) -> int {
        match self {
            Direction::Clockwise => 1,
            Direction::CounterClockwise => -1,
        }
    }

    /// The signed unit step over ring positions: `+1` clockwise, `-1` counter-clockwise.
    pub fn step(self) -> (s: i32)
        ensures
            s == self.step_int(),
    {
        match self {
            Direction::Clockwise => 1i32,
            Direction::CounterClockwise => -1i32,
        }
    }

    /// The other rotational sense.
    pub open spec fn reversed(self) -> Direction {
        match self {
            Direction::Clockwise => Direction::CounterClockwise,
            Direction::CounterClockwise => Direction::Clockwise,
        }
    }

    /// The other rotational sense.
    pub fn opposite(self) -> (d: Direction)
        ensures
            d == self.reversed(),
            d.step_int() == -self.step_int(),
    {
        match self {
            Direction::Clockwise => Direction::CounterClockwise,
            Direction::CounterClockwise => Direction::Clockwise,
        }
    }
}

/// Ring position reached from `i` by one step in `direction`, in a ring of `count` apexes.
pub open spec fn ring_step(i: int, direction: Direction, count: int) -> int {
    (i + direction.step_int()) % count
}

/// Ring position that the walk in `direction` holds after `k` steps from position 0.
pub open spec fn ring_position(count: int, direction: Direction, k: int) -> int {
    (k * direction.step_int()) % count
}

/// The `k`-th edge (counting from 0) of the endless walk in `direction` round a
/// ring of `count` apexes: its head is the position after `k` steps, its tail
/// the position one step behind.
pub open spec fn boundary_edge(count: usize, direction: Direction, k: int) -> Edge {
    Edge(
        ring_position(count as int, direction, k - 1) as usize,
        ring_position(count as int, direction, k) as usize,
    )
}

/// One step along the ring stays on the ring, and is the neighbouring position
/// with wrap-around at both ends.
pub proof fn lemma_ring_step(i: int, direction: Direction, count: int)
    requires
        0 <= i < count,
    ensures
        0 <= ring_step(i, direction, count) < count,
        direction == Direction::Clockwise ==> ring_step(i, direction, count) == (if i + 1
            == count {
            0
        } else {
            i + 1
        }),
        direction == Direction::CounterClockwise ==> ring_step(i, direction, count) == (if i
            == 0 {
            count - 1
        } else {
            i - 1
        }),
{
    match direction {
        Direction::Clockwise => {
            if i + 1 == count {
                lemma_fundamental_div_mod_converse(i + 1, count, 1, 0);
            } else {
                lemma_fundamental_div_mod_converse(i + 1, count, 0, i + 1);
            }
        },
        Direction::CounterClockwise => {
            if i == 0 {
                lemma_fundamental_div_mod_converse(i - 1, count, -1, count - 1);
            } else {
                lemma_fundamental_div_mod_converse(i - 1, count, 0, i - 1);
            }
        },
    }
}

/// Stepping once from the position after `k` steps gives the position after `k + 1` steps.
pub proof fn lemma_ring_position_step(count: int, direction: Direction, k: int)
    requires
        0 < count,
    ensures
        0 <= ring_position(count, direction, k) < count,
        ring_step(ring_position(count, direction, k), direction, count) == ring_position(
            count,
            direction,
            k + 1,
        ),
{
    let s = direction.step_int();
    let x = k * s;
    let y = (k + 1) * s;
    lemma_fundamental_div_mod(x, count);
    lemma_fundamental_div_mod(y, count);
    let qx = x / count;
    let qy = y / count;
    let r = y % count;
    assert(y == x + s) by (nonlinear_arith)
        requires
            x == k * s,
            y == (k + 1) * s,
    ;
    assert((x % count) + s == (qy - qx) * count + r) by (nonlinear_arith)
        requires
            x == count * qx + x % count,
            y == count * qy + r,
            y == x + s,
    ;
    lemma_fundamental_div_mod_converse((x % count) + s, count, qy - qx, r);
}

/// The walk is cyclic: after `count` more steps it stands where it stood.
pub proof fn lemma_ring_position_periodic(count: int, direction: Direction, k: int)
    requires
        0 < count,
    ensures
        ring_position(count, direction, k + count) == ring_position(count, direction, k),
{
    let s = direction.step_int();
    let x = k * s;
    let y = (k + count) * s;
    lemma_fundamental_div_mod(x, count);
    let qx = x / count;
    let r = x % count;
    assert(y == (qx + s) * count + r) by (nonlinear_arith)
        requires
            x == k * s,
            y == (k + count) * s,
            x == count * qx + r,
    ;
    lemma_fundamental_div_mod_converse(y, count, qx + s, r);
}

/// Moves one step from ring position `i` in `direction`, wrapping round at both ends.
pub fn next_index(i: usize, direction: Direction, count: usize) -> (r: usize)
    requires
        i < count,
    ensures
        r < count,
        r == ring_step(i as int, direction, count as int),
{
    proof {
        lemma_ring_step(i as int, direction, count as int);
    }
    match direction {
        Direction::Clockwise => {
            if i + 1 == count {
                0
            } else {
                i + 1
            }
        },
        Direction::CounterClockwise => {
            if i == 0 {
                count - 1
            } else {
                i - 1
            }
        },
    }
}

/// Orientation of a polygon of `count` apexes, from the side on which its third
/// apex lies of the edge between its first two: clockwise when it lies to the
/// left, counter-clockwise when it lies to the right. A polygon of fewer than
/// three apexes, or one whose first three apexes are collinear, has none.
pub open spec fn direction_of(count: usize, turn: Turn) -> Result<Direction, GeometryError> {
    if count < 3 {
        Err(GeometryError::DegeneratePolygon)
    } else {
        match turn {
            Turn::Left => Ok(Direction::Clockwise),
            Turn::Right => Ok(Direction::CounterClockwise),
            Turn::Straight => Err(GeometryError::DegeneratePolygon),
        }
    }
}

/// A convex polygon as its boundary is walked: its identifier, the number of
/// its apexes, and the turn that its first three apexes make. The apexes
/// themselves, with their coordinates, stay with the caller; their ring
/// positions are `0` to `count - 1`.
#[derive(Clone, Copy, Debug, PartialEq, Eq, Structural)]
pub struct ConvexHull {
    pub id: u32,
    pub count: usize,
    pub turn: Turn,
}

impl ConvexHull {
    /// Derives the orientation of the polygon; see [`direction_of`].
    pub fn get_direction(&self) -> (r: Result<Direction, GeometryError>)
        ensures
            r == direction_of(self.count, self.turn),
            r is Err <==> (self.count < 3 || self.turn == Turn::Straight),
    {
        if self.count < 3 {
            return Err(GeometryError::DegeneratePolygon);
        }
        match self.turn {
            Turn::Left => Ok(Direction::Clockwise),
            Turn::Right => Ok(Direction::CounterClockwise),
            Turn::Straight => Err(GeometryError::DegeneratePolygon),
        }
    }

    /// The edges of one full loop round the polygon, in the order in which a
    /// fresh walk in `direction` hands them out.
    pub fn boundary_edges(&self, direction: Direction) -> (edges: Vec<Edge>)
        ensures
            edges@.len() == self.count,
            forall|k: int|
                0 <= k < self.count ==> #[trigger] edges@[k] == boundary_edge(
                    self.count,
                    direction,
                    k,
                ),
            forall|k: int| 0 <= k < self.count ==> (#[trigger] edges@[k]).within(self.count),
    {
        let count: usize = self.count;
        let mut edges: Vec<Edge> = Vec::new();
        if count == 0 {
            return edges;
        }
        let mut walk = ConvexHullIterator::new(self, direction);
        let mut k: usize = 0;
        while k < count
            invariant
                count > 0,
                0 <= k <= count,
                edges@.len() == k,
                walk == ConvexHullIterator::after(count, direction, k as int),
                walk.wf(),
                forall|j: int|
                    0 <= j < k ==> #[trigger] edges@[j] == boundary_edge(count, direction, j),
                forall|j: int| 0 <= j < k ==> (#[trigger] edges@[j]).within(count),
            decreases count - k,
        {
            proof {
                lemma_walk_edges(count, direction, k as int);
            }
            match walk.next() {
                Some(edge) => {
                    edges.push(edge);
                },
                None => {},
            }
            k = k + 1;
        }
        edges
    }
}

/// Endless cyclic walk over the boundary edges of a polygon of `count` apexes.
/// It starts at ring position 0 and never ends by itself: the caller bounds
/// the number of edges it pulls.
#[derive(Clone, Copy, Debug)]
pub struct ConvexHullIterator {
    pub count: usize,
    pub idx: usize,
    pub direction: Direction,
}

impl ConvexHullIterator {
    /// The walk stands on the ring.
    pub open spec fn wf(self) -> bool {
        self.idx < self.count
    }

    /// The edge that the next pull hands out: it ends at the current position
    /// and starts one step behind it.
    pub open spec fn peek(self) -> Edge {
        Edge(
            ring_step(self.idx as int, self.direction.reversed(), self.count as int) as usize,
            self.idx,
        )
    }

    /// The walk after one pull.
    pub open spec fn advanced(self) -> ConvexHullIterator {
        ConvexHullIterator {
            count: self.count,
            idx: ring_step(self.idx as int, self.direction, self.count as int) as usize,
            direction: self.direction,
        }
    }

    /// The walk after `k` pulls from its start.
    pub open spec fn after(count: usize, direction: Direction, k: int) -> ConvexHullIterator {
        ConvexHullIterator {
            count,
            idx: ring_position(count as int, direction, k) as usize,
            direction,
        }
    }

    /// A walk round the boundary of `convex_hull` in `direction`, standing at position 0.
    pub fn new(convex_hull: &ConvexHull, direction: Direction) -> (it: ConvexHullIterator)
        requires
            convex_hull.count > 0,
        ensures
            it.wf(),
            it == (ConvexHullIterator { count: convex_hull.count, idx: 0, direction }),
            it == ConvexHullIterator::after(convex_hull.count, direction, 0),
    {
        let count: usize = convex_hull.count;
        proof {
            lemma_fundamental_div_mod_converse(0, count as int, 0, 0);
            assert(0 * direction.step_int() == 0);
        }
        ConvexHullIterator { count, idx: 0, direction }
    }

    /// Hands out the edge from the previous position to the current one and
    /// moves one step on. Always `Some`: the walk has no end.
    pub fn next(&mut self) -> (e: Option<Edge>)
        requires
            old(self).wf(),
        ensures
            e == Some(old(self).peek()),
            *final(self) == old(self).advanced(),
            final(self).wf(),
            old(self).peek().within(old(self).count),
    {
        let cur: usize = self.idx;
        let prev: usize = next_index(cur, self.direction.opposite(), self.count);
        self.idx = next_index(cur, self.direction, self.count);
        Some(Edge(prev, cur))
    }
}

/// The `k`-th pull of a fresh walk hands out the `k`-th boundary edge.
pub proof fn lemma_walk_edges(count: usize, direction: Direction, k: int)
    requires
        count > 0,
    ensures
        ConvexHullIterator::after(count, direction, k).wf(),
        ConvexHullIterator::after(count, direction, k).peek() == boundary_edge(count, direction, k),
        ConvexHullIterator::after(count, direction, k).advanced() == ConvexHullIterator::after(
            count,
            direction,
            k + 1,
        ),
        boundary_edge(count, direction, k).within(count),
        boundary_edge(count, direction, k + count) == boundary_edge(count, direction, k),
{
    let n = count as int;
    lemma_ring_position_step(n, direction, k);
    lemma_ring_position_step(n, direction, k - 1);
    lemma_ring_position_periodic(n, direction, k);
    lemma_ring_position_periodic(n, direction, k - 1);
    let prev = ring_position(n, direction, k - 1);
    let cur = ring_position(n, direction, k);
    // stepping back from `cur` undoes the step that led from `prev` to it
    lemma_ring_step(prev, direction, n);
    lemma_ring_step(cur, direction.reversed(), n);
}

} // verus!
