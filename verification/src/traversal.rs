use crate::convex_hull::boundary_edge;
use crate::convex_hull::direction_of;
use crate::convex_hull::lemma_ring_step;
use crate::convex_hull::lemma_walk_edges;
use crate::convex_hull::ConvexHull;
use crate::convex_hull::ConvexHullIterator;
use crate::convex_hull::Direction;
use crate::convex_hull::GeometryError;
use crate::edge::Edge;
use vstd::prelude::*;

verus! {

/// Which of the two polygons is meant: the one whose boundary chain is
/// presently inside the other, or the one whose walk moves on next.
#[derive(Clone, Copy, Debug, PartialEq, Eq, Structural)]
pub enum WhichToAdvance {
    NotInit,
    PPoly,
    QPoly,
}

/// One apex of the polygon that the traversal assembles, named by where its
/// coordinates come from.
#[derive(Clone, Copy, Debug, PartialEq, Eq, Structural)]
pub enum Apex {
    /// The point where this edge of P and this edge of Q cross.
    Crossing(Edge, Edge),
    /// The apex of P at this ring position.
    OfP(usize),
    /// The apex of Q at this ring position.
    OfQ(usize),
}

/// What the geometry says of the current pair of edges. The half-plane of an
/// edge is what lies to the left of the line through it in its direction,
/// the line included.
#[derive(Clone, Copy, Debug, PartialEq, Eq, Structural)]
pub struct Observation {
    /// The two segments cross.
    pub crossing: bool,
    /// The crossing point equals, exactly, the first crossing point recorded.
    /// Read only where `crossing` holds and a first crossing was recorded.
    pub closes: bool,
    /// The head of the Q edge lies in the half-plane of the P edge.
    pub q_head_in_p: bool,
    /// The head of the P edge lies in the half-plane of the Q edge.
    pub p_head_in_q: bool,
    /// The cross product of the Q edge's direction with the P edge's is not negative.
    pub cross_nonneg: bool,
}

/// Where a traversal stands.
#[derive(Clone, Copy, Debug, PartialEq, Eq, Structural)]
pub enum Progress {
    /// More pairs of edges are to be observed.
    Running,
    /// A crossing came back to the first one: the assembled apexes are the intersection.
    Closed,
    /// The iteration bound was used up without closing.
    Exhausted,
}

/// The polygon that an intersection yields.
#[derive(Debug, PartialEq, Eq)]
pub enum Region {
    /// A new polygon with these apexes, in order.
    Assembled(Vec<Apex>),
    /// The whole of P.
    WholeP,
    /// The whole of Q.
    WholeQ,
}

impl Region {
    /// Identifier of the polygon that the region stands for: that of P or of
    /// Q where it is the whole of one, and 0 for an assembled polygon.
    pub open spec fn id_of(self, cvx_p: ConvexHull, cvx_q: ConvexHull) -> u32 {
        match self {
            Region::Assembled(_) => 0,
            Region::WholeP => cvx_p.id,
            Region::WholeQ => cvx_q.id,
        }
    }

    /// `other` is this region with P and Q exchanged.
    pub open spec fn mirrors(self, other: Region) -> bool {
        match (self, other) {
            (Region::Assembled(v), Region::Assembled(w)) => w@ == v@.map_values(
                |a: Apex| a.exchanged(),
            ),
            (Region::WholeP, Region::WholeQ) => true,
            (Region::WholeQ, Region::WholeP) => true,
            _ => false,
        }
    }

    /// Identifier of the polygon that the region stands for; see [`Region::id_of`].
    pub fn id(&self, cvx_p: &ConvexHull, cvx_q: &ConvexHull) -> (id: u32)
        ensures
            id == self.id_of(*cvx_p, *cvx_q),
    {
        match self {
            Region::Assembled(_) => 0u32,
            Region::WholeP => cvx_p.id,
            Region::WholeQ => cvx_q.id,
        }
    }
}

/// Number of pairs of edges that a traversal observes at most.
pub open spec fn iteration_bound(n_p: usize, n_q: usize) -> int {
    2 * (n_p + n_q)
}

/// The chain that is inside after a pair of edges was observed: a crossing
/// decides it anew, by the side on which the Q edge's head lies of the P edge.
pub open spec fn inside_after(inside: WhichToAdvance, obs: Observation) -> WhichToAdvance {
    if obs.crossing {
        if obs.q_head_in_p {
            WhichToAdvance::PPoly
        } else {
            WhichToAdvance::QPoly
        }
    } else {
        inside
    }
}

/// The polygon whose walk moves on after a pair of edges was observed.
pub open spec fn advance_choice(obs: Observation) -> WhichToAdvance {
    if obs.cross_nonneg {
        if obs.q_head_in_p {
            WhichToAdvance::QPoly
        } else {
            WhichToAdvance::PPoly
        }
    } else {
        if obs.p_head_in_q {
            WhichToAdvance::PPoly
        } else {
            WhichToAdvance::QPoly
        }
    }
}

impl WhichToAdvance {
    /// The same polygon, named with P and Q exchanged.
    pub open spec fn exchanged(self) -> WhichToAdvance {
        match self {
            WhichToAdvance::NotInit => WhichToAdvance::NotInit,
            WhichToAdvance::PPoly => WhichToAdvance::QPoly,
            WhichToAdvance::QPoly => WhichToAdvance::PPoly,
        }
    }
}

impl Observation {
    /// The same pair of edges, observed with P and Q exchanged; the edges are
    /// taken not to be parallel, so that the cross product changes its sign.
    pub open spec fn exchanged(self) -> Observation {
        Observation {
            crossing: self.crossing,
            closes: self.closes,
            q_head_in_p: self.p_head_in_q,
            p_head_in_q: self.q_head_in_p,
            cross_nonneg: !self.cross_nonneg,
        }
    }
}

/// The decisions do not depend on which polygon is called P. With the roles
/// exchanged, the walk of the same polygon moves on; and at a crossing where
/// exactly one of the two heads lies in the other edge's half-plane, the same
/// chain is the one inside.
pub proof fn lemma_decisions_symmetric(inside: WhichToAdvance, obs: Observation)
    ensures
        advance_choice(obs.exchanged()) == advance_choice(obs).exchanged(),
        obs.exchanged().exchanged() == obs,
        obs.q_head_in_p != obs.p_head_in_q ==> inside_after(inside.exchanged(), obs.exchanged())
            == inside_after(inside, obs).exchanged(),
{
}

/// Decides which polygon's walk moves on. It is always one of the two.
pub fn which_to_advance(obs: Observation) -> (advance: WhichToAdvance)
    ensures
        advance == advance_choice(obs),
        advance != WhichToAdvance::NotInit,
{
    if obs.cross_nonneg {
        if obs.q_head_in_p {
            WhichToAdvance::QPoly
        } else {
            WhichToAdvance::PPoly
        }
    } else {
        if obs.p_head_in_q {
            WhichToAdvance::PPoly
        } else {
            WhichToAdvance::QPoly
        }
    }
}

/// What an intersection yields once the walk has ended: the assembled polygon
/// if it closed; else the whole of P if Q holds P's first apex, else the whole
/// of Q if P holds Q's first apex, else nothing, with whatever was assembled.
pub open spec fn outcome_of(
    progress: Progress,
    apexes: Seq<Apex>,
    p_first_in_q: bool,
    q_first_in_p: bool,
    found: bool,
    region: Region,
) -> bool {
    match progress {
        Progress::Running => false,
        Progress::Closed => {
            &&& found
            &&& region matches Region::Assembled(v)
            &&& v@ == apexes
        },
        Progress::Exhausted => if p_first_in_q {
            found && region is WholeP
        } else if q_first_in_p {
            found && region is WholeQ
        } else {
            &&& !found
            &&& region matches Region::Assembled(v)
            &&& v@ == apexes
        },
    }
}

impl Apex {
    /// The same apex, named with P and Q exchanged.
    pub open spec fn exchanged(self) -> Apex {
        match self {
            Apex::Crossing(p_edge, q_edge) => Apex::Crossing(q_edge, p_edge),
            Apex::OfP(i) => Apex::OfQ(i),
            Apex::OfQ(j) => Apex::OfP(j),
        }
    }

    /// The apex names positions that exist in a P of `n_p` and a Q of `n_q` apexes.
    pub open spec fn valid(self, n_p: usize, n_q: usize) -> bool {
        match self {
            Apex::Crossing(p_edge, q_edge) => p_edge.within(n_p) && q_edge.within(n_q),
            Apex::OfP(i) => i < n_p,
            Apex::OfQ(j) => j < n_q,
        }
    }
}

/// Mathematical state of a traversal: what [`Traversal`] holds, with the
/// assembled apexes as a sequence.
pub struct TraversalView {
    pub iter_p: ConvexHullIterator,
    pub iter_q: ConvexHullIterator,
    pub p_edge: Edge,
    pub q_edge: Edge,
    pub inside: WhichToAdvance,
    pub first: Option<(Edge, Edge)>,
    pub apexes: Seq<Apex>,
    pub remaining: usize,
    pub progress: Progress,
}

impl TraversalView {
    /// Number of apexes of P.
    pub open spec fn n_p(self) -> usize {
        self.iter_p.count
    }

    /// Number of apexes of Q.
    pub open spec fn n_q(self) -> usize {
        self.iter_q.count
    }

    /// Pairs of edges observed so far.
    pub open spec fn observed(self) -> int {
        iteration_bound(self.n_p(), self.n_q()) - self.remaining
    }

    /// Both walks stand on their rings, every apex assembled exists, the first
    /// apex assembled is the first crossing, and no more than two apexes were
    /// assembled for each pair of edges observed.
    pub open spec fn wf(self) -> bool {
        &&& self.n_p() >= 3
        &&& self.n_q() >= 3
        &&& self.iter_p.wf()
        &&& self.iter_q.wf()
        &&& self.p_edge.within(self.n_p())
        &&& self.q_edge.within(self.n_q())
        &&& 0 <= self.observed()
        &&& self.apexes.len() <= 2 * self.observed()
        &&& forall|i: int|
            0 <= i < self.apexes.len() ==> (#[trigger] self.apexes[i]).valid(
                self.n_p(),
                self.n_q(),
            )
        &&& (self.first is None <==> self.inside == WhichToAdvance::NotInit)
        &&& (self.first is None ==> self.apexes.len() == 0)
        &&& (self.first matches Some(pair) ==> pair.0.within(self.n_p()) && pair.1.within(
            self.n_q(),
        ) && self.apexes.len() > 0 && self.apexes[0] == Apex::Crossing(pair.0, pair.1))
        &&& (self.progress == Progress::Running ==> self.remaining > 0)
        &&& (self.progress == Progress::Exhausted ==> self.remaining == 0)
    }

    /// The state in which a traversal of a P of `n_p` apexes and a Q of `n_q`
    /// sets out: each walk goes in its polygon's own orientation and has
    /// handed out its first edge, nothing is assembled, and
    /// `2 * (n_p + n_q)` pairs of edges may be observed.
    pub open spec fn initial(
        n_p: usize,
        dir_p: Direction,
        n_q: usize,
        dir_q: Direction,
    ) -> TraversalView {
        TraversalView {
            iter_p: ConvexHullIterator::after(n_p, dir_p, 1),
            iter_q: ConvexHullIterator::after(n_q, dir_q, 1),
            p_edge: boundary_edge(n_p, dir_p, 0),
            q_edge: boundary_edge(n_q, dir_q, 0),
            inside: WhichToAdvance::NotInit,
            first: None,
            apexes: Seq::empty(),
            remaining: iteration_bound(n_p, n_q) as usize,
            progress: Progress::Running,
        }
    }

    /// The observation says that the walk has come round: the edges cross at
    /// the first crossing point recorded.
    pub open spec fn closes_on(self, obs: Observation) -> bool {
        obs.crossing && obs.closes && self.first is Some
    }

    /// The pair of edges of the first crossing, once `obs` was taken in.
    pub open spec fn first_after(self, obs: Observation) -> Option<(Edge, Edge)> {
        if obs.crossing && self.first is None {
            Some((self.p_edge, self.q_edge))
        } else {
            self.first
        }
    }

    /// The apexes assembled once `obs` was taken in: the crossing, if there is
    /// one, and then the head of the current edge of the polygon that moves
    /// on, if that polygon's chain is the one inside.
    pub open spec fn apexes_after(self, obs: Observation) -> Seq<Apex> {
        let crossed = if obs.crossing {
            self.apexes.push(Apex::Crossing(self.p_edge, self.q_edge))
        } else {
            self.apexes
        };
        let inside = inside_after(self.inside, obs);
        match advance_choice(obs) {
            WhichToAdvance::PPoly => if inside == WhichToAdvance::PPoly {
                crossed.push(Apex::OfP(self.p_edge.1))
            } else {
                crossed
            },
            WhichToAdvance::QPoly => if inside == WhichToAdvance::QPoly {
                crossed.push(Apex::OfQ(self.q_edge.1))
            } else {
                crossed
            },
            WhichToAdvance::NotInit => crossed,
        }
    }

    /// The state after `obs` was taken in.
    ///
    /// A traversal that has ended stays as it is. If the edges cross at the
    /// first crossing point recorded, the traversal is closed and nothing else
    /// changes. Otherwise a crossing is appended and decides which chain is
    /// inside, and the first one is recorded; then one walk moves on, after
    /// the head of its current edge was appended if its chain is the one
    /// inside; and one pair less may be observed.
    pub open spec fn step(self, obs: Observation) -> TraversalView {
        if self.progress != Progress::Running {
            self
        } else if self.closes_on(obs) {
            TraversalView { progress: Progress::Closed, ..self }
        } else {
            let p_moves = advance_choice(obs) == WhichToAdvance::PPoly;
            TraversalView {
                iter_p: if p_moves {
                    self.iter_p.advanced()
                } else {
                    self.iter_p
                },
                iter_q: if p_moves {
                    self.iter_q
                } else {
                    self.iter_q.advanced()
                },
                p_edge: if p_moves {
                    self.iter_p.peek()
                } else {
                    self.p_edge
                },
                q_edge: if p_moves {
                    self.q_edge
                } else {
                    self.iter_q.peek()
                },
                inside: inside_after(self.inside, obs),
                first: self.first_after(obs),
                apexes: self.apexes_after(obs),
                remaining: (self.remaining - 1) as usize,
                progress: if self.remaining == 1 {
                    Progress::Exhausted
                } else {
                    Progress::Running
                },
            }
        }
    }

    /// The same state, with P and Q exchanged.
    pub open spec fn exchanged(self) -> TraversalView {
        TraversalView {
            iter_p: self.iter_q,
            iter_q: self.iter_p,
            p_edge: self.q_edge,
            q_edge: self.p_edge,
            inside: self.inside.exchanged(),
            first: match self.first {
                Some(pair) => Some((pair.1, pair.0)),
                None => None,
            },
            apexes: self.apexes.map_values(|a: Apex| a.exchanged()),
            remaining: self.remaining,
            progress: self.progress,
        }
    }

    /// The state after the observations of `trace` were taken in, in order.
    pub open spec fn run(self, trace: Seq<Observation>) -> TraversalView
        decreases trace.len(),
    {
        if trace.len() == 0 {
            self
        } else {
            self.run(trace.drop_last()).step(trace.last())
        }
    }
}

/// At every crossing of `trace`, exactly one of the two heads lies in the
/// other edge's half-plane.
pub open spec fn crossings_proper(trace: Seq<Observation>) -> bool {
    forall|i: int|
        0 <= i < trace.len() && (#[trigger] trace[i]).crossing ==> trace[i].q_head_in_p
            != trace[i].p_head_in_q
}

/// A step does not depend on which polygon is called P: taken with the roles
/// exchanged, it leads to the same state with the roles exchanged.
pub proof fn lemma_step_symmetric(v: TraversalView, obs: Observation)
    requires
        obs.crossing ==> obs.q_head_in_p != obs.p_head_in_q,
    ensures
        v.exchanged().step(obs.exchanged()) == v.step(obs).exchanged(),
{
    lemma_decisions_symmetric(v.inside, obs);
    let left = v.exchanged().step(obs.exchanged());
    let right = v.step(obs).exchanged();
    assert(left.apexes =~= right.apexes);
}

/// A traversal does not depend on which polygon is called P. Where the
/// crossings are proper, the traversal of Q and P that takes in the same
/// observations with the roles exchanged ends as the traversal of P and Q
/// does: closed or exhausted alike, with the same apexes assembled.
pub proof fn lemma_run_symmetric(
    n_p: usize,
    dir_p: Direction,
    n_q: usize,
    dir_q: Direction,
    trace: Seq<Observation>,
)
    requires
        crossings_proper(trace),
    ensures
        TraversalView::initial(n_q, dir_q, n_p, dir_p).run(
            trace.map_values(|o: Observation| o.exchanged()),
        ) == TraversalView::initial(n_p, dir_p, n_q, dir_q).run(trace).exchanged(),
    decreases trace.len(),
{
    let start = TraversalView::initial(n_p, dir_p, n_q, dir_q);
    let mirrored = TraversalView::initial(n_q, dir_q, n_p, dir_p);
    let flipped = trace.map_values(|o: Observation| o.exchanged());
    if trace.len() == 0 {
        assert(mirrored.apexes =~= start.exchanged().apexes);
        assert(mirrored == start.exchanged());
    } else {
        let shorter = trace.drop_last();
        assert(crossings_proper(shorter)) by {
            assert forall|i: int| 0 <= i < shorter.len() && (#[trigger] shorter[i]).crossing
                implies shorter[i].q_head_in_p != shorter[i].p_head_in_q by {
                assert(shorter[i] == trace[i]);
            }
        }
        lemma_run_symmetric(n_p, dir_p, n_q, dir_q, shorter);
        assert(flipped.drop_last() =~= shorter.map_values(|o: Observation| o.exchanged()));
        assert(flipped.last() == trace.last().exchanged());
        assert(trace[trace.len() - 1].crossing ==> trace.last().q_head_in_p
            != trace.last().p_head_in_q);
        lemma_step_symmetric(start.run(shorter), trace.last());
    }
}

/// The result does not depend on which polygon is called P. Where a
/// traversal has ended and the two containment questions were not both
/// affirmed, the result with the roles exchanged is found alike and is the
/// same region, named with the roles exchanged.
pub proof fn lemma_outcome_symmetric(
    end: TraversalView,
    p_first_in_q: bool,
    q_first_in_p: bool,
    found: bool,
    region: Region,
    found_exchanged: bool,
    region_exchanged: Region,
)
    requires
        !(p_first_in_q && q_first_in_p),
        outcome_of(end.progress, end.apexes, p_first_in_q, q_first_in_p, found, region),
        outcome_of(
            end.exchanged().progress,
            end.exchanged().apexes,
            q_first_in_p,
            p_first_in_q,
            found_exchanged,
            region_exchanged,
        ),
    ensures
        found == found_exchanged,
        region.mirrors(region_exchanged),
{
}

/// No observation of `trace` is a crossing.
pub open spec fn no_crossing(trace: Seq<Observation>) -> bool {
    forall|i: int| 0 <= i < trace.len() ==> !(#[trigger] trace[i]).crossing
}

/// A traversal that has assembled nothing and observes no crossing assembles
/// nothing and does not close.
pub proof fn lemma_run_without_crossing(v: TraversalView, trace: Seq<Observation>)
    requires
        v.wf(),
        v.first is None,
        v.progress != Progress::Closed,
        no_crossing(trace),
    ensures
        v.run(trace).first is None,
        v.run(trace).inside == WhichToAdvance::NotInit,
        v.run(trace).apexes.len() == 0,
        v.run(trace).progress != Progress::Closed,
    decreases trace.len(),
{
    if trace.len() > 0 {
        let shorter = trace.drop_last();
        assert(no_crossing(shorter)) by {
            assert forall|i: int| 0 <= i < shorter.len() implies !(#[trigger] shorter[i]).crossing
            by {
                assert(shorter[i] == trace[i]);
            }
        }
        lemma_run_without_crossing(v, shorter);
        lemma_run_bounded(v, shorter);
        assert(!trace[trace.len() - 1].crossing);
    }
}

/// Polygons whose edges are never seen to cross meet only where one holds the
/// other's first apex. The traversal runs its bound out, and the result is the
/// whole of P if Q holds P's first apex, else the whole of Q if P holds Q's
/// first apex, else nothing: not found, with no apex.
pub proof fn lemma_without_crossing(
    n_p: usize,
    dir_p: Direction,
    n_q: usize,
    dir_q: Direction,
    trace: Seq<Observation>,
    p_first_in_q: bool,
    q_first_in_p: bool,
    found: bool,
    region: Region,
)
    requires
        n_p >= 3,
        n_q >= 3,
        iteration_bound(n_p, n_q) <= usize::MAX,
        no_crossing(trace),
        TraversalView::initial(n_p, dir_p, n_q, dir_q).run(trace).progress != Progress::Running,
        outcome_of(
            TraversalView::initial(n_p, dir_p, n_q, dir_q).run(trace).progress,
            TraversalView::initial(n_p, dir_p, n_q, dir_q).run(trace).apexes,
            p_first_in_q,
            q_first_in_p,
            found,
            region,
        ),
    ensures
        TraversalView::initial(n_p, dir_p, n_q, dir_q).run(trace).progress == Progress::Exhausted,
        found == (p_first_in_q || q_first_in_p),
        p_first_in_q ==> region is WholeP,
        !p_first_in_q && q_first_in_p ==> region is WholeQ,
        !p_first_in_q && !q_first_in_p ==> (region matches Region::Assembled(v) && v@.len() == 0),
{
    lemma_assembled_apexes_exist(n_p, dir_p, n_q, dir_q, Seq::empty());
    lemma_run_without_crossing(TraversalView::initial(n_p, dir_p, n_q, dir_q), trace);
}

/// A step keeps a traversal well-formed, and a running traversal loses one of
/// the pairs it may still observe unless it closes.
pub proof fn lemma_step_wf(v: TraversalView, obs: Observation)
    requires
        v.wf(),
    ensures
        v.step(obs).wf(),
        v.step(obs).n_p() == v.n_p(),
        v.step(obs).n_q() == v.n_q(),
        v.step(obs).progress == Progress::Running ==> v.progress == Progress::Running
            && v.step(obs).remaining + 1 == v.remaining,
{
    if v.progress == Progress::Running && !v.closes_on(obs) {
        lemma_peek_within(v.iter_p);
        lemma_peek_within(v.iter_q);
    }
}

/// Bounded termination: however the observations fall, a traversal stays
/// well-formed, has observed as many pairs as it took in while it runs, and
/// has ended once it took in as many observations as it had pairs left. In
/// particular no traversal outlasts `2 * (n_p + n_q)` observations, and none
/// assembles more than twice that many apexes.
pub proof fn lemma_run_bounded(v: TraversalView, trace: Seq<Observation>)
    requires
        v.wf(),
    ensures
        v.run(trace).wf(),
        v.run(trace).n_p() == v.n_p(),
        v.run(trace).n_q() == v.n_q(),
        v.run(trace).progress == Progress::Running ==> v.run(trace).remaining + trace.len()
            == v.remaining,
        trace.len() >= v.remaining ==> v.run(trace).progress != Progress::Running,
        v.run(trace).apexes.len() <= 2 * iteration_bound(v.n_p(), v.n_q()),
    decreases trace.len(),
{
    if trace.len() > 0 {
        lemma_run_bounded(v, trace.drop_last());
        lemma_step_wf(v.run(trace.drop_last()), trace.last());
    }
}

/// Whatever is observed, every apex that a traversal of a P of `n_p` apexes
/// and a Q of `n_q` assembles names positions that exist in P and in Q, and
/// there are no more than `4 * (n_p + n_q)` of them.
pub proof fn lemma_assembled_apexes_exist(
    n_p: usize,
    dir_p: Direction,
    n_q: usize,
    dir_q: Direction,
    trace: Seq<Observation>,
)
    requires
        n_p >= 3,
        n_q >= 3,
        iteration_bound(n_p, n_q) <= usize::MAX,
    ensures
        TraversalView::initial(n_p, dir_p, n_q, dir_q).wf(),
        TraversalView::initial(n_p, dir_p, n_q, dir_q).run(trace).wf(),
        TraversalView::initial(n_p, dir_p, n_q, dir_q).run(trace).apexes.len() <= 4 * (n_p + n_q),
        forall|i: int|
            0 <= i < TraversalView::initial(n_p, dir_p, n_q, dir_q).run(trace).apexes.len()
                ==> (#[trigger] TraversalView::initial(n_p, dir_p, n_q, dir_q).run(
                trace,
            ).apexes[i]).valid(n_p, n_q),
{
    lemma_walk_edges(n_p, dir_p, 0);
    lemma_walk_edges(n_q, dir_q, 0);
    lemma_run_bounded(TraversalView::initial(n_p, dir_p, n_q, dir_q), trace);
}

/// The edge that a walk hands out next lies on its ring, and so does the walk after it.
pub proof fn lemma_peek_within(it: ConvexHullIterator)
    requires
        it.wf(),
    ensures
        it.peek().within(it.count),
        it.advanced().wf(),
        it.advanced().count == it.count,
{
    lemma_ring_step(it.idx as int, it.direction, it.count as int);
    lemma_ring_step(it.idx as int, it.direction.reversed(), it.count as int);
}

/// The rotating dual-boundary traversal of two convex polygons P and Q, as a
/// state machine. It holds the current pair of edges; the geometry of that
/// pair is observed outside and fed to [`Traversal::step`], until the
/// traversal closes or its iteration bound is used up.
#[derive(Debug)]
pub struct Traversal {
    /// Walk over P's boundary, in P's own orientation.
    pub iter_p: ConvexHullIterator,
    /// Walk over Q's boundary, in Q's own orientation.
    pub iter_q: ConvexHullIterator,
    /// Current edge of P.
    pub p_edge: Edge,
    /// Current edge of Q.
    pub q_edge: Edge,
    /// The chain presently inside the other polygon.
    pub inside: WhichToAdvance,
    /// The pair of edges at which the first crossing was recorded.
    pub first: Option<(Edge, Edge)>,
    /// The apexes assembled so far.
    pub apexes: Vec<Apex>,
    /// Pairs of edges that may still be observed.
    pub remaining: usize,
    pub progress: Progress,
}

impl View for Traversal {
    type V = TraversalView;

    open spec fn view(&self) -> TraversalView {
        TraversalView {
            iter_p: self.iter_p,
            iter_q: self.iter_q,
            p_edge: self.p_edge,
            q_edge: self.q_edge,
            inside: self.inside,
            first: self.first,
            apexes: self.apexes@,
            remaining: self.remaining,
            progress: self.progress,
        }
    }
}

impl Traversal {
    pub open spec fn wf(self) -> bool {
        self@.wf()
    }

    /// Sets a traversal of P, `cvx_p`, and Q, `cvx_q`, up in the state
    /// [`TraversalView::initial`]. The orientation of each polygon is derived
    /// from its turn; a polygon without one is refused.
    pub fn start(cvx_p: &ConvexHull, cvx_q: &ConvexHull) -> (r: Result<
        Traversal,
        GeometryError,
    >)
        requires
            iteration_bound(cvx_p.count, cvx_q.count) <= usize::MAX,
        ensures
            r is Err <==> (direction_of(cvx_p.count, cvx_p.turn) is Err || direction_of(
                cvx_q.count,
                cvx_q.turn,
            ) is Err),
            r is Err ==> r == Err::<Traversal, GeometryError>(GeometryError::DegeneratePolygon),
            r matches Ok(t) ==> {
                &&& t.wf()
                &&& direction_of(cvx_p.count, cvx_p.turn) matches Ok(dir_p)
                &&& direction_of(cvx_q.count, cvx_q.turn) matches Ok(dir_q)
                &&& t@ == TraversalView::initial(cvx_p.count, dir_p, cvx_q.count, dir_q)
            },
    {
        let dir_p: Direction = match cvx_p.get_direction() {
            Ok(d) => d,
            Err(e) => {
                return Err(e);
            },
        };
        let dir_q: Direction = match cvx_q.get_direction() {
            Ok(d) => d,
            Err(e) => {
                return Err(e);
            },
        };
        let mut iter_p = ConvexHullIterator::new(cvx_p, dir_p);
        let mut iter_q = ConvexHullIterator::new(cvx_q, dir_q);
        proof {
            lemma_walk_edges(cvx_p.count, dir_p, 0);
            lemma_walk_edges(cvx_q.count, dir_q, 0);
        }
        let p_edge: Edge = match iter_p.next() {
            Some(e) => e,
            None => Edge(0, 0),
        };
        let q_edge: Edge = match iter_q.next() {
            Some(e) => e,
            None => Edge(0, 0),
        };
        Ok(
            Traversal {
                iter_p,
                iter_q,
                p_edge,
                q_edge,
                inside: WhichToAdvance::NotInit,
                first: None,
                apexes: Vec::new(),
                remaining: 2 * (cvx_p.count + cvx_q.count),
                progress: Progress::Running,
            },
        )
    }

    /// Takes in what was observed of the current pair of edges: the
    /// traversal moves to the state [`TraversalView::step`].
    pub fn step(&mut self, obs: Observation) -> (progress: Progress)
        requires
            old(self).wf(),
        ensures
            final(self).wf(),
            final(self)@ == old(self)@.step(obs),
            progress == final(self).progress,
    {
        proof {
            lemma_step_wf(self@, obs);
        }
        match self.progress {
            Progress::Running => {},
            Progress::Closed => {
                return Progress::Closed;
            },
            Progress::Exhausted => {
                return Progress::Exhausted;
            },
        }
        if obs.crossing {
            if obs.closes && self.first.is_some() {
                self.progress = Progress::Closed;
                return Progress::Closed;
            }
            self.apexes.push(Apex::Crossing(self.p_edge, self.q_edge));
            if obs.q_head_in_p {
                self.inside = WhichToAdvance::PPoly;
            } else {
                self.inside = WhichToAdvance::QPoly;
            }
            if self.first.is_none() {
                self.first = Some((self.p_edge, self.q_edge));
            }
        }
        match which_to_advance(obs) {
            WhichToAdvance::NotInit => {
                proof {
                    assert(false);
                }
            },
            WhichToAdvance::PPoly => {
                match self.inside {
                    WhichToAdvance::PPoly => {
                        self.apexes.push(Apex::OfP(self.p_edge.1));
                    },
                    _ => {},
                }
                match self.iter_p.next() {
                    Some(e) => {
                        self.p_edge = e;
                    },
                    None => {},
                }
            },
            WhichToAdvance::QPoly => {
                match self.inside {
                    WhichToAdvance::QPoly => {
                        self.apexes.push(Apex::OfQ(self.q_edge.1));
                    },
                    _ => {},
                }
                match self.iter_q.next() {
                    Some(e) => {
                        self.q_edge = e;
                    },
                    None => {},
                }
            },
        }
        self.remaining = self.remaining - 1;
        if self.remaining == 0 {
            self.progress = Progress::Exhausted;
        }
        self.progress
    }

    /// The result of the intersection, once the traversal has ended; `None`
    /// while it is still running. `p_first_in_q` says whether Q holds P's
    /// first apex, `q_first_in_p` whether P holds Q's; both are read only
    /// where the walk did not close.
    pub fn finish(self, p_first_in_q: bool, q_first_in_p: bool) -> (r: Option<(bool, Region)>)
        ensures
            r is None <==> self.progress == Progress::Running,
            r matches Some(res) ==> outcome_of(
                self.progress,
                self.apexes@,
                p_first_in_q,
                q_first_in_p,
                res.0,
                res.1,
            ),
    {
        match self.progress {
            Progress::Running => None,
            Progress::Closed => Some((true, Region::Assembled(self.apexes))),
            Progress::Exhausted => {
                if p_first_in_q {
                    Some((true, Region::WholeP))
                } else if q_first_in_p {
                    Some((true, Region::WholeQ))
                } else {
                    Some((false, Region::Assembled(self.apexes)))
                }
            },
        }
    }
}

} // verus!
