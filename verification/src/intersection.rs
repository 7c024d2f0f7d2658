use crate::convex_hull::direction_of;
use crate::convex_hull::ConvexHull;
use crate::convex_hull::GeometryError;
use crate::edge::Edge;
use crate::traversal::iteration_bound;
use crate::traversal::lemma_step_wf;
use crate::traversal::outcome_of;
use crate::traversal::Observation;
use crate::traversal::Progress;
use crate::traversal::Region;
use crate::traversal::Traversal;
use crate::traversal::TraversalView;
use vstd::prelude::*;

verus! {

/// Every observation of `trace` is one that `observe` can give for the pair of
/// edges, and the first crossing, that the traversal from `start` holds when
/// the observation is taken in.
pub open spec fn observed_by<F: Fn(Edge, Edge, Option<(Edge, Edge)>) -> Observation>(
    observe: F,
    start: TraversalView,
    trace: Seq<Observation>,
) -> bool {
    forall|i: int|
        0 <= i < trace.len() ==> call_ensures(
            observe,
            (
                start.run(trace.take(i)).p_edge,
                start.run(trace.take(i)).q_edge,
                start.run(trace.take(i)).first,
            ),
            #[trigger] trace[i],
        )
}

/// The traversal from `start` ends in `end` when it takes in `trace`, a
/// sequence of observations that `observe` gives.
pub open spec fn reached_by<F: Fn(Edge, Edge, Option<(Edge, Edge)>) -> Observation>(
    observe: F,
    start: TraversalView,
    trace: Seq<Observation>,
    end: TraversalView,
) -> bool {
    &&& trace.len() <= iteration_bound(start.n_p(), start.n_q())
    &&& observed_by(observe, start, trace)
    &&& end == start.run(trace)
    &&& end.progress != Progress::Running
}

/// Runs the traversal of P, `cvx_p`, and Q, `cvx_q`, to its end, asking
/// `observe` for the geometry of each pair of edges that comes up (the P
/// edge, the Q edge, and the pair of edges of the first crossing recorded, if
/// any). It asks at most twice as often as the two polygons have apexes
/// together. A polygon without an orientation is refused.
pub fn traverse<F>(cvx_p: &ConvexHull, cvx_q: &ConvexHull, observe: F) -> (r: Result<
    Traversal,
    GeometryError,
>) where F: Fn(Edge, Edge, Option<(Edge, Edge)>) -> Observation
    requires
        iteration_bound(cvx_p.count, cvx_q.count) <= usize::MAX,
        forall|p_edge: Edge, q_edge: Edge, first: Option<(Edge, Edge)>|
            p_edge.within(cvx_p.count) && q_edge.within(cvx_q.count) && (first matches Some(
                pair,
            ) ==> pair.0.within(cvx_p.count) && pair.1.within(cvx_q.count)) ==> call_requires(
                observe,
                (p_edge, q_edge, first),
            ),
    ensures
        r is Err <==> (direction_of(cvx_p.count, cvx_p.turn) is Err || direction_of(
            cvx_q.count,
            cvx_q.turn,
        ) is Err),
        r is Err ==> r == Err::<Traversal, GeometryError>(GeometryError::DegeneratePolygon),
        r matches Ok(t) ==> {
            &&& t.wf()
            &&& direction_of(cvx_p.count, cvx_p.turn) matches Ok(dir_p)
            &&& direction_of(cvx_q.count, cvx_q.turn) matches Ok(dir_q)
            &&& exists|trace: Seq<Observation>|
                reached_by(
                    observe,
                    TraversalView::initial(cvx_p.count, dir_p, cvx_q.count, dir_q),
                    trace,
                    t@,
                )
        },
{
    let mut t: Traversal = match Traversal::start(cvx_p, cvx_q) {
        Ok(t) => t,
        Err(e) => {
            return Err(e);
        },
    };
    let ghost start = t@;
    let ghost mut trace: Seq<Observation> = Seq::empty();
    let mut progress: Progress = Progress::Running;
    while progress == Progress::Running
        invariant
            t.wf(),
            start.wf(),
            progress == t.progress,
            t@ == start.run(trace),
            t@.n_p() == cvx_p.count,
            t@.n_q() == cvx_q.count,
            start.n_p() == cvx_p.count,
            start.n_q() == cvx_q.count,
            start.remaining == iteration_bound(cvx_p.count, cvx_q.count),
            observed_by(observe, start, trace),
            t.progress == Progress::Running ==> t.remaining + trace.len() == start.remaining,
            trace.len() <= start.remaining,
            forall|p_edge: Edge, q_edge: Edge, first: Option<(Edge, Edge)>|
                p_edge.within(cvx_p.count) && q_edge.within(cvx_q.count) && (first matches Some(
                    pair,
                ) ==> pair.0.within(cvx_p.count) && pair.1.within(cvx_q.count)) ==> call_requires(
                    observe,
                    (p_edge, q_edge, first),
                ),
        decreases
            (if progress == Progress::Running {
                t.remaining + 1
            } else {
                0
            }),
    {
        let obs: Observation = observe(t.p_edge, t.q_edge, t.first);
        proof {
            let longer = trace.push(obs);
            assert(longer.drop_last() == trace);
            assert(longer.last() == obs);
            assert forall|i: int| 0 <= i < longer.len() implies call_ensures(
                observe,
                (
                    start.run(longer.take(i)).p_edge,
                    start.run(longer.take(i)).q_edge,
                    start.run(longer.take(i)).first,
                ),
                #[trigger] longer[i],
            ) by {
                if i < trace.len() {
                    assert(longer.take(i) == trace.take(i));
                    assert(longer[i] == trace[i]);
                } else {
                    assert(longer.take(i) == trace);
                }
            }
            lemma_step_wf(t@, obs);
            trace = longer;
        }
        progress = t.step(obs);
    }
    proof {
        assert(reached_by(observe, start, trace, t@));
    }
    Ok(t)
}

/// `found` and `region` are what the intersection yields when the traversal
/// from `start` takes in `trace`: the observations are ones that `observe`
/// gives, the traversal has ended, and, where it did not close, `p_first_in_q`
/// gave the first of `answers` and, if that was `false`, `q_first_in_p` the second.
pub open spec fn yields<
    F: Fn(Edge, Edge, Option<(Edge, Edge)>) -> Observation,
    G: FnOnce() -> bool,
    H: FnOnce() -> bool,
>(
    observe: F,
    p_first_in_q: G,
    q_first_in_p: H,
    start: TraversalView,
    trace: Seq<Observation>,
    answers: (bool, bool),
    found: bool,
    region: Region,
) -> bool {
    &&& reached_by(observe, start, trace, start.run(trace))
    &&& start.run(trace).progress == Progress::Exhausted ==> call_ensures(
        p_first_in_q,
        (),
        answers.0,
    )
    &&& start.run(trace).progress == Progress::Exhausted && !answers.0 ==> call_ensures(
        q_first_in_p,
        (),
        answers.1,
    )
    &&& outcome_of(
        start.run(trace).progress,
        start.run(trace).apexes,
        answers.0,
        answers.1,
        found,
        region,
    )
}

impl ConvexHull {
    /// Intersects the convex polygon P, `cvx_p`, with the convex polygon Q,
    /// `cvx_q`, and says whether they meet and in which polygon.
    ///
    /// The polygons are known by what the geometry says of them: their turns
    /// give their orientations, `observe` the geometry of a pair of edges,
    /// `p_first_in_q` whether Q holds P's first apex and `q_first_in_p`
    /// whether P holds Q's. The traversal runs until it closes or has observed
    /// twice as many pairs as the two polygons have apexes together; the two
    /// containment questions are asked only if it did not close, the second
    /// only if the first was denied. A polygon without an orientation is
    /// refused.
    pub fn intersection<F, G, H>(
        cvx_p: &ConvexHull,
        cvx_q: &ConvexHull,
        observe: F,
        p_first_in_q: G,
        q_first_in_p: H,
    ) -> (r: Result<(bool, Region), GeometryError>) where
        F: Fn(Edge, Edge, Option<(Edge, Edge)>) -> Observation,
        G: FnOnce() -> bool,
        H: FnOnce() -> bool,

        requires
            iteration_bound(cvx_p.count, cvx_q.count) <= usize::MAX,
            forall|p_edge: Edge, q_edge: Edge, first: Option<(Edge, Edge)>|
                p_edge.within(cvx_p.count) && q_edge.within(cvx_q.count) && (first matches Some(
                    pair,
                ) ==> pair.0.within(cvx_p.count) && pair.1.within(cvx_q.count)) ==> call_requires(
                    observe,
                    (p_edge, q_edge, first),
                ),
            call_requires(p_first_in_q, ()),
            call_requires(q_first_in_p, ()),
        ensures
            r is Err <==> (direction_of(cvx_p.count, cvx_p.turn) is Err || direction_of(
                cvx_q.count,
                cvx_q.turn,
            ) is Err),
            r is Err ==> r == Err::<(bool, Region), GeometryError>(
                GeometryError::DegeneratePolygon,
            ),
            r matches Ok(res) ==> {
                &&& direction_of(cvx_p.count, cvx_p.turn) matches Ok(dir_p)
                &&& direction_of(cvx_q.count, cvx_q.turn) matches Ok(dir_q)
                &&& exists|trace: Seq<Observation>, answers: (bool, bool)|
                    #[trigger] yields(
                        observe,
                        p_first_in_q,
                        q_first_in_p,
                        TraversalView::initial(cvx_p.count, dir_p, cvx_q.count, dir_q),
                        trace,
                        answers,
                        res.0,
                        res.1,
                    )
            },
    {
        let t: Traversal = match traverse(cvx_p, cvx_q, observe) {
            Ok(t) => t,
            Err(e) => {
                return Err(e);
            },
        };
        let ghost end = t@;
        let ghost start = TraversalView::initial(
            cvx_p.count,
            direction_of(cvx_p.count, cvx_p.turn)->Ok_0,
            cvx_q.count,
            direction_of(cvx_q.count, cvx_q.turn)->Ok_0,
        );
        let ghost trace = choose|trace: Seq<Observation>| reached_by(observe, start, trace, end);
        let mut a: bool = false;
        let mut b: bool = false;
        match t.progress {
            Progress::Exhausted => {
                a = p_first_in_q();
                if !a {
                    b = q_first_in_p();
                }
            },
            _ => {},
        }
        let res: (bool, Region) = match t.finish(a, b) {
            Some(res) => res,
            None => {
                proof {
                    assert(false);
                }
                (false, Region::WholeP)
            },
        };
        let r: Result<(bool, Region), GeometryError> = Ok(res);
        proof {
            assert(r->Ok_0 == res);
            assert(yields(observe, p_first_in_q, q_first_in_p, start, trace, (a, b), res.0, res.1));
        }
        r
    }

}

} // verus!
