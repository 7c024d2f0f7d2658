use convex_hull_filtering::convex_hull::ConvexHull;
use convex_hull_filtering::convex_hull::Direction;
use convex_hull_filtering::convex_hull::GeometryError;
use convex_hull_filtering::convex_hull::Turn;
use convex_hull_filtering::edge::Edge;
use convex_hull_filtering::intersection::traverse;
use convex_hull_filtering::traversal::which_to_advance;
use convex_hull_filtering::traversal::Apex;
use convex_hull_filtering::traversal::Observation;
use convex_hull_filtering::traversal::Progress;
use convex_hull_filtering::traversal::Region;
use convex_hull_filtering::traversal::Traversal;
use convex_hull_filtering::traversal::WhichToAdvance;
use std::cell::Cell;
use std::cell::RefCell;

type Pt = (f64, f64);

fn hull(count: usize, turn: Turn) -> ConvexHull {
    ConvexHull { id: 7, count, turn }
}

fn hull_of(id: u32, poly: &[Pt]) -> ConvexHull {
    ConvexHull { id, count: poly.len(), turn: turn_of(poly) }
}

fn cross(a: (Pt, Pt), b: (Pt, Pt)) -> f64 {
    ((a.1).0 - (a.0).0) * ((b.1).1 - (b.0).1) - ((a.1).1 - (a.0).1) * ((b.1).0 - (b.0).0)
}

fn dot(a: (Pt, Pt), b: (Pt, Pt)) -> f64 {
    ((a.1).0 - (a.0).0) * ((b.1).0 - (b.0).0) + ((a.1).1 - (a.0).1) * ((b.1).1 - (b.0).1)
}

fn in_half_plane(e: (Pt, Pt), pt: Pt) -> bool {
    cross(e, (e.0, pt)) >= 0.0
}

fn crossing_point(e: (Pt, Pt), q: (Pt, Pt)) -> Option<Pt> {
    let det = cross(e, q);
    if det.abs() > f64::EPSILON {
        let rx = (q.0).0 - (e.0).0;
        let ry = (q.0).1 - (e.0).1;
        let ke = (rx * ((q.1).1 - (q.0).1) - ry * ((q.1).0 - (q.0).0)) / det;
        let kq = -(((e.1).0 - (e.0).0) * ry - ((e.1).1 - (e.0).1) * rx) / det;
        if 0.0 <= ke && ke <= 1.0 && 0.0 <= kq && kq <= 1.0 {
            return Some(((e.0).0 + ke * ((e.1).0 - (e.0).0), (e.0).1 + ke * ((e.1).1 - (e.0).1)));
        }
    }
    None
}

fn segment(poly: &[Pt], e: Edge) -> (Pt, Pt) {
    (poly[e.tail()], poly[e.head()])
}

fn turn_of(poly: &[Pt]) -> Turn {
    let c = cross((poly[0], poly[1]), (poly[0], poly[2]));
    if c > 0.0 {
        Turn::Left
    } else if c < 0.0 {
        Turn::Right
    } else {
        Turn::Straight
    }
}

fn holds(poly: &[Pt], pt: Pt) -> bool {
    let mut sum = 0.0f64;
    for e in hull_of(0, poly).boundary_edges(Direction::Clockwise) {
        let a = (pt, poly[e.tail()]);
        let b = (pt, poly[e.head()]);
        sum += cross(a, b).atan2(dot(a, b));
    }
    sum.abs() > 1e-6
}

fn observe(
    p: &[Pt],
    q: &[Pt],
    p_edge: Edge,
    q_edge: Edge,
    first: Option<(Edge, Edge)>,
) -> Observation {
    let pe = segment(p, p_edge);
    let qe = segment(q, q_edge);
    let here = crossing_point(pe, qe);
    let first = match first {
        Some((fp, fq)) => crossing_point(segment(p, fp), segment(q, fq)),
        None => None,
    };
    Observation {
        crossing: here.is_some(),
        closes: here.is_some() && here == first,
        q_head_in_p: in_half_plane(pe, qe.1),
        p_head_in_q: in_half_plane(qe, pe.1),
        cross_nonneg: cross(qe, pe) >= 0.0,
    }
}

fn place(p: &[Pt], q: &[Pt], apex: &Apex) -> Pt {
    match apex {
        Apex::Crossing(pe, qe) => crossing_point(segment(p, *pe), segment(q, *qe)).unwrap(),
        Apex::OfP(i) => p[*i],
        Apex::OfQ(j) => q[*j],
    }
}

fn intersect(p: &[Pt], q: &[Pt]) -> (bool, Vec<Pt>, usize) {
    let asked = Cell::new(0usize);
    let (found, region) = ConvexHull::intersection(
        &hull_of(1, p),
        &hull_of(2, q),
        |pe: Edge, qe: Edge, first: Option<(Edge, Edge)>| {
            asked.set(asked.get() + 1);
            observe(p, q, pe, qe, first)
        },
        || holds(q, p[0]),
        || holds(p, q[0]),
    )
    .unwrap();
    let apexes = match region {
        Region::Assembled(v) => v.iter().map(|a| place(p, q, a)).collect(),
        Region::WholeP => p.to_vec(),
        Region::WholeQ => q.to_vec(),
    };
    (found, apexes, asked.get())
}

fn by_hand(p: &[Pt], q: &[Pt]) -> Traversal {
    let mut t = Traversal::start(&hull_of(1, p), &hull_of(2, q)).unwrap();
    while t.progress == Progress::Running {
        let obs = observe(p, q, t.p_edge, t.q_edge, t.first);
        t.step(obs);
    }
    t
}

fn same_apex_set(a: &[Pt], b: &[Pt]) -> bool {
    a.iter().all(|x| b.contains(x)) && b.iter().all(|x| a.contains(x))
}

fn unit_square() -> Vec<Pt> {
    vec![(0.0, 0.0), (1.0, 0.0), (1.0, 1.0), (0.0, 1.0)]
}

fn moved(poly: &[Pt], dx: f64, dy: f64) -> Vec<Pt> {
    poly.iter().map(|p| (p.0 + dx, p.1 + dy)).collect()
}

fn obs(
    crossing: bool,
    closes: bool,
    q_head_in_p: bool,
    p_head_in_q: bool,
    cross_nonneg: bool,
) -> Observation {
    Observation { crossing, closes, q_head_in_p, p_head_in_q, cross_nonneg }
}

#[test]
fn start_pulls_the_first_edge_of_each_walk() {
    let t = Traversal::start(&hull(4, Turn::Left), &hull(5, Turn::Right)).unwrap();
    assert_eq!(t.p_edge, Edge(3, 0));
    assert_eq!(t.q_edge, Edge(1, 0));
    assert_eq!(t.iter_p.idx, 1);
    assert_eq!(t.iter_q.idx, 4);
    assert_eq!(t.iter_p.direction, Direction::Clockwise);
    assert_eq!(t.iter_q.direction, Direction::CounterClockwise);
    assert_eq!(t.inside, WhichToAdvance::NotInit);
    assert_eq!(t.first, None);
    assert!(t.apexes.is_empty());
    assert_eq!(t.remaining, 18);
    assert_eq!(t.progress, Progress::Running);
}

#[test]
fn start_refuses_a_polygon_of_two_apexes() {
    assert_eq!(
        Traversal::start(&hull(2, Turn::Left), &hull(4, Turn::Left)).err(),
        Some(GeometryError::DegeneratePolygon)
    );
    assert_eq!(
        Traversal::start(&hull(4, Turn::Left), &hull(2, Turn::Right)).err(),
        Some(GeometryError::DegeneratePolygon)
    );
}

#[test]
fn start_refuses_a_collinear_opening() {
    assert_eq!(
        Traversal::start(&hull(3, Turn::Straight), &hull(4, Turn::Left)).err(),
        Some(GeometryError::DegeneratePolygon)
    );
    assert_eq!(
        Traversal::start(&hull(3, Turn::Right), &hull(4, Turn::Straight)).err(),
        Some(GeometryError::DegeneratePolygon)
    );
}

#[test]
fn which_to_advance_truth_table() {
    assert_eq!(which_to_advance(obs(false, false, true, false, true)), WhichToAdvance::QPoly);
    assert_eq!(which_to_advance(obs(false, false, true, true, true)), WhichToAdvance::QPoly);
    assert_eq!(which_to_advance(obs(false, false, false, true, true)), WhichToAdvance::PPoly);
    assert_eq!(which_to_advance(obs(false, false, false, false, true)), WhichToAdvance::PPoly);
    assert_eq!(which_to_advance(obs(false, false, false, true, false)), WhichToAdvance::PPoly);
    assert_eq!(which_to_advance(obs(false, false, true, true, false)), WhichToAdvance::PPoly);
    assert_eq!(which_to_advance(obs(false, false, true, false, false)), WhichToAdvance::QPoly);
    assert_eq!(which_to_advance(obs(false, false, false, false, false)), WhichToAdvance::QPoly);
}

#[test]
fn step_without_crossing_moves_one_walk_and_assembles_nothing() {
    let mut t = Traversal::start(&hull(4, Turn::Left), &hull(4, Turn::Left)).unwrap();
    assert_eq!(t.step(obs(false, false, false, false, true)), Progress::Running);
    assert_eq!(t.p_edge, Edge(0, 1));
    assert_eq!(t.q_edge, Edge(3, 0));
    assert_eq!(t.inside, WhichToAdvance::NotInit);
    assert_eq!(t.first, None);
    assert!(t.apexes.is_empty());
    assert_eq!(t.remaining, 15);
    assert_eq!(t.step(obs(false, true, false, false, false)), Progress::Running);
    assert_eq!(t.p_edge, Edge(0, 1));
    assert_eq!(t.q_edge, Edge(0, 1));
    assert!(t.apexes.is_empty());
    assert_eq!(t.remaining, 14);
}

#[test]
fn step_records_a_crossing_and_the_inside_chain() {
    let mut t = Traversal::start(&hull(4, Turn::Left), &hull(4, Turn::Left)).unwrap();
    assert_eq!(t.step(obs(true, false, true, false, true)), Progress::Running);
    assert_eq!(t.inside, WhichToAdvance::PPoly);
    assert_eq!(t.first, Some((Edge(3, 0), Edge(3, 0))));
    assert_eq!(t.apexes, vec![Apex::Crossing(Edge(3, 0), Edge(3, 0))]);
    assert_eq!(t.q_edge, Edge(0, 1));
    assert_eq!(t.p_edge, Edge(3, 0));
    assert_eq!(t.step(obs(false, false, false, true, false)), Progress::Running);
    assert_eq!(t.apexes, vec![Apex::Crossing(Edge(3, 0), Edge(3, 0)), Apex::OfP(0)]);
    assert_eq!(t.p_edge, Edge(0, 1));
    assert_eq!(t.step(obs(true, false, false, false, false)), Progress::Running);
    assert_eq!(t.inside, WhichToAdvance::QPoly);
    assert_eq!(t.first, Some((Edge(3, 0), Edge(3, 0))));
    assert_eq!(
        t.apexes,
        vec![
            Apex::Crossing(Edge(3, 0), Edge(3, 0)),
            Apex::OfP(0),
            Apex::Crossing(Edge(0, 1), Edge(0, 1)),
            Apex::OfQ(1)
        ]
    );
    assert_eq!(t.q_edge, Edge(1, 2));
}

#[test]
fn a_first_crossing_never_closes() {
    let mut t = Traversal::start(&hull(3, Turn::Left), &hull(3, Turn::Left)).unwrap();
    assert_eq!(t.step(obs(true, true, false, false, true)), Progress::Running);
    assert_eq!(t.apexes.len(), 1);
    assert_eq!(t.inside, WhichToAdvance::QPoly);
}

#[test]
fn step_closes_on_the_first_crossing_point() {
    let mut t = Traversal::start(&hull(4, Turn::Left), &hull(4, Turn::Left)).unwrap();
    t.step(obs(true, false, true, false, true));
    t.step(obs(false, false, false, true, false));
    assert_eq!(t.step(obs(true, true, false, false, false)), Progress::Closed);
    assert_eq!(t.progress, Progress::Closed);
    assert_eq!(t.remaining, 14);
    assert_eq!(t.inside, WhichToAdvance::PPoly);
    assert_eq!(
        t.finish(false, false),
        Some((true, Region::Assembled(vec![Apex::Crossing(Edge(3, 0), Edge(3, 0)), Apex::OfP(0)])))
    );
}

#[test]
fn an_ended_traversal_stays_as_it_is() {
    let mut t = Traversal::start(&hull(4, Turn::Left), &hull(4, Turn::Left)).unwrap();
    t.step(obs(true, false, true, false, true));
    t.step(obs(true, true, true, false, true));
    assert_eq!(t.step(obs(true, false, false, false, false)), Progress::Closed);
    assert_eq!(t.apexes.len(), 1);
    assert_eq!(t.remaining, 15);
}

#[test]
fn the_bound_is_twice_the_apex_count() {
    let mut t = Traversal::start(&hull(3, Turn::Left), &hull(4, Turn::Right)).unwrap();
    for k in 0..13 {
        assert_eq!(t.step(obs(false, false, k % 2 == 0, false, true)), Progress::Running);
    }
    assert_eq!(t.step(obs(false, false, false, false, true)), Progress::Exhausted);
    assert_eq!(t.remaining, 0);
    assert_eq!(t.step(obs(false, false, false, false, true)), Progress::Exhausted);
    assert!(t.apexes.is_empty());
}

#[test]
fn finish_of_a_running_traversal_is_none() {
    let t = Traversal::start(&hull(3, Turn::Left), &hull(3, Turn::Left)).unwrap();
    assert_eq!(t.finish(true, true), None);
}

fn exhausted() -> Traversal {
    let mut t = Traversal::start(&hull(3, Turn::Left), &hull(3, Turn::Left)).unwrap();
    while t.step(obs(false, false, false, false, true)) == Progress::Running {}
    t
}

#[test]
fn fallback_prefers_p_inside_q() {
    assert_eq!(exhausted().finish(true, true), Some((true, Region::WholeP)));
    assert_eq!(exhausted().finish(true, false), Some((true, Region::WholeP)));
}

#[test]
fn fallback_q_inside_p() {
    assert_eq!(exhausted().finish(false, true), Some((true, Region::WholeQ)));
}

#[test]
fn fallback_disjoint() {
    assert_eq!(exhausted().finish(false, false), Some((false, Region::Assembled(vec![]))));
}

#[test]
fn squares_two_apart_do_not_intersect() {
    let p = unit_square();
    let q = moved(&p, 2.0, 0.0);
    let (found, apexes, steps) = intersect(&p, &q);
    assert!(!found);
    assert!(apexes.is_empty());
    assert_eq!(steps, 16);
}

#[test]
fn squares_half_a_unit_apart_intersect() {
    let p = unit_square();
    let q = moved(&p, 0.5, 0.5);
    let (found, _, steps) = intersect(&p, &q);
    assert!(found);
    assert!(steps <= 16);
}

#[test]
fn a_square_meets_itself_in_itself() {
    let p = unit_square();
    let (found, apexes, _) = intersect(&p, &p);
    assert!(found);
    assert!(same_apex_set(&apexes, &p));
}

#[test]
fn intersection_does_not_depend_on_the_order() {
    let p = unit_square();
    let q = moved(&p, 0.5, 0.5);
    let (found_pq, apexes_pq, _) = intersect(&p, &q);
    let (found_qp, apexes_qp, _) = intersect(&q, &p);
    assert_eq!(found_pq, found_qp);
    assert!(same_apex_set(&apexes_pq, &apexes_qp));
}

#[test]
fn a_polygon_inside_another_is_the_intersection() {
    let p = unit_square();
    let q: Vec<Pt> = vec![(-1.0, -1.0), (3.0, -1.0), (3.0, 3.0), (-1.0, 3.0)];
    let (found, apexes, _) = intersect(&p, &q);
    assert!(found);
    assert!(same_apex_set(&apexes, &p));
    let (found, apexes, _) = intersect(&q, &p);
    assert!(found);
    assert!(same_apex_set(&apexes, &p));
}

#[test]
fn centroid_is_inside_and_far_point_is_outside() {
    let p = unit_square();
    assert!(holds(&p, (0.5, 0.5)));
    assert!(!holds(&p, (10.0, 10.0)));
    let tri: Vec<Pt> = vec![(0.0, 0.0), (2.0, 0.0), (1.0, 2.0)];
    assert!(holds(&tri, (1.0, 2.0 / 3.0)));
    assert!(!holds(&tri, (-50.0, 7.0)));
}

#[test]
fn traverse_agrees_with_stepping_by_hand() {
    let p = unit_square();
    let q: Vec<Pt> = vec![(0.5, -0.5), (1.5, 0.5), (0.5, 1.5), (-0.5, 0.5)];
    let t = traverse(&hull_of(1, &p), &hull_of(2, &q), |pe, qe, first| {
        observe(&p, &q, pe, qe, first)
    })
    .unwrap();
    let h = by_hand(&p, &q);
    assert_eq!(t.progress, h.progress);
    assert_eq!(t.apexes, h.apexes);
    assert_eq!(t.remaining, h.remaining);
    assert_eq!(t.p_edge, h.p_edge);
    assert_eq!(t.q_edge, h.q_edge);
    assert_eq!(t.first, h.first);
    assert_eq!(t.inside, h.inside);
}

#[test]
fn traverse_hands_the_current_edges_to_the_observer() {
    let seen: RefCell<Vec<(Edge, Edge, Option<(Edge, Edge)>)>> = RefCell::new(Vec::new());
    let t = traverse(&hull(4, Turn::Left), &hull(3, Turn::Right), |pe, qe, first| {
        seen.borrow_mut().push((pe, qe, first));
        let k = seen.borrow().len();
        obs(k == 2, true, false, true, k % 2 == 0)
    })
    .unwrap();
    let seen = seen.into_inner();
    assert_eq!(seen.len(), 14);
    assert_eq!(t.progress, Progress::Exhausted);
    assert_eq!(seen[0], (Edge(3, 0), Edge(1, 0), None));
    assert_eq!(seen[1], (Edge(0, 1), Edge(1, 0), None));
    assert_eq!(seen[2], (Edge(1, 2), Edge(1, 0), Some((Edge(0, 1), Edge(1, 0)))));
    assert_eq!(seen[3], (Edge(2, 3), Edge(1, 0), Some((Edge(0, 1), Edge(1, 0)))));
    assert_eq!(t.apexes, vec![Apex::Crossing(Edge(0, 1), Edge(1, 0))]);
    assert_eq!(t.inside, WhichToAdvance::QPoly);
}

#[test]
fn traverse_refuses_degenerate_polygons() {
    let r = traverse(&hull(2, Turn::Left), &hull(3, Turn::Left), |_, _, _| {
        obs(false, false, false, false, false)
    });
    assert_eq!(r.err(), Some(GeometryError::DegeneratePolygon));
    let r = traverse(&hull(3, Turn::Left), &hull(3, Turn::Straight), |_, _, _| {
        obs(false, false, false, false, false)
    });
    assert_eq!(r.err(), Some(GeometryError::DegeneratePolygon));
}

#[test]
fn intersection_refuses_degenerate_polygons_without_asking() {
    let asked = Cell::new(0usize);
    let r = ConvexHull::intersection(
        &hull(3, Turn::Straight),
        &hull(4, Turn::Left),
        |_, _, _| {
            asked.set(asked.get() + 1);
            obs(false, false, false, false, false)
        },
        || {
            asked.set(asked.get() + 1);
            true
        },
        || {
            asked.set(asked.get() + 1);
            true
        },
    );
    assert_eq!(r, Err(GeometryError::DegeneratePolygon));
    assert_eq!(asked.get(), 0);
}

#[test]
fn intersection_asks_for_containment_only_when_not_closed() {
    let asked = Cell::new(0usize);
    let calls = Cell::new(0usize);
    let r = ConvexHull::intersection(
        &hull(3, Turn::Left),
        &hull(3, Turn::Left),
        |_, _, _| {
            calls.set(calls.get() + 1);
            obs(true, true, true, false, true)
        },
        || {
            asked.set(asked.get() + 1);
            true
        },
        || {
            asked.set(asked.get() + 1);
            true
        },
    );
    assert_eq!(
        r,
        Ok((true, Region::Assembled(vec![Apex::Crossing(Edge(2, 0), Edge(2, 0))])))
    );
    assert_eq!(calls.get(), 2);
    assert_eq!(asked.get(), 0);
}

#[test]
fn intersection_asks_the_second_containment_only_after_a_denial() {
    let second = Cell::new(false);
    let r = ConvexHull::intersection(
        &hull(3, Turn::Left),
        &hull(3, Turn::Left),
        |_, _, _| obs(false, false, false, false, true),
        || true,
        || {
            second.set(true);
            true
        },
    );
    assert_eq!(r, Ok((true, Region::WholeP)));
    assert!(!second.get());
    let r = ConvexHull::intersection(
        &hull(3, Turn::Left),
        &hull(3, Turn::Left),
        |_, _, _| obs(false, false, false, false, true),
        || false,
        || {
            second.set(true);
            true
        },
    );
    assert_eq!(r, Ok((true, Region::WholeQ)));
    assert!(second.get());
    let r = ConvexHull::intersection(
        &hull(3, Turn::Left),
        &hull(3, Turn::Left),
        |_, _, _| obs(false, false, false, false, true),
        || false,
        || false,
    );
    assert_eq!(r, Ok((false, Region::Assembled(vec![]))));
}

#[test]
fn region_identifiers() {
    let p = ConvexHull { id: 11, count: 4, turn: Turn::Left };
    let q = ConvexHull { id: 12, count: 3, turn: Turn::Right };
    assert_eq!(Region::Assembled(vec![Apex::OfP(1)]).id(&p, &q), 0);
    assert_eq!(Region::WholeP.id(&p, &q), 11);
    assert_eq!(Region::WholeQ.id(&p, &q), 12);
}

fn exchanged(o: Observation) -> Observation {
    obs(o.crossing, o.closes, o.p_head_in_q, o.q_head_in_p, !o.cross_nonneg)
}

fn other(w: WhichToAdvance) -> WhichToAdvance {
    match w {
        WhichToAdvance::NotInit => WhichToAdvance::NotInit,
        WhichToAdvance::PPoly => WhichToAdvance::QPoly,
        WhichToAdvance::QPoly => WhichToAdvance::PPoly,
    }
}

fn mirrored(a: &Apex) -> Apex {
    match a {
        Apex::Crossing(p, q) => Apex::Crossing(*q, *p),
        Apex::OfP(i) => Apex::OfQ(*i),
        Apex::OfQ(j) => Apex::OfP(*j),
    }
}

#[test]
fn the_walk_that_moves_on_does_not_depend_on_the_naming() {
    for bits in 0..32u32 {
        let o = obs(bits & 1 != 0, bits & 2 != 0, bits & 4 != 0, bits & 8 != 0, bits & 16 != 0);
        assert_eq!(which_to_advance(exchanged(o)), other(which_to_advance(o)));
    }
}

#[test]
fn exchanged_roles_give_the_mirrored_traversal() {
    let trace = vec![
        obs(false, false, true, false, true),
        obs(true, false, true, false, false),
        obs(false, false, false, true, false),
        obs(false, true, true, true, true),
        obs(true, false, false, true, true),
        obs(false, false, false, false, false),
        obs(true, true, false, true, false),
        obs(false, false, true, true, true),
    ];
    let mut pq = Traversal::start(&hull(4, Turn::Left), &hull(3, Turn::Right)).unwrap();
    let mut qp = Traversal::start(&hull(3, Turn::Right), &hull(4, Turn::Left)).unwrap();
    for o in trace.iter() {
        let a = pq.step(*o);
        let b = qp.step(exchanged(*o));
        assert_eq!(a, b);
        assert_eq!(pq.p_edge, qp.q_edge);
        assert_eq!(pq.q_edge, qp.p_edge);
        assert_eq!(other(pq.inside), qp.inside);
        assert_eq!(pq.remaining, qp.remaining);
        let m: Vec<Apex> = pq.apexes.iter().map(mirrored).collect();
        assert_eq!(m, qp.apexes);
    }
    assert_eq!(pq.progress, Progress::Closed);
    assert_eq!(pq.apexes.len(), 4);
}
