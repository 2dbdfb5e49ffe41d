use vstd::prelude::*;
use crate::circle::{Coord, Tangent, TangentPoint};
use crate::registry::{spec_coord_key, PointRegistry};

verus! {

/// The tangent endpoints contributed by one four-slot solver result, in
/// slot order; each populated slot contributes its endpoint on the first
/// circle, then its endpoint on the second.
pub open spec fn spec_slot_points(slots: Seq<Option<Tangent>>) -> Seq<TangentPoint>
    decreases slots.len(),
{
    if slots.len() == 0 {
        Seq::empty()
    } else {
        spec_slot_points(slots.drop_last()) + (match slots.last() {
            Some(t) => seq![t.0, t.1],
            None => Seq::empty(),
        })
    }
}

/// The tangent endpoints of a whole run of solver results, pair by pair in
/// the order the pairs were enumerated.
pub open spec fn spec_quad_points(quads: Seq<Seq<Option<Tangent>>>) -> Seq<TangentPoint>
    decreases quads.len(),
{
    if quads.len() == 0 {
        Seq::empty()
    } else {
        spec_quad_points(quads.drop_last()) + spec_slot_points(quads.last())
    }
}

/// The registry contents after recording `points` in order: each point
/// stored under the key of its coordinates, a later point overwriting an
/// earlier one at the same key.
pub open spec fn spec_registry_of(points: Seq<TangentPoint>) -> Map<u64, TangentPoint>
    decreases points.len(),
{
    if points.len() == 0 {
        Map::empty()
    } else {
        spec_registry_of(points.drop_last()).insert(
            spec_coord_key(points.last().x, points.last().y),
            points.last(),
        )
    }
}

/// The bare coordinates of each point, in order.
pub open spec fn spec_coords_of(points: Seq<TangentPoint>) -> Seq<Coord> {
    points.map_values(|p: TangentPoint| Coord { x: p.x, y: p.y })
}

/// The views of a run of four-slot solver results.
pub open spec fn spec_quad_views(quads: Seq<Vec<Option<Tangent>>>) -> Seq<Seq<Option<Tangent>>> {
    quads.map_values(|v: Vec<Option<Tangent>>| v@)
}

/// Hull round-trip, registry side: whatever points a run collects, every
/// entry of the resulting registry is stored under the key of its own
/// coordinates — so a hull vertex, which is looked up by its coordinate
/// key, can only resolve to a tangency point whose coordinates equal the
/// vertex's exactly.
pub proof fn lemma_registry_round_trip(points: Seq<TangentPoint>, k: u64)
    requires
        spec_registry_of(points).dom().contains(k),
    ensures
        spec_coord_key(spec_registry_of(points)[k].x, spec_registry_of(points)[k].y) == k,
    decreases points.len(),
{
    if points.len() > 0 {
        let last = points.last();
        if k != spec_coord_key(last.x, last.y) {
            lemma_registry_round_trip(points.drop_last(), k);
        }
    }
}

proof fn lemma_registry_snoc(points: Seq<TangentPoint>, p: TangentPoint)
    ensures
        spec_registry_of(points.push(p)) == spec_registry_of(points).insert(
            spec_coord_key(p.x, p.y),
            p,
        ),
{
    assert(points.push(p).drop_last() =~= points);
    assert(points.push(p).last() == p);
}

proof fn lemma_coords_snoc(points: Seq<TangentPoint>, p: TangentPoint)
    ensures
        spec_coords_of(points.push(p)) == spec_coords_of(points).push(Coord { x: p.x, y: p.y }),
{
    assert(spec_coords_of(points.push(p)) =~= spec_coords_of(points).push(
        Coord { x: p.x, y: p.y },
    ));
}

proof fn lemma_slot_points_snoc(slots: Seq<Option<Tangent>>, s: Option<Tangent>)
    ensures
        spec_slot_points(slots.push(s)) == spec_slot_points(slots) + (match s {
            Some(t) => seq![t.0, t.1],
            None => Seq::empty(),
        }),
{
    assert(slots.push(s).drop_last() =~= slots);
    assert(slots.push(s).last() == s);
}

/// Walks a run of four-slot solver results and accumulates every endpoint
/// of every populated slot: into the flat list of hull candidates (with
/// repetitions, in order), and into the registry keyed by exact coordinate
/// identity (so that points computed at the same coordinates collapse to
/// one entry, the last one recorded).
pub fn collect_tangent_points(quads: &Vec<Vec<Option<Tangent>>>) -> (r: (Vec<Coord>, PointRegistry))
    ensures
        r.0@ == spec_coords_of(spec_quad_points(spec_quad_views(quads@))),
        r.1@ == spec_registry_of(spec_quad_points(spec_quad_views(quads@))),
        r.1.wf(),
{
    let ghost views = spec_quad_views(quads@);
    let mut points: Vec<Coord> = Vec::new();
    let mut registry = PointRegistry::new();
    let mut q: usize = 0;
    while q < quads.len()
        invariant
            views == spec_quad_views(quads@),
            q <= quads@.len(),
            points@ == spec_coords_of(spec_quad_points(views.take(q as int))),
            registry@ == spec_registry_of(spec_quad_points(views.take(q as int))),
            registry.wf(),
        decreases quads@.len() - q,
    {
        let slots = &quads[q];
        proof {
            assert(views[q as int] == slots@);
        }
        let mut s: usize = 0;
        while s < slots.len()
            invariant
                views == spec_quad_views(quads@),
                q < quads@.len(),
                views[q as int] == slots@,
                s <= slots@.len(),
                points@ == spec_coords_of(
                    spec_quad_points(views.take(q as int)) + spec_slot_points(
                        slots@.take(s as int),
                    ),
                ),
                registry@ == spec_registry_of(
                    spec_quad_points(views.take(q as int)) + spec_slot_points(
                        slots@.take(s as int),
                    ),
                ),
                registry.wf(),
            decreases slots@.len() - s,
        {
            let ghost done = spec_quad_points(views.take(q as int)) + spec_slot_points(
                slots@.take(s as int),
            );
            if let Some(t) = slots[s] {
                points.push(t.0.coord());
                registry.record(t.0);
                points.push(t.1.coord());
                registry.record(t.1);
                proof {
                    lemma_coords_snoc(done, t.0);
                    lemma_registry_snoc(done, t.0);
                    lemma_coords_snoc(done.push(t.0), t.1);
                    lemma_registry_snoc(done.push(t.0), t.1);
                }
            }
            proof {
                assert(slots@.take(s as int + 1).drop_last() =~= slots@.take(s as int));
                assert(slots@.take(s as int + 1).last() == slots@[s as int]);
                lemma_slot_points_snoc(slots@.take(s as int), slots@[s as int]);
                assert(slots@.take(s as int).push(slots@[s as int]) =~= slots@.take(s as int + 1));
                if slots@[s as int] is Some {
                    let t = slots@[s as int]->Some_0;
                    assert(done + seq![t.0, t.1] =~= done.push(t.0).push(t.1));
                    assert(spec_quad_points(views.take(q as int)) + spec_slot_points(
                        slots@.take(s as int + 1),
                    ) =~= done.push(t.0).push(t.1));
                } else {
                    assert(spec_quad_points(views.take(q as int)) + spec_slot_points(
                        slots@.take(s as int + 1),
                    ) =~= done);
                }
            }
            s += 1;
        }
        proof {
            assert(slots@.take(slots@.len() as int) =~= slots@);
            assert(views.take(q as int + 1).drop_last() =~= views.take(q as int));
            assert(views.take(q as int + 1).last() == views[q as int]);
            assert(spec_quad_points(views.take(q as int + 1)) == spec_quad_points(
                views.take(q as int),
            ) + spec_slot_points(views[q as int]));
        }
        q += 1;
    }
    proof {
        assert(views.take(quads@.len() as int) =~= views);
    }
    (points, registry)
}

} // verus!
