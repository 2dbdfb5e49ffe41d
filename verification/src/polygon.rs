use vstd::prelude::*;

verus! {

/// Whether an odd number of entries is set: the parity a ray-casting walk
/// accumulates, toggling once per crossed edge.
pub open spec fn spec_odd_crossings(crossings: Seq<bool>) -> bool
    decreases crossings.len(),
{
    if crossings.len() == 0 {
        false
    } else {
        spec_odd_crossings(crossings.drop_last()) != crossings.last()
    }
}

/// The decision step of the ray-casting point-in-polygon test:
/// `crossings` holds, for each polygon vertex, the host's verdict on
/// whether the ray from the tested point crosses the edge ending at that
/// vertex. The point is inside a proper polygon (at least three vertices)
/// exactly when the ray crosses an odd number of edges; anything smaller
/// than a triangle contains no point.
pub fn point_in_polygon_from_crossings(crossings: &Vec<bool>) -> (inside: bool)
    ensures
        inside == (crossings@.len() >= 3 && spec_odd_crossings(crossings@)),
{
    if crossings.len() < 3 {
        return false;
    }
    let mut inside = false;
    let mut i: usize = 0;
    while i < crossings.len()
        invariant
            i <= crossings@.len(),
            inside == spec_odd_crossings(crossings@.take(i as int)),
        decreases crossings@.len() - i,
    {
        proof {
            assert(crossings@.take(i as int + 1).drop_last() =~= crossings@.take(i as int));
        }
        if crossings[i] {
            inside = !inside;
        }
        i += 1;
    }
    proof {
        assert(crossings@.take(crossings@.len() as int) =~= crossings@);
    }
    inside
}

/// The decision step of the circle-versus-polygon containment check.
/// `center_inside` is the host's ray-casting verdict for the circle's
/// center; `edge_hits` holds, for each polygon edge, the host's verdict on
/// whether the circle reaches that edge. A degenerate polygon (fewer than
/// three vertices) counts as intersected; otherwise the circle intersects
/// the polygon when its center lies inside, or else when some edge is hit,
/// and then the first hit edge is reported.
pub fn circle_polygon_hit(center_inside: bool, edge_hits: &Vec<bool>) -> (r: (bool, Option<usize>))
    ensures
        edge_hits@.len() < 3 ==> r == (true, Option::<usize>::None),
        edge_hits@.len() >= 3 && center_inside ==> r == (true, Option::<usize>::None),
        edge_hits@.len() >= 3 && !center_inside ==> {
            &&& r.0 == exists|i: int| 0 <= i < edge_hits@.len() && edge_hits@[i]
            &&& match r.1 {
                Some(first) => {
                    &&& r.0
                    &&& first < edge_hits@.len()
                    &&& edge_hits@[first as int]
                    &&& forall|j: int| 0 <= j < first ==> !edge_hits@[j]
                },
                None => !r.0,
            }
        },
{
    if edge_hits.len() < 3 {
        return (true, None);
    }
    if center_inside {
        return (true, None);
    }
    let mut i: usize = 0;
    while i < edge_hits.len()
        invariant
            edge_hits@.len() >= 3,
            !center_inside,
            i <= edge_hits@.len(),
            forall|j: int| 0 <= j < i ==> !edge_hits@[j],
        decreases edge_hits@.len() - i,
    {
        if edge_hits[i] {
            return (true, Some(i));
        }
        i += 1;
    }
    (false, None)
}

} // verus!
