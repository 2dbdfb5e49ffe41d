use vstd::prelude::*;
use crate::circle::{Coord, TangentPoint};
use crate::registry::{lemma_coord_key_injective, spec_coord_key, PointRegistry};

verus! {

/// A hull vertex with no registry entry. Hull vertices are a subset of the
/// collected points, so every vertex must resolve; this failure marks a
/// fault in the caller's pipeline (a coordinate-key mismatch), never a
/// recoverable condition, and carries the first offending vertex index.
#[derive(Clone, Copy, Debug, PartialEq, Eq, Structural)]
pub struct MissingVertex {
    pub index: usize,
}

/// Resolves each hull vertex back to the tangency point recorded for its
/// coordinates. Succeeds exactly when every vertex has a registry entry,
/// and then hands back the entries in vertex order; since a well-formed
/// registry stores every point under the key of the point's own
/// coordinates, each resolved point carries exactly its vertex's
/// coordinates.
pub fn resolve_hull(vertices: &Vec<Coord>, registry: &PointRegistry) -> (r: Result<
    Vec<TangentPoint>,
    MissingVertex,
>)
    ensures
        match r {
            Ok(resolved) => {
                &&& resolved@.len() == vertices@.len()
                &&& forall|i: int|
                    0 <= i < vertices@.len() ==> registry@.contains_key(
                        #[trigger] spec_coord_key(vertices@[i].x, vertices@[i].y),
                    )
                &&& forall|i: int|
                    0 <= i < vertices@.len() ==> #[trigger] resolved@[i] == registry@[spec_coord_key(
                        vertices@[i].x,
                        vertices@[i].y,
                    )]
                &&& registry.wf() ==> forall|i: int|
                    0 <= i < vertices@.len() ==> (#[trigger] resolved@[i]).x == vertices@[i].x
                        && resolved@[i].y == vertices@[i].y
            },
            Err(missing) => {
                &&& missing.index < vertices@.len()
                &&& !registry@.contains_key(
                    spec_coord_key(
                        vertices@[missing.index as int].x,
                        vertices@[missing.index as int].y,
                    ),
                )
                &&& forall|i: int|
                    0 <= i < missing.index ==> registry@.contains_key(
                        #[trigger] spec_coord_key(vertices@[i].x, vertices@[i].y),
                    )
            },
        },
{
    let mut resolved: Vec<TangentPoint> = Vec::new();
    let mut i: usize = 0;
    while i < vertices.len()
        invariant
            i <= vertices@.len(),
            resolved@.len() == i,
            forall|j: int|
                0 <= j < i ==> registry@.contains_key(
                    #[trigger] spec_coord_key(vertices@[j].x, vertices@[j].y),
                ),
            forall|j: int|
                0 <= j < i ==> #[trigger] resolved@[j] == registry@[spec_coord_key(
                    vertices@[j].x,
                    vertices@[j].y,
                )],
        decreases vertices@.len() - i,
    {
        match registry.lookup(vertices[i]) {
            Some(p) => resolved.push(p),
            None => {
                return Err(MissingVertex { index: i });
            },
        }
        i += 1;
    }
    proof {
        if registry.wf() {
            assert forall|j: int| 0 <= j < vertices@.len() implies (#[trigger] resolved@[j]).x
                == vertices@[j].x && resolved@[j].y == vertices@[j].y by {
                let k = spec_coord_key(vertices@[j].x, vertices@[j].y);
                assert(registry@.dom().contains(k));
                lemma_coord_key_injective(
                    resolved@[j].x,
                    resolved@[j].y,
                    vertices@[j].x,
                    vertices@[j].y,
                );
            }
        }
    }
    Ok(resolved)
}

} // verus!
