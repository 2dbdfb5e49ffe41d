use vstd::prelude::*;
use std::collections::HashMap;
use crate::circle::{Coord, TangentPoint};

verus! {

broadcast use vstd::std_specs::hash::group_hash_axioms;

/// The canonical key of a coordinate pair: the two exact 32-bit encodings
/// packed into one word. Two points get the same key exactly when both
/// encodings agree, so keying by it deduplicates points by coordinate
/// identity.
pub open spec fn spec_coord_key(x: u32, y: u32) -> u64 {
    ((x as u64) * 0x1_0000_0000 + (y as u64)) as u64
}

/// Packing is injective: equal keys come only from equal coordinates.
pub proof fn lemma_coord_key_injective(x1: u32, y1: u32, x2: u32, y2: u32)
    requires
        spec_coord_key(x1, y1) == spec_coord_key(x2, y2),
    ensures
        x1 == x2 && y1 == y2,
{
    assert((x1 as u64) * 0x1_0000_0000 + (y1 as u64) <= u64::MAX && (x2 as u64) * 0x1_0000_0000 + (
    y2 as u64) <= u64::MAX) by (nonlinear_arith)
        requires
            x1 <= u32::MAX && x2 <= u32::MAX && y1 <= u32::MAX && y2 <= u32::MAX,
    ;
    assert(x1 == x2 && y1 == y2) by (nonlinear_arith)
        requires
            (x1 as u64) * 0x1_0000_0000 + (y1 as u64) == (x2 as u64) * 0x1_0000_0000 + (y2 as u64),
            x1 <= u32::MAX && x2 <= u32::MAX && y1 <= u32::MAX && y2 <= u32::MAX,
    ;
}

/// The canonical key of `c`.
pub fn coord_key(c: Coord) -> (k: u64)
    ensures
        k == spec_coord_key(c.x, c.y),
{
    (c.x as u64) * 0x1_0000_0000u64 + (c.y as u64)
}

/// Maps the canonical coordinate key of a tangency point to the point that
/// produced it. At most one point is stored per distinct key; a later
/// insert at the same key silently overwrites the earlier one.
pub struct PointRegistry {
    map: HashMap<u64, TangentPoint>,
}

impl View for PointRegistry {
    type V = Map<u64, TangentPoint>;

    closed spec fn view(&self) -> Map<u64, TangentPoint> {
        self.map@
    }
}

impl PointRegistry {
    /// Every stored point lies under the key of its own coordinates, so a
    /// lookup by coordinates can only hand back a point with exactly those
    /// coordinates.
    pub open spec fn wf(self) -> bool {
        forall|k: u64| #[trigger]
            self@.dom().contains(k) ==> spec_coord_key(self@[k].x, self@[k].y) == k
    }

    /// An empty registry.
    pub fn new() -> (r: Self)
        ensures
            r@ == Map::<u64, TangentPoint>::empty(),
            r.wf(),
    {
        PointRegistry { map: HashMap::new() }
    }

    /// Records `p` under the key of its coordinates, overwriting whatever
    /// point was stored there before.
    pub fn record(&mut self, p: TangentPoint)
        ensures
            final(self)@ == old(self)@.insert(spec_coord_key(p.x, p.y), p),
            old(self).wf() ==> final(self).wf(),
    {
        let k = coord_key(p.coord());
        self.map.insert(k, p);
        proof {
            if old(self).wf() {
                assert forall|q: u64| #[trigger] self@.dom().contains(q) implies spec_coord_key(
                    self@[q].x,
                    self@[q].y,
                ) == q by {
                    if q != spec_coord_key(p.x, p.y) {
                        assert(old(self)@.dom().contains(q));
                    }
                }
            }
        }
    }

    /// Looks up the point stored for the coordinates of `c`, if any.
    pub fn lookup(&self, c: Coord) -> (r: Option<TangentPoint>)
        ensures
            match r {
                Some(p) => self@.contains_key(spec_coord_key(c.x, c.y)) && p == self@[spec_coord_key(
                    c.x,
                    c.y,
                )],
                None => !self@.contains_key(spec_coord_key(c.x, c.y)),
            },
    {
        let k = coord_key(c);
        match self.map.get(&k) {
            Some(p) => Some(*p),
            None => None,
        }
    }

    /// The number of distinct coordinate keys stored.
    pub fn len(&self) -> (n: usize)
        ensures
            n == self@.len(),
    {
        self.map.len()
    }
}

} // verus!
