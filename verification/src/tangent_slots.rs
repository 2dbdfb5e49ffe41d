use vstd::prelude::*;
use crate::circle::Tangent;

verus! {

/// The four-slot result of the bitangent solver for the two tangent
/// families of a circle pair, filled in the solver's fixed order: the
/// family computed first contributes its two tangents first, absent
/// families contribute nothing, and the populated slots always form a
/// prefix, so empty slots trail.
pub open spec fn spec_assembled_slots(
    first_family: Option<(Tangent, Tangent)>,
    second_family: Option<(Tangent, Tangent)>,
) -> Seq<Option<Tangent>> {
    match (first_family, second_family) {
        (Some(f), Some(s)) => seq![
            Some(f.0),
            Some(f.1),
            Some(s.0),
            Some(s.1),
        ],
        (Some(f), None) => seq![Some(f.0), Some(f.1), None, None],
        (None, Some(s)) => seq![Some(s.0), Some(s.1), None, None],
        (None, None) => seq![None, None, None, None],
    }
}

/// How many of the four slots are populated.
pub open spec fn spec_populated_count(slots: Seq<Option<Tangent>>) -> int
    decreases slots.len(),
{
    if slots.len() == 0 {
        0
    } else {
        spec_populated_count(slots.drop_last()) + if slots.last() is Some {
            1int
        } else {
            0int
        }
    }
}

/// Builds the four-slot tangent result out of the two tangent families of
/// a circle pair. Each family holds either its two tangent segments or
/// nothing; the slots are filled in order of family, without reordering
/// and without gaps.
pub fn assemble_tangents(
    first_family: Option<(Tangent, Tangent)>,
    second_family: Option<(Tangent, Tangent)>,
) -> (slots: Vec<Option<Tangent>>)
    ensures
        slots@ == spec_assembled_slots(first_family, second_family),
{
    let mut slots: Vec<Option<Tangent>> = Vec::new();
    if let Some(f) = first_family {
        slots.push(Some(f.0));
        slots.push(Some(f.1));
    }
    if let Some(s) = second_family {
        slots.push(Some(s.0));
        slots.push(Some(s.1));
    }
    if first_family.is_none() {
        slots.push(None);
        slots.push(None);
    }
    if second_family.is_none() {
        slots.push(None);
        slots.push(None);
    }
    proof {
        assert(slots@ =~= spec_assembled_slots(first_family, second_family));
    }
    slots
}

/// Each present family contributes exactly two populated slots: with both
/// families present all four slots are populated, with one family exactly
/// two, with none zero — and never one or three.
pub proof fn lemma_slot_population(
    first_family: Option<(Tangent, Tangent)>,
    second_family: Option<(Tangent, Tangent)>,
)
    ensures
        spec_populated_count(spec_assembled_slots(first_family, second_family)) == 2 * (
        if first_family is Some {
            1int
        } else {
            0int
        }) + 2 * (
        if second_family is Some {
            1int
        } else {
            0int
        }),
{
    reveal_with_fuel(spec_populated_count, 5);
}

} // verus!
