use vstd::prelude::*;
use vstd::multiset::Multiset;
use vstd::std_specs::cmp::PartialEqSpec;

verus! {

broadcast use vstd::seq_lib::group_to_multiset_ensures, vstd::multiset::group_multiset_axioms;

/// Whether `==` on `T` is known to decide structural equality: its
/// specification is trusted and agrees with equality of the values. It
/// holds for the primitive types; for a type whose `PartialEq` is opaque,
/// nothing is claimed below.
pub open spec fn spec_eq_is_structural<T: PartialEq>() -> bool {
    &&& T::obeys_eq_spec()
    &&& forall|x: T, y: T| #[trigger] x.eq_spec(&y) <==> x == y
}

/// The elements of `s` at the positions in `idxs`, in that order.
pub open spec fn spec_elems_at<T>(s: Seq<T>, idxs: Seq<usize>) -> Seq<T> {
    idxs.map_values(|u: usize| s[u as int])
}

/// Equality of two vectors as collections: same elements with the same
/// multiplicities, in any order. Decided by greedy matching — for each
/// element of `a` in turn, the first not-yet-matched equal element of `b`
/// is struck out — which succeeds on every element exactly when the two
/// multisets agree.
pub fn vec_unordered_eq<T: PartialEq>(a: &Vec<T>, b: &Vec<T>) -> (r: bool)
    ensures
        spec_eq_is_structural::<T>() ==> (r <==> a@.to_multiset() == b@.to_multiset()),
{
    let ghost h = spec_eq_is_structural::<T>();
    if a.len() != b.len() {
        proof {
            if h && a@.to_multiset() == b@.to_multiset() {
                assert(a@.to_multiset().len() == a@.len());
                assert(b@.to_multiset().len() == b@.len());
            }
        }
        return false;
    }
    let n = a.len();
    let mut remaining: Vec<usize> = Vec::new();
    let mut k: usize = 0;
    while k < n
        invariant
            k <= n,
            remaining@.len() == k,
            forall|t: int| 0 <= t < k ==> remaining@[t] == t as usize,
        decreases n - k,
    {
        remaining.push(k);
        k += 1;
    }
    proof {
        assert(spec_elems_at(b@, remaining@) =~= b@);
    }
    let ghost mut matched: Multiset<T> = Multiset::empty();
    let ghost mut missed: Multiset<T> = Multiset::empty();
    proof {
        assert(spec_elems_at(b@, remaining@).to_multiset().add(matched) =~= b@.to_multiset());
        assert(matched.add(missed) =~= a@.take(0).to_multiset());
    }
    let mut match_count: usize = 0;
    let mut i: usize = 0;
    while i < n
        invariant
            h == spec_eq_is_structural::<T>(),
            n == a@.len() && n == b@.len(),
            i <= n,
            match_count <= i,
            remaining@.len() + match_count == n,
            forall|t: int| 0 <= t < remaining@.len() ==> (#[trigger] remaining@[t]) < n,
            h ==> spec_elems_at(b@, remaining@).to_multiset().add(matched) == b@.to_multiset(),
            h ==> matched.len() == match_count,
            h ==> matched.add(missed) == a@.take(i as int).to_multiset(),
            h ==> forall|x: T|
                missed.count(x) > 0 ==> spec_elems_at(b@, remaining@).to_multiset().count(x) == 0,
        decreases n - i,
    {
        let ghost old_at = spec_elems_at(b@, remaining@);
        let mut pos: usize = 0;
        let mut found = false;
        let mut found_pos: usize = 0;
        while pos < remaining.len()
            invariant
                h == spec_eq_is_structural::<T>(),
                n == a@.len() && n == b@.len(),
                i < n,
                pos <= remaining@.len(),
                forall|t: int| 0 <= t < remaining@.len() ==> (#[trigger] remaining@[t]) < n,
                found ==> found_pos < remaining@.len(),
                h && found ==> b@[remaining@[found_pos as int] as int] == a@[i as int],
                h && !found ==> forall|t: int|
                    0 <= t < pos ==> b@[(#[trigger] remaining@[t]) as int] != a@[i as int],
            decreases remaining@.len() - pos,
        {
            if !found {
                let bi = remaining[pos];
                if &b[bi] == &a[i] {
                    found = true;
                    found_pos = pos;
                }
            }
            pos += 1;
        }
        if found {
            let ghost x = a@[i as int];
            remaining.remove(found_pos);
            match_count += 1;
            proof {
                if h {
                    let new_at = spec_elems_at(b@, remaining@);
                    assert(new_at =~= old_at.remove(found_pos as int));
                    assert(old_at[found_pos as int] == x);
                    assert(old_at.contains(x));
                    assert(old_at.remove(found_pos as int).to_multiset() == old_at.to_multiset()
                        .remove(x));
                    matched = matched.insert(x);
                    assert(new_at.to_multiset().add(matched) =~= b@.to_multiset());
                    assert(a@.take(i + 1) =~= a@.take(i as int).push(x));
                    assert(matched.add(missed) =~= a@.take(i + 1).to_multiset());
                    assert forall|y: T| missed.count(y) > 0 implies new_at.to_multiset().count(y)
                        == 0 by {
                        assert(old_at.to_multiset().count(y) == 0);
                    }
                }
            }
        } else {
            let ghost x = a@[i as int];
            proof {
                if h {
                    assert forall|t: int| 0 <= t < old_at.len() implies old_at[t] != x by {
                        assert(b@[remaining@[t] as int] != x);
                    }
                    assert(!old_at.contains(x));
                    assert(old_at.to_multiset().count(x) == 0);
                    missed = missed.insert(x);
                    assert(a@.take(i + 1) =~= a@.take(i as int).push(x));
                    assert(matched.add(missed) =~= a@.take(i + 1).to_multiset());
                }
            }
        }
        i += 1;
    }
    proof {
        if h {
            assert(a@.take(n as int) =~= a@);
            let at = spec_elems_at(b@, remaining@);
            assert(at.len() == remaining@.len());
            if match_count == n {
                assert(matched.add(missed).len() == a@.to_multiset().len());
                assert(missed.len() == 0);
                assert(missed =~= Multiset::<T>::empty()) by {
                    vstd::multiset::lemma_multiset_empty_len(missed);
                }
                assert(a@.to_multiset() =~= matched);
                assert(at.to_multiset().len() == 0);
                assert(at.to_multiset() =~= Multiset::<T>::empty()) by {
                    vstd::multiset::lemma_multiset_empty_len(at.to_multiset());
                }
                assert(b@.to_multiset() =~= matched);
            } else {
                assert(matched.add(missed).len() == a@.to_multiset().len());
                assert(missed.len() > 0);
                let x = missed.choose();
                assert(missed.count(x) > 0);
                assert(at.to_multiset().count(x) == 0);
                assert(b@.to_multiset().count(x) == matched.count(x));
                assert(a@.to_multiset().count(x) == matched.count(x) + missed.count(x));
                assert(a@.to_multiset() != b@.to_multiset());
            }
        }
    }
    n == match_count
}

/// Equality as collections: same elements, same multiplicities, any order.
pub trait UnorderedEq {
    fn unordered_eq(&self, other: &Self) -> bool;
}

impl<T: PartialEq + Clone> UnorderedEq for Vec<T> {
    fn unordered_eq(&self, other: &Self) -> bool {
        vec_unordered_eq(self, other)
    }
}

} // verus!
