use vstd::prelude::*;
use crate::circle::Circle;

verus! {

/// The views of a table of per-pair verdicts, row by row.
pub open spec fn spec_rows(table: Seq<Vec<bool>>) -> Seq<Seq<bool>> {
    table.map_values(|row: Vec<bool>| row@)
}

/// Whether circle `i` survives the enclosure filter: it must not be
/// enclosed by any circle with a different id. `enclosed[i][j]` is the
/// host's verdict on whether circle `i` fits entirely inside circle `j`
/// (boundary inclusive: center distance plus inner radius at most the
/// outer radius).
pub open spec fn spec_kept(circles: Seq<Circle>, enclosed: Seq<Seq<bool>>, i: int) -> bool {
    forall|j: int|
        0 <= j < circles.len() ==> (circles[i].id == circles[j].id || !enclosed[i][j])
}

/// The circles among the first `n` that survive the enclosure filter, in
/// their input order.
pub open spec fn spec_filter_non_enclosed(
    circles: Seq<Circle>,
    enclosed: Seq<Seq<bool>>,
    n: int,
) -> Seq<Circle>
    decreases n,
{
    if n <= 0 {
        Seq::empty()
    } else {
        let prefix = spec_filter_non_enclosed(circles, enclosed, n - 1);
        if spec_kept(circles, enclosed, n - 1) {
            prefix.push(circles[n - 1])
        } else {
            prefix
        }
    }
}

/// The filter's output holds exactly the circles that survive: a circle
/// value appears among the first `n` filtered circles precisely when it
/// stands at some surviving position among the first `n` inputs.
pub proof fn lemma_filter_membership(
    circles: Seq<Circle>,
    enclosed: Seq<Seq<bool>>,
    n: int,
    c: Circle,
)
    requires
        0 <= n <= circles.len(),
    ensures
        spec_filter_non_enclosed(circles, enclosed, n).contains(c) <==> exists|i: int|
            0 <= i < n && circles[i] == c && spec_kept(circles, enclosed, i),
    decreases n,
{
    if n > 0 {
        lemma_filter_membership(circles, enclosed, n - 1, c);
        let prefix = spec_filter_non_enclosed(circles, enclosed, n - 1);
        let whole = spec_filter_non_enclosed(circles, enclosed, n);
        if spec_kept(circles, enclosed, n - 1) {
            assert(whole == prefix.push(circles[n - 1]));
            if exists|i: int| 0 <= i < n && circles[i] == c && spec_kept(circles, enclosed, i) {
                let i = choose|i: int|
                    0 <= i < n && circles[i] == c && spec_kept(circles, enclosed, i);
                if i == n - 1 {
                    assert(whole[prefix.len() as int] == c);
                } else {
                    assert(prefix.contains(c));
                    let k = choose|k: int| 0 <= k < prefix.len() && #[trigger] prefix[k] == c;
                    assert(whole[k] == c);
                }
                assert(whole.contains(c));
            }
            if whole.contains(c) {
                let k = choose|k: int| 0 <= k < whole.len() && #[trigger] whole[k] == c;
                if k < prefix.len() {
                    assert(prefix[k] == c);
                } else {
                    assert(circles[n - 1] == c);
                }
            }
        } else {
            assert(whole == prefix);
        }
    }
}

/// Retains every circle that no circle with a different id encloses. A
/// fully enclosed circle cannot contribute to the outer wrap, so it is
/// dropped before tangent pairs are formed; all others keep their input
/// order. `enclosed` is the host's table of pairwise verdicts, one row
/// per circle.
pub fn filter_non_enclosed(circles: &Vec<Circle>, enclosed: &Vec<Vec<bool>>) -> (kept: Vec<Circle>)
    requires
        enclosed@.len() == circles@.len(),
        forall|i: int| 0 <= i < circles@.len() ==> #[trigger] enclosed@[i]@.len() == circles@.len(),
    ensures
        kept@ == spec_filter_non_enclosed(
            circles@,
            spec_rows(enclosed@),
            circles@.len() as int,
        ),
{
    let n = circles.len();
    let mut kept: Vec<Circle> = Vec::new();
    let mut i: usize = 0;
    while i < n
        invariant
            n == circles@.len(),
            enclosed@.len() == n,
            forall|q: int| 0 <= q < n ==> #[trigger] enclosed@[q]@.len() == n,
            i <= n,
            kept@ == spec_filter_non_enclosed(circles@, spec_rows(enclosed@), i as int),
        decreases n - i,
    {
        let mut keep = true;
        let mut j: usize = 0;
        while j < n
            invariant
                n == circles@.len(),
                enclosed@.len() == n,
                forall|q: int| 0 <= q < n ==> #[trigger] enclosed@[q]@.len() == n,
                i < n,
                j <= n,
                keep <==> (forall|q: int|
                    0 <= q < j ==> (circles@[i as int].id == circles@[q].id || !spec_rows(
                        enclosed@,
                    )[i as int][q])),
            decreases n - j,
        {
            proof {
                assert(spec_rows(enclosed@)[i as int] == enclosed@[i as int]@);
            }
            if circles[i].id != circles[j].id && enclosed[i][j] {
                keep = false;
            }
            j += 1;
        }
        if keep {
            kept.push(circles[i]);
        }
        i += 1;
    }
    kept
}

} // verus!
