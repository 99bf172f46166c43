use vstd::prelude::*;

use crate::cell::VCellRaw;
use crate::ids::id_values;

verus! {

/// Which agreement test a pair of matched cells failed.
#[derive(Clone, Copy, Debug, PartialEq, Eq)]
pub enum Tolerance {
    Volume,
    Position,
    Centroid,
}

/// Why two result sets were found not to describe the same tessellation.
#[derive(Clone, Copy, Debug, PartialEq, Eq)]
pub enum ValidationError {
    /// The two sets hold different numbers of cells.
    LengthMismatch { a_len: usize, b_len: usize },
    /// At some rank in id order the two sets hold different ids.
    IdMismatch { a_id: i32, b_id: i32 },
    /// The cells of generator `id` disagree beyond a tolerance.
    OutOfTolerance { id: i32, which: Tolerance },
}

/// `order` lists every index of `ids` once, by strictly increasing id.
pub open spec fn sorts_by_id(order: Seq<usize>, ids: Seq<int>) -> bool {
    &&& order.len() == ids.len()
    &&& ids.len() <= usize::MAX
    &&& forall|p: int| 0 <= p < order.len() ==> #[trigger] order[p] < ids.len()
    &&& forall|x: usize| x < ids.len() ==> #[trigger] order.contains(x)
    &&& forall|p: int, q: int|
        0 <= p < q < order.len() ==> ids[#[trigger] order[p] as int] < ids[#[trigger] order[q] as int]
}

/// The positions of `cells` in increasing order of id.
pub fn order_by_id<P, S>(cells: &Vec<VCellRaw<P, S>>) -> (order: Vec<usize>)
    requires
        id_values(cells@).no_duplicates(),
    ensures
        sorts_by_id(order@, id_values(cells@)),
{
    let ghost ids = id_values(cells@);
    let mut order: Vec<usize> = Vec::new();
    let mut i: usize = 0;
    while i < cells.len()
        invariant
            ids == id_values(cells@),
            ids.no_duplicates(),
            i <= cells.len(),
            order.len() == i,
            forall|p: int| 0 <= p < order.len() ==> #[trigger] order[p] < i,
            forall|x: usize| x < i ==> #[trigger] order@.contains(x),
            forall|p: int, q: int|
                0 <= p < q < order.len() ==> ids[#[trigger] order[p] as int]
                    < ids[#[trigger] order[q] as int],
        decreases cells.len() - i,
    {
        let key = cells[i].id;
        assert(ids[i as int] == key);
        let mut p: usize = 0;
        while p < order.len() && cells[order[p]].id < key
            invariant
                ids == id_values(cells@),
                i < cells.len(),
                key == ids[i as int],
                p <= order.len(),
                forall|q: int| 0 <= q < order.len() ==> #[trigger] order[q] < i,
                forall|q: int| 0 <= q < p ==> ids[#[trigger] order[q] as int] < key,
            decreases order.len() - p,
        {
            assert(ids[order[p as int] as int] == cells[order[p as int] as int].id);
            p = p + 1;
        }
        proof {
            if p < order.len() {
                assert(ids[order[p as int] as int] == cells[order[p as int] as int].id);
                assert(order[p as int] != i);
                assert(ids[order[p as int] as int] != ids[i as int]);
            }
        }
        let ghost prev = order@;
        order.insert(p, i);
        proof {
            assert forall|q1: int, q2: int| 0 <= q1 < q2 < order.len() implies ids[
                #[trigger] order[q1] as int] < ids[#[trigger] order[q2] as int] by {
                if q2 < p {
                    assert(order[q1] == prev[q1] && order[q2] == prev[q2]);
                } else if q2 == p {
                    assert(order[q1] == prev[q1]);
                } else if q1 < p {
                    assert(order[q1] == prev[q1] && order[q2] == prev[q2 - 1]);
                    if p < prev.len() {
                        assert(ids[prev[p as int] as int] > key);
                    }
                } else if q1 == p {
                    assert(order[q2] == prev[q2 - 1]);
                    assert(ids[prev[p as int] as int] > key);
                } else {
                    assert(order[q1] == prev[q1 - 1] && order[q2] == prev[q2 - 1]);
                }
            }
            assert forall|x: usize| x < i + 1 implies #[trigger] order@.contains(x) by {
                if x == i {
                    assert(order[p as int] == x);
                } else {
                    assert(prev.contains(x));
                    let q = choose|q: int| 0 <= q < prev.len() && prev[q] == x;
                    if q < p {
                        assert(order[q] == x);
                    } else {
                        assert(order[q + 1] == x);
                    }
                }
            }
            assert forall|q: int| 0 <= q < order.len() implies #[trigger] order[q] < i + 1 by {
                if q < p {
                    assert(order[q] == prev[q]);
                } else if q > p {
                    assert(order[q] == prev[q - 1]);
                }
            }
        }
        i = i + 1;
    }
    order
}

/// Cross-checks two result sets computed from the same point cloud. Both are
/// taken in increasing order of id; the sets must have the same size, and at
/// each rank the ids must agree and `within_tolerance` must accept the pair
/// (it names the first tolerance that a pair breaks). Stops at the first
/// failure.
pub fn validate<P, S, F>(a: &Vec<VCellRaw<P, S>>, b: &Vec<VCellRaw<P, S>>, within_tolerance: F) -> (r:
    Result<(), ValidationError>) where F: Fn(&VCellRaw<P, S>, &VCellRaw<P, S>) -> Option<Tolerance>
    requires
        id_values(a@).no_duplicates(),
        id_values(b@).no_duplicates(),
        forall|x: &VCellRaw<P, S>, y: &VCellRaw<P, S>| within_tolerance.requires((x, y)),
    ensures
        (a.len() != b.len()) <==> r == Err::<(), ValidationError>(
            ValidationError::LengthMismatch { a_len: a.len(), b_len: b.len() },
        ),
        r is Ok ==> id_values(a@).to_set() == id_values(b@).to_set(),
        r is Ok ==> forall|i: int, j: int|
            0 <= i < a.len() && 0 <= j < b.len() && a[i].id == b[j].id ==> within_tolerance.ensures(
                (&a[i], &b[j]),
                None::<Tolerance>,
            ),
        r matches Err(ValidationError::IdMismatch { a_id, b_id }) ==> {
            &&& a_id != b_id
            &&& id_values(a@).contains(a_id as int)
            &&& id_values(b@).contains(b_id as int)
            &&& id_values(a@).to_set() != id_values(b@).to_set()
        },
        r matches Err(ValidationError::OutOfTolerance { id, which }) ==> exists|i: int, j: int|
            0 <= i < a.len() && 0 <= j < b.len() && a[i].id == id && b[j].id == id
                && within_tolerance.ensures((&a[i], &b[j]), Some(which)),
        a.len() == b.len() && id_values(a@).to_set() == id_values(b@).to_set() ==> (r is Ok
            || r matches Err(ValidationError::OutOfTolerance { .. })),
{
    if a.len() != b.len() {
        return Err(ValidationError::LengthMismatch { a_len: a.len(), b_len: b.len() });
    }
    let ghost ia = id_values(a@);
    let ghost ib = id_values(b@);
    let oa = order_by_id(a);
    let ob = order_by_id(b);
    let mut k: usize = 0;
    while k < oa.len()
        invariant
            ia == id_values(a@),
            ib == id_values(b@),
            a.len() == b.len(),
            sorts_by_id(oa@, ia),
            sorts_by_id(ob@, ib),
            k <= oa.len(),
            forall|m: int| 0 <= m < k ==> ia[#[trigger] oa[m] as int] == ib[ob[m] as int],
            forall|m: int|
                0 <= m < k ==> within_tolerance.ensures(
                    (&a[#[trigger] oa[m] as int], &b[ob[m] as int]),
                    None::<Tolerance>,
                ),
            forall|x: &VCellRaw<P, S>, y: &VCellRaw<P, S>| within_tolerance.requires((x, y)),
        decreases oa.len() - k,
    {
        let ca = &a[oa[k]];
        let cb = &b[ob[k]];
        assert(ia[oa[k as int] as int] == ca.id);
        assert(ib[ob[k as int] as int] == cb.id);
        if ca.id != cb.id {
            proof {
                lemma_rank_mismatch_splits_sets(oa@, ia, ob@, ib, k as int);
                assert(ia.contains(ca.id as int));
                assert(ib.contains(cb.id as int));
            }
            return Err(ValidationError::IdMismatch { a_id: ca.id, b_id: cb.id });
        }
        let verdict = within_tolerance(ca, cb);
        match verdict {
            Some(which) => {
                return Err(ValidationError::OutOfTolerance { id: ca.id, which });
            },
            None => {},
        }
        k = k + 1;
    }
    proof {
        lemma_aligned_orders(oa@, ia, ob@, ib);
        assert forall|i: int, j: int|
            0 <= i < a.len() && 0 <= j < b.len() && a[i].id == b[j].id implies within_tolerance.ensures(
            (&a[i], &b[j]),
            None::<Tolerance>,
        ) by {
            assert(oa@.contains(i as usize));
            let m1 = choose|p: int| 0 <= p < oa.len() && oa[p] == i;
            assert(ob@.contains(j as usize));
            let m2 = choose|p: int| 0 <= p < ob.len() && ob[p] == j;
            assert(ia[i] == a[i].id && ib[j] == b[j].id);
            assert(ia[oa[m1] as int] == ib[ob[m1] as int]);
            assert(ia[oa[m2] as int] == ib[ob[m2] as int]);
            if m1 < m2 {
                assert(ib[ob[m1] as int] < ib[ob[m2] as int]);
            } else if m2 < m1 {
                assert(ia[oa[m2] as int] < ia[oa[m1] as int]);
            }
        }
    }
    Ok(())
}

/// Two sorted orders of the same length whose ids agree at every rank walk
/// the same set of ids.
proof fn lemma_aligned_orders(oa: Seq<usize>, ia: Seq<int>, ob: Seq<usize>, ib: Seq<int>)
    requires
        sorts_by_id(oa, ia),
        sorts_by_id(ob, ib),
        oa.len() == ob.len(),
        forall|m: int| 0 <= m < oa.len() ==> ia[#[trigger] oa[m] as int] == ib[ob[m] as int],
    ensures
        ia.to_set() == ib.to_set(),
{
    assert forall|x: int| ia.to_set().contains(x) implies ib.to_set().contains(x) by {
        let i = choose|i: int| 0 <= i < ia.len() && ia[i] == x;
        assert(oa.contains(i as usize));
        let m = choose|p: int| 0 <= p < oa.len() && oa[p] == i;
        assert(ib[ob[m] as int] == x);
    }
    assert forall|x: int| ib.to_set().contains(x) implies ia.to_set().contains(x) by {
        let j = choose|j: int| 0 <= j < ib.len() && ib[j] == x;
        assert(ob.contains(j as usize));
        let m = choose|p: int| 0 <= p < ob.len() && ob[p] == j;
        assert(ia[oa[m] as int] == x);
    }
    assert(ia.to_set() =~= ib.to_set());
}

/// Where two sorted orders first disagree, the smaller of the two ids occurs
/// in one set and not in the other.
proof fn lemma_rank_mismatch_splits_sets(
    oa: Seq<usize>,
    ia: Seq<int>,
    ob: Seq<usize>,
    ib: Seq<int>,
    k: int,
)
    requires
        sorts_by_id(oa, ia),
        sorts_by_id(ob, ib),
        oa.len() == ob.len(),
        0 <= k < oa.len(),
        forall|m: int| 0 <= m < k ==> ia[#[trigger] oa[m] as int] == ib[ob[m] as int],
        ia[oa[k] as int] != ib[ob[k] as int],
    ensures
        ia.to_set() != ib.to_set(),
{
    let x = ia[oa[k] as int];
    let y = ib[ob[k] as int];
    if x < y {
        assert(ia.to_set().contains(x));
        assert(!ib.to_set().contains(x)) by {
            if ib.to_set().contains(x) {
                let j = choose|j: int| 0 <= j < ib.len() && ib[j] == x;
                assert(ob.contains(j as usize));
        let m = choose|p: int| 0 <= p < ob.len() && ob[p] == j;
                if m < k {
                    assert(ia[oa[m] as int] == ib[ob[m] as int]);
                    assert(ia[oa[m] as int] < ia[oa[k] as int]);
                } else if m > k {
                    assert(ib[ob[k] as int] < ib[ob[m] as int]);
                }
            }
        }
    } else {
        assert(ib.to_set().contains(y));
        assert(!ia.to_set().contains(y)) by {
            if ia.to_set().contains(y) {
                let i = choose|i: int| 0 <= i < ia.len() && ia[i] == y;
                assert(oa.contains(i as usize));
        let m = choose|p: int| 0 <= p < oa.len() && oa[p] == i;
                if m < k {
                    assert(ia[oa[m] as int] == ib[ob[m] as int]);
                    assert(ib[ob[m] as int] < ib[ob[k] as int]);
                } else if m > k {
                    assert(ia[oa[k] as int] < ia[oa[m] as int]);
                }
            }
        }
    }
}

} // verus!
