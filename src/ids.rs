use vstd::prelude::*;
use vstd::set_lib::{lemma_int_range, lemma_subset_equality, set_int_range};

use crate::cell::{TopologyError, VCellRaw};

verus! {

/// The ids of a result set, in order.
pub open spec fn id_values<P, S>(cells: Seq<VCellRaw<P, S>>) -> Seq<int> {
    cells.map_values(|c: VCellRaw<P, S>| c.id as int)
}

/// `ids` holds each of `0..n` exactly once.
pub open spec fn is_id_permutation(ids: Seq<int>, n: int) -> bool {
    &&& ids.len() == n
    &&& forall|t: int| 0 <= t < ids.len() ==> 0 <= #[trigger] ids[t] < n
    &&& ids.no_duplicates()
}

/// Checks that a result set holds exactly one cell for each of the `n`
/// generating points: `n` cells whose ids are distinct and lie in `0..n`.
pub fn check_cell_ids<P, S>(cells: &Vec<VCellRaw<P, S>>, n: usize) -> (r: Result<(), TopologyError>)
    ensures
        r is Ok <==> is_id_permutation(id_values(cells@), n as int),
        cells.len() != n ==> r == Err::<(), TopologyError>(
            TopologyError::CellCountMismatch { expected: n, found: cells.len() },
        ),
        r matches Err(TopologyError::IdOutOfRange { id }) ==> {
            &&& id_values(cells@).contains(id as int)
            &&& !(0 <= id < n)
        },
        r matches Err(TopologyError::DuplicateId { id }) ==> exists|s: int, t: int|
            0 <= s < t < cells.len() && cells[s].id == id && cells[t].id == id,
        r matches Err(e) ==> (e is CellCountMismatch || e is IdOutOfRange || e is DuplicateId),
{
    let ghost ids = id_values(cells@);
    if cells.len() != n {
        return Err(TopologyError::CellCountMismatch { expected: n, found: cells.len() });
    }
    let mut seen: Vec<bool> = Vec::new();
    let mut x: usize = 0;
    while x < n
        invariant
            x <= n,
            seen.len() == x,
            forall|y: int| 0 <= y < x ==> !(#[trigger] seen[y]),
        decreases n - x,
    {
        seen.push(false);
        x = x + 1;
    }
    let mut t: usize = 0;
    while t < cells.len()
        invariant
            ids == id_values(cells@),
            cells.len() == n,
            seen.len() == n,
            t <= n,
            forall|s: int| 0 <= s < t ==> 0 <= #[trigger] ids[s] < n,
            forall|s1: int, s2: int| 0 <= s1 < s2 < t ==> ids[s1] != ids[s2],
            forall|y: int|
                0 <= y < n ==> (#[trigger] seen[y] <==> exists|s: int| 0 <= s < t && ids[s] == y),
        decreases n - t,
    {
        let id = cells[t].id;
        assert(ids[t as int] == id);
        if id < 0 || id as usize >= n {
            assert(ids.contains(id as int));
            return Err(TopologyError::IdOutOfRange { id });
        }
        let slot = id as usize;
        if seen[slot] {
            proof {
                let s = choose|s: int| 0 <= s < t && ids[s] == slot;
                assert(ids[s] == ids[t as int]);
                assert(cells[s].id == id);
            }
            return Err(TopologyError::DuplicateId { id });
        }
        seen.set(slot, true);
        proof {
            assert forall|y: int| 0 <= y < n implies (#[trigger] seen[y] <==> exists|s: int|
                0 <= s < t + 1 && ids[s] == y) by {
                if y == slot {
                    assert(ids[t as int] == y);
                }
            }
        }
        t = t + 1;
    }
    Ok(())
}

/// A result set that passes the id check holds each id of `0..n` once, and
/// no other: its set of ids is exactly `0..n`.
pub proof fn lemma_ids_cover_range(ids: Seq<int>, n: int)
    requires
        is_id_permutation(ids, n),
    ensures
        ids.to_set() == set_int_range(0, n),
        ids.to_set().len() == n,
{
    ids.unique_seq_to_set();
    lemma_int_range(0, n);
    assert forall|x: int| ids.to_set().contains(x) implies set_int_range(0, n).contains(x) by {
        let t = choose|t: int| 0 <= t < ids.len() && ids[t] == x;
        assert(0 <= ids[t] < n);
    }
    lemma_subset_equality(ids.to_set(), set_int_range(0, n));
}

} // verus!
