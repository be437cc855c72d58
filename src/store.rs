//! Which fetched records the append-only store still lacks. A record is
//! known by its exchange-native id; the store never holds an id twice.

use vstd::prelude::*;

verus! {

/// Some id of `ids` reads `id`.
pub open spec fn holds_id(ids: Seq<String>, id: Seq<char>) -> bool {
    exists|k: int| 0 <= k < ids.len() && (#[trigger] ids[k])@ == id
}

/// No id occurs twice in `ids`.
pub open spec fn ids_distinct(ids: Seq<String>) -> bool {
    forall|i: int, j: int| 0 <= i < j < ids.len() ==> (#[trigger] ids[i])@ != (#[trigger] ids[j])@
}

/// The fetched record at `i` is new: the store lacks its id, and no earlier
/// fetched record has it.
pub open spec fn is_new_at(stored: Seq<String>, fetched: Seq<String>, i: int) -> bool {
    &&& !holds_id(stored, fetched[i]@)
    &&& !holds_id(fetched.take(i), fetched[i]@)
}

/// The positions of `fetched` that `positions` picks, in order, are exactly
/// the new ones.
pub open spec fn picks_new(stored: Seq<String>, fetched: Seq<String>, positions: Seq<usize>) -> bool {
    &&& forall|k: int|
        0 <= k < positions.len() ==> #[trigger] positions[k] < fetched.len() && is_new_at(
            stored,
            fetched,
            positions[k] as int,
        )
    &&& forall|k: int, l: int| 0 <= k < l < positions.len() ==> #[trigger] positions[k] < #[trigger] positions[l]
    &&& forall|i: int|
        0 <= i < fetched.len() && is_new_at(stored, fetched, i) ==> exists|k: int|
            0 <= k < positions.len() && #[trigger] positions[k] == i
}

/// The ids at `positions` of `fetched`.
pub open spec fn ids_at(fetched: Seq<String>, positions: Seq<usize>) -> Seq<String> {
    positions.map_values(|p: usize| fetched[p as int])
}

fn contains_id(ids: &Vec<String>, end: usize, id: &String) -> (r: bool)
    requires
        end <= ids@.len(),
    ensures
        r == holds_id(ids@.take(end as int), id@),
{
    let mut k: usize = 0;
    while k < end
        invariant
            end <= ids@.len(),
            k <= end,
            forall|j: int| 0 <= j < k ==> ids@[j]@ != id@,
        decreases end - k,
    {
        if ids[k] == *id {
            assert(ids@.take(end as int)[k as int] == ids@[k as int]);
            return true;
        }
        k = k + 1;
    }
    proof {
        if holds_id(ids@.take(end as int), id@) {
            let j = choose|j: int| 0 <= j < end && (#[trigger] ids@.take(end as int)[j])@ == id@;
            assert(ids@.take(end as int)[j] == ids@[j]);
        }
    }
    false
}

/// The positions of the fetched records that the store should take: those
/// whose id it lacks, each id once, in fetched order.
pub fn new_positions(stored: &Vec<String>, fetched: &Vec<String>) -> (r: Vec<usize>)
    ensures
        picks_new(stored@, fetched@, r@),
{
    let mut picked: Vec<usize> = Vec::new();
    let mut i: usize = 0;
    while i < fetched.len()
        invariant
            i <= fetched@.len(),
            forall|k: int|
                0 <= k < picked@.len() ==> #[trigger] picked@[k] < i && is_new_at(
                    stored@,
                    fetched@,
                    picked@[k] as int,
                ),
            forall|k: int, l: int| 0 <= k < l < picked@.len() ==> #[trigger] picked@[k] < #[trigger] picked@[l],
            forall|j: int|
                0 <= j < i && is_new_at(stored@, fetched@, j) ==> exists|k: int|
                    0 <= k < picked@.len() && #[trigger] picked@[k] == j,
        decreases fetched@.len() - i,
    {
        let in_store = contains_id(stored, stored.len(), &fetched[i]);
        let seen = contains_id(fetched, i, &fetched[i]);
        assert(stored@.take(stored@.len() as int) =~= stored@);
        if !in_store && !seen {
            let ghost before = picked@;
            picked.push(i);
            proof {
                assert forall|j: int|
                    0 <= j < i + 1 && is_new_at(stored@, fetched@, j) implies exists|k: int|
                    0 <= k < picked@.len() && #[trigger] picked@[k] == j by {
                    if j < i {
                        let k = choose|k: int| 0 <= k < before.len() && #[trigger] before[k] == j;
                        assert(picked@[k] == before[k]);
                    } else {
                        assert(picked@[before.len() as int] == i);
                    }
                }
            }
        }
        i = i + 1;
    }
    picked
}

/// Fetching again changes nothing: once the store has taken the new
/// records, none of the same fetched records is new, and the store still
/// holds no id twice.
pub proof fn lemma_second_fetch_adds_nothing(
    stored: Seq<String>,
    fetched: Seq<String>,
    positions: Seq<usize>,
)
    requires
        ids_distinct(stored),
        picks_new(stored, fetched, positions),
    ensures
        ids_distinct(stored + ids_at(fetched, positions)),
        forall|i: int|
            0 <= i < fetched.len() ==> !is_new_at(
                stored + ids_at(fetched, positions),
                fetched,
                i,
            ),
{
    let added = ids_at(fetched, positions);
    let all = stored + added;
    assert forall|i: int| 0 <= i < fetched.len() implies holds_id(all, fetched[i]@) by {
        lemma_fetched_id_held(stored, fetched, positions, i);
    }
    assert forall|i: int| 0 <= i < fetched.len() implies !is_new_at(all, fetched, i) by {
        assert(holds_id(all, fetched[i]@));
    }
    assert forall|i: int, j: int| 0 <= i < j < all.len() implies (#[trigger] all[i])@ != (
    #[trigger] all[j])@ by {
        if j >= stored.len() {
            let pj = positions[j - stored.len()] as int;
            assert(is_new_at(stored, fetched, pj));
            assert(all[j] == fetched[pj]);
            if i < stored.len() {
                assert(all[i] == stored[i]);
            } else {
                let pi = positions[i - stored.len()] as int;
                assert(positions[i - stored.len()] < positions[j - stored.len()]);
                assert(all[i] == fetched[pi]);
                assert(fetched.take(pj)[pi] == fetched[pi]);
            }
        }
    }
}

proof fn lemma_fetched_id_held(
    stored: Seq<String>,
    fetched: Seq<String>,
    positions: Seq<usize>,
    i: int,
)
    requires
        picks_new(stored, fetched, positions),
        0 <= i < fetched.len(),
    ensures
        holds_id(stored + ids_at(fetched, positions), fetched[i]@),
    decreases i,
{
    let all = stored + ids_at(fetched, positions);
    if holds_id(stored, fetched[i]@) {
        let k = choose|k: int| 0 <= k < stored.len() && (#[trigger] stored[k])@ == fetched[i]@;
        assert(all[k] == stored[k]);
    } else if holds_id(fetched.take(i), fetched[i]@) {
        let k = choose|k: int| 0 <= k < i && (#[trigger] fetched.take(i)[k])@ == fetched[i]@;
        assert(fetched.take(i)[k] == fetched[k]);
        lemma_fetched_id_held(stored, fetched, positions, k);
    } else {
        assert(is_new_at(stored, fetched, i));
        let k = choose|k: int| 0 <= k < positions.len() && #[trigger] positions[k] == i;
        assert(all[stored.len() + k] == fetched[i]);
    }
}

} // verus!
