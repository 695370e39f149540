//! Bounding the number of snapshots kept per title.
use vstd::prelude::*;

use crate::ordering::{lemma_name_order_total, name_le, names, sort_strings, sorted_names};
use crate::text::seq_le;

verus! {

broadcast use vstd::seq_lib::group_to_multiset_ensures;

/// The snapshots that retention removes from `snaps` under `limit`: the oldest
/// `count - limit` by name, oldest first.
pub open spec fn pruned(snaps: Seq<Seq<char>>, limit: nat) -> Seq<Seq<char>> {
    if snaps.len() > limit {
        sorted_names(snaps).take(snaps.len() - limit)
    } else {
        seq![]
    }
}

/// The snapshots that stay after retention, oldest first.
pub open spec fn retained(snaps: Seq<Seq<char>>, limit: nat) -> Seq<Seq<char>> {
    if snaps.len() > limit {
        sorted_names(snaps).skip(snaps.len() - limit)
    } else {
        sorted_names(snaps)
    }
}

/// Number of `true` entries.
pub open spec fn count_true(s: Seq<bool>) -> nat
    decreases s.len(),
{
    if s.len() == 0 {
        0
    } else {
        count_true(s.drop_last()) + if s.last() {
            1nat
        } else {
            0nat
        }
    }
}

/// Retention removes exactly `count - limit` snapshots when there are more than `limit`
/// (none otherwise), keeps `limit` of them, loses none, and every removed snapshot is
/// older than every kept one.
pub proof fn lemma_retention_keeps_newest(snaps: Seq<Seq<char>>, limit: nat)
    ensures
        pruned(snaps, limit).len() == if snaps.len() > limit {
            snaps.len() - limit
        } else {
            0
        },
        retained(snaps, limit).len() == if snaps.len() > limit {
            limit
        } else {
            snaps.len()
        },
        pruned(snaps, limit) + retained(snaps, limit) == sorted_names(snaps),
        (pruned(snaps, limit) + retained(snaps, limit)).to_multiset() == snaps.to_multiset(),
        forall|i: int, j: int|
            0 <= i < pruned(snaps, limit).len() && 0 <= j < retained(snaps, limit).len() ==> seq_le(
                #[trigger] pruned(snaps, limit)[i],
                #[trigger] retained(snaps, limit)[j],
            ),
{
    lemma_name_order_total();
    snaps.lemma_sort_by_ensures(name_le());
    let s = sorted_names(snaps);
    assert(s.len() == snaps.len()) by {
        vstd::seq_lib::to_multiset_len(s);
        vstd::seq_lib::to_multiset_len(snaps);
    }
    if snaps.len() > limit {
        let k = snaps.len() - limit;
        assert(s.take(k as int) + s.skip(k as int) =~= s);
        assert forall|i: int, j: int|
            0 <= i < pruned(snaps, limit).len() && 0 <= j < retained(snaps, limit).len() implies seq_le(
            #[trigger] pruned(snaps, limit)[i],
            #[trigger] retained(snaps, limit)[j],
        ) by {
            assert(name_le()(s[i], s[j + k]));
        }
    } else {
        assert(seq![] + s =~= s);
    }
}

/// The snapshot names that retention removes under `limit`, oldest first.
pub fn snapshots_to_prune(snapshots: Vec<String>, limit: usize) -> (r: Vec<String>)
    ensures
        names(r@) == pruned(names(snapshots@), limit as nat),
{
    let ghost all = names(snapshots@);
    let n = snapshots.len();
    let sorted = sort_strings(snapshots);
    proof {
        lemma_name_order_total();
        all.lemma_sort_by_ensures(name_le());
        vstd::seq_lib::to_multiset_len(sorted_names(all));
        vstd::seq_lib::to_multiset_len(all);
    }
    let mut out: Vec<String> = Vec::new();
    if n > limit {
        let k = n - limit;
        let mut i: usize = 0;
        while i < k
            invariant
                i <= k,
                k <= sorted.len(),
                names(out@) == names(sorted@).take(i as int),
            decreases k - i,
        {
            let ghost before = out@;
            let item = sorted[i].clone();
            out.push(item);
            assert(out@ == before.push(sorted@[i as int]));
            assert(names(out@) =~= names(before).push(sorted@[i as int]@));
            i += 1;
            assert(names(out@) =~= names(sorted@).take(i as int));
        }
    } else {
        assert(names(out@) =~= seq![]);
    }
    out
}

/// How many removals succeeded.
pub fn count_removed(results: &Vec<bool>) -> (r: usize)
    ensures
        r == count_true(results@),
{
    let mut c: usize = 0;
    let mut i: usize = 0;
    while i < results.len()
        invariant
            i <= results.len(),
            c == count_true(results@.take(i as int)),
            c <= i,
        decreases results.len() - i,
    {
        assert(results@.take(i + 1).drop_last() =~= results@.take(i as int));
        if results[i] {
            c += 1;
        }
        i += 1;
    }
    assert(results@.take(results.len() as int) =~= results@);
    c
}

/// The newest snapshot name, where there is one.
pub fn latest_snapshot(snapshots: Vec<String>) -> (r: Option<String>)
    ensures
        snapshots@.len() == 0 ==> r is None,
        snapshots@.len() > 0 ==> (r matches Some(x) && x@ == sorted_names(names(snapshots@)).last()),
{
    let ghost all = names(snapshots@);
    let mut sorted = sort_strings(snapshots);
    proof {
        lemma_name_order_total();
        all.lemma_sort_by_ensures(name_le());
        vstd::seq_lib::to_multiset_len(sorted_names(all));
        vstd::seq_lib::to_multiset_len(all);
    }
    sorted.pop()
}

} // verus!
