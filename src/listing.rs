//! Presenting a title's snapshots, newest first.
use vstd::prelude::*;
use vstd::relations::sorted_by;

use crate::backup::BackupService;
use crate::models::BackupEntry;
use crate::ordering::{lemma_seq_le_total, lemma_seq_le_transitive, str_le};
use crate::text::seq_le;

verus! {

broadcast use vstd::seq_lib::group_to_multiset_ensures;

/// Entries ordered by name, newest (greatest) first.
pub open spec fn newest_first(a: BackupEntry, b: BackupEntry) -> bool {
    seq_le(b.name@, a.name@)
}

/// The display order of snapshots as a relation.
pub open spec fn by_newest() -> spec_fn(BackupEntry, BackupEntry) -> bool {
    |a: BackupEntry, b: BackupEntry| newest_first(a, b)
}

impl BackupService {
    /// The snapshots of a title for display: the same entries, ordered by name from newest
    /// to oldest; entries of equal name keep their order.
    pub fn list_backups(entries: Vec<BackupEntry>) -> (r: Vec<BackupEntry>)
        ensures
            r@.to_multiset() == entries@.to_multiset(),
            sorted_by(r@, by_newest()),
    {
        let ghost orig = entries@;
        let mut rest = entries;
        let mut out: Vec<BackupEntry> = Vec::new();
        let ghost taken: Seq<BackupEntry> = seq![];
        assert(orig =~= taken + rest@);
        while rest.len() > 0
            invariant
                orig == taken + rest@,
                out@.to_multiset() == taken.to_multiset(),
                sorted_by(out@, by_newest()),
            decreases rest.len(),
        {
            let ghost rest_before = rest@;
            let x = rest.remove(0);
            proof {
                assert(rest_before =~= seq![x] + rest@);
                assert(orig =~= taken.push(x) + rest@);
            }
            let mut p: usize = 0;
            while p < out.len() && str_le(&x.name, &out[p].name)
                invariant
                    p <= out.len(),
                    forall|m: int| 0 <= m < p ==> seq_le(x.name@, #[trigger] out@[m].name@),
                decreases out.len() - p,
            {
                p += 1;
            }
            let ghost before = out@;
            out.insert(p, x);
            proof {
                assert forall|j: int| p <= j < before.len() implies seq_le(
                    #[trigger] before[j].name@,
                    x.name@,
                ) by {
                    lemma_seq_le_total(x.name@, before[p as int].name@);
                    if j > p {
                        assert(by_newest()(before[p as int], before[j]));
                        lemma_seq_le_transitive(before[j].name@, before[p as int].name@, x.name@);
                    }
                }
                assert forall|i: int, j: int| 0 <= i < j < out@.len() implies by_newest()(
                    #[trigger] out@[i],
                    #[trigger] out@[j],
                ) by {
                    if j < p {
                        assert(by_newest()(before[i], before[j]));
                    } else if j == p {
                    } else if i < p {
                        assert(seq_le(before[j - 1].name@, x.name@));
                        lemma_seq_le_transitive(out@[j].name@, x.name@, out@[i].name@);
                    } else if i == p {
                        assert(seq_le(before[j - 1].name@, x.name@));
                    } else {
                        assert(by_newest()(before[i - 1], before[j - 1]));
                    }
                }
                taken = taken.push(x);
            }
        }
        proof {
            assert(taken =~= orig);
        }
        out
    }
}

} // verus!
