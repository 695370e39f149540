//! The order of names, and sorting by it.
use vstd::prelude::*;
use vstd::relations::{sorted_by, total_ordering};

use crate::text::{chars_le, chars_of, seq_le};

verus! {

broadcast use vstd::seq_lib::group_to_multiset_ensures;

/// The order of names as a relation.
pub open spec fn name_le() -> spec_fn(Seq<char>, Seq<char>) -> bool {
    |a: Seq<char>, b: Seq<char>| seq_le(a, b)
}

/// The views of a vector of strings.
pub open spec fn names(v: Seq<String>) -> Seq<Seq<char>> {
    v.map_values(|s: String| s@)
}

/// Names in ascending order.
pub open spec fn sorted_names(s: Seq<Seq<char>>) -> Seq<Seq<char>> {
    s.sort_by(name_le())
}

pub proof fn lemma_seq_le_reflexive(a: Seq<char>)
    ensures
        seq_le(a, a),
    decreases a.len(),
{
    if a.len() > 0 {
        lemma_seq_le_reflexive(a.drop_first());
    }
}

pub proof fn lemma_seq_le_total(a: Seq<char>, b: Seq<char>)
    ensures
        seq_le(a, b) || seq_le(b, a),
    decreases a.len(),
{
    if a.len() > 0 && b.len() > 0 && a[0] == b[0] {
        lemma_seq_le_total(a.drop_first(), b.drop_first());
    }
}

pub proof fn lemma_seq_le_transitive(a: Seq<char>, b: Seq<char>, c: Seq<char>)
    requires
        seq_le(a, b),
        seq_le(b, c),
    ensures
        seq_le(a, c),
    decreases a.len(),
{
    if a.len() > 0 && b.len() > 0 && c.len() > 0 && a[0] == b[0] && b[0] == c[0] {
        lemma_seq_le_transitive(a.drop_first(), b.drop_first(), c.drop_first());
    }
}

pub proof fn lemma_seq_le_antisymmetric(a: Seq<char>, b: Seq<char>)
    requires
        seq_le(a, b),
        seq_le(b, a),
    ensures
        a == b,
    decreases a.len(),
{
    if a.len() > 0 && b.len() > 0 {
        lemma_seq_le_antisymmetric(a.drop_first(), b.drop_first());
        assert(a =~= seq![a[0]] + a.drop_first());
        assert(b =~= seq![b[0]] + b.drop_first());
    }
}

/// The order of names is total.
pub proof fn lemma_name_order_total()
    ensures
        total_ordering(name_le()),
{
    assert forall|a: Seq<char>| #[trigger] name_le()(a, a) by {
        lemma_seq_le_reflexive(a);
    }
    assert forall|a: Seq<char>, b: Seq<char>|
        #[trigger] name_le()(a, b) && #[trigger] name_le()(b, a) implies a == b by {
        lemma_seq_le_antisymmetric(a, b);
    }
    assert forall|a: Seq<char>, b: Seq<char>, c: Seq<char>|
        #[trigger] name_le()(a, b) && #[trigger] name_le()(b, c) implies name_le()(a, c) by {
        lemma_seq_le_transitive(a, b, c);
    }
    assert forall|a: Seq<char>, b: Seq<char>|
        #[trigger] name_le()(a, b) || #[trigger] name_le()(b, a) by {
        lemma_seq_le_total(a, b);
    }
}

/// A sorted arrangement of `s`'s elements is `s` sorted.
pub proof fn lemma_is_sorted_names(s: Seq<Seq<char>>, r: Seq<Seq<char>>)
    requires
        sorted_by(r, name_le()),
        r.to_multiset() == s.to_multiset(),
    ensures
        r == sorted_names(s),
{
    lemma_name_order_total();
    s.lemma_sort_by_ensures(name_le());
    vstd::seq_lib::lemma_sorted_unique(r, sorted_names(s), name_le());
}

/// Whether string `a` comes before or equals `b`.
pub fn str_le(a: &String, b: &String) -> (r: bool)
    ensures
        r == seq_le(a@, b@),
{
    chars_le(&chars_of(a.as_str()), &chars_of(b.as_str()))
}

/// The strings in ascending order.
pub fn sort_strings(v: Vec<String>) -> (r: Vec<String>)
    ensures
        names(r@) == sorted_names(names(v@)),
{
    let mut out: Vec<String> = Vec::new();
    let mut v = v;
    let ghost orig = names(v@);
    let ghost taken: Seq<Seq<char>> = seq![];
    proof {
        lemma_name_order_total();
        assert(orig =~= taken + names(v@));
    }
    while v.len() > 0
        invariant
            orig == taken + names(v@),
            names(out@).to_multiset() == taken.to_multiset(),
            sorted_by(names(out@), name_le()),
            total_ordering(name_le()),
        decreases v.len(),
    {
        let ghost rest_before = v@;
        let x = v.remove(0);
        let ghost xv = x@;
        proof {
            assert(names(rest_before) =~= seq![xv] + names(v@));
            assert(orig =~= taken.push(xv) + names(v@));
        }
        let mut p: usize = 0;
        while p < out.len() && str_le(&out[p], &x)
            invariant
                p <= out.len(),
                forall|m: int| 0 <= m < p ==> seq_le(out@[m]@, xv),
                x@ == xv,
            decreases out.len() - p,
        {
            p += 1;
        }
        let ghost before = names(out@);
        out.insert(p, x);
        proof {
            assert(names(out@) =~= before.insert(p as int, xv));
            assert forall|j: int| p <= j < before.len() implies seq_le(xv, #[trigger] before[j]) by {
                lemma_seq_le_total(xv, before[p as int]);
                if j > p {
                    assert(name_le()(before[p as int], before[j]));
                    lemma_seq_le_transitive(xv, before[p as int], before[j]);
                }
            }
            assert forall|i: int, j: int| 0 <= i < j < names(out@).len() implies name_le()(
                #[trigger] names(out@)[i],
                #[trigger] names(out@)[j],
            ) by {
                if j < p {
                    assert(name_le()(before[i], before[j]));
                } else if j == p {
                } else if i < p {
                    assert(seq_le(xv, before[j - 1]));
                    lemma_seq_le_transitive(names(out@)[i], xv, names(out@)[j]);
                } else if i == p {
                    assert(seq_le(xv, before[j - 1]));
                } else {
                    assert(name_le()(before[i - 1], before[j - 1]));
                }
            }
            taken = taken.push(xv);
        }
    }
    proof {
        assert(taken =~= orig);
        lemma_is_sorted_names(orig, names(out@));
    }
    out
}

} // verus!
