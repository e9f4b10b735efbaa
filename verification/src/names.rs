//! The order in which the files of a collection are taken.

use crate::gateway::texts;
use crate::text::{
    lemma_lex_le_antisymmetric, lemma_lex_le_reflexive, lemma_lex_le_total,
    lemma_lex_le_transitive, lex_le, str_le,
};
use vstd::prelude::*;
use vstd::relations::{sorted_by, total_ordering};
use vstd::seq_lib::{lemma_sorted_unique, to_multiset_remove};

verus! {

/// Dictionary order on names, by code point: `10.png` comes before `2.png`.
pub open spec fn name_order() -> spec_fn(Seq<char>, Seq<char>) -> bool {
    |a: Seq<char>, b: Seq<char>| lex_le(a, b)
}

/// The names in dictionary order.
pub open spec fn sorted_names(names: Seq<Seq<char>>) -> Seq<Seq<char>> {
    names.sort_by(name_order())
}

/// Dictionary order is a total order.
pub proof fn lemma_name_order_total()
    ensures
        total_ordering(name_order()),
{
    let r = name_order();
    assert forall|x: Seq<char>| #[trigger] r(x, x) by {
        lemma_lex_le_reflexive(x);
    }
    assert forall|x: Seq<char>, y: Seq<char>| #[trigger] r(x, y) && #[trigger] r(y, x) implies x
        == y by {
        lemma_lex_le_antisymmetric(x, y);
    }
    assert forall|x: Seq<char>, y: Seq<char>, z: Seq<char>| #[trigger] r(x, y) && #[trigger] r(
        y,
        z,
    ) implies r(x, z) by {
        lemma_lex_le_transitive(x, y, z);
    }
    assert forall|x: Seq<char>, y: Seq<char>| #[trigger] r(x, y) || #[trigger] r(y, x) by {
        lemma_lex_le_total(x, y);
    }
}

/// The sorted names are the same names, each as often as before, and each
/// comes before or equals every later one.
pub proof fn lemma_sorted_names(names: Seq<Seq<char>>)
    ensures
        sorted_by(sorted_names(names), name_order()),
        sorted_names(names).to_multiset() == names.to_multiset(),
        sorted_names(names).len() == names.len(),
{
    lemma_name_order_total();
    names.lemma_sort_by_ensures(name_order());
    names.to_multiset_ensures();
    sorted_names(names).to_multiset_ensures();
}

/// Sorts names into dictionary order.
pub fn sort_names(names: &Vec<String>) -> (out: Vec<String>)
    ensures
        texts(out@) == sorted_names(texts(names@)),
        sorted_by(texts(out@), name_order()),
        texts(out@).to_multiset() == texts(names@).to_multiset(),
{
    let mut out: Vec<String> = Vec::new();
    let mut i: usize = 0;
    assert(texts(names@).take(0) =~= texts(out@));
    while i < names.len()
        invariant
            i <= names@.len(),
            sorted_by(texts(out@), name_order()),
            texts(out@).to_multiset() == texts(names@).take(i as int).to_multiset(),
        decreases names@.len() - i,
    {
        let name = &names[i];
        let mut at: usize = 0;
        while at < out.len() && str_le(out[at].as_str(), name.as_str())
            invariant
                at <= out@.len(),
                forall|j: int| 0 <= j < at ==> lex_le(#[trigger] out@[j]@, name@),
            decreases out@.len() - at,
        {
            at += 1;
        }
        let ghost before = texts(out@);
        out.insert(at, name.clone());
        proof {
            let after = texts(out@);
            let x = name@;
            assert(after =~= before.insert(at as int, x));
            assert(after.remove(at as int) =~= before);
            to_multiset_remove(after, at as int);
            after.to_multiset_ensures();
            assert(after.to_multiset() =~= before.to_multiset().insert(x));
            let taken = texts(names@).take(i + 1);
            assert(taken =~= texts(names@).take(i as int).push(x));
            texts(names@).take(i as int).to_multiset_ensures();
            assert forall|a: int, b: int| 0 <= a < b < after.len() implies #[trigger] name_order()(
                after[a],
                after[b],
            ) by {
                if b < at {
                    assert(name_order()(before[a], before[b]));
                } else if b == at {
                    assert(lex_le(out@[a]@, x) || a == at);
                    assert(after[a] == before[a]);
                } else if a == at {
                    lemma_lex_le_total(before[at as int], x);
                    assert(lex_le(x, before[at as int]));
                    if b - 1 > at {
                        assert(name_order()(before[at as int], before[b - 1]));
                        lemma_lex_le_transitive(x, before[at as int], before[b - 1]);
                    }
                } else if a < at {
                    assert(name_order()(before[a], before[b - 1]));
                } else {
                    assert(name_order()(before[a - 1], before[b - 1]));
                }
            }
        }
        i += 1;
    }
    proof {
        assert(texts(names@).take(names@.len() as int) =~= texts(names@));
        lemma_sorted_names(texts(names@));
        lemma_name_order_total();
        lemma_sorted_unique(texts(out@), sorted_names(texts(names@)), name_order());
    }
    out
}

} // verus!
