//! General facts about sequences that the ledger invariants lean on:
//! a duplicate-free sequence drawn from another sequence is no longer than
//! it, and prefix-extension facts used by the engine's loops.

use vstd::prelude::*;
use vstd::seq_lib::group_seq_properties;
use vstd::set_lib::lemma_len_subset;

verus! {

/// A duplicate-free sequence whose elements all occur in `t` is no longer
/// than `t`.
pub proof fn lemma_distinct_within_len<A>(s: Seq<A>, t: Seq<A>)
    requires
        s.no_duplicates(),
        forall|i: int| 0 <= i < s.len() ==> t.contains(#[trigger] s[i]),
    ensures
        s.len() <= t.len(),
{
    broadcast use group_seq_properties;
    s.unique_seq_to_set();
    t.lemma_cardinality_of_set();
    assert(s.to_set().subset_of(t.to_set())) by {
        assert forall|x: A| s.to_set().contains(x) implies t.to_set().contains(x) by {
            assert(s.contains(x));
            let i = choose|i: int| 0 <= i < s.len() && s[i] == x;
            assert(t.contains(s[i]));
        }
    }
    lemma_len_subset(s.to_set(), t.to_set());
}

/// Taking one more element of `s` appends `s[i]` to the prefix.
pub proof fn lemma_take_one_more<A>(s: Seq<A>, i: int)
    requires
        0 <= i < s.len(),
    ensures
        s.take(i + 1) == s.take(i).push(s[i]),
{
    assert(s.take(i + 1) =~= s.take(i).push(s[i]));
}

/// Pushing keeps every element present and adds the pushed one.
pub proof fn lemma_push_preserves_contains<A>(s: Seq<A>, x: A)
    ensures
        forall|y: A| s.contains(y) ==> #[trigger] s.push(x).contains(y),
        s.push(x).contains(x),
{
    assert forall|y: A| s.contains(y) implies s.push(x).contains(y) by {
        let i = choose|i: int| 0 <= i < s.len() && s[i] == y;
        assert(s.push(x)[i] == y);
    }
    assert(s.push(x)[s.len() as int] == x);
}

/// Dropping the first element of the suffix starting at `i` yields the
/// suffix starting at `i + 1`.
pub proof fn lemma_skip_one_more<A>(s: Seq<A>, i: int)
    requires
        0 <= i < s.len(),
    ensures
        s.skip(i).drop_first() == s.skip(i + 1),
{
    assert(s.skip(i).drop_first() =~= s.skip(i + 1));
}

} // verus!
