//! First occurrences: a sequence with every repeat of an earlier item left out.

use itertools::Itertools;
use vstd::prelude::*;
use crate::record::Record;

verus! {

/// The items of `s` in their order, each at the place where it first occurs
/// and nowhere else.
pub open spec fn first_occurrences<A>(s: Seq<A>) -> Seq<A>
    decreases s.len(),
{
    if s.len() == 0 {
        s
    } else if s.drop_last().contains(s.last()) {
        first_occurrences(s.drop_last())
    } else {
        first_occurrences(s.drop_last()).push(s.last())
    }
}

/// Leaving out repeats neither adds an item nor loses one.
pub proof fn lemma_first_occurrences_contains<A>(s: Seq<A>, x: A)
    ensures
        first_occurrences(s).contains(x) <==> s.contains(x),
    decreases s.len(),
{
    if s.len() > 0 {
        let init = s.drop_last();
        lemma_first_occurrences_contains(init, x);
        lemma_first_occurrences_contains(init, s.last());
        assert(s =~= init.push(s.last()));
        if s.contains(x) {
            let i = choose|i: int| 0 <= i < s.len() && s[i] == x;
            if i < init.len() {
                assert(init[i] == x);
            }
        }
        if init.contains(x) {
            let i = choose|i: int| 0 <= i < init.len() && init[i] == x;
            assert(s[i] == x);
        }
        let kept = first_occurrences(init);
        if kept.contains(x) {
            let i = choose|i: int| 0 <= i < kept.len() && kept[i] == x;
            assert(kept.push(s.last())[i] == x);
        }
        if !init.contains(s.last()) {
            assert(kept.push(s.last())[kept.len() as int] == s.last());
            assert(s[s.len() - 1] == s.last());
        }
    }
}

/// What is left holds nothing twice.
pub proof fn lemma_first_occurrences_distinct<A>(s: Seq<A>)
    ensures
        first_occurrences(s).no_duplicates(),
    decreases s.len(),
{
    if s.len() > 0 {
        lemma_first_occurrences_distinct(s.drop_last());
        lemma_first_occurrences_contains(s.drop_last(), s.last());
    }
}

/// Nothing is left out of a sequence that holds nothing twice.
pub proof fn lemma_first_occurrences_of_distinct<A>(s: Seq<A>)
    requires
        s.no_duplicates(),
    ensures
        first_occurrences(s) == s,
    decreases s.len(),
{
    if s.len() > 0 {
        let init = s.drop_last();
        lemma_first_occurrences_of_distinct(init);
        if init.contains(s.last()) {
            let i = choose|i: int| 0 <= i < init.len() && init[i] == s.last();
            assert(s[i] == s[s.len() - 1]);
        }
        assert(init.push(s.last()) =~= s);
    }
}

/// Leaving out repeats does not make a sequence longer.
pub proof fn lemma_first_occurrences_len<A>(s: Seq<A>)
    ensures
        first_occurrences(s).len() <= s.len(),
    decreases s.len(),
{
    if s.len() > 0 {
        lemma_first_occurrences_len(s.drop_last());
    }
}

/// A sequence whose first occurrences are none is empty.
pub proof fn lemma_first_occurrences_empty<A>(s: Seq<A>)
    requires
        first_occurrences(s).len() == 0,
    ensures
        s.len() == 0,
{
    if s.len() > 0 {
        assert(s.contains(s[0]));
        lemma_first_occurrences_contains(s, s[0]);
    }
}

/// An item that a sequence does not hold, put in front of it, stays in front
/// when repeats are left out, and the rest is as without it.
pub proof fn lemma_first_occurrences_behind<A>(x: A, s: Seq<A>)
    requires
        !s.contains(x),
    ensures
        first_occurrences(seq![x] + s) == seq![x] + first_occurrences(s),
    decreases s.len(),
{
    let whole = seq![x] + s;
    if s.len() == 0 {
        assert(whole.drop_last() =~= Seq::<A>::empty());
        assert(whole =~= seq![x] + first_occurrences(s));
        assert(first_occurrences(whole.drop_last()) =~= Seq::<A>::empty());
        assert(first_occurrences(whole) =~= Seq::<A>::empty().push(x));
    } else {
        let init = s.drop_last();
        assert(whole.drop_last() =~= seq![x] + init);
        assert(whole.last() == s.last());
        assert(!init.contains(x)) by {
            if init.contains(x) {
                let i = choose|i: int| 0 <= i < init.len() && init[i] == x;
                assert(s[i] == x);
            }
        }
        lemma_first_occurrences_behind(x, init);
        assert(s.last() != x) by {
            assert(s[s.len() - 1] == s.last());
        }
        if init.contains(s.last()) {
            let i = choose|i: int| 0 <= i < init.len() && init[i] == s.last();
            assert((seq![x] + init)[i + 1] == s.last());
        }
        if (seq![x] + init).contains(s.last()) {
            let i = choose|i: int|
                0 <= i < (seq![x] + init).len() && (seq![x] + init)[i] == s.last();
            assert(init[i - 1] == s.last());
        }
        assert((seq![x] + first_occurrences(init)).push(s.last()) =~= seq![x] + first_occurrences(
            init,
        ).push(s.last()));
    }
}

/// Whether `f` sends different items to different values.
pub open spec fn one_to_one<A, B>(f: spec_fn(A) -> B) -> bool {
    forall|a: A, b: A| #[trigger] f(a) == #[trigger] f(b) ==> a == b
}

/// Repeats may be left out before or after the items are renamed one to one.
pub proof fn lemma_first_occurrences_map<A, B>(s: Seq<A>, f: spec_fn(A) -> B)
    requires
        one_to_one(f),
    ensures
        first_occurrences(s.map_values(f)) == first_occurrences(s).map_values(f),
    decreases s.len(),
{
    let t = s.map_values(f);
    if s.len() == 0 {
        assert(t =~= first_occurrences(s).map_values(f));
    } else {
        let init = s.drop_last();
        lemma_first_occurrences_map(init, f);
        assert(t.drop_last() =~= init.map_values(f));
        assert(t.last() == f(s.last()));
        if init.contains(s.last()) {
            let i = choose|i: int| 0 <= i < init.len() && init[i] == s.last();
            assert(t.drop_last()[i] == t.last());
        }
        if t.drop_last().contains(t.last()) {
            let i = choose|i: int| 0 <= i < t.drop_last().len() && t.drop_last()[i] == t.last();
            assert(f(init[i]) == f(s.last()));
            assert(init[i] == s.last());
        }
        assert(first_occurrences(init).push(s.last()).map_values(f) =~= first_occurrences(
            init,
        ).map_values(f).push(f(s.last())));
    }
}

/// Runs `itertools::Itertools::unique` over a row of records and collects
/// what it yields.
///
/// Not proved, but as the adaptor is documented: it yields the items in the
/// order in which they occur, and of equal items the first and no other.
#[verifier::external_body]
pub(crate) fn unique_records(records: Vec<Record>) -> (kept: Vec<Record>)
    ensures
        kept@ == first_occurrences(records@),
{
    records.into_iter().unique().collect()
}

} // verus!
