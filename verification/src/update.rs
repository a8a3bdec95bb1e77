//! What holds of every update of a contact list.

use vstd::prelude::*;
use crate::contact::Contact;
use crate::list::{
    lemma_without_contains, lemma_without_distinct, lemma_without_everything,
    lemma_without_nothing, lemma_without_shorter, merged, not_in, room, updated, without,
};
use crate::unique::{
    first_occurrences, lemma_first_occurrences_behind, lemma_first_occurrences_contains,
    lemma_first_occurrences_distinct, lemma_first_occurrences_empty, lemma_first_occurrences_len,
    lemma_first_occurrences_of_distinct,
};

verus! {

/// After an update the list holds nothing twice.
pub proof fn lemma_update_distinct(
    stored: Seq<Contact>,
    add: Seq<Contact>,
    prune: Seq<Contact>,
    capacity: nat,
)
    ensures
        updated(stored, add, prune, capacity).no_duplicates(),
{
    lemma_first_occurrences_distinct(merged(stored, add, prune, capacity));
}

/// An update of a list of no more than `capacity` contacts leaves no more
/// than `capacity` contacts, where the pruned list is not empty or the
/// candidates hold no more than `capacity` different contacts.
pub proof fn lemma_update_within_capacity(
    stored: Seq<Contact>,
    add: Seq<Contact>,
    prune: Seq<Contact>,
    capacity: nat,
)
    requires
        stored.len() <= capacity,
        without(stored, prune).len() > 0 || first_occurrences(add).len() <= capacity,
    ensures
        updated(stored, add, prune, capacity).len() <= capacity,
{
    let kept = without(stored, prune);
    stored.lemma_filter_len(not_in(prune));
    lemma_first_occurrences_len(merged(stored, add, prune, capacity));
    if kept.len() == 0 {
        assert(kept =~= Seq::<Contact>::empty());
        lemma_without_nothing(add);
    }
}

/// Pruning a contact that the list holds and adding, in the same update, a
/// contact that the list does not hold puts the new contact at index 0 and
/// leaves the pruned one nowhere, wherever it stood.
pub proof fn lemma_prune_then_add(
    stored: Seq<Contact>,
    new: Contact,
    gone: Contact,
    capacity: nat,
)
    requires
        stored.len() <= capacity,
        stored.contains(gone),
        !stored.contains(new),
        new != gone,
    ensures
        updated(stored, seq![new], seq![gone], capacity) == seq![new] + first_occurrences(
            without(stored, seq![gone]),
        ),
        updated(stored, seq![new], seq![gone], capacity)[0] == new,
        !updated(stored, seq![new], seq![gone], capacity).contains(gone),
        stored.no_duplicates() ==> updated(stored, seq![new], seq![gone], capacity) == seq![new]
            + without(stored, seq![gone]),
{
    let prune = seq![gone];
    let add = seq![new];
    let kept = without(stored, prune);
    let fresh = without(add, kept);
    let after = updated(stored, add, prune, capacity);
    assert(prune[0] == gone);
    lemma_without_shorter(stored, prune, gone);
    lemma_without_contains(stored, prune, new);
    lemma_without_contains(stored, prune, gone);
    assert(fresh =~= add) by {
        reveal(Seq::filter);
        assert(add.drop_last() =~= Seq::<Contact>::empty());
        assert(not_in(kept)(add.last()));
    }
    assert(fresh.take(1) =~= add);
    if kept.len() == 0 {
        assert(add =~= add + kept);
    }
    assert(merged(stored, add, prune, capacity) == add + kept);
    lemma_first_occurrences_behind(new, kept);
    lemma_first_occurrences_contains(kept, gone);
    assert(!after.contains(gone)) by {
        if after.contains(gone) {
            let i = choose|i: int| 0 <= i < after.len() && after[i] == gone;
            assert(first_occurrences(kept)[i - 1] == gone);
        }
    }
    if stored.no_duplicates() {
        lemma_without_distinct(stored, prune);
        lemma_first_occurrences_of_distinct(kept);
    }
}

/// The candidates that a list which is not empty takes in when nothing is
/// pruned: the leading ones of those that it does not hold yet, as far as
/// there is room.
pub open spec fn taken_in(stored: Seq<Contact>, add: Seq<Contact>, capacity: nat) -> Seq<Contact> {
    let fresh = without(add, stored);
    fresh.take(room(stored.len(), fresh.len(), capacity) as int)
}

/// Adding the same contacts again, with nothing pruned, leaves the list as the
/// first update left it.
///
/// This holds of a list that holds nothing twice, unless the list was not
/// empty, took in one candidate twice and had to leave another out: the
/// repeat then frees a place, and the second update fills it.
pub proof fn lemma_update_again(stored: Seq<Contact>, add: Seq<Contact>, capacity: nat)
    requires
        stored.no_duplicates(),
        stored.len() == 0 || taken_in(stored, add, capacity).no_duplicates() || forall|c: Contact|
            without(add, stored).contains(c) ==> taken_in(stored, add, capacity).contains(c),
    ensures
        updated(updated(stored, add, Seq::empty(), capacity), add, Seq::empty(), capacity)
            == updated(stored, add, Seq::empty(), capacity),
{
    let none = Seq::<Contact>::empty();
    let fresh = without(add, stored);
    let taken = taken_in(stored, add, capacity);
    let once = merged(stored, add, none, capacity);
    let first = updated(stored, add, none, capacity);
    lemma_without_nothing(stored);
    lemma_without_nothing(first);
    lemma_first_occurrences_distinct(once);
    lemma_first_occurrences_of_distinct(first);
    let again = without(add, first);
    if first.len() == 0 {
        lemma_first_occurrences_empty(once);
        assert(stored.len() == 0);
        assert(stored =~= none);
        lemma_without_nothing(add);
        assert(first =~= none);
    } else {
        // Every candidate is in the list already, or the list is full.
        if stored.len() == 0 {
            assert(stored =~= none);
            lemma_without_nothing(add);
            assert forall|c: Contact| add.contains(c) implies first.contains(c) by {
                lemma_first_occurrences_contains(once, c);
            }
            lemma_without_everything(add, first);
        } else if forall|c: Contact| fresh.contains(c) ==> taken.contains(c) {
            assert forall|c: Contact| add.contains(c) implies first.contains(c) by {
                lemma_first_occurrences_contains(once, c);
                lemma_without_contains(add, stored, c);
                if stored.contains(c) {
                    let i = choose|i: int| 0 <= i < stored.len() && stored[i] == c;
                    assert(once[taken.len() + i] == c);
                } else {
                    let i = choose|i: int| 0 <= i < taken.len() && taken[i] == c;
                    assert(once[i] == c);
                }
            }
            lemma_without_everything(add, first);
        } else {
            fresh.lemma_filter_len(not_in(stored));
            assert forall|i: int, j: int|
                0 <= i < taken.len() && 0 <= j < stored.len() implies taken[i] != stored[j] by {
                assert(fresh.contains(fresh[i]));
                lemma_without_contains(add, stored, taken[i]);
            }
            vstd::seq_lib::lemma_no_dup_in_concat(taken, stored);
            lemma_first_occurrences_of_distinct(once);
            if taken.len() == fresh.len() {
                assert(taken =~= fresh);
            }
            assert(first.len() >= capacity);
        }
        assert(again.take(room(first.len(), again.len(), capacity) as int) =~= none);
        assert(merged(first, add, none, capacity) =~= first);
    }
}

} // verus!
