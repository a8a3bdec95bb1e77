//! The contact list and what an update does to it.
//!
//! A list is ordered by age: index 0 holds the contact added last, the end of
//! the list the oldest. Pruning removes contacts wherever they stand and
//! leaves the rest in place; new contacts go to the front, in the order in
//! which they were handed in, as long as there is room.

use vstd::prelude::*;
use crate::contact::{holds, Contact};
use crate::unique::first_occurrences;

verus! {

/// The test that a contact passes when `gone` does not hold it.
pub open spec fn not_in(gone: Seq<Contact>) -> spec_fn(Contact) -> bool {
    |c: Contact| !gone.contains(c)
}

/// `list` without the contacts that `gone` holds. What stays keeps its order.
pub open spec fn without(list: Seq<Contact>, gone: Seq<Contact>) -> Seq<Contact> {
    list.filter(not_in(gone))
}

/// How many new contacts a list of `kept` contacts takes in, out of `fresh`
/// candidates, when it may hold `capacity` contacts.
pub open spec fn room(kept: nat, fresh: nat, capacity: nat) -> nat {
    if kept >= capacity {
        0
    } else if fresh <= capacity - kept {
        fresh
    } else {
        (capacity - kept) as nat
    }
}

/// The list after `prune` has been removed from `stored` and `add` merged in.
///
/// Candidates that the pruned list already holds are dropped. An empty list
/// becomes the remaining candidates as they are. Any other list takes the
/// leading candidates at its front, in their order, until it holds `capacity`
/// contacts; the candidates that do not fit are discarded.
pub open spec fn merged(
    stored: Seq<Contact>,
    add: Seq<Contact>,
    prune: Seq<Contact>,
    capacity: nat,
) -> Seq<Contact> {
    let kept = without(stored, prune);
    let fresh = without(add, kept);
    if kept.len() == 0 {
        fresh
    } else {
        fresh.take(room(kept.len(), fresh.len(), capacity) as int) + kept
    }
}

/// The list that is kept after an update: [`merged`], with every repeat of an
/// earlier contact left out.
pub open spec fn updated(
    stored: Seq<Contact>,
    add: Seq<Contact>,
    prune: Seq<Contact>,
    capacity: nat,
) -> Seq<Contact> {
    first_occurrences(merged(stored, add, prune, capacity))
}

/// The `n` oldest contacts of `list`, oldest first; the whole list turned
/// round when it holds no more than `n`.
pub open spec fn oldest_of(list: Seq<Contact>, n: nat) -> Seq<Contact> {
    list.reverse().take(if n <= list.len() { n as int } else { list.len() as int })
}

/// Removing nothing leaves a list as it is.
pub proof fn lemma_without_nothing(list: Seq<Contact>)
    ensures
        without(list, Seq::empty()) == list,
    decreases list.len(),
{
    reveal(Seq::filter);
    if list.len() > 0 {
        lemma_without_nothing(list.drop_last());
        assert(not_in(Seq::empty())(list.last()));
        assert(list.drop_last().push(list.last()) =~= list);
    }
}

/// Membership in a list from which `gone` was removed.
pub proof fn lemma_without_contains(list: Seq<Contact>, gone: Seq<Contact>, c: Contact)
    ensures
        without(list, gone).contains(c) <==> list.contains(c) && !gone.contains(c),
{
    let kept = without(list, gone);
    if kept.contains(c) {
        let i = choose|i: int| 0 <= i < kept.len() && kept[i] == c;
        list.lemma_filter_contains_rev(not_in(gone), c);
        list.lemma_filter_pred(not_in(gone), i);
    }
    if list.contains(c) && !gone.contains(c) {
        let i = choose|i: int| 0 <= i < list.len() && list[i] == c;
        list.lemma_filter_contains(not_in(gone), i);
    }
}

/// A list from which everything it holds is removed is empty.
pub proof fn lemma_without_everything(list: Seq<Contact>, gone: Seq<Contact>)
    requires
        forall|c: Contact| list.contains(c) ==> gone.contains(c),
    ensures
        without(list, gone) == Seq::<Contact>::empty(),
{
    let kept = without(list, gone);
    if kept.len() > 0 {
        assert(kept.contains(kept[0]));
        lemma_without_contains(list, gone, kept[0]);
    }
    assert(kept =~= Seq::<Contact>::empty());
}

/// Removing a contact that a list holds makes the list shorter.
pub proof fn lemma_without_shorter(list: Seq<Contact>, gone: Seq<Contact>, c: Contact)
    requires
        list.contains(c),
        gone.contains(c),
    ensures
        without(list, gone).len() < list.len(),
    decreases list.len(),
{
    reveal(Seq::filter);
    let init = list.drop_last();
    init.lemma_filter_len(not_in(gone));
    if list.last() != c {
        let i = choose|i: int| 0 <= i < list.len() && list[i] == c;
        assert(init[i] == c);
        lemma_without_shorter(init, gone, c);
    }
}

/// Removing contacts from a list that holds nothing twice leaves a list that
/// holds nothing twice.
pub proof fn lemma_without_distinct(list: Seq<Contact>, gone: Seq<Contact>)
    requires
        list.no_duplicates(),
    ensures
        without(list, gone).no_duplicates(),
    decreases list.len(),
{
    reveal(Seq::filter);
    if list.len() > 0 {
        let init = list.drop_last();
        lemma_without_distinct(init, gone);
        lemma_without_contains(init, gone, list.last());
        if init.contains(list.last()) {
            let i = choose|i: int| 0 <= i < init.len() && init[i] == list.last();
            assert(list[i] == list[list.len() - 1]);
        }
    }
}

/// Copies `list` without the contacts that `gone` holds.
pub fn remove_all(list: &Vec<Contact>, gone: &Vec<Contact>) -> (kept: Vec<Contact>)
    ensures
        kept@ == without(list@, gone@),
{
    let mut kept: Vec<Contact> = Vec::new();
    let mut i: usize = 0;
    proof {
        reveal(Seq::filter);
        assert(list@.take(0) =~= Seq::<Contact>::empty());
    }
    while i < list.len()
        invariant
            i <= list.len(),
            kept@ == without(list@.take(i as int), gone@),
        decreases list.len() - i,
    {
        let c = list[i];
        proof {
            list@.take(i as int).lemma_filter_push(c, not_in(gone@));
            assert(list@.take(i as int).push(c) =~= list@.take(i + 1));
        }
        if !holds(gone, c) {
            kept.push(c);
        }
        i += 1;
    }
    proof {
        assert(list@.take(list.len() as int) =~= list@);
    }
    kept
}

/// Removes `prune` from `stored` and merges `contacts` into what is left, for
/// a list that may hold `capacity` contacts.
pub fn merge_contacts(
    stored: Vec<Contact>,
    contacts: Vec<Contact>,
    prune: &Vec<Contact>,
    capacity: usize,
) -> (list: Vec<Contact>)
    ensures
        list@ == merged(stored@, contacts@, prune@, capacity as nat),
{
    let mut kept = if prune.len() > 0 {
        remove_all(&stored, prune)
    } else {
        proof {
            assert(prune@ =~= Seq::<Contact>::empty());
            lemma_without_nothing(stored@);
        }
        stored
    };
    let mut list = remove_all(&contacts, &kept);
    if kept.len() == 0 {
        return list;
    }
    let taken: usize = if kept.len() >= capacity {
        0
    } else if list.len() <= capacity - kept.len() {
        list.len()
    } else {
        capacity - kept.len()
    };
    list.truncate(taken);
    list.append(&mut kept);
    list
}

/// The `n` oldest contacts of `list`, oldest first.
pub fn oldest(list: &Vec<Contact>, n: usize) -> (found: Vec<Contact>)
    ensures
        found@ == oldest_of(list@, n as nat),
        n >= list@.len() ==> found@ == list@.reverse(),
        n == 0 ==> found@ == Seq::<Contact>::empty(),
{
    let len = list.len();
    let count: usize = if n <= len { n } else { len };
    let mut found: Vec<Contact> = Vec::new();
    let mut i: usize = 0;
    while i < count
        invariant
            len == list@.len(),
            i <= count <= len,
            found@ == list@.reverse().take(i as int),
        decreases count - i,
    {
        found.push(list[len - 1 - i]);
        proof {
            assert(list@.reverse().take(i + 1) =~= list@.reverse().take(i as int).push(
                list@[len - 1 - i],
            ));
        }
        i += 1;
    }
    proof {
        assert(list@.reverse().take(len as int) =~= list@.reverse());
        assert(list@.reverse().take(0) =~= Seq::<Contact>::empty());
    }
    found
}

} // verus!
