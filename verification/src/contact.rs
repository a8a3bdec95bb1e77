//! Contacts: the endpoints that the cache remembers.

use vstd::prelude::*;

verus! {

/// The transport over which an endpoint is reached.
#[derive(Clone, Copy, Debug, PartialEq, Eq, Hash, Structural)]
pub enum Transport {
    Tcp,
    Utp,
}

/// The address of a host, as the number that its bits spell in network order.
#[derive(Clone, Copy, Debug, PartialEq, Eq, Hash, Structural)]
pub enum Host {
    V4(u32),
    V6(u128),
}

/// One reachable endpoint. Two contacts are the same contact exactly when
/// transport, host and port agree.
#[derive(Clone, Copy, Debug, PartialEq, Eq, Hash, Structural)]
pub struct Contact {
    pub transport: Transport,
    pub host: Host,
    pub port: u16,
}

/// A list of contacts, freshest first.
pub type Contacts = Vec<Contact>;

/// Whether `list` holds `contact`.
pub fn holds(list: &Vec<Contact>, contact: Contact) -> (found: bool)
    ensures
        found == list@.contains(contact),
{
    let mut i: usize = 0;
    while i < list.len()
        invariant
            i <= list.len(),
            forall|j: int| 0 <= j < i ==> list@[j] != contact,
        decreases list.len() - i,
    {
        if list[i] == contact {
            return true;
        }
        i += 1;
    }
    false
}

} // verus!
