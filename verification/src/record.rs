//! Records: contacts as the plain numbers that stand in a file.
//!
//! A record is a row of five numbers: the transport, the address family, the
//! upper and the lower half of the address, and the port. Every contact has
//! one record; a row of numbers is the record of at most one contact.

use vstd::prelude::*;
use crate::contact::{Contact, Host, Transport};
use crate::unique::{first_occurrences, lemma_first_occurrences_map, one_to_one};

verus! {

/// Transport, address family, upper half, lower half, port.
pub type Record = (u8, u8, u64, u64, u16);

/// The number that stands for TCP.
pub const TCP: u8 = 0;

/// The number that stands for uTP.
pub const UTP: u8 = 1;

/// The family of addresses of 32 bits.
pub const FAMILY_V4: u8 = 4;

/// The family of addresses of 128 bits.
pub const FAMILY_V6: u8 = 6;

/// Where the upper half of an address begins: 2 to the power of 64.
pub const HALF: u128 = 0x1_0000_0000_0000_0000;

/// The record of a contact.
pub open spec fn record_of(c: Contact) -> Record {
    let transport = match c.transport {
        Transport::Tcp => TCP,
        Transport::Utp => UTP,
    };
    match c.host {
        Host::V4(bits) => (transport, FAMILY_V4, 0u64, bits as u64, c.port),
        Host::V6(bits) => (transport, FAMILY_V6, (bits / HALF) as u64, (bits % HALF) as u64, c.port),
    }
}

/// The contact that a record stands for, if it stands for one.
pub open spec fn contact_of(r: Record) -> Option<Contact> {
    if r.0 != TCP && r.0 != UTP {
        None
    } else {
        let transport = if r.0 == TCP {
            Transport::Tcp
        } else {
            Transport::Utp
        };
        if r.1 == FAMILY_V4 && r.2 == 0 && r.3 <= u32::MAX {
            Some(Contact { transport, host: Host::V4(r.3 as u32), port: r.4 })
        } else if r.1 == FAMILY_V6 {
            Some(Contact { transport, host: Host::V6((r.2 * HALF + r.3) as u128), port: r.4 })
        } else {
            None
        }
    }
}

/// `record_of` as a value.
pub open spec fn to_record() -> spec_fn(Contact) -> Record {
    |c: Contact| record_of(c)
}

/// The contact of a record that stands for one, as a value.
pub open spec fn to_contact() -> spec_fn(Record) -> Contact {
    |r: Record| contact_of(r).unwrap()
}

/// The records of a list, in its order.
pub open spec fn records_of(list: Seq<Contact>) -> Seq<Record> {
    list.map_values(to_record())
}

/// The list that a row of records stands for: every record must stand for a
/// contact.
pub open spec fn contacts_of(records: Seq<Record>) -> Option<Seq<Contact>> {
    if forall|i: int| 0 <= i < records.len() ==> (#[trigger] contact_of(records[i])) is Some {
        Some(records.map_values(to_contact()))
    } else {
        None
    }
}

/// A contact is read back from its record.
pub proof fn lemma_record_round_trip(c: Contact)
    ensures
        contact_of(record_of(c)) == Some(c),
{
    match c.host {
        Host::V4(bits) => {},
        Host::V6(bits) => {
            let upper = bits / HALF;
            let lower = bits % HALF;
            assert(upper * HALF + lower == bits);
        },
    }
}

/// A list is read back from its records.
pub proof fn lemma_records_round_trip(list: Seq<Contact>)
    ensures
        contacts_of(records_of(list)) == Some(list),
{
    let records = records_of(list);
    assert forall|i: int| 0 <= i < records.len() implies (#[trigger] contact_of(records[i]))
        == Some(list[i]) by {
        lemma_record_round_trip(list[i]);
    }
    assert(records.map_values(to_contact()) =~= list);
}

/// Different contacts have different records.
pub proof fn lemma_record_one_to_one()
    ensures
        one_to_one(to_record()),
{
    assert forall|a: Contact, b: Contact| #[trigger] to_record()(a) == #[trigger] to_record()(
        b,
    ) implies a == b by {
        lemma_record_round_trip(a);
        lemma_record_round_trip(b);
    }
}

/// The records of a list without its repeats are the list's records without
/// theirs.
pub proof fn lemma_records_first_occurrences(list: Seq<Contact>)
    ensures
        first_occurrences(records_of(list)) == records_of(first_occurrences(list)),
{
    lemma_record_one_to_one();
    lemma_first_occurrences_map(list, to_record());
}

/// Writes a contact as its record.
pub fn contact_record(c: Contact) -> (r: Record)
    ensures
        r == record_of(c),
{
    let transport: u8 = match c.transport {
        Transport::Tcp => TCP,
        Transport::Utp => UTP,
    };
    match c.host {
        Host::V4(bits) => (transport, FAMILY_V4, 0u64, bits as u64, c.port),
        Host::V6(bits) => (transport, FAMILY_V6, (bits / HALF) as u64, (bits % HALF) as u64, c.port),
    }
}

/// Reads a record as the contact it stands for; `None` where the transport
/// or the family is unknown, or the address is too wide for its family.
pub fn record_contact(r: Record) -> (c: Option<Contact>)
    ensures
        c == contact_of(r),
{
    let transport = if r.0 == TCP {
        Transport::Tcp
    } else if r.0 == UTP {
        Transport::Utp
    } else {
        return None;
    };
    if r.1 == FAMILY_V4 && r.2 == 0 && r.3 <= 0xffff_ffff {
        Some(Contact { transport, host: Host::V4(r.3 as u32), port: r.4 })
    } else if r.1 == FAMILY_V6 {
        Some(Contact { transport, host: Host::V6(r.2 as u128 * HALF + r.3 as u128), port: r.4 })
    } else {
        None
    }
}

/// Writes a list as its records.
pub fn to_records(list: &Vec<Contact>) -> (records: Vec<Record>)
    ensures
        records@ == records_of(list@),
{
    let mut records: Vec<Record> = Vec::new();
    let mut i: usize = 0;
    while i < list.len()
        invariant
            i <= list.len(),
            records@ == records_of(list@.take(i as int)),
        decreases list.len() - i,
    {
        records.push(contact_record(list[i]));
        proof {
            assert(records@ =~= records_of(list@.take(i + 1)));
        }
        i += 1;
    }
    proof {
        assert(list@.take(list.len() as int) =~= list@);
    }
    records
}

/// Reads a row of records as the list it stands for; `None` where a record
/// stands for no contact.
pub fn from_records(records: &Vec<Record>) -> (list: Option<Vec<Contact>>)
    ensures
        match list {
            Some(found) => contacts_of(records@) == Some(found@),
            None => contacts_of(records@) is None,
        },
{
    let mut found: Vec<Contact> = Vec::new();
    let mut i: usize = 0;
    while i < records.len()
        invariant
            i <= records.len(),
            contacts_of(records@.take(i as int)) == Some(found@),
        decreases records.len() - i,
    {
        match record_contact(records[i]) {
            Some(c) => {
                found.push(c);
                proof {
                    let before = records@.take(i as int);
                    let now = records@.take(i + 1);
                    assert forall|j: int| 0 <= j < now.len() implies (#[trigger] contact_of(
                        now[j],
                    )) is Some by {
                        if j < i {
                            assert(now[j] == before[j]);
                        }
                    }
                    assert(now.map_values(to_contact()) =~= found@);
                }
            },
            None => {
                return None;
            },
        }
        i += 1;
    }
    proof {
        assert(records@.take(records.len() as int) =~= records@);
    }
    Some(found)
}

} // verus!
