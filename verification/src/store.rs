//! The contact store: the list kept in a file, and the operations on it.
//!
//! The file is the only state. Every operation starts from what a read of the
//! file gave and, where it changes the list, ends with the bytes that replace
//! the file as a whole.

use vstd::prelude::*;
use vstd::string::*;
use crate::clock::{after, current_time, hours_in_seconds, is_after, Timestamp};
use crate::contact::{Contact, Contacts};
use crate::json::{
    decodable, decode_records, encode_records, encode_records_pretty, is_decodable,
    json_decoding, json_encoding, json_pretty_encoding, MAX_IMAGE_LEN, MAX_RECORDS,
};
use crate::list::{merge_contacts, merged, oldest, oldest_of, updated};
use crate::record::{
    contacts_of, from_records, lemma_records_first_occurrences, lemma_records_round_trip,
    records_of, to_records,
};
use crate::unique::{first_occurrences, unique_records};

verus! {

/// The number of contacts that the list takes new contacts up to.
pub const MAX_CONTACTS: usize = 1500;

/// The hours after which a list is due for a refresh.
pub const UPDATE_HOURS: i64 = 4;

/// Why an operation on the store failed.
#[derive(Clone, Copy, Debug, PartialEq, Eq, Structural)]
pub enum Error {
    /// The file is there and could not be read.
    ReadFailure,
    /// The file could not be created, written or made durable.
    WriteFailure,
    /// What the file holds is no list of contacts.
    DecodeFailure,
}

/// What a read of the backing file gave.
#[derive(Debug)]
pub enum Stored {
    /// There is no file.
    Absent,
    /// The file is there and could not be read.
    Unreadable,
    /// The bytes that the file holds.
    Bytes(Vec<u8>),
}

/// The store of one process: the name of its file, and when it was set up.
pub struct BootstrapHandler {
    file_name: String,
    last_updated: Timestamp,
}

/// The list that a file image spells, if it spells one: the image must be
/// decodable, decode to a row of records, and each record must stand for a
/// contact.
pub open spec fn parsed(bytes: Seq<u8>) -> Option<Seq<Contact>> {
    if decodable(bytes) {
        match json_decoding(bytes) {
            Some(records) => contacts_of(records),
            None => None,
        }
    } else {
        None
    }
}

/// The bytes that a list is sent as: its records as compact JSON, repeats
/// included.
pub open spec fn serialised(list: Seq<Contact>) -> Seq<u8> {
    json_encoding(records_of(list))
}

/// The bytes that a list is kept as: the records of its first occurrences as
/// JSON with one item to a line.
pub open spec fn file_image(list: Seq<Contact>) -> Seq<u8> {
    json_pretty_encoding(records_of(first_occurrences(list)))
}

/// Whether `image` is read back as `list`: it is, unless it is longer than
/// [`MAX_IMAGE_LEN`], which takes a list of more than [`MAX_RECORDS`]
/// contacts.
pub open spec fn read_back(image: Seq<u8>, list: Seq<Contact>) -> bool {
    &&& parsed(image) == if image.len() <= MAX_IMAGE_LEN {
        Some(list)
    } else {
        None
    }
    &&& list.len() <= MAX_RECORDS ==> image.len() <= MAX_IMAGE_LEN
}

/// The list that a read gave, for a caller that wants to know of a failure:
/// no file is an empty list.
pub open spec fn persisted(stored: Stored) -> Result<Seq<Contact>, Error> {
    match stored {
        Stored::Absent => Ok(Seq::empty()),
        Stored::Unreadable => Err(Error::ReadFailure),
        Stored::Bytes(bytes) => match parsed(bytes@) {
            Some(list) => Ok(list),
            None => Err(Error::DecodeFailure),
        },
    }
}

/// The list that an update starts from: no file and a corrupt file are both
/// an empty list.
pub open spec fn working_list(stored: Stored) -> Seq<Contact> {
    match stored {
        Stored::Bytes(bytes) => match parsed(bytes@) {
            Some(list) => list,
            None => Seq::empty(),
        },
        _ => Seq::empty(),
    }
}

/// The name of the file of a program called `stem`.
pub open spec fn file_name_of(stem: Seq<char>) -> Seq<char> {
    "./"@ + stem + ".bootstrap.cache"@
}

/// The bytes that a list is sent as. [`parse_contacts`] reads the same list
/// back from them.
pub fn serialise_contacts(contacts: Contacts) -> (bytes: Vec<u8>)
    ensures
        bytes@ == serialised(contacts@),
        read_back(bytes@, contacts@),
        contacts@.len() <= MAX_RECORDS ==> parsed(bytes@) == Some(contacts@),
{
    let records = to_records(&contacts);
    proof {
        lemma_records_round_trip(contacts@);
    }
    encode_records(&records)
}

/// Reads a list from bytes; `None` where they spell none.
pub fn parse_contacts(buffer: Vec<u8>) -> (contacts: Option<Contacts>)
    ensures
        match contacts {
            Some(list) => parsed(buffer@) == Some(list@),
            None => parsed(buffer@) is None,
        },
{
    if !is_decodable(&buffer) {
        return None;
    }
    match decode_records(&buffer) {
        Some(records) => from_records(&records),
        None => None,
    }
}

impl BootstrapHandler {
    /// The name of the backing file.
    pub closed spec fn name(&self) -> Seq<char> {
        self.file_name@
    }

    /// When the store was set up.
    pub closed spec fn since(&self) -> Timestamp {
        self.last_updated
    }

    /// The name of the backing file.
    pub fn file_name(&self) -> (name: &String)
        ensures
            name@ == self.name(),
    {
        &self.file_name
    }

    /// When the store was set up.
    pub fn last_updated(&self) -> (then: Timestamp)
        ensures
            then == self.since(),
    {
        self.last_updated
    }

    /// The name of the file of a program called `stem`: in the working
    /// directory, with the extension `.bootstrap.cache`.
    pub fn get_file_name(stem: &str) -> (name: String)
        ensures
            name@ == file_name_of(stem@),
    {
        let mut name = String::new();
        name.append("./");
        name.append(stem);
        name.append(".bootstrap.cache");
        proof {
            assert(name@ =~= file_name_of(stem@));
        }
        name
    }

    /// A store for the program called `stem`, set up now.
    pub fn new(stem: &str) -> (handler: BootstrapHandler)
        ensures
            handler.name() == file_name_of(stem@),
    {
        BootstrapHandler::set_up(BootstrapHandler::get_file_name(stem), current_time())
    }

    /// A store on the file `file_name`, set up at `now`.
    pub fn set_up(file_name: String, now: Timestamp) -> (handler: BootstrapHandler)
        ensures
            handler.name() == file_name@,
            handler.since() == now,
    {
        BootstrapHandler { file_name, last_updated: now }
    }

    /// The seconds after which a list is due for a refresh: four hours.
    pub fn get_update_duration() -> (seconds: i64)
        ensures
            seconds == 14400,
    {
        hours_in_seconds(UPDATE_HOURS)
    }

    /// Whether at `now` more than the update duration has passed since the
    /// store was set up.
    pub fn is_update_due(&self, now: Timestamp) -> (due: bool)
        ensures
            due == is_after(now, self.since(), 14400),
    {
        after(now, self.last_updated, BootstrapHandler::get_update_duration())
    }

    /// Removes `prune` from the list, merges `contacts` into it, and hands
    /// back the bytes that replace the file.
    pub fn update_contacts(&mut self, stored: Stored, contacts: Contacts, prune: Contacts) -> (image:
        Result<Vec<u8>, Error>)
        ensures
            *final(self) == *old(self),
            match image {
                Ok(bytes) => {
                    &&& !(stored is Unreadable)
                    &&& bytes@ == file_image(
                        merged(working_list(stored), contacts@, prune@, MAX_CONTACTS as nat),
                    )
                    &&& read_back(
                        bytes@,
                        updated(working_list(stored), contacts@, prune@, MAX_CONTACTS as nat),
                    )
                },
                Err(e) => stored is Unreadable && e == Error::ReadFailure,
            },
    {
        self.insert_contacts(stored, contacts, prune)
    }

    /// The list that the file holds, as it stands there.
    pub fn read_bootstrap_file(&self, stored: Stored) -> (list: Result<Contacts, Error>)
        ensures
            match list {
                Ok(found) => persisted(stored) == Ok::<Seq<Contact>, Error>(found@),
                Err(e) => persisted(stored) == Err::<Seq<Contact>, Error>(e),
            },
    {
        match stored {
            Stored::Absent => Ok(Vec::new()),
            Stored::Unreadable => Err(Error::ReadFailure),
            Stored::Bytes(bytes) => match parse_contacts(bytes) {
                Some(found) => Ok(found),
                None => Err(Error::DecodeFailure),
            },
        }
    }

    /// The `n` oldest contacts that the file holds, oldest first.
    pub fn oldest_contacts(&mut self, stored: Stored, n: usize) -> (list: Result<Contacts, Error>)
        ensures
            *final(self) == *old(self),
            match list {
                Ok(found) => {
                    &&& persisted(stored) is Ok
                    &&& found@ == oldest_of(persisted(stored)->Ok_0, n as nat)
                    &&& n >= persisted(stored)->Ok_0.len() ==> found@ == persisted(
                        stored,
                    )->Ok_0.reverse()
                    &&& n == 0 ==> found@ == Seq::<Contact>::empty()
                },
                Err(e) => persisted(stored) == Err::<Seq<Contact>, Error>(e),
            },
    {
        match self.read_bootstrap_file(stored) {
            Ok(found) => Ok(oldest(&found, n)),
            Err(e) => Err(e),
        }
    }

    /// The bytes that `contacts` are kept as: repeats are left out, each
    /// contact staying where it first occurs.
    pub fn write_bootstrap_file(&mut self, contacts: Contacts) -> (image: Vec<u8>)
        ensures
            *final(self) == *old(self),
            image@ == file_image(contacts@),
            read_back(image@, first_occurrences(contacts@)),
    {
        let records = unique_records(to_records(&contacts));
        proof {
            lemma_records_first_occurrences(contacts@);
            lemma_records_round_trip(first_occurrences(contacts@));
        }
        encode_records_pretty(&records)
    }

    /// Removes `prune` from the list that the read gave, merges `contacts`
    /// into it, and hands back the bytes that replace the file. Neither a
    /// missing file nor a corrupt one is an error: both are an empty list.
    pub fn insert_contacts(&mut self, stored: Stored, contacts: Contacts, prune: Contacts) -> (image:
        Result<Vec<u8>, Error>)
        ensures
            *final(self) == *old(self),
            match image {
                Ok(bytes) => {
                    &&& !(stored is Unreadable)
                    &&& bytes@ == file_image(
                        merged(working_list(stored), contacts@, prune@, MAX_CONTACTS as nat),
                    )
                    &&& read_back(
                        bytes@,
                        updated(working_list(stored), contacts@, prune@, MAX_CONTACTS as nat),
                    )
                },
                Err(e) => stored is Unreadable && e == Error::ReadFailure,
            },
    {
        let list: Vec<Contact> = match stored {
            Stored::Absent => Vec::new(),
            Stored::Unreadable => {
                return Err(Error::ReadFailure);
            },
            Stored::Bytes(bytes) => match parse_contacts(bytes) {
                Some(found) => found,
                None => Vec::new(),
            },
        };
        let list = merge_contacts(list, contacts, &prune, MAX_CONTACTS);
        Ok(self.write_bootstrap_file(list))
    }

    /// The list that the file holds, as the bytes that it is sent as.
    pub fn get_serialised_contacts(&self, stored: Stored) -> (bytes: Result<Vec<u8>, Error>)
        ensures
            match bytes {
                Ok(sent) => {
                    &&& persisted(stored) is Ok
                    &&& sent@ == serialised(persisted(stored)->Ok_0)
                    &&& read_back(sent@, persisted(stored)->Ok_0)
                },
                Err(e) => persisted(stored) == Err::<Seq<Contact>, Error>(e),
            },
    {
        match self.read_bootstrap_file(stored) {
            Ok(found) => Ok(serialise_contacts(found)),
            Err(e) => Err(e),
        }
    }
}

} // verus!
