//! A small, bounded, duplicate-free cache of network contacts, kept in one
//! file, from which a peer finds its way into an overlay network when it knows
//! no other peer.
//!
//! The library does no input or output. Its caller reads the backing file,
//! hands what the read gave to the library as a [`Stored`] value, and writes
//! the bytes that the library hands back. Everything between the two is
//! decided here: how a file image is told from a corrupt one, how new
//! contacts are merged into the list, what pruning removes, where the list
//! stops growing, and which contacts are the oldest.

pub mod contact;
pub mod list;
pub mod unique;
pub mod record;
pub mod json;
pub mod clock;
pub mod store;
pub mod update;

pub use crate::clock::Timestamp;
pub use crate::contact::{Contact, Contacts, Host, Transport};
pub use crate::store::{parse_contacts, serialise_contacts, BootstrapHandler, Error, Stored, MAX_CONTACTS};
