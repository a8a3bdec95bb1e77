//! The file image: a row of records as JSON text.
//!
//! The text is written and read by `rustc_serialize`. A row of records is a
//! JSON list of lists of unsigned numbers, so a file image holds digits,
//! square brackets, commas and blanks, and nothing else. Text that holds
//! anything else, that nests its brackets deeper than [`MAX_NESTING`], or
//! that is longer than [`MAX_IMAGE_LEN`], is no file image, and is turned away
//! before the decoder sees it: the decoder descends once for each open
//! bracket, adds up exponents unchecked, and counts the items of a list in 32
//! bits.

use vstd::prelude::*;
use crate::record::Record;

verus! {

/// How deep a file image may nest its brackets.
pub const MAX_NESTING: usize = 16;

/// How long a file image may be, in bytes.
pub const MAX_IMAGE_LEN: usize = 0xffff_ffff;

/// A number of bytes that the text of one record stays below, separators and
/// line breaks included.
pub const RECORD_BYTES: usize = 128;

/// A number of records whose text stays within [`MAX_IMAGE_LEN`].
pub const MAX_RECORDS: usize = 33_554_431;

/// `[`
pub const OPEN: u8 = 0x5b;

/// `]`
pub const CLOSE: u8 = 0x5d;

/// `,`
pub const COMMA: u8 = 0x2c;

/// A decimal digit.
pub open spec fn is_digit(b: u8) -> bool {
    0x30 <= b <= 0x39
}

/// A space, a line feed, a tab or a carriage return.
pub open spec fn is_blank(b: u8) -> bool {
    b == 0x20 || b == 0x0a || b == 0x09 || b == 0x0d
}

/// A byte that may stand in a file image.
pub open spec fn is_image_byte(b: u8) -> bool {
    is_digit(b) || is_blank(b) || b == OPEN || b == CLOSE || b == COMMA
}

/// The number of brackets that `bytes` opens and does not close.
pub open spec fn depth(bytes: Seq<u8>) -> int
    decreases bytes.len(),
{
    if bytes.len() == 0 {
        0
    } else if bytes.last() == OPEN {
        depth(bytes.drop_last()) + 1
    } else if bytes.last() == CLOSE {
        depth(bytes.drop_last()) - 1
    } else {
        depth(bytes.drop_last())
    }
}

/// Whether `bytes` are made of image bytes only and at no point close a
/// bracket that is not open or hold more than [`MAX_NESTING`] open.
pub open spec fn well_nested(bytes: Seq<u8>) -> bool {
    &&& forall|i: int| 0 <= i < bytes.len() ==> is_image_byte(#[trigger] bytes[i])
    &&& forall|n: int| 0 <= n <= bytes.len() ==> 0 <= #[trigger] depth(bytes.take(n)) <= MAX_NESTING
}

/// Whether `bytes` may be handed to the decoder: well nested, and no longer
/// than [`MAX_IMAGE_LEN`].
pub open spec fn decodable(bytes: Seq<u8>) -> bool {
    bytes.len() <= MAX_IMAGE_LEN && well_nested(bytes)
}

/// Decides [`decodable`].
pub fn is_decodable(bytes: &Vec<u8>) -> (ok: bool)
    ensures
        ok == decodable(bytes@),
{
    if bytes.len() > MAX_IMAGE_LEN {
        return false;
    }
    let mut level: usize = 0;
    let mut i: usize = 0;
    proof {
        assert(bytes@.take(0) =~= Seq::<u8>::empty());
    }
    while i < bytes.len()
        invariant
            i <= bytes.len(),
            level <= MAX_NESTING,
            level == depth(bytes@.take(i as int)),
            forall|j: int| 0 <= j < i ==> is_image_byte(#[trigger] bytes@[j]),
            forall|n: int| 0 <= n <= i ==> 0 <= #[trigger] depth(bytes@.take(n)) <= MAX_NESTING,
        decreases bytes.len() - i,
    {
        let b = bytes[i];
        proof {
            assert(bytes@.take(i + 1).drop_last() =~= bytes@.take(i as int));
            assert(bytes@.take(i + 1).last() == b);
        }
        if b == OPEN {
            if level == MAX_NESTING {
                assert(depth(bytes@.take(i + 1)) > MAX_NESTING);
                return false;
            }
            level += 1;
        } else if b == CLOSE {
            if level == 0 {
                assert(depth(bytes@.take(i + 1)) < 0);
                return false;
            }
            level -= 1;
        } else if !(0x30 <= b && b <= 0x39 || b == COMMA || b == 0x20 || b == 0x0a || b == 0x09
            || b == 0x0d) {
            assert(!is_image_byte(bytes@[i as int]));
            return false;
        }
        i += 1;
    }
    true
}

/// The text that `rustc_serialize::json::encode` writes for a row of records.
pub uninterp spec fn json_encoding(records: Seq<Record>) -> Seq<u8>;

/// The text that `rustc_serialize::json::as_pretty_json` writes for a row of
/// records.
pub uninterp spec fn json_pretty_encoding(records: Seq<Record>) -> Seq<u8>;

/// The row of records that `rustc_serialize::json::decode` reads from a text,
/// if it reads one.
pub uninterp spec fn json_decoding(bytes: Seq<u8>) -> Option<Seq<Record>>;

/// Calls `rustc_serialize::json::encode` on a row of records and hands back
/// the bytes of its text.
///
/// Not proved, but taken from the encoder's source: the call does not fail on
/// a list of tuples of unsigned numbers (it fails only on a map key that is no
/// string, or where its writer fails, and it writes into a `String`); the text
/// is made of digits, commas and brackets that nest two deep; a record takes
/// at most 54 bytes of it; and the decoder reads the same records back from
/// it, as far as the decoder may be handed it.
#[verifier::external_body]
pub(crate) fn encode_records(records: &Vec<Record>) -> (bytes: Vec<u8>)
    ensures
        bytes@ == json_encoding(records@),
        well_nested(bytes@),
        bytes@.len() <= RECORD_BYTES * records@.len() + 8,
        bytes@.len() <= MAX_IMAGE_LEN ==> json_decoding(bytes@) == Some(records@),
{
    rustc_serialize::json::encode(records).unwrap().into_bytes()
}

/// Formats a row of records through `rustc_serialize::json::as_pretty_json`
/// and hands back the bytes of the text: the same JSON as
/// [`encode_records`] writes, with every item on a line of its own.
///
/// Not proved, but taken from the encoder's source: the text is made of
/// digits, commas, spaces, line feeds and brackets that nest two deep; a
/// record takes at most 85 bytes of it; and the decoder reads the same records
/// back from it, as far as the decoder may be handed it.
#[verifier::external_body]
pub(crate) fn encode_records_pretty(records: &Vec<Record>) -> (bytes: Vec<u8>)
    ensures
        bytes@ == json_pretty_encoding(records@),
        well_nested(bytes@),
        bytes@.len() <= RECORD_BYTES * records@.len() + 8,
        bytes@.len() <= MAX_IMAGE_LEN ==> json_decoding(bytes@) == Some(records@),
{
    format!("{}", rustc_serialize::json::as_pretty_json(records)).into_bytes()
}

/// Calls `rustc_serialize::json::decode` on the text that `bytes` spell and
/// hands back the row of records that it read, or `None` where it reported an
/// error.
///
/// The text must be decodable: on such text the decoder neither runs out of
/// stack nor overflows a counter.
#[verifier::external_body]
pub(crate) fn decode_records(bytes: &Vec<u8>) -> (records: Option<Vec<Record>>)
    requires
        decodable(bytes@),
    ensures
        match records {
            Some(found) => json_decoding(bytes@) == Some(found@),
            None => json_decoding(bytes@) is None,
        },
{
    match std::str::from_utf8(bytes) {
        Ok(text) => rustc_serialize::json::decode(text).ok(),
        Err(_) => None,
    }
}

} // verus!
