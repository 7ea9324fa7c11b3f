//! Text values and their codec.
//!
//! A [`String16`] is a text value written to a buffer as a length-prefixed
//! sequence of code units in the transport's native text encoding.  The
//! length field is a 32-bit signed count, so serialization rejects a value
//! whose encoded byte length exceeds [`MAX_TEXT_BYTES`] instead of
//! truncating it.  Zero-length text is a valid round-trip value.  The model
//! transport stores text values as well-formed strings, so the native side's
//! lossy down-conversion of malformed code-unit sequences (documented to
//! yield an empty value) has no occasion to fire here.

use vstd::prelude::*;
use vstd::utf8::encode_utf8;

use crate::parcel::{BorrowedMsgParcel, Deserialize, Serialize, ERR_FAILED};
use crate::transport::{Slot, SlotV, TransportV, Transport};

verus! {

/// Largest encoded byte length the transport's text length field can
/// represent (the field is a 32-bit signed count).
pub const MAX_TEXT_BYTES: usize = 0x7fff_ffff;

/// A text value exchanged through message buffers.
pub struct String16 {
    value: String,
}

impl View for String16 {
    type V = Seq<char>;

    closed spec fn view(&self) -> Seq<char> {
        self.value@
    }
}

impl String16 {
    /// A text value holding a copy of `value`.
    pub fn new(value: &str) -> (s: String16)
        ensures
            s@ == value@,
    {
        String16 { value: value.to_owned() }
    }

    /// The text this value holds.
    pub fn text(&self) -> (r: &str)
        ensures
            r@ == self@,
    {
        self.value.as_str()
    }
}

impl Serialize for String16 {
    /// Text embeds no native reference.
    open spec fn valid_for(&self, t: TransportV) -> bool {
        true
    }

    /// The encoded byte length must be representable in the length field.
    closed spec fn fits(&self) -> bool {
        encode_utf8(self.value@).len() <= MAX_TEXT_BYTES
    }

    closed spec fn as_slot(&self) -> SlotV {
        SlotV::Text(self.value@)
    }

    /// Writes the text with its length prefix; a value too long for the
    /// length field is rejected whole, leaving the buffer unchanged.
    fn serialize(&self, parcel: &mut BorrowedMsgParcel<'_>, t: &mut Transport) -> (r: Result<
        (),
        i32,
    >) {
        if self.value.as_str().as_bytes().len() > MAX_TEXT_BYTES {
            Err(ERR_FAILED)
        } else {
            t.buf_append(parcel.as_raw(), Slot::Text(self.value.clone()));
            Ok(())
        }
    }
}

impl Deserialize for String16 {
    /// The next slot must hold a text value.
    open spec fn read_ok(t: TransportV, b: int) -> bool {
        t.next_slot(b) matches Some(SlotV::Text(_))
    }

    /// The returned value holds exactly the code units the slot stores.
    closed spec fn is_read_result(&self, t: TransportV, b: int) -> bool {
        match t.next_slot(b) {
            Some(SlotV::Text(s)) => self.value@ == s,
            _ => false,
        }
    }

    /// Only the read position advances.
    open spec fn read_step(t: TransportV, b: int) -> TransportV {
        match t.next_slot(b) {
            Some(SlotV::Text(_)) => t.advance_step(b),
            _ => t,
        }
    }

    /// Receives the decoded code units from the native read primitive into a
    /// fresh container; fails, consuming nothing, when the next slot does
    /// not hold text.
    fn deserialize(parcel: &BorrowedMsgParcel<'_>, t: &mut Transport) -> (r: Result<Self, i32>) {
        match t.read_text(parcel.as_raw()) {
            Some(s) => Ok(String16 { value: s }),
            None => Err(ERR_FAILED),
        }
    }
}

/// Round trip: writing any text value whose encoding fits the length field
/// and reading at the written position yields the value unchanged — for
/// every length from zero up to the largest the length field can represent.
/// (A longer value never reaches the buffer: its serialization is rejected,
/// by the `fits` clause of [`Serialize::serialize`].)
pub proof fn lemma_text_round_trip(t0: TransportV, t1: TransportV, v: String16, b: int)
    requires
        t0.buf_ok(b),
        t0.buffers[b].read_pos == t0.buffers[b].slots.len(),
        t1 == t0.append_step(b, v.as_slot()),
    ensures
        String16::read_ok(t1, b),
        forall|w: String16| w.is_read_result(t1, b) ==> w@ == v@,
        String16::read_step(t1, b) == t1.advance_step(b),
{
    assert(t1.next_slot(b) == Some(SlotV::Text(v.value@)));
}

} // verus!
