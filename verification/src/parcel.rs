//! Message buffers (parcels) and the typed serialization protocol.
//!
//! A [`MsgParcel`] exclusively owns one native buffer allocation and releases
//! it exactly once.  A [`BorrowedMsgParcel`] is a non-owning view used by the
//! read and write entry points; it never releases anything.  Values go in and
//! out through the [`Serialize`] and [`Deserialize`] traits: the protocol is
//! positional and untagged, so callers must read values in the order, and
//! with the types, they were written.

use std::marker::PhantomData;
use vstd::prelude::*;

use crate::transport::{SlotV, Transport, TransportV};

verus! {

/// Sentinel failure code of this layer, returned when a native primitive
/// reports failure or a value cannot be represented.  Native status codes
/// share the same signed domain, so a caller cannot tell a native rejection
/// from a local encoding failure; that limitation is kept as documented
/// behavior of the protocol.
pub const ERR_FAILED: i32 = -1;

/// A value type that can be written into a message buffer.
pub trait Serialize {
    /// Whether every native reference the value embeds is live in `t`.
    spec fn valid_for(&self, t: TransportV) -> bool;

    /// Whether the value's encoding can be represented in the transport's
    /// length field.
    spec fn fits(&self) -> bool;

    /// The slot value this value encodes to.
    spec fn as_slot(&self) -> SlotV;

    /// Appends the value's encoding to the buffer.  A value whose encoding
    /// cannot be represented is rejected with [`ERR_FAILED`], and the buffer
    /// is left unchanged rather than truncated or corrupted.
    fn serialize(&self, parcel: &mut BorrowedMsgParcel<'_>, t: &mut Transport) -> (r: Result<
        (),
        i32,
    >)
        requires
            old(t)@.buf_ok(old(parcel).id()),
            self.valid_for(old(t)@),
        ensures
            final(parcel).id() == old(parcel).id(),
            r is Ok <==> self.fits(),
            r is Ok ==> final(t)@ == old(t)@.append_step(old(parcel).id(), self.as_slot()),
            r is Err ==> final(t)@ == old(t)@ && r == Err::<(), i32>(ERR_FAILED),
    ;
}

/// A value type that can be read back out of a message buffer.
pub trait Deserialize: Sized {
    /// Whether a read of this type succeeds at buffer `b`'s current read
    /// position in state `t`.
    spec fn read_ok(t: TransportV, b: int) -> bool;

    /// Whether `self` is the value such a read returns.
    spec fn is_read_result(&self, t: TransportV, b: int) -> bool;

    /// The transport state after a successful read (the read position
    /// advances; an object read also takes a reference for the caller).
    spec fn read_step(t: TransportV, b: int) -> TransportV;

    /// Consumes the next value of the buffer.  Fails with [`ERR_FAILED`],
    /// leaving the state unchanged, when the next slot does not hold a value
    /// of this type.
    fn deserialize(parcel: &BorrowedMsgParcel<'_>, t: &mut Transport) -> (r: Result<Self, i32>)
        requires
            old(t)@.buf_ok(parcel.id()),
        ensures
            r is Ok <==> Self::read_ok(old(t)@, parcel.id()),
            r matches Ok(v) ==> v.is_read_result(old(t)@, parcel.id()) && final(t)@
                == Self::read_step(old(t)@, parcel.id()),
            r is Err ==> final(t)@ == old(t)@ && r == Err::<Self, i32>(ERR_FAILED),
    ;
}

/// Exclusive owner of one native message buffer allocation.
///
/// The handle is created over a fresh allocation ([`MsgParcel::new`]) or by
/// adopting a transferred one ([`MsgParcel::from_raw`]), and gives the
/// allocation up exactly once: either by releasing it ([`MsgParcel::release`])
/// or by transferring it back out ([`MsgParcel::into_raw`]).
pub struct MsgParcel {
    id: usize,
}

/// Non-owning view of a message buffer, scoped to a borrow of the owner (or
/// of another view).  It reads and writes the buffer but never releases it.
pub struct BorrowedMsgParcel<'a> {
    id: usize,
    _mark: PhantomData<&'a MsgParcel>,
}

impl MsgParcel {
    /// Index of the owned buffer in the transport's buffer table.
    pub closed spec fn id(&self) -> int {
        self.id as int
    }

    /// The handle refers to a live allocation in `t`.
    pub open spec fn valid(&self, t: TransportV) -> bool {
        t.buf_ok(self.id())
    }

    /// Requests a fresh buffer from the transport.  The model's allocator
    /// does not fail, so a buffer is always returned; it is empty, live, and
    /// owned by the new handle alone.
    pub fn new(t: &mut Transport) -> (r: Option<MsgParcel>)
        ensures
            match r {
                Some(p) => {
                    &&& final(t)@ == old(t)@.obtain_buf_step()
                    &&& p.id() == old(t)@.buffers.len()
                    &&& p.valid(final(t)@)
                },
                None => false,
            },
    {
        let id = t.obtain_buffer();
        Some(MsgParcel { id })
    }

    /// Adopts ownership of a buffer transferred from elsewhere.  Returns
    /// nothing when no buffer is handed over or the index does not name a
    /// live allocation; the caller must not use the raw index again through
    /// any other path.
    pub fn from_raw(t: &Transport, ptr: Option<usize>) -> (r: Option<MsgParcel>)
        ensures
            match r {
                Some(p) => ptr matches Some(b) && p.id() == b as int && p.valid(t@),
                None => match ptr {
                    Some(b) => !t@.buf_ok(b as int),
                    None => true,
                },
            },
    {
        match ptr {
            Some(b) => {
                if t.buffer_alive(b) {
                    Some(MsgParcel { id: b })
                } else {
                    None
                }
            },
            None => None,
        }
    }

    /// Releases Rust-level ownership without releasing the allocation, and
    /// hands the raw buffer index back to the caller, who must pair it with
    /// an eventual release.
    pub fn into_raw(self) -> (r: usize)
        ensures
            r as int == self.id(),
    {
        self.id
    }

    /// Gives the owned allocation back to the transport.  The buffer must
    /// still be live — the owner only ever releases it this once.
    pub fn release(self, t: &mut Transport)
        requires
            old(t)@.buf_ok(self.id()),
        ensures
            final(t)@ == old(t)@.release_buf_step(self.id()),
    {
        t.release_buffer(self.id);
    }

    /// The raw buffer index this parcel owns, without giving ownership up.
    pub fn as_raw(&self) -> (r: usize)
        ensures
            r as int == self.id(),
    {
        self.id
    }

    /// Exclusive view into the contents of this parcel, used for writes.
    pub fn borrowed(&mut self) -> (b: BorrowedMsgParcel<'_>)
        ensures
            b.id() == old(self).id(),
            final(self).id() == old(self).id(),
    {
        BorrowedMsgParcel { id: self.id, _mark: PhantomData }
    }

    /// Shared view into the contents of this parcel, used for reads.  The
    /// view is a genuine value built from the owner's buffer index, not a
    /// reinterpretation of the owner.
    pub fn borrowed_ref(&self) -> (b: BorrowedMsgParcel<'_>)
        ensures
            b.id() == self.id(),
    {
        BorrowedMsgParcel { id: self.id, _mark: PhantomData }
    }

    /// Reads the next value of type `D` out of the owned buffer.
    pub fn read<D: Deserialize>(&self, t: &mut Transport) -> (r: Result<D, i32>)
        requires
            old(t)@.buf_ok(self.id()),
        ensures
            r is Ok <==> D::read_ok(old(t)@, self.id()),
            r matches Ok(v) ==> v.is_read_result(old(t)@, self.id()) && final(t)@
                == D::read_step(old(t)@, self.id()),
            r is Err ==> final(t)@ == old(t)@ && r == Err::<D, i32>(ERR_FAILED),
    {
        let b = self.borrowed_ref();
        D::deserialize(&b, t)
    }

    /// Writes a value into the owned buffer.
    pub fn write<S: Serialize>(&mut self, t: &mut Transport, value: &S) -> (r: Result<(), i32>)
        requires
            old(t)@.buf_ok(old(self).id()),
            value.valid_for(old(t)@),
        ensures
            final(self).id() == old(self).id(),
            r is Ok <==> value.fits(),
            r is Ok ==> final(t)@ == old(t)@.append_step(old(self).id(), value.as_slot()),
            r is Err ==> final(t)@ == old(t)@ && r == Err::<(), i32>(ERR_FAILED),
    {
        let mut b = self.borrowed();
        value.serialize(&mut b, t)
    }
}

impl<'a> BorrowedMsgParcel<'a> {
    /// Index of the viewed buffer in the transport's buffer table.
    pub closed spec fn id(&self) -> int {
        self.id as int
    }

    /// The view refers to a live allocation in `t`.
    pub open spec fn valid(&self, t: TransportV) -> bool {
        t.buf_ok(self.id())
    }

    /// A non-owning view over a raw buffer index.  Returns nothing when no
    /// buffer is handed over or the index does not name a live allocation.
    pub fn from_raw(t: &Transport, ptr: Option<usize>) -> (r: Option<BorrowedMsgParcel<'a>>)
        ensures
            match r {
                Some(v) => ptr matches Some(b) && v.id() == b as int && v.valid(t@),
                None => match ptr {
                    Some(b) => !t@.buf_ok(b as int),
                    None => true,
                },
            },
    {
        match ptr {
            Some(b) => {
                if t.buffer_alive(b) {
                    Some(BorrowedMsgParcel { id: b, _mark: PhantomData })
                } else {
                    None
                }
            },
            None => None,
        }
    }

    /// A shorter-lived sub-view of this view, for passing into nested codec
    /// calls without giving up the original borrow.
    pub fn reborrow(&mut self) -> (b: BorrowedMsgParcel<'_>)
        ensures
            b.id() == old(self).id(),
            final(self).id() == old(self).id(),
    {
        BorrowedMsgParcel { id: self.id, _mark: PhantomData }
    }

    /// The raw buffer index this view refers to.
    pub fn as_raw(&self) -> (r: usize)
        ensures
            r as int == self.id(),
    {
        self.id
    }

    /// Reads the next value of type `D` out of the viewed buffer.
    pub fn read<D: Deserialize>(&self, t: &mut Transport) -> (r: Result<D, i32>)
        requires
            old(t)@.buf_ok(self.id()),
        ensures
            r is Ok <==> D::read_ok(old(t)@, self.id()),
            r matches Ok(v) ==> v.is_read_result(old(t)@, self.id()) && final(t)@
                == D::read_step(old(t)@, self.id()),
            r is Err ==> final(t)@ == old(t)@ && r == Err::<D, i32>(ERR_FAILED),
    {
        D::deserialize(self, t)
    }

    /// Writes a value into the viewed buffer.
    pub fn write<S: Serialize>(&mut self, t: &mut Transport, value: &S) -> (r: Result<(), i32>)
        requires
            old(t)@.buf_ok(old(self).id()),
            value.valid_for(old(t)@),
        ensures
            final(self).id() == old(self).id(),
            r is Ok <==> value.fits(),
            r is Ok ==> final(t)@ == old(t)@.append_step(old(self).id(), value.as_slot()),
            r is Err ==> final(t)@ == old(t)@ && r == Err::<(), i32>(ERR_FAILED),
    {
        value.serialize(self, t)
    }
}

/// Allocating a fresh buffer and releasing it right away releases exactly
/// that one allocation: the buffer table grows by the one entry, now dead,
/// and no other buffer, peer or recipient is touched — no leak and no double
/// release, even with no reads or writes in between.
pub proof fn lemma_new_then_release_frees_one(t0: TransportV, t1: TransportV, t2: TransportV, b: int)
    requires
        b == t0.buffers.len(),
        t1 == t0.obtain_buf_step(),
        t2 == t1.release_buf_step(b),
    ensures
        t2.buffers.len() == t0.buffers.len() + 1,
        !t2.buffers[b].alive,
        forall|j: int| 0 <= j < t0.buffers.len() ==> t2.buffers[j] == t0.buffers[j],
        t2.peers == t0.peers,
        t2.recipients == t0.recipients,
        t2.registrations == t0.registrations,
{
}

} // verus!
