//! Remote-object handles and death-notification recipients.
//!
//! A [`RemoteObj`] wraps exactly one strong reference to a live peer
//! endpoint: adopting, cloning and releasing a handle each move the peer's
//! reference count by exactly one, so no handle ever leaks or double-releases
//! a reference.  A [`DeathRecipient`] owns one strong reference to a native
//! recipient registration whose callback storage the native side reclaims
//! exactly once, when the last reference goes away.

use vstd::prelude::*;

use crate::parcel::{BorrowedMsgParcel, Deserialize, MsgParcel, Serialize, ERR_FAILED};
use crate::transport::{first_reg, has_reg, lemma_first_reg, Slot, SlotV, Transport, TransportV};

verus! {

/// Handle to a remote peer endpoint, holding one strong reference on it.
///
/// The handle is immutable: it is created by adopting a reference
/// ([`RemoteObj::from_raw`]), duplicated by taking a fresh reference
/// ([`RemoteObj::clone_ref`]), and gives its reference back exactly once
/// ([`RemoteObj::release`]).
pub struct RemoteObj {
    id: usize,
}

impl RemoteObj {
    /// Index of the wrapped peer in the transport's peer table.
    pub closed spec fn id(&self) -> int {
        self.id as int
    }

    /// The handle refers to a live peer in `t`.
    pub open spec fn valid_in(&self, t: TransportV) -> bool {
        t.peer_ok(self.id())
    }

    /// Adopts a raw native peer reference, together with the one strong
    /// reference it carries.  Nothing is adopted when no reference is handed
    /// over or it does not name a live peer.
    pub fn from_raw(t: &Transport, obj: Option<usize>) -> (r: Option<RemoteObj>)
        ensures
            match r {
                Some(h) => obj matches Some(p) && h.id() == p as int && h.valid_in(t@),
                None => match obj {
                    Some(p) => !t@.peer_ok(p as int),
                    None => true,
                },
            },
    {
        match obj {
            Some(p) => {
                if t.peer_alive(p) {
                    Some(RemoteObj { id: p })
                } else {
                    None
                }
            },
            None => None,
        }
    }

    /// The raw peer index inside this wrapper.
    pub fn as_inner(&self) -> (r: usize)
        ensures
            r as int == self.id(),
    {
        self.id
    }

    /// Duplicates the handle: takes one fresh strong reference on the peer
    /// and returns an independent handle to the same peer identity.
    pub fn clone_ref(&self, t: &mut Transport) -> (r: RemoteObj)
        requires
            old(t)@.peer_ok(self.id()),
            old(t)@.peers[self.id()].strong < u64::MAX,
        ensures
            final(t)@ == old(t)@.inc_strong_step(self.id()),
            r.id() == self.id(),
    {
        t.inc_strong(self.id);
        RemoteObj { id: self.id }
    }

    /// Gives the handle's one strong reference back.  Each handle releases
    /// exactly this once, and never more.
    pub fn release(self, t: &mut Transport)
        requires
            old(t)@.peer_ok(self.id()),
        ensures
            final(t)@ == old(t)@.dec_strong_step(self.id()),
    {
        t.dec_strong(self.id);
    }

    /// Carries a request to the peer: allocates a fresh reply buffer,
    /// invokes the peer's dispatch primitive with the request code, the
    /// request buffer and the async flag, and blocks until the exchange
    /// completes.  On a zero status the reply buffer is returned holding
    /// exactly what the peer wrote, unread — everything on a two-way call,
    /// nothing on an async (one-way) one; on any other status that status is
    /// the error, unmapped, and the reply buffer is released again.
    pub fn send_request(&self, t: &mut Transport, code: u32, data: &MsgParcel, is_async: bool) -> (r:
        Result<MsgParcel, i32>)
        requires
            old(t)@.peer_ok(self.id()),
            old(t)@.buf_ok(data.id()),
        ensures
            old(t)@.peers[self.id()].dispatch_status == 0 ==> {
                &&& r matches Ok(reply)
                &&& reply.id() == old(t)@.buffers.len()
                &&& !is_async ==> final(t)@ == old(t)@.obtain_buf_step().reply_step(
                    self.id(),
                    old(t)@.buffers.len() as int,
                )
                &&& is_async ==> final(t)@ == old(t)@.obtain_buf_step()
                &&& final(t)@.buffers[reply.id()].slots == if is_async {
                    Seq::<SlotV>::empty()
                } else {
                    old(t)@.peers[self.id()].reply
                }
                &&& final(t)@.buffers[reply.id()].read_pos == 0
                &&& reply.valid(final(t)@)
            },
            old(t)@.peers[self.id()].dispatch_status != 0 ==> {
                &&& r matches Err(e)
                &&& e as int == old(t)@.peers[self.id()].dispatch_status
                &&& final(t)@ == old(t)@.obtain_buf_step().release_buf_step(
                    old(t)@.buffers.len() as int,
                )
            },
    {
        let reply = MsgParcel::new(t).unwrap();
        let status = t.dispatch(self.id, code, data.as_raw(), reply.as_raw(), is_async);
        if status == 0 {
            proof {
                if !is_async {
                    assert(t@.buffers[old(t)@.buffers.len() as int].slots
                        =~= old(t)@.peers[self.id()].reply);
                } else {
                    assert(t@.buffers[old(t)@.buffers.len() as int].slots
                        =~= Seq::<SlotV>::empty());
                }
            }
            Ok(reply)
        } else {
            reply.release(t);
            Err(status)
        }
    }

    /// Registers a death recipient on this peer, forwarding the native
    /// boolean outcome unchanged: true exactly when the peer and the
    /// recipient are both live and the native side could take its reference
    /// for the registration.
    pub fn add_death_recipient(&self, t: &mut Transport, recipient: &mut DeathRecipient) -> (ok:
        bool)
        ensures
            final(recipient).id() == old(recipient).id(),
            ok <==> old(t)@.peer_ok(self.id()) && old(t)@.recip_ok(old(recipient).id())
                && old(t)@.recipients[old(recipient).id()].strong < u64::MAX,
            ok ==> final(t)@ == old(t)@.add_reg_step(self.id(), old(recipient).id()),
            !ok ==> final(t)@ == old(t)@,
    {
        t.add_registration(self.id, recipient.id)
    }

    /// Removes a death-recipient registration from this peer, forwarding the
    /// native boolean outcome unchanged: true exactly when such a
    /// registration existed (the first matching one is removed).  A death
    /// notification already in flight on the native side is not recalled.
    pub fn remove_death_recipient(&self, t: &mut Transport, recipient: &mut DeathRecipient) -> (ok:
        bool)
        ensures
            final(recipient).id() == old(recipient).id(),
            ok <==> has_reg(old(t)@.registrations, self.id(), old(recipient).id())
                && old(t)@.recip_ok(old(recipient).id()),
            ok ==> final(t)@ == old(t)@.remove_reg_step(
                first_reg(old(t)@.registrations, self.id(), old(recipient).id()),
                old(recipient).id(),
            ),
            !ok ==> final(t)@ == old(t)@,
    {
        t.remove_registration(self.id, recipient.id)
    }
}

impl Serialize for RemoteObj {
    /// The peer the handle embeds must be live.
    open spec fn valid_for(&self, t: TransportV) -> bool {
        t.peer_ok(self.id())
    }

    /// A peer reference always fits: nothing is length-prefixed.
    open spec fn fits(&self) -> bool {
        true
    }

    open spec fn as_slot(&self) -> SlotV {
        SlotV::Object(self.id())
    }

    /// Writes the native reference into the buffer; the buffer records the
    /// peer's identity, and a later read takes its own reference on it.
    fn serialize(&self, parcel: &mut BorrowedMsgParcel<'_>, t: &mut Transport) -> (r: Result<
        (),
        i32,
    >) {
        t.buf_append(parcel.as_raw(), Slot::Object(self.id));
        Ok(())
    }
}

impl Deserialize for RemoteObj {
    /// The next slot holds a reference to a live peer whose count can grow.
    open spec fn read_ok(t: TransportV, b: int) -> bool {
        match t.next_slot(b) {
            Some(SlotV::Object(p)) => t.peer_ok(p) && t.peers[p].strong < u64::MAX,
            _ => false,
        }
    }

    /// The returned handle wraps exactly the peer the slot names.
    open spec fn is_read_result(&self, t: TransportV, b: int) -> bool {
        match t.next_slot(b) {
            Some(SlotV::Object(p)) => self.id() == p,
            _ => false,
        }
    }

    /// The read position advances and the returned handle's fresh strong
    /// reference is taken on the peer.
    open spec fn read_step(t: TransportV, b: int) -> TransportV {
        match t.next_slot(b) {
            Some(SlotV::Object(p)) => t.advance_step(b).inc_strong_step(p),
            _ => t,
        }
    }

    /// Adopts the reference the native read primitive took; fails, adopting
    /// nothing, when the native side answers with no object.
    fn deserialize(parcel: &BorrowedMsgParcel<'_>, t: &mut Transport) -> (r: Result<Self, i32>) {
        match t.read_object(parcel.as_raw()) {
            Some(p) => Ok(RemoteObj { id: p }),
            None => Err(ERR_FAILED),
        }
    }
}

/// Owner of one strong reference to a native death-notification recipient.
///
/// The native side allocates the recipient's callback storage at creation
/// and reclaims it through its destroy hook exactly once, when the last
/// strong reference goes away — possibly later than [`DeathRecipient::release`],
/// since registrations hold their own references.  The user callback runs
/// outside the model: the embedding program keeps it under the recipient's
/// index and invokes it for each index [`Transport::notify_targets`] names.
pub struct DeathRecipient {
    id: usize,
}

impl DeathRecipient {
    /// Index of the recipient in the transport's recipient table.
    pub closed spec fn id(&self) -> int {
        self.id as int
    }

    /// The recipient still holds a strong reference in `t`.
    pub open spec fn valid_in(&self, t: TransportV) -> bool {
        t.recip_ok(self.id())
    }

    /// Creates a recipient: the native side allocates its callback storage
    /// and the new handle owns the one strong reference it starts with.  The
    /// model's allocator does not fail, so a recipient is always returned.
    pub fn new(t: &mut Transport) -> (r: Option<DeathRecipient>)
        ensures
            match r {
                Some(d) => {
                    &&& d.id() == old(t)@.recipients.len()
                    &&& final(t)@ == old(t)@.new_recipient_step()
                    &&& d.valid_in(final(t)@)
                },
                None => false,
            },
    {
        let id = t.create_recipient();
        Some(DeathRecipient { id })
    }

    /// The raw recipient index inside this wrapper.
    pub fn as_raw(&self) -> (r: usize)
        ensures
            r as int == self.id(),
    {
        self.id
    }

    /// Gives the handle's one strong reference back.  The native side frees
    /// the callback storage only when this was the last reference; a
    /// registration still holding one keeps the storage alive.
    pub fn release(self, t: &mut Transport)
        requires
            old(t)@.recip_ok(self.id()),
        ensures
            final(t)@ == old(t)@.drop_recip_ref_step(self.id()),
    {
        t.release_recipient(self.id);
    }
}

/// Round trip for remote-object values: writing a handle's peer reference
/// and reading at the written position yields a handle to the same peer
/// identity, carrying a fresh strong reference taken for it, whenever the
/// peer is still live and its count can grow.
pub proof fn lemma_object_round_trip(t0: TransportV, t1: TransportV, v: RemoteObj, b: int)
    requires
        t0.buf_ok(b),
        t0.buffers[b].read_pos == t0.buffers[b].slots.len(),
        v.valid_in(t0),
        t0.peers[v.id()].strong < u64::MAX,
        t1 == t0.append_step(b, v.as_slot()),
    ensures
        RemoteObj::read_ok(t1, b),
        forall|w: RemoteObj| w.is_read_result(t1, b) ==> w.id() == v.id(),
        RemoteObj::read_step(t1, b) == t1.advance_step(b).inc_strong_step(v.id()),
        RemoteObj::read_step(t1, b).peers[v.id()].strong == t0.peers[v.id()].strong + 1,
{
    assert(t1.next_slot(b) == Some(SlotV::Object(v.id())));
}

/// Cloning a handle and then releasing the clone returns the peer's strong
/// count to its prior value and leaves the whole transport state exactly as
/// it was: the original handle is as usable as before.
pub proof fn lemma_clone_then_release_restores(
    t0: TransportV,
    t1: TransportV,
    t2: TransportV,
    p: int,
)
    requires
        0 <= p < t0.peers.len(),
        t1 == t0.inc_strong_step(p),
        t2 == t1.dec_strong_step(p),
    ensures
        t2 == t0,
        t2.peers[p].strong == t0.peers[p].strong,
{
    assert(t2 =~~= t0);
}

/// Creating a recipient, registering it on a peer, removing the
/// registration with no death event delivered, and then releasing the
/// handle's reference frees the callback storage exactly once, at the final
/// release and never before: the destroy hook does not fire while the
/// registration or the handle still holds a reference, no storage is freed
/// twice, and none is leaked.
pub proof fn lemma_register_remove_release_frees_once(
    t0: TransportV,
    t1: TransportV,
    t2: TransportV,
    t3: TransportV,
    t4: TransportV,
    p: int,
    r: int,
)
    requires
        r == t0.recipients.len(),
        !has_reg(t0.registrations, p, r),
        t1 == t0.new_recipient_step(),
        t2 == t1.add_reg_step(p, r),
        t3 == t2.remove_reg_step(first_reg(t2.registrations, p, r), r),
        t4 == t3.drop_recip_ref_step(r),
    ensures
        t1.recipients[r].strong == 1 && !t1.recipients[r].freed,
        t2.recipients[r].strong == 2 && !t2.recipients[r].freed,
        t3.recipients[r].strong == 1 && !t3.recipients[r].freed,
        t4.recipients[r].strong == 0 && t4.recipients[r].freed,
        t4.registrations == t0.registrations,
        t4.peers == t0.peers,
        t4.buffers == t0.buffers,
{
    assert(t2.registrations[t0.registrations.len() as int] == (p, r));
    assert forall|j: int| 0 <= j < t0.registrations.len() implies t2.registrations[j] != (
        p,
        r,
    ) by {
        assert(t2.registrations[j] == t0.registrations[j]);
    }
    lemma_first_reg(t2.registrations, p, r, t0.registrations.len() as int);
    assert(t3.registrations =~= t0.registrations);
}

/// Release and destruction are independent events: when the handle's
/// reference is released while a registration still holds one, the callback
/// storage stays valid — the destroy hook fires only when the registration
/// too lets go, and the storage is reclaimed exactly once, then.
pub proof fn lemma_release_before_remove_frees_once(
    t0: TransportV,
    t1: TransportV,
    t2: TransportV,
    t3: TransportV,
    t4: TransportV,
    p: int,
    r: int,
)
    requires
        r == t0.recipients.len(),
        !has_reg(t0.registrations, p, r),
        t1 == t0.new_recipient_step(),
        t2 == t1.add_reg_step(p, r),
        t3 == t2.drop_recip_ref_step(r),
        t4 == t3.remove_reg_step(first_reg(t3.registrations, p, r), r),
    ensures
        t2.recipients[r].strong == 2 && !t2.recipients[r].freed,
        t3.recipients[r].strong == 1 && !t3.recipients[r].freed,
        t4.recipients[r].strong == 0 && t4.recipients[r].freed,
        t4.registrations == t0.registrations,
{
    assert(t3.registrations == t2.registrations);
    assert(t3.registrations[t0.registrations.len() as int] == (p, r));
    assert forall|j: int| 0 <= j < t0.registrations.len() implies t3.registrations[j] != (
        p,
        r,
    ) by {
        assert(t3.registrations[j] == t0.registrations[j]);
    }
    lemma_first_reg(t3.registrations, p, r, t0.registrations.len() as int);
    assert(t4.registrations =~= t0.registrations);
}

} // verus!
