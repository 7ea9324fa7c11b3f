//! State model of the native messaging substrate.
//!
//! The native transport is a foreign, reference-counted object graph: peer
//! endpoints with strong counts, message buffers holding positional value
//! slots, and death-notification recipients whose callback storage the native
//! side frees when a recipient's last strong reference goes away.  This module
//! represents that substrate as an explicit state machine, [`Transport`],
//! whose operations are the substrate's documented primitive interface.  Each
//! primitive states exactly how it changes the abstract state
//! [`TransportV`], so the handle layers built on top can be verified against
//! the same contracts the native interface documents.
//!
//! Callback code itself cannot run inside the model: a recipient's user
//! callback is identified by the recipient's index, and the embedding program
//! maps indices back to real closures when it delivers a death notification
//! (see [`Transport::notify_targets`]).

use vstd::prelude::*;

verus! {

/// Abstract value of one buffer slot: a text value or a peer reference.
#[verifier::ext_equal]
pub enum SlotV {
    Text(Seq<char>),
    Object(int),
}

/// One value stored in a native message buffer: a text value, or a reference
/// to a peer endpoint identified by its index in the peer table.
pub enum Slot {
    Text(String),
    Object(usize),
}

impl View for Slot {
    type V = SlotV;

    open spec fn view(&self) -> SlotV {
        match self {
            Slot::Text(s) => SlotV::Text(s@),
            Slot::Object(i) => SlotV::Object(*i as int),
        }
    }
}

impl Slot {
    /// Copies a slot value, as the native side does when it fills a reply
    /// buffer from a peer's programmed reply.
    pub fn duplicate(&self) -> (r: Slot)
        ensures
            r@ == self@,
    {
        match self {
            Slot::Text(s) => Slot::Text(s.clone()),
            Slot::Object(i) => Slot::Object(*i),
        }
    }
}

/// Abstract value of a sequence of slots.
pub open spec fn slots_view(s: Seq<Slot>) -> Seq<SlotV> {
    s.map_values(|x: Slot| x@)
}

/// Abstract value of a sequence of indices.
pub open spec fn ints_view(s: Seq<usize>) -> Seq<int> {
    s.map_values(|x: usize| x as int)
}

/// Abstract state of one peer endpoint.
#[verifier::ext_equal]
pub struct PeerV {
    /// Strong reference count held on the peer.
    pub strong: int,
    /// Status code the peer's dispatch primitive returns; zero is success.
    pub dispatch_status: int,
    /// Values the peer writes into the reply buffer on a successful dispatch.
    pub reply: Seq<SlotV>,
}

/// One peer endpoint of the native transport.
struct PeerRec {
    strong: u64,
    dispatch_status: i32,
    reply: Vec<Slot>,
}

impl View for PeerRec {
    type V = PeerV;

    closed spec fn view(&self) -> PeerV {
        PeerV {
            strong: self.strong as int,
            dispatch_status: self.dispatch_status as int,
            reply: slots_view(self.reply@),
        }
    }
}

/// Abstract state of one native message buffer allocation.
#[verifier::ext_equal]
pub struct BufV {
    /// Values written into the buffer, in write order.
    pub slots: Seq<SlotV>,
    /// Index of the next slot a read primitive consumes.
    pub read_pos: int,
    /// False once the allocation has been released.
    pub alive: bool,
}

/// One native message buffer allocation.
struct BufferRec {
    slots: Vec<Slot>,
    read_pos: usize,
    alive: bool,
}

impl View for BufferRec {
    type V = BufV;

    closed spec fn view(&self) -> BufV {
        BufV { slots: slots_view(self.slots@), read_pos: self.read_pos as int, alive: self.alive }
    }
}

/// Abstract state of one death-notification recipient.
#[verifier::ext_equal]
pub struct RecipV {
    /// Strong reference count held on the recipient registration.
    pub strong: int,
    /// True once the native side has invoked the destroy hook and reclaimed
    /// the recipient's callback storage.  Set exactly when `strong` reaches
    /// zero, so the storage is freed once and never while still referenced.
    pub freed: bool,
}

/// One death-notification recipient registration.
struct RecipientRec {
    strong: u64,
    freed: bool,
}

impl View for RecipientRec {
    type V = RecipV;

    closed spec fn view(&self) -> RecipV {
        RecipV { strong: self.strong as int, freed: self.freed }
    }
}

/// Abstract state of the whole native transport.
#[verifier::ext_equal]
pub struct TransportV {
    pub peers: Seq<PeerV>,
    pub buffers: Seq<BufV>,
    pub recipients: Seq<RecipV>,
    /// Currently registered (peer, recipient) death-notification pairs.
    pub registrations: Seq<(int, int)>,
}

impl TransportV {
    /// A peer index that refers to a live peer.
    pub open spec fn peer_ok(self, i: int) -> bool {
        0 <= i < self.peers.len() && self.peers[i].strong >= 1
    }

    /// A buffer index that refers to a live allocation.
    pub open spec fn buf_ok(self, i: int) -> bool {
        0 <= i < self.buffers.len() && self.buffers[i].alive
    }

    /// A recipient index that refers to a live registration.
    pub open spec fn recip_ok(self, i: int) -> bool {
        0 <= i < self.recipients.len() && self.recipients[i].strong >= 1
    }

    /// The slot the next read primitive on buffer `i` consumes, if any.
    pub open spec fn next_slot(self, i: int) -> Option<SlotV> {
        if 0 <= i < self.buffers.len() && 0 <= self.buffers[i].read_pos
            < self.buffers[i].slots.len() {
            Some(self.buffers[i].slots[self.buffers[i].read_pos])
        } else {
            None
        }
    }

    pub open spec fn with_peer(self, i: int, p: PeerV) -> TransportV {
        TransportV { peers: self.peers.update(i, p), ..self }
    }

    pub open spec fn with_buf(self, i: int, b: BufV) -> TransportV {
        TransportV { buffers: self.buffers.update(i, b), ..self }
    }

    pub open spec fn with_recipient(self, i: int, r: RecipV) -> TransportV {
        TransportV { recipients: self.recipients.update(i, r), ..self }
    }

    /// A new peer comes into existence holding one strong reference, which
    /// the creator owns and may hand to a handle for adoption.
    pub open spec fn new_peer_step(self, status: int, reply: Seq<SlotV>) -> TransportV {
        TransportV {
            peers: self.peers.push(PeerV { strong: 1, dispatch_status: status, reply }),
            ..self
        }
    }

    /// One strong reference is taken on peer `i`.
    pub open spec fn inc_strong_step(self, i: int) -> TransportV {
        self.with_peer(i, PeerV { strong: self.peers[i].strong + 1, ..self.peers[i] })
    }

    /// One strong reference on peer `i` is released.
    pub open spec fn dec_strong_step(self, i: int) -> TransportV {
        self.with_peer(i, PeerV { strong: self.peers[i].strong - 1, ..self.peers[i] })
    }

    /// A fresh, empty buffer allocation is appended.
    pub open spec fn obtain_buf_step(self) -> TransportV {
        TransportV {
            buffers: self.buffers.push(
                BufV { slots: Seq::empty(), read_pos: 0, alive: true },
            ),
            ..self
        }
    }

    /// Buffer `i`'s allocation is released.
    pub open spec fn release_buf_step(self, i: int) -> TransportV {
        self.with_buf(i, BufV { alive: false, ..self.buffers[i] })
    }

    /// Value `s` is appended to buffer `i`.
    pub open spec fn append_step(self, i: int, s: SlotV) -> TransportV {
        self.with_buf(i, BufV { slots: self.buffers[i].slots.push(s), ..self.buffers[i] })
    }

    /// Buffer `i`'s read position advances over one consumed slot.
    pub open spec fn advance_step(self, i: int) -> TransportV {
        self.with_buf(i, BufV { read_pos: self.buffers[i].read_pos + 1, ..self.buffers[i] })
    }

    /// Peer `p` answers a successful dispatch by appending its programmed
    /// reply values to buffer `b`.
    pub open spec fn reply_step(self, p: int, b: int) -> TransportV {
        self.with_buf(b, BufV { slots: self.buffers[b].slots + self.peers[p].reply, ..self.buffers[b] })
    }

    /// A new recipient registration comes into existence: its callback
    /// storage is allocated and it holds one strong reference.
    pub open spec fn new_recipient_step(self) -> TransportV {
        TransportV {
            recipients: self.recipients.push(RecipV { strong: 1, freed: false }),
            ..self
        }
    }

    /// Recipient `r` is registered on peer `p`; the native side takes one
    /// strong reference on the recipient for the registration.
    pub open spec fn add_reg_step(self, p: int, r: int) -> TransportV {
        TransportV {
            registrations: self.registrations.push((p, r)),
            recipients: self.recipients.update(
                r,
                RecipV { strong: self.recipients[r].strong + 1, ..self.recipients[r] },
            ),
            ..self
        }
    }

    /// One strong reference on recipient `r` is released; when the last one
    /// goes, the native side invokes the destroy hook, which reclaims the
    /// callback storage (`freed` becomes true exactly then).
    pub open spec fn drop_recip_ref_step(self, r: int) -> TransportV {
        self.with_recipient(
            r,
            RecipV {
                strong: self.recipients[r].strong - 1,
                freed: self.recipients[r].freed || self.recipients[r].strong - 1 == 0,
            },
        )
    }

    /// The registration pair at index `k` (naming recipient `r`) is removed,
    /// and the strong reference it held on `r` is released.
    pub open spec fn remove_reg_step(self, k: int, r: int) -> TransportV {
        TransportV { registrations: self.registrations.remove(k), ..self }.drop_recip_ref_step(r)
    }
}

/// Whether a (peer `p`, recipient `r`) registration pair is present.
pub open spec fn has_reg(regs: Seq<(int, int)>, p: int, r: int) -> bool {
    exists|k: int| 0 <= k < regs.len() && regs[k] == (p, r)
}

/// Index of the first (peer `p`, recipient `r`) registration pair.
pub open spec fn first_reg(regs: Seq<(int, int)>, p: int, r: int) -> int
    decreases regs.len(),
{
    if regs.len() == 0 {
        0
    } else if regs.first() == (p, r) {
        0
    } else {
        1 + first_reg(regs.drop_first(), p, r)
    }
}

/// The recipients registered on peer `p`, in registration order: those whose
/// callbacks the native side invokes when `p`'s process dies.
pub open spec fn death_targets(regs: Seq<(int, int)>, p: int) -> Seq<int>
    decreases regs.len(),
{
    if regs.len() == 0 {
        Seq::empty()
    } else {
        let rest = death_targets(regs.drop_last(), p);
        if regs.last().0 == p {
            rest.push(regs.last().1)
        } else {
            rest
        }
    }
}

/// The native transport substrate, modeled as explicit state.
///
/// Peers, buffers and recipients are identified by their index in the
/// respective table; entries are never removed, so an index stays meaningful
/// for the whole history (a released buffer keeps its entry with `alive`
/// false, a destroyed recipient keeps its entry with `freed` true).
pub struct Transport {
    peers: Vec<PeerRec>,
    buffers: Vec<BufferRec>,
    recipients: Vec<RecipientRec>,
    registrations: Vec<(usize, usize)>,
}

impl View for Transport {
    type V = TransportV;

    closed spec fn view(&self) -> TransportV {
        TransportV {
            peers: self.peers@.map_values(|p: PeerRec| p@),
            buffers: self.buffers@.map_values(|b: BufferRec| b@),
            recipients: self.recipients@.map_values(|r: RecipientRec| r@),
            registrations: self.registrations@.map_values(|p: (usize, usize)| (p.0 as int, p.1 as int)),
        }
    }
}

impl Transport {
    /// A transport with no peers, no buffers and no recipients.
    pub fn new() -> (t: Transport)
        ensures
            t@.peers == Seq::<PeerV>::empty(),
            t@.buffers == Seq::<BufV>::empty(),
            t@.recipients == Seq::<RecipV>::empty(),
            t@.registrations == Seq::<(int, int)>::empty(),
    {
        let t = Transport {
            peers: Vec::new(),
            buffers: Vec::new(),
            recipients: Vec::new(),
            registrations: Vec::new(),
        };
        proof {
            assert(t@.peers =~= Seq::<PeerV>::empty());
            assert(t@.buffers =~= Seq::<BufV>::empty());
            assert(t@.recipients =~= Seq::<RecipV>::empty());
            assert(t@.registrations =~= Seq::<(int, int)>::empty());
        }
        t
    }

    /// Brings a new peer endpoint into existence, with the status its
    /// dispatch primitive will return and the values it will write into a
    /// reply buffer on success.  The returned index carries the one strong
    /// reference the new peer starts with.
    pub fn add_peer(&mut self, dispatch_status: i32, reply: Vec<Slot>) -> (id: usize)
        ensures
            final(self)@ == old(self)@.new_peer_step(dispatch_status as int, slots_view(reply@)),
            id as int == old(self)@.peers.len(),
    {
        let id = self.peers.len();
        self.peers.push(PeerRec { strong: 1, dispatch_status, reply });
        proof {
            assert(final(self)@ =~~= old(self)@.new_peer_step(
                dispatch_status as int,
                slots_view(reply@),
            ));
        }
        id
    }

    /// Takes one strong reference on a live peer.
    pub fn inc_strong(&mut self, id: usize)
        requires
            old(self)@.peer_ok(id as int),
            old(self)@.peers[id as int].strong < u64::MAX,
        ensures
            final(self)@ == old(self)@.inc_strong_step(id as int),
    {
        let p = &mut self.peers[id];
        p.strong = p.strong + 1;
        proof {
            assert(final(self)@ =~~= old(self)@.inc_strong_step(id as int));
        }
    }

    /// Releases one strong reference on a live peer.
    pub fn dec_strong(&mut self, id: usize)
        requires
            old(self)@.peer_ok(id as int),
        ensures
            final(self)@ == old(self)@.dec_strong_step(id as int),
    {
        let p = &mut self.peers[id];
        p.strong = p.strong - 1;
        proof {
            assert(final(self)@ =~~= old(self)@.dec_strong_step(id as int));
        }
    }

    /// Number of buffer allocations ever made (live and released).
    pub fn buffers_len(&self) -> (r: usize)
        ensures
            r as int == self@.buffers.len(),
    {
        self.buffers.len()
    }

    /// Strong reference count currently held on a peer, when the index names
    /// an entry of the peer table.
    pub fn peer_strong_count(&self, id: usize) -> (r: Option<u64>)
        ensures
            match r {
                Some(n) => id < self@.peers.len() && n as int == self@.peers[id as int].strong,
                None => id >= self@.peers.len(),
            },
    {
        if id < self.peers.len() {
            Some(self.peers[id].strong)
        } else {
            None
        }
    }

    /// Strong reference count and freed flag of a recipient, when the index
    /// names an entry of the recipient table.
    pub fn recipient_state(&self, id: usize) -> (r: Option<(u64, bool)>)
        ensures
            match r {
                Some(s) => id < self@.recipients.len()
                    && s.0 as int == self@.recipients[id as int].strong
                    && s.1 == self@.recipients[id as int].freed,
                None => id >= self@.recipients.len(),
            },
    {
        if id < self.recipients.len() {
            Some((self.recipients[id].strong, self.recipients[id].freed))
        } else {
            None
        }
    }

    /// Whether an index names a live peer.
    pub fn peer_alive(&self, id: usize) -> (r: bool)
        ensures
            r == self@.peer_ok(id as int),
    {
        id < self.peers.len() && self.peers[id].strong >= 1
    }

    /// Whether an index names a live buffer allocation.
    pub fn buffer_alive(&self, id: usize) -> (r: bool)
        ensures
            r == self@.buf_ok(id as int),
    {
        id < self.buffers.len() && self.buffers[id].alive
    }

    /// Allocates a fresh, empty message buffer and returns its index.
    pub fn obtain_buffer(&mut self) -> (id: usize)
        ensures
            final(self)@ == old(self)@.obtain_buf_step(),
            id as int == old(self)@.buffers.len(),
    {
        let id = self.buffers.len();
        self.buffers.push(BufferRec { slots: Vec::new(), read_pos: 0, alive: true });
        proof {
            assert(slots_view(Seq::<Slot>::empty()) =~= Seq::<SlotV>::empty());
            assert(final(self)@ =~~= old(self)@.obtain_buf_step());
        }
        id
    }

    /// Releases a live buffer allocation; its index stays dead afterwards.
    pub fn release_buffer(&mut self, id: usize)
        requires
            old(self)@.buf_ok(id as int),
        ensures
            final(self)@ == old(self)@.release_buf_step(id as int),
    {
        let b = &mut self.buffers[id];
        b.alive = false;
        proof {
            assert(final(self)@ =~~= old(self)@.release_buf_step(id as int));
        }
    }

    /// Appends one value to a live buffer.
    pub fn buf_append(&mut self, id: usize, slot: Slot)
        requires
            old(self)@.buf_ok(id as int),
        ensures
            final(self)@ == old(self)@.append_step(id as int, slot@),
    {
        let b = &mut self.buffers[id];
        b.slots.push(slot);
        proof {
            assert(final(self)@ =~~= old(self)@.append_step(id as int, slot@));
        }
    }

    /// Consumes the next slot of a live buffer when it is a text value:
    /// returns a copy of the text and advances the read position.  Returns
    /// nothing, and leaves the state unchanged, when no slot is left or the
    /// next slot is not text.
    pub fn read_text(&mut self, id: usize) -> (r: Option<String>)
        requires
            old(self)@.buf_ok(id as int),
        ensures
            match r {
                Some(s) => old(self)@.next_slot(id as int) == Some(SlotV::Text(s@))
                    && final(self)@ == old(self)@.advance_step(id as int),
                None => final(self)@ == old(self)@
                    && !(old(self)@.next_slot(id as int) matches Some(SlotV::Text(_))),
            },
    {
        let pos = self.buffers[id].read_pos;
        let n = self.buffers[id].slots.len();
        if pos < n {
            match &self.buffers[id].slots[pos] {
                Slot::Text(s) => {
                    let out = s.clone();
                    let b = &mut self.buffers[id];
                    b.read_pos = pos + 1;
                    proof {
                        assert(final(self)@ =~~= old(self)@.advance_step(id as int));
                    }
                    Some(out)
                },
                Slot::Object(_) => None,
            }
        } else {
            None
        }
    }

    /// Consumes the next slot of a live buffer when it is a reference to a
    /// live peer: takes a strong reference on that peer for the caller,
    /// advances the read position, and returns the peer's index.  Returns
    /// nothing, and leaves the state unchanged, when no slot is left, the
    /// next slot is not an object, the referenced peer is gone, or its
    /// reference count cannot grow further.
    pub fn read_object(&mut self, id: usize) -> (r: Option<usize>)
        requires
            old(self)@.buf_ok(id as int),
        ensures
            match r {
                Some(p) => {
                    &&& old(self)@.next_slot(id as int) == Some(SlotV::Object(p as int))
                    &&& old(self)@.peer_ok(p as int)
                    &&& old(self)@.peers[p as int].strong < u64::MAX
                    &&& final(self)@ == old(self)@.advance_step(id as int).inc_strong_step(p as int)
                },
                None => {
                    &&& final(self)@ == old(self)@
                    &&& match old(self)@.next_slot(id as int) {
                        Some(SlotV::Object(p)) => !old(self)@.peer_ok(p)
                            || old(self)@.peers[p].strong == u64::MAX,
                        _ => true,
                    }
                },
            },
    {
        let pos = self.buffers[id].read_pos;
        let n = self.buffers[id].slots.len();
        if pos < n {
            match &self.buffers[id].slots[pos] {
                Slot::Text(_) => None,
                Slot::Object(p) => {
                    let p = *p;
                    if p < self.peers.len() && self.peers[p].strong >= 1
                        && self.peers[p].strong < u64::MAX {
                        let b = &mut self.buffers[id];
                        b.read_pos = pos + 1;
                        let q = &mut self.peers[p];
                        q.strong = q.strong + 1;
                        proof {
                            assert(final(self)@ =~~= old(self)@.advance_step(id as int)
                                .inc_strong_step(p as int));
                        }
                        Some(p)
                    } else {
                        None
                    }
                },
            }
        } else {
            None
        }
    }

    /// The peer's dispatch primitive: carries a request buffer to a live
    /// peer and returns the peer's status code, blocking until the exchange
    /// is complete.  On a zero (success) status of a two-way call the peer
    /// appends its programmed reply values to the reply buffer; an async
    /// (one-way) call produces no reply, and on a non-zero status nothing
    /// changes either.  The request code and the request buffer's contents
    /// do not affect the modeled outcome.
    #[allow(unused_variables)]
    pub fn dispatch(&mut self, peer: usize, code: u32, data: usize, reply: usize, is_async: bool) -> (status: i32)
        requires
            old(self)@.peer_ok(peer as int),
            old(self)@.buf_ok(data as int),
            old(self)@.buf_ok(reply as int),
        ensures
            status as int == old(self)@.peers[peer as int].dispatch_status,
            status == 0 && !is_async ==> final(self)@ == old(self)@.reply_step(
                peer as int,
                reply as int,
            ),
            status != 0 || is_async ==> final(self)@ == old(self)@,
    {
        let status = self.peers[peer].dispatch_status;
        if status == 0 && !is_async {
            let n = self.peers[peer].reply.len();
            let mut i: usize = 0;
            while i < n
                invariant
                    i <= n,
                    peer < self@.peers.len(),
                    reply < self@.buffers.len(),
                    n == self@.peers[peer as int].reply.len(),
                    self@.peers == old(self)@.peers,
                    self@.recipients == old(self)@.recipients,
                    self@.registrations == old(self)@.registrations,
                    self@.buffers.len() == old(self)@.buffers.len(),
                    forall|j: int|
                        0 <= j < self@.buffers.len() && j != reply as int
                            ==> self@.buffers[j] == old(self)@.buffers[j],
                    self@.buffers[reply as int].read_pos
                        == old(self)@.buffers[reply as int].read_pos,
                    self@.buffers[reply as int].alive == old(self)@.buffers[reply as int].alive,
                    self@.buffers[reply as int].slots =~= old(self)@.buffers[reply as int].slots
                        + old(self)@.peers[peer as int].reply.take(i as int),
                decreases n - i,
            {
                let s = self.peers[peer].reply[i].duplicate();
                let ghost pre = self@;
                let b = &mut self.buffers[reply];
                b.slots.push(s);
                proof {
                    assert(s@ == old(self)@.peers[peer as int].reply[i as int]);
                    assert(self@.buffers[reply as int].slots
                        =~= pre.buffers[reply as int].slots.push(s@));
                    assert(self@.buffers[reply as int].slots
                        =~= old(self)@.buffers[reply as int].slots
                        + old(self)@.peers[peer as int].reply.take(i as int + 1));
                }
                i = i + 1;
            }
            proof {
                assert(old(self)@.peers[peer as int].reply.take(n as int) =~= old(
                    self,
                )@.peers[peer as int].reply);
                assert(final(self)@ =~~= old(self)@.reply_step(peer as int, reply as int));
            }
        }
        status
    }

    /// Creates a death-notification recipient: allocates its callback
    /// storage and hands the caller the one strong reference it starts with.
    pub fn create_recipient(&mut self) -> (id: usize)
        ensures
            final(self)@ == old(self)@.new_recipient_step(),
            id as int == old(self)@.recipients.len(),
    {
        let id = self.recipients.len();
        self.recipients.push(RecipientRec { strong: 1, freed: false });
        proof {
            assert(final(self)@ =~~= old(self)@.new_recipient_step());
        }
        id
    }

    /// Registers a recipient on a peer.  Succeeds, taking one strong
    /// reference on the recipient for the registration, exactly when the
    /// peer is live, the recipient is live, and the recipient's reference
    /// count can still grow; otherwise reports failure and changes nothing.
    pub fn add_registration(&mut self, peer: usize, recip: usize) -> (ok: bool)
        ensures
            ok <==> old(self)@.peer_ok(peer as int) && old(self)@.recip_ok(recip as int)
                && old(self)@.recipients[recip as int].strong < u64::MAX,
            ok ==> final(self)@ == old(self)@.add_reg_step(peer as int, recip as int),
            !ok ==> final(self)@ == old(self)@,
    {
        if peer < self.peers.len() && self.peers[peer].strong >= 1 && recip
            < self.recipients.len() && self.recipients[recip].strong >= 1
            && self.recipients[recip].strong < u64::MAX {
            self.registrations.push((peer, recip));
            let r = &mut self.recipients[recip];
            r.strong = r.strong + 1;
            proof {
                assert(final(self)@ =~~= old(self)@.add_reg_step(peer as int, recip as int));
            }
            true
        } else {
            false
        }
    }

    /// Releases one strong reference on a live recipient.  When the last
    /// reference goes, the native side invokes the recipient's destroy hook,
    /// which reclaims the callback storage exactly once.
    pub fn release_recipient(&mut self, id: usize)
        requires
            old(self)@.recip_ok(id as int),
        ensures
            final(self)@ == old(self)@.drop_recip_ref_step(id as int),
    {
        let r = &mut self.recipients[id];
        r.strong = r.strong - 1;
        if r.strong == 0 {
            r.freed = true;
        }
        proof {
            assert(final(self)@ =~~= old(self)@.drop_recip_ref_step(id as int));
        }
    }

    /// Deregisters a recipient from a peer.  Succeeds exactly when such a
    /// registration pair exists and the recipient entry can give up the
    /// strong reference the registration held; the first matching pair is
    /// removed.  Otherwise reports failure and changes nothing.  Removal
    /// does not recall a death notification already in flight.
    pub fn remove_registration(&mut self, peer: usize, recip: usize) -> (ok: bool)
        ensures
            ok <==> has_reg(old(self)@.registrations, peer as int, recip as int)
                && old(self)@.recip_ok(recip as int),
            ok ==> final(self)@ == old(self)@.remove_reg_step(
                first_reg(old(self)@.registrations, peer as int, recip as int),
                recip as int,
            ),
            !ok ==> final(self)@ == old(self)@,
    {
        if !(recip < self.recipients.len() && self.recipients[recip].strong >= 1) {
            return false;
        }
        let n = self.registrations.len();
        let mut k: usize = 0;
        while k < n
            invariant
                k <= n,
                n == self@.registrations.len(),
                self@ == old(self)@,
                recip < self@.recipients.len(),
                self@.recipients[recip as int].strong >= 1,
                forall|j: int|
                    0 <= j < k ==> self@.registrations[j] != (peer as int, recip as int),
            decreases n - k,
        {
            let pair = self.registrations[k];
            if pair.0 == peer && pair.1 == recip {
                proof {
                    lemma_first_reg(
                        self@.registrations,
                        peer as int,
                        recip as int,
                        k as int,
                    );
                }
                self.registrations.remove(k);
                let r = &mut self.recipients[recip];
                r.strong = r.strong - 1;
                if r.strong == 0 {
                    r.freed = true;
                }
                proof {
                    assert(final(self)@ =~~= old(self)@.remove_reg_step(
                        first_reg(old(self)@.registrations, peer as int, recip as int),
                        recip as int,
                    ));
                }
                return true;
            }
            k = k + 1;
        }
        proof {
            assert(!has_reg(self@.registrations, peer as int, recip as int));
        }
        false
    }

    /// The recipients registered on a peer, in registration order: the ones
    /// whose callbacks the native side invokes, on its own threads and at a
    /// time of its choosing, when that peer's process dies.  The embedding
    /// program maps each returned index to the user callback it keeps for
    /// that recipient.
    pub fn notify_targets(&self, peer: usize) -> (r: Vec<usize>)
        ensures
            ints_view(r@) == death_targets(self@.registrations, peer as int),
    {
        let n = self.registrations.len();
        let mut out: Vec<usize> = Vec::new();
        let mut k: usize = 0;
        while k < n
            invariant
                k <= n,
                n == self@.registrations.len(),
                ints_view(out@) =~= death_targets(
                    self@.registrations.take(k as int),
                    peer as int,
                ),
            decreases n - k,
        {
            let pair = self.registrations[k];
            proof {
                assert(self@.registrations.take(k as int + 1).drop_last()
                    =~= self@.registrations.take(k as int));
                assert(self@.registrations.take(k as int + 1).last()
                    == self@.registrations[k as int]);
            }
            if pair.0 == peer {
                let ghost prev = out@;
                out.push(pair.1);
                proof {
                    assert(ints_view(out@) =~= ints_view(prev).push(pair.1 as int));
                }
            }
            k = k + 1;
        }
        proof {
            assert(self@.registrations.take(n as int) =~= self@.registrations);
        }
        out
    }
}

/// The first matching registration pair is the one at the first index whose
/// entry matches.
pub proof fn lemma_first_reg(regs: Seq<(int, int)>, p: int, r: int, k: int)
    requires
        0 <= k < regs.len(),
        regs[k] == (p, r),
        forall|j: int| 0 <= j < k ==> regs[j] != (p, r),
    ensures
        first_reg(regs, p, r) == k,
        has_reg(regs, p, r),
    decreases k,
{
    if k == 0 {
        assert(regs.first() == (p, r));
    } else {
        assert(regs.first() != (p, r));
        lemma_first_reg(regs.drop_first(), p, r, k - 1);
    }
}

} // verus!
