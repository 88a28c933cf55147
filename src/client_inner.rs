use crate::command::Command;
use crate::ethernet::{
    build_frame, ethertype_of, frame_bytes, frame_ethertype, frame_payload, frame_src_addr,
    is_master_addr, master_addr, payload_of, src_addr_of, ETHERCAT_ETHERTYPE, ETHERNET_HEADER_LEN,
};
use crate::pdu::{parse_pdu, pdu_bytes, ParseError, Pdu, PduView, MAX_PDU_DATA_LEN};
use vstd::prelude::*;

verus! {

/// Progress of the request held in a frame slot.
#[derive(Copy, Clone, Debug, PartialEq, Eq, Structural)]
pub enum RequestState {
    /// Stored, not yet handed to the transport.
    Created,
    /// Handed to the transport, awaiting its response.
    Waiting,
    /// The response has arrived and is held in the slot.
    Done,
}

/// Why a request did not produce a response.
#[derive(Copy, Clone, Debug, PartialEq, Eq, Structural)]
pub enum PduError {
    /// The slot that the next index names is still occupied.
    IndexInUse,
    /// The data is longer than a slot holds.
    TooLong,
    /// No response arrived in time.
    Timeout,
}

/// What became of a received frame.
#[derive(Copy, Clone, Debug, PartialEq, Eq, Structural)]
pub enum Dispatch {
    /// Not a fieldbus frame, or one that the master sent itself.
    Ignored,
    /// A fieldbus frame whose PDU could not be decoded.
    Malformed(ParseError),
    /// No request awaits a response with this index.
    NoWaitingFrame,
    /// The response does not answer the request held under its index.
    Mismatch,
    /// The response was stored in slot `index`; `wake` tells whether a
    /// continuation was registered for it, and it has been cleared.
    Completed { index: u8, wake: bool },
}

/// A frame slot as a mathematical value.
pub type SlotView = Option<(RequestState, PduView)>;

pub open spec fn slot_view(s: Option<(RequestState, Pdu)>) -> SlotView {
    match s {
        Some((st, p)) => Some((st, p@)),
        None => None,
    }
}

/// Whether a slot holds a request that no response has answered yet.
pub open spec fn is_awaiting(s: SlotView) -> bool {
    s is Some && s->Some_0.0 != RequestState::Done
}

/// Whether a slot holds a request that the transport has not taken yet.
pub open spec fn is_created(s: SlotView) -> bool {
    s is Some && s->Some_0.0 == RequestState::Created
}

/// Whether a slot holds a completed request.
pub open spec fn is_done(s: SlotView) -> bool {
    s is Some && s->Some_0.0 == RequestState::Done
}

/// The number of occupied slots.
pub open spec fn occupied(s: Seq<SlotView>) -> nat
    decreases s.len(),
{
    if s.len() == 0 {
        0
    } else {
        occupied(s.drop_last()) + if s.last() is Some {
            1nat
        } else {
            0nat
        }
    }
}

/// The frame slot table shared by the command callers and the transport: a
/// fixed array of slots, the flags of the continuations registered per slot,
/// the flag of the transmit continuation and the wrapping index counter.
pub struct ClientInternals<const MAX_FRAMES: usize, const MAX_PDU_DATA: usize> {
    wakers: Vec<bool>,
    frames: Vec<Option<(RequestState, Pdu)>>,
    send_waker: bool,
    idx: u8,
}

impl<const MAX_FRAMES: usize, const MAX_PDU_DATA: usize> ClientInternals<MAX_FRAMES, MAX_PDU_DATA> {
    /// The slots, as values.
    pub closed spec fn slots(&self) -> Seq<SlotView> {
        self.frames@.map_values(|s: Option<(RequestState, Pdu)>| slot_view(s))
    }

    /// For each slot, whether a continuation awaits its completion.
    pub closed spec fn waiting(&self) -> Seq<bool> {
        self.wakers@
    }

    /// Whether the transmit path has registered its continuation.
    pub closed spec fn send_waker_set(&self) -> bool {
        self.send_waker
    }

    /// The index counter: the slot offered to the next request. It wraps at
    /// the table's capacity.
    pub closed spec fn counter(&self) -> u8 {
        self.idx
    }

    /// The slot that the next request is offered.
    pub open spec fn next_index(&self) -> int {
        self.counter() as int
    }

    /// The table's invariant: one slot per index, each request stored under
    /// its own index with data that fits a slot.
    pub open spec fn wf(&self) -> bool {
        &&& 0 < MAX_FRAMES <= 255
        &&& (self.counter() as int) < MAX_FRAMES
        &&& MAX_PDU_DATA <= MAX_PDU_DATA_LEN
        &&& self.slots().len() == MAX_FRAMES
        &&& self.waiting().len() == MAX_FRAMES
        &&& forall|i: int|
            0 <= i < MAX_FRAMES && #[trigger] self.slots()[i] is Some ==> {
                &&& self.slots()[i]->Some_0.1.index == i
                &&& self.slots()[i]->Some_0.1.data.len() <= MAX_PDU_DATA
            }
    }

    /// What `start_pdu` does: offer the slot that the counter names, advance
    /// the counter to the next slot, wrapping at the capacity, and store a new request there unless
    /// the slot is occupied or the data does not fit.
    pub open spec fn start_pdu_post(
        pre: Self,
        post: Self,
        command: Command,
        data: Seq<u8>,
        r: Result<u8, PduError>,
    ) -> bool {
        let i = pre.next_index();
        &&& post.next_index() == (pre.next_index() + 1) % MAX_FRAMES as int
        &&& post.send_waker_set() == pre.send_waker_set()
        &&& pre.slots()[i] is Some ==> {
            &&& r == Err::<u8, PduError>(PduError::IndexInUse)
            &&& post.slots() == pre.slots()
            &&& post.waiting() == pre.waiting()
        }
        &&& pre.slots()[i] is None && data.len() > MAX_PDU_DATA ==> {
            &&& r == Err::<u8, PduError>(PduError::TooLong)
            &&& post.slots() == pre.slots()
            &&& post.waiting() == pre.waiting()
        }
        &&& pre.slots()[i] is None && data.len() <= MAX_PDU_DATA ==> {
            &&& r == Ok::<u8, PduError>(i as u8)
            &&& post.slots() == pre.slots().update(
                i,
                Some(
                    (
                        RequestState::Created,
                        PduView { command, index: i as u8, data, working_counter: 0 },
                    ),
                ),
            )
            &&& post.waiting() == pre.waiting().update(i, false)
        }
    }

    /// What `poll_pdu` does for slot `idx`: hand out a completed response and
    /// free the slot; else, once `elapsed` has reached `timeout`, free the
    /// slot and report a timeout; else register a continuation.
    pub open spec fn poll_pdu_post(
        pre: Self,
        post: Self,
        idx: int,
        elapsed: u64,
        timeout: u64,
        r: Option<Result<Pdu, PduError>>,
    ) -> bool {
        &&& post.counter() == pre.counter()
        &&& post.send_waker_set() == pre.send_waker_set()
        &&& is_done(pre.slots()[idx]) ==> {
            &&& r is Some && r->Some_0 is Ok
            &&& r->Some_0->Ok_0@ == pre.slots()[idx]->Some_0.1
            &&& post.slots() == pre.slots().update(idx, None)
            &&& post.waiting() == pre.waiting().update(idx, false)
        }
        &&& !is_done(pre.slots()[idx]) && elapsed >= timeout ==> {
            &&& r == Some(Err::<Pdu, PduError>(PduError::Timeout))
            &&& post.slots() == pre.slots().update(idx, None)
            &&& post.waiting() == pre.waiting().update(idx, false)
        }
        &&& !is_done(pre.slots()[idx]) && elapsed < timeout ==> {
            &&& r is None
            &&& post.slots() == pre.slots()
            &&& post.waiting() == pre.waiting().update(idx, true)
        }
    }

    /// The response that a received frame carries, when it carries one.
    pub open spec fn response_of(raw: Seq<u8>) -> PduView {
        parse_pdu(payload_of(raw), MAX_PDU_DATA as int)->Ok_0
    }

    /// What becomes of a received frame: frames too short for an Ethernet
    /// header are malformed; frames of another EtherType or from the master's
    /// own address are ignored; then the PDU is decoded and matched with the
    /// request awaiting a response under its index.
    pub open spec fn dispatch_outcome(&self, raw: Seq<u8>) -> Dispatch {
        if raw.len() < ETHERNET_HEADER_LEN {
            Dispatch::Malformed(ParseError::Truncated)
        } else if ethertype_of(raw) != ETHERCAT_ETHERTYPE as int || src_addr_of(raw) == master_addr() {
            Dispatch::Ignored
        } else {
            match parse_pdu(payload_of(raw), MAX_PDU_DATA as int) {
                Err(e) => Dispatch::Malformed(e),
                Ok(p) => {
                    let i = p.index as int;
                    if i >= MAX_FRAMES || !is_awaiting(self.slots()[i]) {
                        Dispatch::NoWaitingFrame
                    } else if p.command != self.slots()[i]->Some_0.1.command {
                        Dispatch::Mismatch
                    } else {
                        Dispatch::Completed { index: p.index, wake: self.waiting()[i] }
                    }
                },
            }
        }
    }

    /// An empty table with the index counter at zero. The capacity must be
    /// at most 255, since an index is one byte, and the data size must fit the
    /// 11-bit length field.
    pub fn new() -> (r: Self)
        requires
            0 < MAX_FRAMES <= 255,
            MAX_PDU_DATA <= MAX_PDU_DATA_LEN,
        ensures
            r.wf(),
            r.slots() == Seq::new(MAX_FRAMES as nat, |_i: int| None::<(RequestState, PduView)>),
            r.waiting() == Seq::new(MAX_FRAMES as nat, |_i: int| false),
            !r.send_waker_set(),
            r.counter() == 0,
    {
        let mut wakers: Vec<bool> = Vec::new();
        let mut frames: Vec<Option<(RequestState, Pdu)>> = Vec::new();
        let mut i: usize = 0;
        while i < MAX_FRAMES
            invariant
                i <= MAX_FRAMES,
                wakers@ == Seq::new(i as nat, |_j: int| false),
                frames@.len() == i,
                forall|j: int| 0 <= j < i ==> #[trigger] frames@[j] is None,
            decreases MAX_FRAMES - i,
        {
            wakers.push(false);
            frames.push(None);
            i = i + 1;
            assert(wakers@ =~= Seq::new(i as nat, |_j: int| false));
        }
        let r = Self { wakers, frames, send_waker: false, idx: 0 };
        assert(r.slots() =~= Seq::new(MAX_FRAMES as nat, |_i: int| None::<(RequestState, PduView)>));
        r
    }

    /// Registers the transmit path's continuation. Returns whether none was
    /// registered before, that is whether the caller's one is now kept.
    pub fn set_send_waker(&mut self) -> (r: bool)
        ensures
            r == !old(self).send_waker_set(),
            final(self).send_waker_set(),
            final(self).slots() == old(self).slots(),
            final(self).waiting() == old(self).waiting(),
            final(self).counter() == old(self).counter(),
    {
        if self.send_waker {
            false
        } else {
            self.send_waker = true;
            true
        }
    }

    /// The state of the request in slot `index`, if the slot is occupied.
    pub fn slot_state(&self, index: usize) -> (r: Option<RequestState>)
        requires
            self.wf(),
            index < MAX_FRAMES,
        ensures
            r == (match self.slots()[index as int] {
                Some((st, _)) => Some(st),
                None => None,
            }),
    {
        match &self.frames[index] {
            Some((st, _)) => Some(*st),
            None => None,
        }
    }

    /// Stores a request for `command` with `data` in the next slot and
    /// returns its index: the first half of sending a PDU, which never
    /// waits. An occupied slot is reported as `IndexInUse`, data longer than a
    /// slot holds as `TooLong`; the counter advances either way.
    pub fn start_pdu(&mut self, command: Command, data: &[u8]) -> (r: Result<u8, PduError>)
        requires
            old(self).wf(),
        ensures
            final(self).wf(),
            Self::start_pdu_post(*old(self), *final(self), command, data@, r),
    {
        let idx: u8 = self.idx;
        self.idx = if (self.idx as usize) + 1 >= MAX_FRAMES { 0 } else { self.idx + 1 };
        proof {
            let c = old(self).idx as int;
            let m = MAX_FRAMES as int;
            assert(self.idx as int == (c + 1) % m) by (nonlinear_arith)
                requires
                    0 <= c < m,
                    c + 1 < m ==> self.idx as int == c + 1,
                    c + 1 >= m ==> self.idx as int == 0,
            ;
        }
        if self.frames[idx as usize].is_some() {
            return Err(PduError::IndexInUse);
        }
        if data.len() > MAX_PDU_DATA {
            return Err(PduError::TooLong);
        }
        let pdu = Pdu::new(command, idx, data);
        let ghost pre = self.frames@;
        self.frames.set(idx as usize, Some((RequestState::Created, pdu)));
        self.wakers.set(idx as usize, false);
        assert(self.frames@.map_values(|s: Option<(RequestState, Pdu)>| slot_view(s)) =~= pre.map_values(
            |s: Option<(RequestState, Pdu)>| slot_view(s),
        ).update(idx as int, Some((RequestState::Created, pdu@))));
        Ok(idx)
    }

    /// The second half of sending a PDU, called each time the caller is
    /// resumed: `elapsed` and `timeout` are in the caller's time unit. A
    /// completed response is handed out first; once the time is up the slot
    /// is released with a timeout; otherwise the caller's continuation is
    /// registered and `None` returned.
    pub fn poll_pdu(&mut self, idx: u8, elapsed: u64, timeout: u64) -> (r: Option<Result<Pdu, PduError>>)
        requires
            old(self).wf(),
            (idx as int) < MAX_FRAMES,
        ensures
            final(self).wf(),
            Self::poll_pdu_post(*old(self), *final(self), idx as int, elapsed, timeout, r),
    {
        let i = idx as usize;
        let done = match &self.frames[i] {
            Some((RequestState::Done, _)) => true,
            _ => false,
        };
        if done || elapsed >= timeout {
            let ghost pre = self.frames@;
            let mut slot: Option<(RequestState, Pdu)> = None;
            self.frames.set_and_swap(i, &mut slot);
            self.wakers.set(i, false);
            assert(self.frames@.map_values(|s: Option<(RequestState, Pdu)>| slot_view(s)) =~= pre.map_values(
                |s: Option<(RequestState, Pdu)>| slot_view(s),
            ).update(i as int, None));
            if done {
                match slot {
                    Some((_, pdu)) => Some(Ok(pdu)),
                    None => Some(Err(PduError::Timeout)),
                }
            } else {
                Some(Err(PduError::Timeout))
            }
        } else {
            self.wakers.set(i, true);
            None
        }
    }

    /// Frees slot `idx` and forgets its continuation, for a caller that gives
    /// up on its request; a response that arrives later finds no request.
    pub fn release(&mut self, idx: u8)
        requires
            old(self).wf(),
            (idx as int) < MAX_FRAMES,
        ensures
            final(self).wf(),
            final(self).slots() == old(self).slots().update(idx as int, None),
            final(self).waiting() == old(self).waiting().update(idx as int, false),
            final(self).counter() == old(self).counter(),
            final(self).send_waker_set() == old(self).send_waker_set(),
    {
        let ghost pre = self.frames@;
        self.frames.set(idx as usize, None);
        self.wakers.set(idx as usize, false);
        assert(self.frames@.map_values(|s: Option<(RequestState, Pdu)>| slot_view(s)) =~= pre.map_values(
            |s: Option<(RequestState, Pdu)>| slot_view(s),
        ).update(idx as int, None));
    }
    /// Hands the first request that the transport has not taken yet to the
    /// transmit path, as the bytes of a broadcast frame, and marks it
    /// `Waiting`. `None` when no slot holds such a request.
    pub fn next_sendable_frame(&mut self) -> (r: Option<Vec<u8>>)
        requires
            old(self).wf(),
        ensures
            final(self).wf(),
            final(self).waiting() == old(self).waiting(),
            final(self).counter() == old(self).counter(),
            final(self).send_waker_set() == old(self).send_waker_set(),
            r is None <==> (forall|j: int| 0 <= j < MAX_FRAMES ==> !is_created(#[trigger] old(self).slots()[j])),
            r is None ==> final(self).slots() == old(self).slots(),
            r matches Some(bytes) ==> exists|i: int|
                {
                    &&& 0 <= i < MAX_FRAMES
                    &&& #[trigger] is_created(old(self).slots()[i])
                    &&& forall|j: int| 0 <= j < i ==> !is_created(#[trigger] old(self).slots()[j])
                    &&& final(self).slots() == old(self).slots().update(
                        i,
                        Some((RequestState::Waiting, old(self).slots()[i]->Some_0.1)),
                    )
                    &&& bytes@ == frame_bytes(pdu_bytes(old(self).slots()[i]->Some_0.1))
                },
    {
        let mut i: usize = 0;
        while i < MAX_FRAMES
            invariant
                self.wf(),
                *self == *old(self),
                i <= MAX_FRAMES,
                forall|j: int| 0 <= j < i ==> !is_created(#[trigger] self.slots()[j]),
            decreases MAX_FRAMES - i,
        {
            let created = match &self.frames[i] {
                Some((RequestState::Created, _)) => true,
                _ => false,
            };
            if created {
                assert(self.slots()[i as int] == slot_view(self.frames@[i as int]));
                assert(self.slots()[i as int] is Some);
                let ghost pre = self.frames@;
                let mut slot: Option<(RequestState, Pdu)> = None;
                self.frames.set_and_swap(i, &mut slot);
                match slot {
                    Some((_, pdu)) => {
                        let payload = pdu.to_ethernet_payload();
                        let frame = build_frame(&payload);
                        let ghost v = pdu@;
                        self.frames.set(i, Some((RequestState::Waiting, pdu)));
                        assert(self.frames@.map_values(|s: Option<(RequestState, Pdu)>| slot_view(s))
                            =~= pre.map_values(|s: Option<(RequestState, Pdu)>| slot_view(s)).update(
                            i as int,
                            Some((RequestState::Waiting, v)),
                        ));
                        assert(is_created(old(self).slots()[i as int]));
                        return Some(frame);
                    },
                    None => {
                        return None;
                    },
                }
            }
            i = i + 1;
        }
        None
    }

    /// Feeds one received frame to the table. A response to a request that
    /// awaits one is stored in its slot, which becomes `Done`, and its
    /// continuation flag is cleared; any other frame leaves the table as it
    /// was. Malformed input is reported, never fatal.
    pub fn parse_response_ethernet_packet(&mut self, raw_packet: &[u8]) -> (r: Dispatch)
        requires
            old(self).wf(),
        ensures
            final(self).wf(),
            r == old(self).dispatch_outcome(raw_packet@),
            final(self).counter() == old(self).counter(),
            final(self).send_waker_set() == old(self).send_waker_set(),
            r matches Dispatch::Completed { index, .. } ==> {
                &&& final(self).slots() == old(self).slots().update(
                    index as int,
                    Some((RequestState::Done, Self::response_of(raw_packet@))),
                )
                &&& final(self).waiting() == old(self).waiting().update(index as int, false)
            },
            !(r is Completed) ==> final(self).slots() == old(self).slots() && final(self).waiting()
                == old(self).waiting(),
    {
        if raw_packet.len() < ETHERNET_HEADER_LEN {
            return Dispatch::Malformed(ParseError::Truncated);
        }
        let ethertype = frame_ethertype(raw_packet);
        let src = frame_src_addr(raw_packet);
        if ethertype != ETHERCAT_ETHERTYPE || is_master_addr(&src) {
            return Dispatch::Ignored;
        }
        let payload = frame_payload(raw_packet);
        let pdu = match Pdu::from_ethernet_payload(payload, MAX_PDU_DATA) {
            Ok(p) => p,
            Err(e) => {
                return Dispatch::Malformed(e);
            },
        };
        let idx = pdu.index as usize;
        if idx >= MAX_FRAMES {
            return Dispatch::NoWaitingFrame;
        }
        let matched: u8 = match &self.frames[idx] {
            Some((st, existing)) => {
                if *st == RequestState::Done {
                    0
                } else if pdu.is_response_to(existing) {
                    2
                } else {
                    1
                }
            },
            None => 0,
        };
        if matched == 0 {
            return Dispatch::NoWaitingFrame;
        }
        if matched == 1 {
            return Dispatch::Mismatch;
        }
        let wake = self.wakers[idx];
        let index = pdu.index;
        let ghost pre = self.frames@;
        let ghost v = pdu@;
        self.frames.set(idx, Some((RequestState::Done, pdu)));
        self.wakers.set(idx, false);
        assert(self.frames@.map_values(|s: Option<(RequestState, Pdu)>| slot_view(s)) =~= pre.map_values(
            |s: Option<(RequestState, Pdu)>| slot_view(s),
        ).update(idx as int, Some((RequestState::Done, v))));
        Dispatch::Completed { index, wake }
    }
}

/// Filling a free slot adds one to the number of occupied slots.
pub proof fn lemma_occupied_fill(s: Seq<SlotView>, i: int, v: SlotView)
    requires
        0 <= i < s.len(),
        s[i] is None,
        v is Some,
    ensures
        occupied(s.update(i, v)) == occupied(s) + 1,
    decreases s.len(),
{
    let t = s.update(i, v);
    if i == s.len() - 1 {
        assert(t.drop_last() =~= s.drop_last());
    } else {
        assert(t.drop_last() =~= s.drop_last().update(i, v));
        lemma_occupied_fill(s.drop_last(), i, v);
    }
}

/// No more slots are occupied than there are slots.
proof fn lemma_occupied_bound(s: Seq<SlotView>)
    ensures
        occupied(s) <= s.len(),
    decreases s.len(),
{
    if s.len() > 0 {
        lemma_occupied_bound(s.drop_last());
    }
}

/// While no start is refused as `IndexInUse`, the first `k` starts of a run
/// each occupy one more slot.
proof fn lemma_run_fills<const MAX_FRAMES: usize, const MAX_PDU_DATA: usize>(
    tables: Seq<ClientInternals<MAX_FRAMES, MAX_PDU_DATA>>,
    commands: Seq<Command>,
    payloads: Seq<Seq<u8>>,
    results: Seq<Result<u8, PduError>>,
    k: int,
)
    requires
        tables.len() == MAX_FRAMES + 2,
        commands.len() == MAX_FRAMES + 1,
        payloads.len() == MAX_FRAMES + 1,
        results.len() == MAX_FRAMES + 1,
        tables[0].wf(),
        forall|j: int| 0 <= j <= MAX_FRAMES ==> #[trigger] payloads[j].len() <= MAX_PDU_DATA,
        forall|j: int|
            0 <= j <= MAX_FRAMES ==> ClientInternals::start_pdu_post(
                tables[j],
                tables[j + 1],
                commands[j],
                payloads[j],
                #[trigger] results[j],
            ),
        forall|j: int| 0 <= j <= MAX_FRAMES ==> #[trigger] results[j] != Err::<u8, PduError>(PduError::IndexInUse),
        0 <= k <= MAX_FRAMES + 1,
    ensures
        tables[k].slots().len() == MAX_FRAMES,
        (tables[k].counter() as int) < MAX_FRAMES,
        occupied(tables[k].slots()) >= k,
    decreases k,
{
    if k > 0 {
        lemma_run_fills(tables, commands, payloads, results, k - 1);
        let pre = tables[k - 1];
        let i = pre.next_index();
        let m = MAX_FRAMES as int;
        assert(tables[k].next_index() == (i + 1) % m);
        assert(0 <= (i + 1) % m < m) by (nonlinear_arith)
            requires
                0 <= i < m,
        ;
        assert(results[k - 1] != Err::<u8, PduError>(PduError::IndexInUse));
        assert(payloads[k - 1].len() <= MAX_PDU_DATA);
        assert(ClientInternals::start_pdu_post(
            tables[k - 1],
            tables[k],
            commands[k - 1],
            payloads[k - 1],
            results[k - 1],
        ));
        lemma_occupied_fill(
            pre.slots(),
            i,
            Some(
                (
                    RequestState::Created,
                    PduView {
                        command: commands[k - 1],
                        index: i as u8,
                        data: payloads[k - 1],
                        working_counter: 0,
                    },
                ),
            ),
        );
    }
}

/// Capacity: starting `N + 1` requests whose data fits, one after the other
/// on a table of `N` slots and with none of them completed in between,
/// meets at least one `IndexInUse`.
pub proof fn lemma_capacity<const MAX_FRAMES: usize, const MAX_PDU_DATA: usize>(
    tables: Seq<ClientInternals<MAX_FRAMES, MAX_PDU_DATA>>,
    commands: Seq<Command>,
    payloads: Seq<Seq<u8>>,
    results: Seq<Result<u8, PduError>>,
)
    requires
        tables.len() == MAX_FRAMES + 2,
        commands.len() == MAX_FRAMES + 1,
        payloads.len() == MAX_FRAMES + 1,
        results.len() == MAX_FRAMES + 1,
        tables[0].wf(),
        forall|j: int| 0 <= j <= MAX_FRAMES ==> #[trigger] payloads[j].len() <= MAX_PDU_DATA,
        forall|j: int|
            0 <= j <= MAX_FRAMES ==> ClientInternals::start_pdu_post(
                tables[j],
                tables[j + 1],
                commands[j],
                payloads[j],
                #[trigger] results[j],
            ),
    ensures
        exists|j: int| 0 <= j <= MAX_FRAMES && #[trigger] results[j] == Err::<u8, PduError>(PduError::IndexInUse),
{
    if !exists|j: int| 0 <= j <= MAX_FRAMES && #[trigger] results[j] == Err::<u8, PduError>(PduError::IndexInUse) {
        lemma_run_fills(tables, commands, payloads, results, MAX_FRAMES + 1);
        lemma_occupied_bound(tables[MAX_FRAMES + 1].slots());
    }
}

/// Index reuse: once polling slot `idx` has finished its request, with a
/// response or a timeout, the next start that is offered `idx` stores its
/// request there.
pub proof fn lemma_index_reuse<const MAX_FRAMES: usize, const MAX_PDU_DATA: usize>(
    t0: ClientInternals<MAX_FRAMES, MAX_PDU_DATA>,
    t1: ClientInternals<MAX_FRAMES, MAX_PDU_DATA>,
    t2: ClientInternals<MAX_FRAMES, MAX_PDU_DATA>,
    idx: int,
    elapsed: u64,
    timeout: u64,
    polled: Option<Result<Pdu, PduError>>,
    command: Command,
    data: Seq<u8>,
    r: Result<u8, PduError>,
)
    requires
        t0.wf(),
        0 <= idx < MAX_FRAMES,
        ClientInternals::poll_pdu_post(t0, t1, idx, elapsed, timeout, polled),
        polled is Some,
        ClientInternals::start_pdu_post(t1, t2, command, data, r),
        t1.next_index() == idx,
        data.len() <= MAX_PDU_DATA,
    ensures
        r == Ok::<u8, PduError>(idx as u8),
        t2.slots()[idx] is Some,
{
    assert(t1.slots()[idx] is None);
}

/// A start only ever stores its request in a slot that was free, so no
/// index is held by two requests at once.
pub proof fn lemma_index_exclusive<const MAX_FRAMES: usize, const MAX_PDU_DATA: usize>(
    t0: ClientInternals<MAX_FRAMES, MAX_PDU_DATA>,
    t1: ClientInternals<MAX_FRAMES, MAX_PDU_DATA>,
    command: Command,
    data: Seq<u8>,
    i: u8,
)
    requires
        t0.wf(),
        ClientInternals::start_pdu_post(t0, t1, command, data, Ok::<u8, PduError>(i)),
    ensures
        i as int == t0.next_index(),
        t0.slots()[i as int] is None,
        t1.slots()[i as int] is Some,
{
}

/// A received frame whose PDU index names no occupied slot completes no
/// request, so `parse_response_ethernet_packet` leaves the table unchanged.
pub proof fn lemma_dispatch_unoccupied_noop<const MAX_FRAMES: usize, const MAX_PDU_DATA: usize>(
    t: ClientInternals<MAX_FRAMES, MAX_PDU_DATA>,
    raw: Seq<u8>,
)
    requires
        t.wf(),
        parse_pdu(payload_of(raw), MAX_PDU_DATA as int) matches Ok(p) ==> (p.index >= MAX_FRAMES
            || t.slots()[p.index as int] is None),
    ensures
        !(t.dispatch_outcome(raw) is Completed),
{
}

/// A frame sent from the master's own address is ignored, whatever slot
/// its index names.
pub proof fn lemma_self_frame_ignored<const MAX_FRAMES: usize, const MAX_PDU_DATA: usize>(
    t: ClientInternals<MAX_FRAMES, MAX_PDU_DATA>,
    raw: Seq<u8>,
)
    requires
        raw.len() >= ETHERNET_HEADER_LEN,
        src_addr_of(raw) == master_addr(),
    ensures
        t.dispatch_outcome(raw) == Dispatch::Ignored,
{
}

/// When as many slots are occupied as there are slots, every slot is.
proof fn lemma_occupied_full(s: Seq<SlotView>)
    requires
        occupied(s) == s.len(),
    ensures
        forall|i: int| 0 <= i < s.len() ==> #[trigger] s[i] is Some,
    decreases s.len(),
{
    if s.len() > 0 {
        lemma_occupied_bound(s.drop_last());
        lemma_occupied_full(s.drop_last());
        assert forall|i: int| 0 <= i < s.len() implies #[trigger] s[i] is Some by {
            if i < s.len() - 1 {
                assert(s[i] == s.drop_last()[i]);
            }
        }
    }
}

/// A full table is a hard cap: when all `N` slots are occupied, a start is
/// refused as `IndexInUse` and changes no slot.
pub proof fn lemma_full_table_refuses<const MAX_FRAMES: usize, const MAX_PDU_DATA: usize>(
    pre: ClientInternals<MAX_FRAMES, MAX_PDU_DATA>,
    post: ClientInternals<MAX_FRAMES, MAX_PDU_DATA>,
    command: Command,
    data: Seq<u8>,
    r: Result<u8, PduError>,
)
    requires
        pre.wf(),
        occupied(pre.slots()) == MAX_FRAMES,
        ClientInternals::start_pdu_post(pre, post, command, data, r),
    ensures
        r == Err::<u8, PduError>(PduError::IndexInUse),
        post.slots() == pre.slots(),
{
    lemma_occupied_full(pre.slots());
    assert(pre.slots()[pre.next_index()] is Some);
}

} // verus!
