//! The MoldUDP64 receiver's state machine: session checking, gap detection
//! with out-of-order buffering, rerequests, and in-order delivery. The socket
//! work around it stays outside the library; the machine consumes parsed
//! downstream packets and says what to deliver, what to request, and when to
//! close.
use crate::moldudp64::types::{
    spec_block_views, DownstreamPacket, MessageBlock, RequestPacket, SessionId, END_SESSION_COUNT,
    HEARTBEAT_COUNT,
};
use vstd::prelude::*;

verus! {

/// The datagram buffer size a receiver starts with.
pub const DEFAULT_BUFFER_SIZE: usize = 4096;

/// Why a receiver closed.
#[derive(Clone, Copy, Debug, PartialEq, Eq, Structural)]
pub enum ReceiverError {
    /// A packet bore a session id other than the receiver's.
    UnexpectedSession,
    /// No packet arrived within the server timeout.
    ServerTimedOut,
    /// The transmitter ended the session.
    SessionEnded,
    /// The transport failed, or the sequence numbers left the 64-bit space.
    Io,
}

/// The receiver's ghost state: its session bytes, the next sequence number
/// it expects, the out-of-order packets it holds, the auto-rerequest flag,
/// and the close-error slot.
pub struct RxState {
    pub session: Seq<u8>,
    pub next: u64,
    pub buffered: Seq<DownstreamPacket>,
    pub auto: bool,
    pub closed: Option<ReceiverError>,
}

/// A data packet's first sequence number.
pub open spec fn spec_pkt_first(p: DownstreamPacket) -> u64 {
    p.header.sequence_number
}

/// A data packet's message count.
pub open spec fn spec_pkt_count(p: DownstreamPacket) -> int {
    p.header.message_count as int
}

/// A buffered packet must be a data packet whose sequence range stays within
/// the 64-bit space.
pub open spec fn spec_buffered_ok(p: DownstreamPacket) -> bool {
    &&& p.wf()
    &&& p.header.message_count != HEARTBEAT_COUNT
    &&& p.header.message_count != END_SESSION_COUNT
    &&& spec_pkt_first(p) + spec_pkt_count(p) <= u64::MAX
}

/// The first buffered packet that can act at `next` (its range begins at or
/// before `next`), or `-1`.
pub open spec fn spec_find_drainable(buffered: Seq<DownstreamPacket>, next: u64) -> int
    decreases buffered.len(),
{
    if buffered.len() == 0 {
        -1
    } else if spec_pkt_first(buffered[0]) <= next {
        0
    } else {
        let r = spec_find_drainable(buffered.drop_first(), next);
        if r < 0 {
            -1
        } else {
            1 + r
        }
    }
}

/// Drain the buffer: repeatedly take the first packet whose range has been
/// reached; a packet wholly below `next` is dropped, one reaching `next`
/// delivers its blocks from the offset already seen and advances. Yields the
/// remaining buffer, the new next-expected number, and the delivered block
/// contents in order.
pub open spec fn spec_drain(buffered: Seq<DownstreamPacket>, next: u64) -> (
    Seq<DownstreamPacket>,
    u64,
    Seq<Seq<u8>>,
)
    decreases buffered.len(),
{
    let f = spec_find_drainable(buffered, next);
    if f < 0 || f >= buffered.len() {
        (buffered, next, Seq::empty())
    } else {
        let p = buffered[f];
        let b2 = buffered.remove(f);
        let first = spec_pkt_first(p);
        let cnt = spec_pkt_count(p);
        if first + cnt - 1 < next {
            spec_drain(b2, next)
        } else {
            let delivered = spec_block_views(p.message_blocks@).subrange(next - first, cnt);
            let next2 = (first + cnt) as u64;
            let r = spec_drain(b2, next2);
            (r.0, r.1, delivered + r.2)
        }
    }
}

/// Saturate a gap width into the request packet's 16-bit count field.
pub open spec fn spec_sat_u16(gap: int) -> u16 {
    if gap > 0xFFFF {
        0xFFFF as u16
    } else {
        gap as u16
    }
}

/// One step of the receiver on one parsed packet: the next state, the block
/// contents delivered in order, the rerequest to send (start and count), and
/// whether this packet ended the session. A closed receiver ignores input; a
/// foreign session closes it; a heartbeat advances the expected number; an
/// end-of-session packet closes it after notifying; a data packet delivers,
/// buffers, overlaps or is discarded by its sequence range, and a reached
/// range is followed by a buffer drain.
pub open spec fn spec_rx_step(st: RxState, pkt: DownstreamPacket) -> (
    RxState,
    Seq<Seq<u8>>,
    Option<(u64, u16)>,
    bool,
) {
    if st.closed is Some {
        (st, Seq::empty(), None, false)
    } else if pkt.header.session@ != st.session {
        (
            RxState { closed: Some(ReceiverError::UnexpectedSession), ..st },
            Seq::empty(),
            None,
            false,
        )
    } else if pkt.header.message_count == HEARTBEAT_COUNT {
        let d = spec_drain(st.buffered, pkt.header.sequence_number);
        (RxState { next: d.1, buffered: d.0, ..st }, d.2, None, false)
    } else if pkt.header.message_count == END_SESSION_COUNT {
        (RxState { closed: Some(ReceiverError::SessionEnded), ..st }, Seq::empty(), None, true)
    } else {
        let first = spec_pkt_first(pkt);
        let cnt = spec_pkt_count(pkt);
        if first + cnt > u64::MAX {
            (RxState { closed: Some(ReceiverError::Io), ..st }, Seq::empty(), None, false)
        } else if first == st.next {
            let d = spec_drain(st.buffered, (first + cnt) as u64);
            (
                RxState { next: d.1, buffered: d.0, ..st },
                spec_block_views(pkt.message_blocks@) + d.2,
                None,
                false,
            )
        } else if first > st.next {
            (
                RxState { buffered: st.buffered.push(pkt), ..st },
                Seq::empty(),
                if st.auto {
                    Some((st.next, spec_sat_u16(first - st.next)))
                } else {
                    None
                },
                false,
            )
        } else if first + cnt - 1 < st.next {
            (st, Seq::empty(), None, false)
        } else {
            let d = spec_drain(st.buffered, (first + cnt) as u64);
            (
                RxState { next: d.1, buffered: d.0, ..st },
                spec_block_views(pkt.message_blocks@).subrange(st.next - first, cnt) + d.2,
                None,
                false,
            )
        }
    }
}

/// What one packet made the receiver do.
pub struct RxStep {
    /// The blocks to hand to the handler, in sequence order.
    pub delivered: Vec<MessageBlock>,
    /// The retransmission request to send, if a gap opened.
    pub request: Option<RequestPacket>,
    /// Whether this packet was the end-of-session notification.
    pub end_of_session: bool,
    /// The close error this packet set, if any.
    pub err: Option<ReceiverError>,
}

/// The receiver: its session, the next sequence number it expects, the
/// out-of-order packets it holds, and the close-error slot.
pub struct Receiver {
    session: SessionId,
    next_expected: u64,
    auto_rerequest: bool,
    buffered: Vec<DownstreamPacket>,
    closed: Option<ReceiverError>,
}

impl Receiver {
    pub closed spec fn spec_state(&self) -> RxState {
        RxState {
            session: self.session@,
            next: self.next_expected,
            buffered: self.buffered@,
            auto: self.auto_rerequest,
            closed: self.closed,
        }
    }

    pub open spec fn wf(&self) -> bool {
        &&& self.spec_state().session.len() == crate::moldudp64::types::SESSION_ID_LEN
        &&& forall|k: int|
            0 <= k < self.spec_state().buffered.len() ==> spec_buffered_ok(
                #[trigger] self.spec_state().buffered[k],
            )
    }

    /// A fresh receiver expecting `sequence_number` on `session`.
    pub fn new(session: SessionId, sequence_number: u64, auto_rerequest: bool) -> (r: Receiver)
        requires
            session.wf(),
        ensures
            r.spec_state() == (RxState {
                session: session@,
                next: sequence_number,
                buffered: Seq::<DownstreamPacket>::empty(),
                auto: auto_rerequest,
                closed: None::<ReceiverError>,
            }),
            r.wf(),
    {
        let r = Receiver {
            session,
            next_expected: sequence_number,
            auto_rerequest,
            buffered: Vec::new(),
            closed: None,
        };
        proof {
            assert(r.spec_state().buffered =~= Seq::<DownstreamPacket>::empty());
        }
        r
    }

    pub fn next_expected(&self) -> (r: u64)
        ensures
            r == self.spec_state().next,
    {
        self.next_expected
    }

    pub fn auto_rerequest(&self) -> (r: bool)
        ensures
            r == self.spec_state().auto,
    {
        self.auto_rerequest
    }

    pub fn set_auto_rerequest(&mut self, b: bool)
        ensures
            final(self).spec_state() == (RxState { auto: b, ..old(self).spec_state() }),
    {
        self.auto_rerequest = b;
    }

    pub fn close_err(&self) -> (r: Option<ReceiverError>)
        ensures
            r == self.spec_state().closed,
    {
        self.closed
    }

    pub fn is_closed(&self) -> (r: bool)
        ensures
            r == (self.spec_state().closed is Some),
    {
        match self.closed {
            Some(_) => true,
            None => false,
        }
    }

    /// The server timeout elapsed with no packet: close, keeping an earlier
    /// error if one was set first.
    pub fn on_timeout(&mut self) -> (r: ReceiverError)
        ensures
            old(self).spec_state().closed is None ==> final(self).spec_state() == (RxState {
                closed: Some(ReceiverError::ServerTimedOut),
                ..old(self).spec_state()
            }) && r == ReceiverError::ServerTimedOut,
            old(self).spec_state().closed matches Some(e) ==> *final(self) == *old(self) && r == e,
    {
        match self.closed {
            Some(e) => e,
            None => {
                self.closed = Some(ReceiverError::ServerTimedOut);
                ReceiverError::ServerTimedOut
            },
        }
    }

    /// Feed one parsed downstream packet; see [`spec_rx_step`].
    #[verifier::loop_isolation(false)]
    pub fn on_packet(&mut self, pkt: DownstreamPacket) -> (step: RxStep)
        requires
            old(self).wf(),
            pkt.wf(),
        ensures
            ({
                let out = spec_rx_step(old(self).spec_state(), pkt);
                &&& final(self).spec_state() == out.0
                &&& spec_block_views(step.delivered@) == out.1
                &&& (match out.2 {
                    Some(req) => step.request matches Some(rp) && rp.session@ == old(
                        self,
                    ).spec_state().session && rp.sequence_number == req.0 && rp.message_count
                        == req.1,
                    None => step.request is None,
                })
                &&& step.end_of_session == out.3
                &&& step.err == (if old(self).spec_state().closed is Some {
                    None::<ReceiverError>
                } else {
                    out.0.closed
                })
                &&& final(self).wf()
            }),
    {
        if self.closed.is_some() {
            proof {
                assert(spec_block_views(Seq::<MessageBlock>::empty()) =~= Seq::<Seq<u8>>::empty());
            }
            return RxStep { delivered: Vec::new(), request: None, end_of_session: false, err: None };
        }
        proof {
            assert(spec_block_views(Seq::<MessageBlock>::empty()) =~= Seq::<Seq<u8>>::empty());
        }
        if !self.session.matches(&pkt.header.session) {
            self.closed = Some(ReceiverError::UnexpectedSession);
            return RxStep {
                delivered: Vec::new(),
                request: None,
                end_of_session: false,
                err: Some(ReceiverError::UnexpectedSession),
            };
        }
        if pkt.header.message_count == HEARTBEAT_COUNT {
            self.next_expected = pkt.header.sequence_number;
            let delivered = self.drain();
            return RxStep { delivered, request: None, end_of_session: false, err: None };
        }
        if pkt.header.message_count == END_SESSION_COUNT {
            self.closed = Some(ReceiverError::SessionEnded);
            return RxStep {
                delivered: Vec::new(),
                request: None,
                end_of_session: true,
                err: Some(ReceiverError::SessionEnded),
            };
        }
        let first = pkt.header.sequence_number;
        let cnt = pkt.header.message_count as u64;
        if first > u64::MAX - cnt {
            self.closed = Some(ReceiverError::Io);
            return RxStep {
                delivered: Vec::new(),
                request: None,
                end_of_session: false,
                err: Some(ReceiverError::Io),
            };
        }
        if first == self.next_expected {
            let mut delivered = Self::blocks_from(&pkt.message_blocks, 0);
            self.next_expected = first + cnt;
            let mut rest = self.drain();
            let ghost head = spec_block_views(pkt.message_blocks@);
            let ghost tail = spec_block_views(rest@);
            delivered.append(&mut rest);
            proof {
                assert(spec_block_views(pkt.message_blocks@).subrange(
                    0,
                    pkt.message_blocks@.len() as int,
                ) =~= spec_block_views(pkt.message_blocks@));
                assert(spec_block_views(delivered@) =~= head + tail);
            }
            return RxStep { delivered, request: None, end_of_session: false, err: None };
        }
        if first > self.next_expected {
            let request = if self.auto_rerequest {
                let gap = first - self.next_expected;
                let count16: u16 = if gap > 0xFFFF {
                    0xFFFF
                } else {
                    gap as u16
                };
                Some(
                    RequestPacket::new(
                        SessionId::new_trunc(self.session.as_slice()),
                        self.next_expected,
                        count16,
                    ),
                )
            } else {
                None
            };
            self.buffered.push(pkt);
            return RxStep { delivered: Vec::new(), request, end_of_session: false, err: None };
        }
        // first < next_expected
        if first + cnt - 1 < self.next_expected {
            return RxStep { delivered: Vec::new(), request: None, end_of_session: false, err: None };
        }
        let offset = (self.next_expected - first) as usize;
        let mut delivered = Self::blocks_from(&pkt.message_blocks, offset);
        self.next_expected = first + cnt;
        let mut rest = self.drain();
        let ghost head = spec_block_views(pkt.message_blocks@).subrange(
            offset as int,
            pkt.message_blocks@.len() as int,
        );
        let ghost tail = spec_block_views(rest@);
        delivered.append(&mut rest);
        proof {
            assert(spec_block_views(delivered@) =~= head + tail);
        }
        RxStep { delivered, request: None, end_of_session: false, err: None }
    }

    /// Copies of the blocks from `offset` on.
    fn blocks_from(blocks: &Vec<MessageBlock>, offset: usize) -> (r: Vec<MessageBlock>)
        requires
            offset <= blocks@.len(),
        ensures
            spec_block_views(r@) == spec_block_views(blocks@).subrange(
                offset as int,
                blocks@.len() as int,
            ),
            forall|k: int| 0 <= k < r@.len() ==> (#[trigger] r@[k]).wf() == blocks@[offset + k].wf(),
    {
        let mut r: Vec<MessageBlock> = Vec::new();
        let mut i: usize = offset;
        while i < blocks.len()
            invariant
                offset <= i <= blocks@.len(),
                r@.len() == i - offset,
                forall|k: int| 0 <= k < r@.len() ==> (#[trigger] r@[k])@ == blocks@[offset + k]@,
            decreases blocks@.len() - i,
        {
            r.push(blocks[i].duplicate());
            i += 1;
        }
        proof {
            assert(spec_block_views(r@) =~= spec_block_views(blocks@).subrange(
                offset as int,
                blocks@.len() as int,
            ));
        }
        r
    }

    /// Deliver every buffered packet whose range has been reached; see
    /// [`spec_drain`].
    fn drain(&mut self) -> (delivered: Vec<MessageBlock>)
        requires
            forall|k: int|
                0 <= k < old(self).spec_state().buffered.len() ==> spec_buffered_ok(
                    #[trigger] old(self).spec_state().buffered[k],
                ),
        ensures
            ({
                let d = spec_drain(old(self).spec_state().buffered, old(self).spec_state().next);
                &&& final(self).spec_state() == (RxState {
                    buffered: d.0,
                    next: d.1,
                    ..old(self).spec_state()
                })
                &&& spec_block_views(delivered@) == d.2
                &&& forall|k: int|
                    0 <= k < final(self).spec_state().buffered.len() ==> spec_buffered_ok(
                        #[trigger] final(self).spec_state().buffered[k],
                    )
            }),
    {
        let mut delivered: Vec<MessageBlock> = Vec::new();
        proof {
            assert(spec_block_views(delivered@) =~= Seq::<Seq<u8>>::empty());
        }
        loop
            invariant_except_break
                forall|k: int|
                    0 <= k < self.buffered@.len() ==> spec_buffered_ok(#[trigger] self.buffered@[k]),
                self.session@ == old(self).spec_state().session,
                self.auto_rerequest == old(self).spec_state().auto,
                self.closed == old(self).spec_state().closed,
                spec_drain(old(self).spec_state().buffered, old(self).spec_state().next) == ({
                    let d = spec_drain(self.buffered@, self.next_expected);
                    (d.0, d.1, spec_block_views(delivered@) + d.2)
                }),
            ensures
                ({
                    let d = spec_drain(old(self).spec_state().buffered, old(self).spec_state().next);
                    &&& self.buffered@ == d.0
                    &&& self.next_expected == d.1
                    &&& spec_block_views(delivered@) == d.2
                    &&& self.session@ == old(self).spec_state().session
                    &&& self.auto_rerequest == old(self).spec_state().auto
                    &&& self.closed == old(self).spec_state().closed
                    &&& forall|k: int|
                        0 <= k < self.buffered@.len() ==> spec_buffered_ok(
                            #[trigger] self.buffered@[k],
                        )
                }),
            decreases self.buffered@.len(),
        {
            // find the first buffered packet whose range has been reached
            let mut j: usize = 0;
            let mut found = false;
            while j < self.buffered.len() && !found
                invariant
                    j <= self.buffered@.len(),
                    !found ==> forall|k: int|
                        0 <= k < j ==> spec_pkt_first(#[trigger] self.buffered@[k])
                            > self.next_expected,
                    found ==> j < self.buffered@.len() && spec_pkt_first(self.buffered@[j as int])
                        <= self.next_expected && forall|k: int|
                        0 <= k < j ==> spec_pkt_first(#[trigger] self.buffered@[k])
                            > self.next_expected,
                decreases self.buffered@.len() - j + (if found {
                    0int
                } else {
                    1int
                }),
            {
                if self.buffered[j].header.sequence_number <= self.next_expected {
                    found = true;
                } else {
                    j += 1;
                }
            }
            proof {
                lemma_find_drainable_at(self.buffered@, self.next_expected, j as int, found);
            }
            if !found {
                proof {
                    assert(spec_block_views(delivered@) + Seq::<Seq<u8>>::empty()
                        =~= spec_block_views(delivered@));
                }
                break ;
            }
            let p = self.buffered.remove(j);
            let first = p.header.sequence_number;
            let cnt = p.message_blocks.len() as u64;
            proof {
                assert(spec_pkt_count(p) == p.message_blocks@.len());
            }
            if first + cnt >= 1 && first + cnt - 1 < self.next_expected {
                // wholly stale: drop it
            } else {
                let offset = (self.next_expected - first) as usize;
                let mut part = Self::blocks_from(&p.message_blocks, offset);
                let ghost head = spec_block_views(p.message_blocks@).subrange(
                    offset as int,
                    p.message_blocks@.len() as int,
                );
                let ghost before = spec_block_views(delivered@);
                self.next_expected = first + cnt;
                delivered.append(&mut part);
                proof {
                    assert(spec_block_views(delivered@) =~= before + head);
                }
            }
        }
        delivered
    }
}

/// The scan for a drainable packet agrees with [`spec_find_drainable`].
proof fn lemma_find_drainable_at(buffered: Seq<DownstreamPacket>, next: u64, j: int, found: bool)
    requires
        0 <= j <= buffered.len(),
        found ==> j < buffered.len() && spec_pkt_first(buffered[j]) <= next,
        forall|k: int| 0 <= k < j ==> spec_pkt_first(#[trigger] buffered[k]) > next,
        !found ==> j == buffered.len(),
    ensures
        found ==> spec_find_drainable(buffered, next) == j,
        !found ==> spec_find_drainable(buffered, next) < 0,
    decreases j + buffered.len(),
{
    if buffered.len() == 0 {
    } else if spec_pkt_first(buffered[0]) <= next {
        assert(j == 0 || !(spec_pkt_first(buffered[0]) > next));
    } else {
        assert forall|k: int|
            0 <= k < j - 1 implies spec_pkt_first(#[trigger] buffered.drop_first()[k]) > next by {
            assert(buffered.drop_first()[k] == buffered[k + 1]);
        }
        if found {
            assert(buffered.drop_first()[j - 1] == buffered[j]);
        }
        lemma_find_drainable_at(buffered.drop_first(), next, j - 1, found);
    }
}

/// The concatenated block contents of a run of packets.
pub open spec fn spec_all_block_views(pkts: Seq<DownstreamPacket>) -> Seq<Seq<u8>>
    decreases pkts.len(),
{
    if pkts.len() == 0 {
        Seq::empty()
    } else {
        spec_block_views(pkts[0].message_blocks@) + spec_all_block_views(pkts.drop_first())
    }
}

/// The receiver run over a whole packet sequence, deliveries concatenated.
pub open spec fn spec_rx_run(st: RxState, pkts: Seq<DownstreamPacket>) -> (RxState, Seq<Seq<u8>>)
    decreases pkts.len(),
{
    if pkts.len() == 0 {
        (st, Seq::empty())
    } else {
        let step = spec_rx_step(st, pkts[0]);
        let rest = spec_rx_run(step.0, pkts.drop_first());
        (rest.0, step.1 + rest.1)
    }
}

/// Ordering under no loss: a receiver with an empty buffer fed a gapless
/// in-order run of data packets on its session delivers every block of every
/// packet, in sequence order, and ends open with the run's end as its next
/// expected number.
pub proof fn lemma_inorder_delivery(st: RxState, pkts: Seq<DownstreamPacket>)
    requires
        st.closed is None,
        st.buffered.len() == 0,
        forall|k: int|
            0 <= k < pkts.len() ==> (#[trigger] pkts[k]).header.session@ == st.session,
        forall|k: int|
            0 <= k < pkts.len() ==> (#[trigger] pkts[k]).header.message_count != HEARTBEAT_COUNT
                && pkts[k].header.message_count != END_SESSION_COUNT,
        forall|k: int|
            0 <= k < pkts.len() ==> spec_pkt_first(#[trigger] pkts[k]) + spec_pkt_count(pkts[k])
                <= u64::MAX,
        pkts.len() > 0 ==> spec_pkt_first(pkts[0]) == st.next,
        forall|k: int|
            0 <= k < pkts.len() - 1 ==> spec_pkt_first(#[trigger] pkts[k + 1]) == spec_pkt_first(
                pkts[k],
            ) + spec_pkt_count(pkts[k]),
    ensures
        ({
            let r = spec_rx_run(st, pkts);
            &&& r.1 == spec_all_block_views(pkts)
            &&& r.0.closed is None
            &&& r.0.buffered.len() == 0
            &&& r.0.session == st.session
            &&& (pkts.len() > 0 ==> r.0.next == spec_pkt_first(pkts.last()) + spec_pkt_count(
                pkts.last(),
            ))
            &&& (pkts.len() == 0 ==> r.0.next == st.next)
        }),
    decreases pkts.len(),
{
    if pkts.len() == 0 {
        assert(spec_rx_run(st, pkts).1 =~= spec_all_block_views(pkts));
    } else {
        let pkt = pkts[0];
        let step = spec_rx_step(st, pkt);
        let first = spec_pkt_first(pkt);
        let cnt = spec_pkt_count(pkt);
        assert(st.buffered =~= Seq::<DownstreamPacket>::empty());
        let d = spec_drain(st.buffered, (first + cnt) as u64);
        assert(d == (st.buffered, (first + cnt) as u64, Seq::<Seq<u8>>::empty()));
        let st2 = step.0;
        assert(st2.next == first + cnt);
        assert(step.1 =~= spec_block_views(pkt.message_blocks@));
        let rest_pkts = pkts.drop_first();
        assert forall|k: int|
            0 <= k < rest_pkts.len() implies (#[trigger] rest_pkts[k]).header.session@
            == st2.session && rest_pkts[k].header.message_count != HEARTBEAT_COUNT
            && rest_pkts[k].header.message_count != END_SESSION_COUNT && spec_pkt_first(
            rest_pkts[k],
        ) + spec_pkt_count(rest_pkts[k]) <= u64::MAX by {
            assert(rest_pkts[k] == pkts[k + 1]);
        }
        assert forall|k: int|
            0 <= k < rest_pkts.len() - 1 implies spec_pkt_first(#[trigger] rest_pkts[k + 1])
            == spec_pkt_first(rest_pkts[k]) + spec_pkt_count(rest_pkts[k]) by {
            assert(rest_pkts[k] == pkts[k + 1]);
            assert(rest_pkts[k + 1] == pkts[k + 2]);
        }
        if rest_pkts.len() > 0 {
            assert(rest_pkts[0] == pkts[1]);
        }
        lemma_inorder_delivery(st2, rest_pkts);
        assert(spec_rx_run(st, pkts).1 =~= spec_all_block_views(pkts));
        if pkts.len() > 1 {
            assert(rest_pkts.last() == pkts.last());
        }
    }
}

/// A found drainable packet begins at or before the expected number.
proof fn lemma_find_drainable_le(buffered: Seq<DownstreamPacket>, next: u64)
    ensures
        spec_find_drainable(buffered, next) >= 0 ==> spec_find_drainable(buffered, next)
            < buffered.len() && spec_pkt_first(
            buffered[spec_find_drainable(buffered, next)],
        ) <= next,
    decreases buffered.len(),
{
    if buffered.len() == 0 {
    } else if spec_pkt_first(buffered[0]) <= next {
    } else {
        lemma_find_drainable_le(buffered.drop_first(), next);
        let r = spec_find_drainable(buffered.drop_first(), next);
        if r >= 0 {
            assert(buffered[1 + r] == buffered.drop_first()[r]);
        }
    }
}

/// The drain advances the expected number by exactly the number of blocks
/// it delivers.
pub proof fn lemma_drain_advance(buffered: Seq<DownstreamPacket>, next: u64)
    requires
        forall|k: int| 0 <= k < buffered.len() ==> spec_buffered_ok(#[trigger] buffered[k]),
    ensures
        ({
            let d = spec_drain(buffered, next);
            d.1 - next == d.2.len()
        }),
    decreases buffered.len(),
{
    lemma_find_drainable_le(buffered, next);
    let f = spec_find_drainable(buffered, next);
    if f < 0 || f >= buffered.len() {
    } else {
        let p = buffered[f];
        let b2 = buffered.remove(f);
        let first = spec_pkt_first(p);
        let cnt = spec_pkt_count(p);
        assert(spec_buffered_ok(p));
        assert forall|k: int| 0 <= k < b2.len() implies spec_buffered_ok(#[trigger] b2[k]) by {
            if k < f {
                assert(b2[k] == buffered[k]);
            } else {
                assert(b2[k] == buffered[k + 1]);
            }
        }
        if first + cnt - 1 < next {
            lemma_drain_advance(b2, next);
        } else {
            assert(spec_block_views(p.message_blocks@).len() == p.message_blocks@.len());
            assert(p.message_blocks@.len() == cnt);
            lemma_drain_advance(b2, (first + cnt) as u64);
        }
    }
}

/// Delivery respects sequence order whatever was lost or reordered: every
/// step that delivers advances the expected number by exactly the number of
/// blocks delivered, so across any run — gaps, rerequested fills and
/// buffered packets included — the blocks a receiver hands out carry
/// consecutive sequence numbers from its starting point, with no gap and no
/// repeat. (A heartbeat may move the expected number without delivering.)
pub proof fn lemma_step_delivers_in_order(st: RxState, pkt: DownstreamPacket)
    requires
        pkt.wf(),
        pkt.header.message_count != HEARTBEAT_COUNT,
        forall|k: int| 0 <= k < st.buffered.len() ==> spec_buffered_ok(#[trigger] st.buffered[k]),
    ensures
        ({
            let out = spec_rx_step(st, pkt);
            out.0.next - st.next == out.1.len()
        }),
{
    if st.closed is Some {
    } else if pkt.header.session@ != st.session {
    } else if pkt.header.message_count == END_SESSION_COUNT {
    } else {
        let first = spec_pkt_first(pkt);
        let cnt = spec_pkt_count(pkt);
        if first + cnt > u64::MAX {
        } else if first == st.next {
            lemma_drain_advance(st.buffered, (first + cnt) as u64);
        } else if first > st.next {
        } else if first + cnt - 1 < st.next {
        } else {
            lemma_drain_advance(st.buffered, (first + cnt) as u64);
        }
    }
}

} // verus!
