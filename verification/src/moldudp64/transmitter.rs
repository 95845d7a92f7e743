//! The MoldUDP64 transmitter's packetizer: it owns the session id and the
//! next-sequence counter, frames message runs into downstream packets within
//! a datagram budget, and builds heartbeat and end-of-session packets. The
//! socket send itself stays outside the library.
use crate::moldudp64::types::{
    spec_block_views, DownstreamPacket, Header, MessageBlock, SessionId, END_SESSION_COUNT,
    HEADER_LEN, HEARTBEAT_COUNT,
};
use vstd::prelude::*;

verus! {

/// The greedy datagram split with an open group: blocks join the group while
/// the running byte size (header plus each block's two length bytes and
/// data) stays within the budget; a block that would burst a non-empty group
/// closes it and opens the next. A single block larger than the budget
/// stands in a group of its own.
pub open spec fn spec_split_acc(
    blocks: Seq<Seq<u8>>,
    i: int,
    cur: Seq<Seq<u8>>,
    cur_bytes: int,
    budget: int,
) -> Seq<Seq<Seq<u8>>>
    decreases blocks.len() - i, (if cur.len() > 0 {
            1int
        } else {
            0int
        }),
{
    if i < 0 || i >= blocks.len() {
        if cur.len() == 0 {
            Seq::empty()
        } else {
            seq![cur]
        }
    } else {
        let bsz = 2 + blocks[i].len();
        if cur.len() > 0 && cur_bytes + bsz > budget {
            seq![cur] + spec_split_acc(blocks, i, Seq::empty(), HEADER_LEN as int, budget)
        } else {
            spec_split_acc(blocks, i + 1, cur.push(blocks[i]), cur_bytes + bsz, budget)
        }
    }
}

/// The greedy datagram split of a whole message run.
pub open spec fn spec_greedy_split(blocks: Seq<Seq<u8>>, budget: int) -> Seq<Seq<Seq<u8>>> {
    spec_split_acc(blocks, 0, Seq::empty(), HEADER_LEN as int, budget)
}

/// The transmitter: a session id and the sequence number of the next
/// sequenced message.
pub struct Transmitter {
    session: SessionId,
    next_seq_num: u64,
}

impl Transmitter {
    pub closed spec fn spec_session(&self) -> Seq<u8> {
        self.session@
    }

    pub closed spec fn spec_next(&self) -> u64 {
        self.next_seq_num
    }

    pub open spec fn wf(&self) -> bool {
        self.spec_session().len() == crate::moldudp64::types::SESSION_ID_LEN
    }

    pub fn new(session: SessionId, sequence_number: u64) -> (r: Transmitter)
        requires
            session.wf(),
        ensures
            r.spec_session() == session@,
            r.spec_next() == sequence_number,
            r.wf(),
    {
        Transmitter { session, next_seq_num: sequence_number }
    }

    pub fn session(&self) -> (r: SessionId)
        requires
            self.wf(),
        ensures
            r@ == self.spec_session(),
            r.wf(),
    {
        SessionId::new_trunc(self.session.as_slice())
    }

    pub fn next_sequence_number(&self) -> (r: u64)
        ensures
            r == self.spec_next(),
    {
        self.next_seq_num
    }

    /// Frame a message run into downstream packets within `budget` bytes per
    /// datagram, and bump the sequence counter by the number of messages.
    /// The packets carry consecutive starting sequence numbers: the first
    /// bears the pre-bump counter, each later one its predecessor's start
    /// plus its predecessor's count, and together they carry exactly the
    /// given blocks in order, grouped per [`spec_greedy_split`].
    #[verifier::loop_isolation(false)]
    pub fn send_messages(&mut self, blocks: Vec<MessageBlock>, budget: usize) -> (r: Vec<
        DownstreamPacket,
    >)
        requires
            old(self).wf(),
            blocks@.len() < END_SESSION_COUNT,
            old(self).spec_next() + blocks@.len() <= u64::MAX,
            forall|k: int| 0 <= k < blocks@.len() ==> (#[trigger] blocks@[k]).wf(),
        ensures
            final(self).spec_session() == old(self).spec_session(),
            final(self).spec_next() == old(self).spec_next() + blocks@.len(),
            final(self).wf(),
            ({
                let groups = spec_greedy_split(spec_block_views(blocks@), budget as int);
                &&& r@.len() == groups.len()
                &&& forall|j: int|
                    0 <= j < groups.len() ==> spec_block_views(
                        (#[trigger] r@[j]).message_blocks@,
                    ) == groups[j] && r@[j].header.session@ == old(self).spec_session()
                        && r@[j].header.message_count == groups[j].len() && r@[j].wf()
                &&& (groups.len() > 0 ==> r@[0].header.sequence_number == old(self).spec_next())
                &&& forall|j: int|
                    0 <= j < groups.len() - 1 ==> (#[trigger] r@[j + 1]).header.sequence_number
                        == r@[j].header.sequence_number + r@[j].header.message_count
            }),
    {
        let ghost views = spec_block_views(blocks@);
        let ghost budget_i = budget as int;
        let mut packets: Vec<DownstreamPacket> = Vec::new();
        let mut cur: Vec<MessageBlock> = Vec::new();
        let mut cur_bytes: usize = HEADER_LEN;
        let mut seq_num: u64 = self.next_seq_num;
        let mut i: usize = 0;
        proof {
            assert(spec_block_views(cur@) =~= Seq::<Seq<u8>>::empty());
            assert(spec_block_views(blocks@).len() == blocks@.len());
        }
        while i < blocks.len() || cur.len() > 0
            invariant
                i <= blocks@.len(),
                cur@.len() <= i,
                seq_num == old(self).spec_next() + i - cur@.len(),
                forall|k: int| 0 <= k < cur@.len() ==> (#[trigger] cur@[k]).wf(),
                cur_bytes <= usize::MAX,
                spec_split_acc(views, 0, Seq::empty(), HEADER_LEN as int, budget_i)
                    == packets_groups(packets@) + spec_split_acc(
                    views,
                    i as int,
                    spec_block_views(cur@),
                    cur_bytes as int,
                    budget_i,
                ),
                forall|j: int|
                    0 <= j < packets@.len() ==> (#[trigger] packets@[j]).header.session@ == old(
                        self,
                    ).spec_session() && packets@[j].header.message_count
                        == packets@[j].message_blocks@.len() && packets@[j].wf()
                        && packets@[j].message_blocks@.len() > 0,
                packets@.len() > 0 ==> packets@[0].header.sequence_number == old(self).spec_next(),
                forall|j: int|
                    0 <= j < packets@.len() - 1 ==> (#[trigger] packets@[j
                        + 1]).header.sequence_number == packets@[j].header.sequence_number
                        + packets@[j].header.message_count,
                packets@.len() > 0 ==> seq_num == packets@.last().header.sequence_number
                    + packets@.last().header.message_count,
                cur@.len() < END_SESSION_COUNT,
                packets@.len() == 0 ==> cur@.len() == i,
                cur@.len() == 0 ==> cur_bytes == HEADER_LEN,
            decreases blocks@.len() - i, cur@.len() + 1,
        {
            if i < blocks.len() {
                let bsz_data = blocks[i].len();
                let flush = cur.len() > 0 && (bsz_data > usize::MAX - 2 || cur_bytes > usize::MAX
                    - 2 - bsz_data || cur_bytes + 2 + bsz_data > budget);
                proof {
                    assert(views[i as int] == blocks@[i as int]@);
                }
                if flush {
                    let count = cur.len() as u16;
                    let header = Header::new(
                        SessionId::new_trunc(self.session.as_slice()),
                        seq_num,
                        count,
                    );
                    let ghost cur_views = spec_block_views(cur@);
                    seq_num = seq_num + count as u64;
                    let pkt = DownstreamPacket { header, message_blocks: cur };
                    packets.push(pkt);
                    cur = Vec::new();
                    cur_bytes = HEADER_LEN;
                    proof {
                        assert(spec_block_views(cur@) =~= Seq::<Seq<u8>>::empty());
                        assert(packets_groups(packets@) =~= packets_groups(
                            packets@.drop_last(),
                        ).push(cur_views));
                        assert(packets_groups(packets@.drop_last()).push(cur_views)
                            + spec_split_acc(
                            views,
                            i as int,
                            Seq::empty(),
                            HEADER_LEN as int,
                            budget_i,
                        ) =~= packets_groups(packets@.drop_last()) + (seq![cur_views]
                            + spec_split_acc(
                            views,
                            i as int,
                            Seq::empty(),
                            HEADER_LEN as int,
                            budget_i,
                        )));
                    }
                } else {
                    let ghost cur_views = spec_block_views(cur@);
                    proof {
                        assert(blocks@[i as int].wf());
                    }
                    cur.push(blocks[i].duplicate());
                    cur_bytes = cur_bytes + 2 + bsz_data;
                    i = i + 1;
                    proof {
                        assert(spec_block_views(cur@) =~= cur_views.push(views[i - 1]));
                    }
                }
            } else {
                // flush the last group
                let count = cur.len() as u16;
                let header = Header::new(
                    SessionId::new_trunc(self.session.as_slice()),
                    seq_num,
                    count,
                );
                let ghost cur_views = spec_block_views(cur@);
                seq_num = seq_num + count as u64;
                let pkt = DownstreamPacket { header, message_blocks: cur };
                packets.push(pkt);
                cur = Vec::new();
                cur_bytes = HEADER_LEN;
                proof {
                    assert(spec_block_views(cur@) =~= Seq::<Seq<u8>>::empty());
                    assert(packets_groups(packets@) =~= packets_groups(packets@.drop_last()).push(
                        cur_views,
                    ));
                    assert(packets_groups(packets@.drop_last()).push(cur_views)
                        + Seq::<Seq<Seq<u8>>>::empty() =~= packets_groups(packets@.drop_last()) + (
                    seq![cur_views] + Seq::<Seq<Seq<u8>>>::empty()));
                    assert(packets_groups(packets@) + Seq::<Seq<Seq<u8>>>::empty()
                        =~= packets_groups(packets@));
                }
            }
        }
        proof {
            assert(packets_groups(packets@) + Seq::<Seq<Seq<u8>>>::empty() =~= packets_groups(
                packets@,
            ));
            lemma_packets_groups_index(packets@);
        }
        self.next_seq_num = seq_num;
        packets
    }

    /// A heartbeat packet bearing the current next-sequence number.
    pub fn send_heartbeat(&self) -> (r: DownstreamPacket)
        requires
            self.wf(),
        ensures
            r.header.session@ == self.spec_session(),
            r.header.sequence_number == self.spec_next(),
            r.header.message_count == HEARTBEAT_COUNT,
            r.message_blocks@.len() == 0,
            r.wf(),
    {
        DownstreamPacket::heartbeat(SessionId::new_trunc(self.session.as_slice()), self.next_seq_num)
    }

    /// An end-of-session packet bearing the current next-sequence number.
    pub fn send_end_session(&self) -> (r: DownstreamPacket)
        requires
            self.wf(),
        ensures
            r.header.session@ == self.spec_session(),
            r.header.sequence_number == self.spec_next(),
            r.header.message_count == END_SESSION_COUNT,
            r.message_blocks@.len() == 0,
            r.wf(),
    {
        DownstreamPacket::end_session(
            SessionId::new_trunc(self.session.as_slice()),
            self.next_seq_num,
        )
    }
}

/// The groups a packet run carries.
pub open spec fn packets_groups(pkts: Seq<DownstreamPacket>) -> Seq<Seq<Seq<u8>>> {
    pkts.map_values(|p: DownstreamPacket| spec_block_views(p.message_blocks@))
}

/// Each group of a packet run is that packet's block contents.
proof fn lemma_packets_groups_index(pkts: Seq<DownstreamPacket>)
    ensures
        packets_groups(pkts).len() == pkts.len(),
        forall|j: int|
            0 <= j < pkts.len() ==> packets_groups(pkts)[j] == spec_block_views(
                (#[trigger] pkts[j]).message_blocks@,
            ),
{
}

} // verus!
