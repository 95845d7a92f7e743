//! MoldUDP64 wire types: the 20-byte downstream header, length-prefixed
//! message blocks, downstream packets, and the unicast request packet.
use crate::wire::{
    lemma_u16_be_bytes_roundtrip, lemma_u64_be_bytes_roundtrip, spec_u16_from_be_bytes,
    spec_u16_to_be_bytes, spec_u64_from_be_bytes, spec_u64_to_be_bytes, u16_from_be_bytes,
    u16_to_be_bytes, u64_from_be_bytes, u64_to_be_bytes,
};
use vstd::prelude::*;
use vstd::slice::{slice_subrange, slice_to_vec};

verus! {

pub const SESSION_ID_LEN: usize = 10;

pub const HEADER_LEN: usize = 20;

/// The message count that marks a heartbeat packet.
pub const HEARTBEAT_COUNT: u16 = 0;

/// The message count that marks an end-of-session packet.
pub const END_SESSION_COUNT: u16 = 0xFFFF;

/// The longest message a block can carry: its length field is a `u16`.
pub const MAX_MESSAGE_LEN: usize = 0xFFFF;

pub const SPACE: u8 = 32;

/// `s` padded with leading spaces up to `len` bytes.
pub open spec fn spec_pad_left(s: Seq<u8>, len: nat) -> Seq<u8>
    recommends
        s.len() <= len,
{
    Seq::new((len - s.len()) as nat, |i: int| SPACE) + s
}

/// The all-spaces session id.
pub open spec fn spec_blank_session() -> Seq<u8> {
    Seq::new(SESSION_ID_LEN as nat, |i: int| SPACE)
}

/// A 10-byte session id, left-padded with spaces.
#[derive(Clone, Debug, PartialEq, Eq, Hash)]
pub struct SessionId {
    bytes: Vec<u8>,
}

impl View for SessionId {
    type V = Seq<u8>;

    closed spec fn view(&self) -> Seq<u8> {
        self.bytes@
    }
}

impl SessionId {
    pub open spec fn wf(self) -> bool {
        self@.len() == SESSION_ID_LEN
    }

    /// Fails on over-length input; shorter input is left-padded with spaces.
    pub fn new(bytes: &[u8]) -> (r: Result<SessionId, ()>)
        ensures
            bytes@.len() <= SESSION_ID_LEN ==> (r matches Ok(s) && s@ == spec_pad_left(
                bytes@,
                SESSION_ID_LEN as nat,
            ) && s.wf()),
            bytes@.len() > SESSION_ID_LEN ==> r is Err,
    {
        if bytes.len() > SESSION_ID_LEN {
            return Err(());
        }
        let mut r: Vec<u8> = Vec::new();
        let mut i: usize = 0;
        let pad = SESSION_ID_LEN - bytes.len();
        while i < pad
            invariant
                i <= pad,
                r@ =~= Seq::new(i as nat, |j: int| SPACE),
            decreases pad - i,
        {
            r.push(SPACE);
            i += 1;
        }
        let mut tail = slice_to_vec(bytes);
        r.append(&mut tail);
        proof {
            assert(r@ =~= spec_pad_left(bytes@, SESSION_ID_LEN as nat));
        }
        Ok(SessionId { bytes: r })
    }

    /// As [`SessionId::new`], but over-length input is silently truncated.
    pub fn new_trunc(bytes: &[u8]) -> (r: SessionId)
        ensures
            bytes@.len() <= SESSION_ID_LEN ==> r@ == spec_pad_left(bytes@, SESSION_ID_LEN as nat),
            bytes@.len() > SESSION_ID_LEN ==> r@ == bytes@.subrange(0, SESSION_ID_LEN as int),
            r.wf(),
    {
        if bytes.len() <= SESSION_ID_LEN {
            match SessionId::new(bytes) {
                Ok(s) => s,
                Err(_) => {
                    proof {
                        assert(false);
                    }
                    SessionId::blank()
                },
            }
        } else {
            SessionId { bytes: slice_to_vec(slice_subrange(bytes, 0, SESSION_ID_LEN)) }
        }
    }

    /// The blank session id.
    pub fn blank() -> (r: SessionId)
        ensures
            r@ == spec_blank_session(),
            r.wf(),
    {
        let mut bytes: Vec<u8> = Vec::new();
        let mut i: usize = 0;
        while i < SESSION_ID_LEN
            invariant
                i <= SESSION_ID_LEN,
                bytes@ =~= Seq::new(i as nat, |j: int| SPACE),
            decreases SESSION_ID_LEN - i,
        {
            bytes.push(SPACE);
            i += 1;
        }
        proof {
            assert(bytes@ =~= spec_blank_session());
        }
        SessionId { bytes }
    }

    pub fn is_blank(&self) -> (r: bool)
        requires
            self.wf(),
        ensures
            r == (self@ == spec_blank_session()),
    {
        let mut i: usize = 0;
        while i < SESSION_ID_LEN
            invariant
                self.wf(),
                i <= SESSION_ID_LEN,
                forall|j: int| 0 <= j < i ==> self@[j] == SPACE,
            decreases SESSION_ID_LEN - i,
        {
            if self.bytes[i] != SPACE {
                proof {
                    assert(self@[i as int] != spec_blank_session()[i as int]);
                }
                return false;
            }
            i += 1;
        }
        proof {
            assert(self@ =~= spec_blank_session());
        }
        true
    }

    /// Whether two ids hold the same bytes.
    pub fn matches(&self, other: &SessionId) -> (r: bool)
        requires
            self.wf(),
            other.wf(),
        ensures
            r == (self@ == other@),
    {
        let mut i: usize = 0;
        while i < SESSION_ID_LEN
            invariant
                self.wf(),
                other.wf(),
                i <= SESSION_ID_LEN,
                forall|j: int| 0 <= j < i ==> self@[j] == other@[j],
            decreases SESSION_ID_LEN - i,
        {
            if self.bytes[i] != other.bytes[i] {
                proof {
                    assert(self@[i as int] != other@[i as int]);
                }
                return false;
            }
            i += 1;
        }
        proof {
            assert(self@ =~= other@);
        }
        true
    }

    pub fn as_slice(&self) -> (r: &[u8])
        ensures
            r@ == self@,
    {
        self.bytes.as_slice()
    }

    pub fn into_inner(self) -> (r: Vec<u8>)
        ensures
            r@ == self@,
    {
        self.bytes
    }
}

/// The 20 header bytes: session id, big-endian sequence number, big-endian
/// message count.
pub open spec fn spec_header_bytes(session: Seq<u8>, seq_num: u64, count: u16) -> Seq<u8>
    recommends
        session.len() == SESSION_ID_LEN,
{
    session + spec_u64_to_be_bytes(seq_num) + spec_u16_to_be_bytes(count)
}

/// A MoldUDP64 downstream header.
#[derive(Clone, Debug, PartialEq, Eq)]
pub struct Header {
    pub session: SessionId,
    pub sequence_number: u64,
    pub message_count: u16,
}

impl Header {
    pub open spec fn wf(self) -> bool {
        self.session.wf()
    }

    pub fn new(session: SessionId, seq_num: u64, msg_count: u16) -> (r: Header)
        requires
            session.wf(),
        ensures
            r.session@ == session@,
            r.sequence_number == seq_num,
            r.message_count == msg_count,
            r.wf(),
    {
        Header { session, sequence_number: seq_num, message_count: msg_count }
    }

    /// A heartbeat header carries the next sequence number and count zero.
    pub fn heartbeat(session: SessionId, next_seq_num: u64) -> (r: Header)
        requires
            session.wf(),
        ensures
            r.session@ == session@,
            r.sequence_number == next_seq_num,
            r.message_count == HEARTBEAT_COUNT,
            r.wf(),
    {
        Header::new(session, next_seq_num, HEARTBEAT_COUNT)
    }

    /// An end-of-session header carries the next sequence number and the
    /// end-of-session count.
    pub fn end_session(session: SessionId, next_seq_num: u64) -> (r: Header)
        requires
            session.wf(),
        ensures
            r.session@ == session@,
            r.sequence_number == next_seq_num,
            r.message_count == END_SESSION_COUNT,
            r.wf(),
    {
        Header::new(session, next_seq_num, END_SESSION_COUNT)
    }

    /// Decode a header from exactly 20 bytes.
    pub fn parse(b: &[u8]) -> (r: Result<Header, ()>)
        ensures
            b@.len() == HEADER_LEN ==> (r matches Ok(h) && h.session@ == b@.subrange(0, 10)
                && h.sequence_number == spec_u64_from_be_bytes(b@.subrange(10, 18))
                && h.message_count == spec_u16_from_be_bytes(b@.subrange(18, 20)) && h.wf()),
            b@.len() != HEADER_LEN ==> r is Err,
    {
        if b.len() != HEADER_LEN {
            return Err(());
        }
        let session = SessionId { bytes: slice_to_vec(slice_subrange(b, 0, 10)) };
        let sequence_number = u64_from_be_bytes(slice_subrange(b, 10, 18));
        let message_count = u16_from_be_bytes(slice_subrange(b, 18, 20));
        Ok(Header { session, sequence_number, message_count })
    }

    pub fn session(&self) -> (r: SessionId)
        requires
            self.wf(),
        ensures
            r@ == self.session@,
            r.wf(),
    {
        SessionId { bytes: slice_to_vec(self.session.as_slice()) }
    }

    pub fn sequence_number(&self) -> (r: u64)
        ensures
            r == self.sequence_number,
    {
        self.sequence_number
    }

    pub fn message_count(&self) -> (r: u16)
        ensures
            r == self.message_count,
    {
        self.message_count
    }

    pub fn set_session(&mut self, id: SessionId)
        requires
            id.wf(),
        ensures
            final(self).session@ == id@,
            final(self).sequence_number == old(self).sequence_number,
            final(self).message_count == old(self).message_count,
    {
        self.session = id;
    }

    pub fn set_sequence_number(&mut self, n: u64)
        ensures
            final(self).session == old(self).session,
            final(self).sequence_number == n,
            final(self).message_count == old(self).message_count,
    {
        self.sequence_number = n;
    }

    pub fn set_message_count(&mut self, n: u16)
        ensures
            final(self).session == old(self).session,
            final(self).sequence_number == old(self).sequence_number,
            final(self).message_count == n,
    {
        self.message_count = n;
    }

    /// The 20 wire bytes of this header.
    pub fn serialize(&self) -> (r: Vec<u8>)
        requires
            self.wf(),
        ensures
            r@ == spec_header_bytes(self.session@, self.sequence_number, self.message_count),
            r@.len() == HEADER_LEN,
    {
        let mut r = slice_to_vec(self.session.as_slice());
        let mut seq_bytes = u64_to_be_bytes(self.sequence_number);
        r.append(&mut seq_bytes);
        let mut count_bytes = u16_to_be_bytes(self.message_count);
        r.append(&mut count_bytes);
        proof {
            assert(r@ =~= spec_header_bytes(
                self.session@,
                self.sequence_number,
                self.message_count,
            ));
        }
        r
    }

    pub fn is_heartbeat(&self) -> (r: bool)
        ensures
            r == (self.message_count == HEARTBEAT_COUNT),
    {
        self.message_count == HEARTBEAT_COUNT
    }

    pub fn is_end_session(&self) -> (r: bool)
        ensures
            r == (self.message_count == END_SESSION_COUNT),
    {
        self.message_count == END_SESSION_COUNT
    }
}

/// The wire bytes of one message block: big-endian length, then the message.
pub open spec fn spec_block_bytes(data: Seq<u8>) -> Seq<u8>
    recommends
        data.len() <= MAX_MESSAGE_LEN,
{
    spec_u16_to_be_bytes(data.len() as u16) + data
}

/// One length-prefixed message block.
#[derive(Clone, Debug, PartialEq, Eq)]
pub struct MessageBlock {
    data: Vec<u8>,
}

impl View for MessageBlock {
    type V = Seq<u8>;

    closed spec fn view(&self) -> Seq<u8> {
        self.data@
    }
}

impl MessageBlock {
    pub open spec fn wf(self) -> bool {
        self@.len() <= MAX_MESSAGE_LEN
    }

    /// Accepts at most [`MAX_MESSAGE_LEN`] bytes; a longer vector is handed
    /// back unchanged.
    pub fn new(data: Vec<u8>) -> (r: Result<MessageBlock, Vec<u8>>)
        ensures
            data@.len() <= MAX_MESSAGE_LEN ==> (r matches Ok(m) && m@ == data@ && m.wf()),
            data@.len() > MAX_MESSAGE_LEN ==> (r matches Err(d) && d@ == data@),
    {
        if data.len() > MAX_MESSAGE_LEN {
            return Err(data);
        }
        Ok(MessageBlock { data })
    }

    /// The message length, excluding the two length-field bytes.
    pub fn len(&self) -> (r: usize)
        ensures
            r == self@.len(),
    {
        self.data.len()
    }

    pub fn len_u16(&self) -> (r: u16)
        requires
            self.wf(),
        ensures
            r == self@.len(),
    {
        self.data.len() as u16
    }

    pub fn as_slice(&self) -> (r: &[u8])
        ensures
            r@ == self@,
    {
        self.data.as_slice()
    }

    /// The block's wire bytes: length field, then the message.
    pub fn serialize(&self) -> (r: Vec<u8>)
        requires
            self.wf(),
        ensures
            r@ == spec_block_bytes(self@),
    {
        let mut r = u16_to_be_bytes(self.data.len() as u16);
        let mut tail = slice_to_vec(self.data.as_slice());
        r.append(&mut tail);
        proof {
            assert(r@ =~= spec_block_bytes(self@));
        }
        r
    }

    pub fn into_inner(self) -> (r: Vec<u8>)
        ensures
            r@ == self@,
    {
        self.data
    }

    /// A fresh block holding the same bytes.
    pub fn duplicate(&self) -> (r: MessageBlock)
        ensures
            r@ == self@,
    {
        MessageBlock { data: slice_to_vec(self.data.as_slice()) }
    }
}

/// The concatenated wire bytes of a run of message blocks.
pub open spec fn spec_blocks_bytes(blocks: Seq<Seq<u8>>) -> Seq<u8>
    decreases blocks.len(),
{
    if blocks.len() == 0 {
        Seq::empty()
    } else {
        spec_block_bytes(blocks[0]) + spec_blocks_bytes(blocks.drop_first())
    }
}

/// The block section decoder: from `i`, read `count` length-prefixed blocks.
/// `None` when the bytes run out; trailing bytes are not consumed.
pub open spec fn spec_parse_blocks(bs: Seq<u8>, i: int, count: int) -> Option<Seq<Seq<u8>>>
    decreases count,
{
    if count <= 0 {
        Some(Seq::empty())
    } else if i + 2 > bs.len() {
        None
    } else {
        let ml = spec_u16_from_be_bytes(bs.subrange(i, i + 2)) as int;
        if i + 2 + ml > bs.len() {
            None
        } else {
            match spec_parse_blocks(bs, i + 2 + ml, count - 1) {
                Some(rest) => Some(seq![bs.subrange(i + 2, i + 2 + ml)] + rest),
                None => None,
            }
        }
    }
}

/// The views of a run of blocks.
pub open spec fn spec_block_views(blocks: Seq<MessageBlock>) -> Seq<Seq<u8>> {
    blocks.map_values(|b: MessageBlock| b@)
}

/// One downstream packet: a header and `message_count` message blocks.
#[derive(Clone, Debug, PartialEq, Eq)]
pub struct DownstreamPacket {
    pub header: Header,
    pub message_blocks: Vec<MessageBlock>,
}

impl DownstreamPacket {
    /// Consistent header and blocks: a heartbeat or end-of-session packet has
    /// no blocks; a data packet has exactly `message_count` of them.
    pub open spec fn wf(self) -> bool {
        &&& self.header.wf()
        &&& forall|i: int|
            0 <= i < self.message_blocks@.len() ==> (#[trigger] self.message_blocks@[i]).wf()
        &&& if self.header.message_count == HEARTBEAT_COUNT || self.header.message_count
            == END_SESSION_COUNT {
            self.message_blocks@.len() == 0
        } else {
            self.message_blocks@.len() == self.header.message_count
        }
    }

    /// Frame blocks under a header; the header's count is set to the number
    /// of blocks, which must be below the end-of-session mark.
    pub fn new(header: Header, message_blocks: Vec<MessageBlock>) -> (r: Result<
        DownstreamPacket,
        (),
    >)
        requires
            header.wf(),
            forall|i: int|
                0 <= i < message_blocks@.len() ==> (#[trigger] message_blocks@[i]).wf(),
        ensures
            message_blocks@.len() < END_SESSION_COUNT ==> (r matches Ok(p) && p.header.session@
                == header.session@ && p.header.sequence_number == header.sequence_number
                && p.header.message_count == message_blocks@.len() && p.message_blocks@
                == message_blocks@ && (message_blocks@.len() > 0 ==> p.wf()) && (
            message_blocks@.len() == 0 ==> p.header.message_count == HEARTBEAT_COUNT && p.wf())),
            message_blocks@.len() >= END_SESSION_COUNT ==> r is Err,
    {
        if message_blocks.len() >= END_SESSION_COUNT as usize {
            return Err(());
        }
        let mut header = header;
        header.set_message_count(message_blocks.len() as u16);
        Ok(DownstreamPacket { header, message_blocks })
    }

    /// A heartbeat packet bearing the next sequence number.
    pub fn heartbeat(session: SessionId, next_seq_num: u64) -> (r: DownstreamPacket)
        requires
            session.wf(),
        ensures
            r.header.session@ == session@,
            r.header.sequence_number == next_seq_num,
            r.header.message_count == HEARTBEAT_COUNT,
            r.message_blocks@.len() == 0,
            r.wf(),
    {
        DownstreamPacket {
            header: Header::heartbeat(session, next_seq_num),
            message_blocks: Vec::new(),
        }
    }

    /// An end-of-session packet bearing the next sequence number.
    pub fn end_session(session: SessionId, next_seq_num: u64) -> (r: DownstreamPacket)
        requires
            session.wf(),
        ensures
            r.header.session@ == session@,
            r.header.sequence_number == next_seq_num,
            r.header.message_count == END_SESSION_COUNT,
            r.message_blocks@.len() == 0,
            r.wf(),
    {
        DownstreamPacket {
            header: Header::end_session(session, next_seq_num),
            message_blocks: Vec::new(),
        }
    }

    /// Decode a downstream packet. The header is the first 20 bytes; a
    /// heartbeat or end-of-session packet carries no blocks; a data packet
    /// carries exactly `message_count` blocks. Trailing bytes are ignored.
    #[verifier::loop_isolation(false)]
    pub fn parse(b: &[u8]) -> (r: Result<DownstreamPacket, ()>)
        ensures
            b@.len() < HEADER_LEN ==> r is Err,
            b@.len() >= HEADER_LEN ==> {
                let session = b@.subrange(0, 10);
                let seq_num = spec_u64_from_be_bytes(b@.subrange(10, 18));
                let count = spec_u16_from_be_bytes(b@.subrange(18, 20));
                if count == HEARTBEAT_COUNT || count == END_SESSION_COUNT {
                    r matches Ok(p) && p.header.session@ == session && p.header.sequence_number
                        == seq_num && p.header.message_count == count && p.message_blocks@.len()
                        == 0 && p.wf()
                } else {
                    match spec_parse_blocks(b@, HEADER_LEN as int, count as int) {
                        Some(views) => r matches Ok(p) && p.header.session@ == session
                            && p.header.sequence_number == seq_num && p.header.message_count
                            == count && spec_block_views(p.message_blocks@) == views && p.wf(),
                        None => r is Err,
                    }
                }
            },
    {
        if b.len() < HEADER_LEN {
            return Err(());
        }
        let header = match Header::parse(slice_subrange(b, 0, HEADER_LEN)) {
            Ok(h) => h,
            Err(_) => {
                proof {
                    assert(false);
                }
                return Err(());
            },
        };
        proof {
            assert(b@.subrange(0, HEADER_LEN as int).subrange(0, 10) =~= b@.subrange(0, 10));
            assert(b@.subrange(0, HEADER_LEN as int).subrange(10, 18) =~= b@.subrange(10, 18));
            assert(b@.subrange(0, HEADER_LEN as int).subrange(18, 20) =~= b@.subrange(18, 20));
        }
        if header.is_heartbeat() || header.is_end_session() {
            return Ok(DownstreamPacket { header, message_blocks: Vec::new() });
        }
        let count = header.message_count() as usize;
        let mut message_blocks: Vec<MessageBlock> = Vec::new();
        let mut i: usize = HEADER_LEN;
        let mut done: usize = 0;
        proof {
            assert(spec_block_views(message_blocks@) =~= Seq::<Seq<u8>>::empty());
            match spec_parse_blocks(b@, HEADER_LEN as int, count as int) {
                Some(rest) => {
                    assert(spec_block_views(message_blocks@) + rest =~= rest);
                },
                None => {},
            }
        }
        while done < count
            invariant
                HEADER_LEN <= i <= b@.len(),
                done <= count,
                count < END_SESSION_COUNT,
                forall|k: int|
                    0 <= k < message_blocks@.len() ==> (#[trigger] message_blocks@[k]).wf(),
                message_blocks@.len() == done,
                spec_parse_blocks(b@, HEADER_LEN as int, count as int) == (match spec_parse_blocks(
                    b@,
                    i as int,
                    (count - done) as int,
                ) {
                    Some(rest) => Some(spec_block_views(message_blocks@) + rest),
                    None => None::<Seq<Seq<u8>>>,
                }),
            decreases count - done,
        {
            if i > b.len() || b.len() - i < 2 {
                proof {
                    assert(spec_parse_blocks(b@, i as int, (count - done) as int) is None);
                }
                return Err(());
            }
            let ml = u16_from_be_bytes(slice_subrange(b, i, i + 2)) as usize;
            if b.len() - i - 2 < ml {
                proof {
                    assert(spec_parse_blocks(b@, i as int, (count - done) as int) is None);
                }
                return Err(());
            }
            let data = slice_to_vec(slice_subrange(b, i + 2, i + 2 + ml));
            let ghost prev = message_blocks@;
            let ghost piece = b@.subrange(i as int + 2, i as int + 2 + ml as int);
            message_blocks.push(MessageBlock { data });
            proof {
                assert(spec_block_views(message_blocks@) =~= spec_block_views(prev).push(piece));
                let rem = (count - done) as int;
                match spec_parse_blocks(b@, i as int + 2 + ml as int, rem - 1) {
                    Some(rest2) => {
                        assert(spec_parse_blocks(b@, i as int, rem) == Some(seq![piece] + rest2));
                        assert(spec_block_views(prev) + (seq![piece] + rest2) =~= spec_block_views(
                            message_blocks@,
                        ) + rest2);
                    },
                    None => {
                        assert(spec_parse_blocks(b@, i as int, rem) is None);
                    },
                }
            }
            i = i + 2 + ml;
            done += 1;
        }
        proof {
            assert(spec_block_views(message_blocks@) + Seq::<Seq<u8>>::empty() =~= spec_block_views(
                message_blocks@,
            ));
        }
        Ok(DownstreamPacket { header, message_blocks })
    }

    /// The packet's wire bytes: the header, then each block in order.
    pub fn serialize(&self) -> (r: Vec<u8>)
        requires
            self.header.wf(),
            forall|i: int|
                0 <= i < self.message_blocks@.len() ==> (#[trigger] self.message_blocks@[i]).wf(),
        ensures
            r@ == spec_header_bytes(
                self.header.session@,
                self.header.sequence_number,
                self.header.message_count,
            ) + spec_blocks_bytes(spec_block_views(self.message_blocks@)),
    {
        let mut r = self.header.serialize();
        let mut k: usize = 0;
        while k < self.message_blocks.len()
            invariant
                self.header.wf(),
                forall|i: int|
                    0 <= i < self.message_blocks@.len() ==> (
                    #[trigger] self.message_blocks@[i]).wf(),
                k <= self.message_blocks@.len(),
                r@ == spec_header_bytes(
                    self.header.session@,
                    self.header.sequence_number,
                    self.header.message_count,
                ) + spec_blocks_bytes(
                    spec_block_views(self.message_blocks@.subrange(0, k as int)),
                ),
            decreases self.message_blocks@.len() - k,
        {
            let mut block_bytes = self.message_blocks[k].serialize();
            r.append(&mut block_bytes);
            proof {
                lemma_blocks_bytes_push(
                    spec_block_views(self.message_blocks@.subrange(0, k as int)),
                    self.message_blocks@[k as int]@,
                );
                assert(spec_block_views(self.message_blocks@.subrange(0, k + 1)) =~= spec_block_views(
                    self.message_blocks@.subrange(0, k as int),
                ).push(self.message_blocks@[k as int]@));
            }
            k += 1;
        }
        proof {
            assert(self.message_blocks@.subrange(0, self.message_blocks@.len() as int)
                =~= self.message_blocks@);
        }
        r
    }
}

/// Appending one block's bytes extends the serialized block section.
proof fn lemma_blocks_bytes_push(views: Seq<Seq<u8>>, last: Seq<u8>)
    ensures
        spec_blocks_bytes(views.push(last)) == spec_blocks_bytes(views) + spec_block_bytes(last),
    decreases views.len(),
{
    let p = views.push(last);
    if views.len() == 0 {
        assert(p.drop_first() =~= Seq::<Seq<u8>>::empty());
        assert(p[0] == last);
        assert(spec_blocks_bytes(p) == spec_block_bytes(p[0]) + spec_blocks_bytes(p.drop_first()));
        assert(spec_blocks_bytes(p) =~= spec_block_bytes(last));
        assert(spec_blocks_bytes(views) + spec_block_bytes(last) =~= spec_block_bytes(last));
    } else {
        assert(p.drop_first() =~= views.drop_first().push(last));
        assert(p[0] == views[0]);
        lemma_blocks_bytes_push(views.drop_first(), last);
        assert(spec_blocks_bytes(p) == spec_block_bytes(p[0]) + spec_blocks_bytes(p.drop_first()));
        assert(spec_blocks_bytes(p) =~= spec_blocks_bytes(views) + spec_block_bytes(last));
    }
}

/// A 20-byte unicast retransmission request: session id, the first sequence
/// number wanted, and how many messages are wanted.
#[derive(Clone, Debug, PartialEq, Eq)]
pub struct RequestPacket {
    pub session: SessionId,
    pub sequence_number: u64,
    pub message_count: u16,
}

impl RequestPacket {
    pub open spec fn wf(self) -> bool {
        self.session.wf()
    }

    pub fn new(session: SessionId, seq_num: u64, msg_count: u16) -> (r: RequestPacket)
        requires
            session.wf(),
        ensures
            r.session@ == session@,
            r.sequence_number == seq_num,
            r.message_count == msg_count,
            r.wf(),
    {
        RequestPacket { session, sequence_number: seq_num, message_count: msg_count }
    }

    /// Decode a request packet from exactly 20 bytes.
    pub fn parse(b: &[u8]) -> (r: Result<RequestPacket, ()>)
        ensures
            b@.len() == HEADER_LEN ==> (r matches Ok(p) && p.session@ == b@.subrange(0, 10)
                && p.sequence_number == spec_u64_from_be_bytes(b@.subrange(10, 18))
                && p.message_count == spec_u16_from_be_bytes(b@.subrange(18, 20)) && p.wf()),
            b@.len() != HEADER_LEN ==> r is Err,
    {
        match Header::parse(b) {
            Ok(h) => Ok(
                RequestPacket {
                    session: h.session,
                    sequence_number: h.sequence_number,
                    message_count: h.message_count,
                },
            ),
            Err(_) => Err(()),
        }
    }

    pub fn session(&self) -> (r: SessionId)
        requires
            self.wf(),
        ensures
            r@ == self.session@,
            r.wf(),
    {
        SessionId { bytes: slice_to_vec(self.session.as_slice()) }
    }

    pub fn sequence_number(&self) -> (r: u64)
        ensures
            r == self.sequence_number,
    {
        self.sequence_number
    }

    pub fn message_count(&self) -> (r: u16)
        ensures
            r == self.message_count,
    {
        self.message_count
    }

    pub fn set_session(&mut self, id: SessionId)
        requires
            id.wf(),
        ensures
            final(self).session@ == id@,
            final(self).sequence_number == old(self).sequence_number,
            final(self).message_count == old(self).message_count,
    {
        self.session = id;
    }

    pub fn set_sequence_number(&mut self, n: u64)
        ensures
            final(self).session == old(self).session,
            final(self).sequence_number == n,
            final(self).message_count == old(self).message_count,
    {
        self.sequence_number = n;
    }

    pub fn set_message_count(&mut self, n: u16)
        ensures
            final(self).session == old(self).session,
            final(self).sequence_number == old(self).sequence_number,
            final(self).message_count == n,
    {
        self.message_count = n;
    }

    /// The request's 20 wire bytes.
    pub fn serialize(&self) -> (r: Vec<u8>)
        requires
            self.wf(),
        ensures
            r@ == spec_header_bytes(self.session@, self.sequence_number, self.message_count),
            r@.len() == HEADER_LEN,
    {
        let h = Header {
            session: SessionId { bytes: slice_to_vec(self.session.as_slice()) },
            sequence_number: self.sequence_number,
            message_count: self.message_count,
        };
        h.serialize()
    }
}

/// Round trip: a well-formed downstream packet's wire bytes parse back to a
/// packet with the same header and the same block contents.
pub proof fn lemma_downstream_roundtrip(session: Seq<u8>, seq_num: u64, count: u16, views: Seq<Seq<u8>>)
    requires
        session.len() == SESSION_ID_LEN,
        forall|i: int| 0 <= i < views.len() ==> (#[trigger] views[i]).len() <= MAX_MESSAGE_LEN,
        count == HEARTBEAT_COUNT || count == END_SESSION_COUNT ==> views.len() == 0,
        count != HEARTBEAT_COUNT && count != END_SESSION_COUNT ==> views.len() == count,
    ensures
        ({
            let bs = spec_header_bytes(session, seq_num, count) + spec_blocks_bytes(views);
            &&& bs.len() >= HEADER_LEN
            &&& bs.subrange(0, 10) == session
            &&& spec_u64_from_be_bytes(bs.subrange(10, 18)) == seq_num
            &&& spec_u16_from_be_bytes(bs.subrange(18, 20)) == count
            &&& (count != HEARTBEAT_COUNT && count != END_SESSION_COUNT ==> spec_parse_blocks(
                bs,
                HEADER_LEN as int,
                count as int,
            ) == Some(views))
        }),
{
    let bs = spec_header_bytes(session, seq_num, count) + spec_blocks_bytes(views);
    lemma_u64_be_bytes_roundtrip(seq_num);
    lemma_u16_be_bytes_roundtrip(count);
    assert(bs.subrange(0, 10) =~= session);
    assert(bs.subrange(10, 18) =~= spec_u64_to_be_bytes(seq_num));
    assert(bs.subrange(18, 20) =~= spec_u16_to_be_bytes(count));
    if count != HEARTBEAT_COUNT && count != END_SESSION_COUNT {
        assert(bs.subrange(HEADER_LEN as int, bs.len() as int) =~= spec_blocks_bytes(views));
        lemma_parse_blocks_roundtrip(bs, HEADER_LEN as int, views);
    }
}

/// The block section written from `views` parses back to `views` when it
/// stands at offset `i` and runs to the end of the buffer.
proof fn lemma_parse_blocks_roundtrip(bs: Seq<u8>, i: int, views: Seq<Seq<u8>>)
    requires
        0 <= i,
        i + spec_blocks_bytes(views).len() == bs.len(),
        bs.subrange(i, bs.len() as int) == spec_blocks_bytes(views),
        forall|k: int| 0 <= k < views.len() ==> (#[trigger] views[k]).len() <= MAX_MESSAGE_LEN,
    ensures
        spec_parse_blocks(bs, i, views.len() as int) == Some(views),
    decreases views.len(),
{
    if views.len() == 0 {
        assert(spec_parse_blocks(bs, i, 0) == Some(Seq::<Seq<u8>>::empty()));
        assert(views =~= Seq::<Seq<u8>>::empty());
    } else {
        let head = views[0];
        let rest = views.drop_first();
        let tail = bs.subrange(i, bs.len() as int);
        let rest_bytes = spec_blocks_bytes(rest);
        lemma_u16_be_bytes_roundtrip(head.len() as u16);
        let ml = head.len() as int;
        assert(tail == spec_block_bytes(head) + rest_bytes);
        assert forall|k: int| 0 <= k < 2 implies #[trigger] bs.subrange(i, i + 2)[k]
            == spec_u16_to_be_bytes(head.len() as u16)[k] by {
            assert(tail[k] == (spec_block_bytes(head) + rest_bytes)[k]);
            assert((spec_block_bytes(head) + rest_bytes)[k] == spec_block_bytes(head)[k]);
        }
        assert(bs.subrange(i, i + 2) =~= spec_u16_to_be_bytes(head.len() as u16));
        assert forall|k: int| 0 <= k < ml implies #[trigger] bs.subrange(i + 2, i + 2 + ml)[k]
            == head[k] by {
            assert(tail[2 + k] == (spec_block_bytes(head) + rest_bytes)[2 + k]);
            assert((spec_block_bytes(head) + rest_bytes)[2 + k] == spec_block_bytes(head)[2 + k]);
            assert(spec_block_bytes(head)[2 + k] == head[k]);
        }
        assert(bs.subrange(i + 2, i + 2 + ml) =~= head);
        assert forall|k: int| 0 <= k < rest_bytes.len() implies #[trigger] bs.subrange(
            i + 2 + ml,
            bs.len() as int,
        )[k] == rest_bytes[k] by {
            assert(tail[2 + ml + k] == (spec_block_bytes(head) + rest_bytes)[2 + ml + k]);
            assert((spec_block_bytes(head) + rest_bytes)[2 + ml + k] == rest_bytes[k]);
        }
        assert(bs.subrange(i + 2 + ml, bs.len() as int) =~= spec_blocks_bytes(rest));
        lemma_parse_blocks_roundtrip(bs, i + 2 + ml, rest);
        assert(seq![head] + rest =~= views);
    }
}

} // verus!
