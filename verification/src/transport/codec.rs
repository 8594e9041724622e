//! Framing of packets on a byte stream.

use bytes::BytesMut;
use vstd::prelude::*;

use crate::buffer;
use crate::error::NetworkError;
use crate::messaging::{PacketView, RawPacket};

verus! {

/// The length of a frame's header: the payload's length, the type and the
/// flags.
pub const HEADER_LEN: usize = 7;

/// A packet on the wire: the length of the payload (four bytes), the type
/// (two bytes), both in big-endian order, the flags, the payload.
pub open spec fn frame(p: PacketView) -> Seq<u8> {
    buffer::be32(p.payload.len() as u32) + buffer::be16(p.msg_type) + seq![p.flags] + p.payload
}

/// The length that a frame's header declares.
pub open spec fn declared_len(s: Seq<u8>) -> nat {
    (s[0] * 0x100_0000 + s[1] * 0x1_0000 + s[2] * 0x100 + s[3]) as nat
}

/// What stands at the front of a stream.
#[verifier::ext_equal]
pub enum Front {
    /// The header or the payload is not there in full.
    Incomplete,
    /// The header declares more than is allowed.
    TooLarge(nat),
    /// A packet, and the bytes behind it.
    Packet(PacketView, Seq<u8>),
}

/// Look at the front of a stream.
pub open spec fn front(s: Seq<u8>, max_message_size: u32) -> Front {
    if s.len() < HEADER_LEN {
        Front::Incomplete
    } else if declared_len(s) > max_message_size {
        Front::TooLarge(declared_len(s))
    } else if s.len() < HEADER_LEN + declared_len(s) {
        Front::Incomplete
    } else {
        let end = HEADER_LEN + declared_len(s);
        Front::Packet(
            PacketView {
                msg_type: (s[4] * 0x100 + s[5]) as u16,
                flags: s[6],
                payload: s.subrange(HEADER_LEN as int, end as int),
            },
            s.skip(end as int),
        )
    }
}

/// All packets that stand in full at the front of a stream, and the bytes
/// behind them.
pub open spec fn read_all(s: Seq<u8>, max_message_size: u32) -> (Seq<PacketView>, Seq<u8>)
    decreases s.len(),
{
    match front(s, max_message_size) {
        Front::Packet(p, rest) if rest.len() < s.len() => {
            let (tail, left) = read_all(rest, max_message_size);
            (seq![p] + tail, left)
        },
        _ => (seq![], s),
    }
}

/// Packets on the wire, one after the other.
pub open spec fn stream(ps: Seq<PacketView>) -> Seq<u8>
    decreases ps.len(),
{
    if ps.len() == 0 {
        seq![]
    } else {
        frame(ps[0]) + stream(ps.skip(1))
    }
}

/// Does every packet keep within the limit?
pub open spec fn all_fit(ps: Seq<PacketView>, max_message_size: u32) -> bool {
    forall|i: int| 0 <= i < ps.len() ==> (#[trigger] ps[i]).payload.len() <= max_message_size
}

proof fn lemma_header(p: PacketView, rest: Seq<u8>)
    requires
        p.payload.len() <= u32::MAX,
    ensures
        ({
            let s = frame(p) + rest;
            &&& frame(p).len() == HEADER_LEN + p.payload.len()
            &&& declared_len(s) == p.payload.len()
            &&& (s[4] * 0x100 + s[5]) as u16 == p.msg_type
            &&& s[6] == p.flags
        }),
{
    let s = frame(p) + rest;
    let n = p.payload.len() as u32;
    let t = p.msg_type;
    assert(s[0] == (n / 0x100_0000) as u8);
    assert(s[1] == (n / 0x1_0000 % 0x100) as u8);
    assert(s[2] == (n / 0x100 % 0x100) as u8);
    assert(s[3] == (n % 0x100) as u8);
    assert(s[4] == (t / 0x100) as u8);
    assert(s[5] == (t % 0x100) as u8);
    assert(n / 0x100_0000 * 0x100_0000 + n / 0x1_0000 % 0x100 * 0x1_0000 + n / 0x100 % 0x100 * 0x100
        + n % 0x100 == n) by (bit_vector);
}

/// Reading a frame gives back the packet, and what stands behind the frame
/// is left untouched.
pub proof fn law_frame_round_trip(p: PacketView, rest: Seq<u8>, max_message_size: u32)
    requires
        p.payload.len() <= max_message_size,
    ensures
        front(frame(p) + rest, max_message_size) == Front::Packet(p, rest),
{
    lemma_header(p, rest);
    let s = frame(p) + rest;
    let end = HEADER_LEN + p.payload.len();
    assert(s.subrange(HEADER_LEN as int, end as int) =~= p.payload);
    assert(s.skip(end as int) =~= rest);
}

/// A frame that has not arrived in full is waited for.
pub proof fn law_partial_frame_is_waited_for(p: PacketView, n: int, max_message_size: u32)
    requires
        p.payload.len() <= max_message_size,
        0 <= n < frame(p).len(),
    ensures
        front(frame(p).take(n), max_message_size) == Front::Incomplete,
{
    lemma_header(p, seq![]);
    assert(frame(p) + Seq::<u8>::empty() =~= frame(p));
    let s = frame(p).take(n);
    if n >= HEADER_LEN {
        assert(declared_len(s) == declared_len(frame(p)));
    }
}

/// Packets that were written one after the other are read in the same order,
/// up to a frame that has not arrived in full.
pub proof fn law_stream_round_trip(ps: Seq<PacketView>, tail: Seq<u8>, max_message_size: u32)
    requires
        all_fit(ps, max_message_size),
        !(front(tail, max_message_size) is Packet),
    ensures
        read_all(stream(ps) + tail, max_message_size) == (ps, tail),
    decreases ps.len(),
{
    if ps.len() == 0 {
        assert(stream(ps) + tail =~= tail);
        assert(ps =~= seq![]);
    } else {
        let rest = stream(ps.skip(1)) + tail;
        assert(stream(ps) + tail =~= frame(ps[0]) + rest);
        law_frame_round_trip(ps[0], rest, max_message_size);
        lemma_header(ps[0], rest);
        assert forall|i: int| 0 <= i < ps.skip(1).len() implies (#[trigger] ps.skip(
            1,
        )[i]).payload.len() <= max_message_size by {
            assert(ps.skip(1)[i] == ps[i + 1]);
        }
        law_stream_round_trip(ps.skip(1), tail, max_message_size);
        assert(seq![ps[0]] + ps.skip(1) =~= ps);
    }
}

// --- bytes that arrive in pieces --------------------------------------------
/// Whatever bytes a stream is made of, it does not matter for the packets
/// where it is cut: those of its first part are followed by those of what
/// that part leaves over and the second part.
pub proof fn law_cut_makes_no_difference(s: Seq<u8>, t: Seq<u8>, max_message_size: u32)
    ensures
        ({
            let (first, left) = read_all(s, max_message_size);
            let (second, rest) = read_all(left + t, max_message_size);
            read_all(s + t, max_message_size) == (first + second, rest)
        }),
    decreases s.len(),
{
    match front(s, max_message_size) {
        Front::Packet(p, rest) if rest.len() < s.len() => {
            assert(declared_len(s + t) == declared_len(s));
            let end = HEADER_LEN + declared_len(s);
            assert((s + t).subrange(HEADER_LEN as int, end as int) =~= p.payload);
            assert((s + t).skip(end as int) =~= rest + t);
            assert(front(s + t, max_message_size) == Front::Packet(p, rest + t));
            law_cut_makes_no_difference(rest, t, max_message_size);
            let (tail, left) = read_all(rest, max_message_size);
            let (second, last) = read_all(left + t, max_message_size);
            assert(seq![p] + (tail + second) =~= (seq![p] + tail) + second);
        },
        _ => {
            let (second, rest) = read_all(s + t, max_message_size);
            assert(Seq::<PacketView>::empty() + second =~= second);
        },
    }
}

/// What can happen to a stream that is being read.
pub enum Step {
    /// More bytes arrive in the buffer.
    Arrive(Seq<u8>),
    /// The codec is asked for a packet.
    Decode,
}

/// A stream that is being read.
#[verifier::ext_equal]
pub struct Reading {
    /// The packets that the codec gave so far.
    pub packets: Seq<PacketView>,
    /// The bytes in the buffer.
    pub pending: Seq<u8>,
    /// Did the codec ever refuse a frame?
    pub refused: bool,
}

impl Reading {
    /// Nothing has arrived yet.
    pub open spec fn initial() -> Self {
        Reading { packets: seq![], pending: seq![], refused: false }
    }

    /// After one more step.
    pub open spec fn after(self, step: Step, max_message_size: u32) -> Self {
        match step {
            Step::Arrive(bytes) => Reading { pending: self.pending + bytes, ..self },
            Step::Decode => match front(self.pending, max_message_size) {
                Front::Incomplete => self,
                Front::TooLarge(_) => Reading { refused: true, ..self },
                Front::Packet(p, rest) => Reading {
                    packets: self.packets.push(p),
                    pending: rest,
                    ..self
                },
            },
        }
    }

    /// After several steps, from the beginning.
    pub open spec fn after_all(steps: Seq<Step>, max_message_size: u32) -> Self
        decreases steps.len(),
    {
        if steps.len() == 0 {
            Reading::initial()
        } else {
            Reading::after_all(steps.drop_last(), max_message_size).after(
                steps.last(),
                max_message_size,
            )
        }
    }
}

/// All bytes that arrive in several steps.
pub open spec fn arrived(steps: Seq<Step>) -> Seq<u8>
    decreases steps.len(),
{
    if steps.len() == 0 {
        seq![]
    } else {
        match steps.last() {
            Step::Arrive(bytes) => arrived(steps.drop_last()) + bytes,
            Step::Decode => arrived(steps.drop_last()),
        }
    }
}

/// At the front of a part of a stream stands its first packet, or too little.
proof fn lemma_front_of_part(ps: Seq<PacketView>, part: Seq<u8>, max_message_size: u32)
    requires
        all_fit(ps, max_message_size),
        part.is_prefix_of(stream(ps)),
    ensures
        match front(part, max_message_size) {
            Front::Incomplete => part == stream(ps) ==> ps.len() == 0,
            Front::TooLarge(_) => false,
            Front::Packet(p, rest) => {
                &&& ps.len() > 0
                &&& p == ps[0]
                &&& part == frame(p) + rest
                &&& rest.is_prefix_of(stream(ps.skip(1)))
            },
        },
{
    if ps.len() > 0 {
        let p = ps[0];
        let whole = frame(p);
        lemma_header(p, seq![]);
        assert(whole + Seq::<u8>::empty() =~= whole);
        if part.len() < whole.len() {
            assert(part =~= whole.take(part.len() as int));
            law_partial_frame_is_waited_for(p, part.len() as int, max_message_size);
        } else {
            let rest = part.skip(whole.len() as int);
            assert(part =~= whole + rest);
            assert(rest =~= stream(ps.skip(1)).take(rest.len() as int));
            law_frame_round_trip(p, rest, max_message_size);
        }
    }
}

/// A stream is that of its first packets, followed by that of the others.
proof fn lemma_stream_split(ps: Seq<PacketView>, k: int)
    requires
        0 <= k <= ps.len(),
    ensures
        stream(ps) == stream(ps.take(k)) + stream(ps.skip(k)),
    decreases k,
{
    if k == 0 {
        assert(ps.skip(0) =~= ps);
        assert(stream(ps) =~= stream(ps.take(0)) + stream(ps));
    } else {
        let others = ps.skip(1);
        lemma_stream_split(others, k - 1);
        assert(ps.take(k).skip(1) =~= others.take(k - 1));
        assert(others.skip(k - 1) =~= ps.skip(k));
        assert(stream(ps) =~= stream(ps.take(k)) + stream(ps.skip(k)));
    }
}

/// The bytes of packets that were written one after the other arrive in any
/// pieces, and the codec is asked for packets at any times. Then it gives the
/// packets in their order, refuses none, and loses no byte: those of the
/// packets that it gave and those in the buffer are those that have arrived.
/// Once all have arrived and the codec has no packet to give, it has given
/// all packets, and the buffer is empty.
pub proof fn law_pieces_make_no_difference(
    ps: Seq<PacketView>,
    steps: Seq<Step>,
    max_message_size: u32,
)
    requires
        all_fit(ps, max_message_size),
        arrived(steps).is_prefix_of(stream(ps)),
    ensures
        ({
            let r = Reading::after_all(steps, max_message_size);
            &&& r.packets.is_prefix_of(ps)
            &&& !r.refused
            &&& stream(r.packets) + r.pending == arrived(steps)
            &&& !(front(r.pending, max_message_size) is TooLarge)
            &&& arrived(steps) == stream(ps) && front(r.pending, max_message_size) is Incomplete
                ==> r.packets == ps && r.pending == Seq::<u8>::empty()
        }),
    decreases steps.len(),
{
    let r = Reading::after_all(steps, max_message_size);
    if steps.len() > 0 {
        let before = steps.drop_last();
        let q = Reading::after_all(before, max_message_size);
        assert(arrived(before) =~= stream(ps).take(arrived(before).len() as int));
        law_pieces_make_no_difference(ps, before, max_message_size);
        match steps.last() {
            Step::Arrive(bytes) => {
                assert(stream(r.packets) + r.pending =~= arrived(before) + bytes);
            },
            Step::Decode => {
                lemma_part(ps, q, arrived(before), max_message_size);
                if let Front::Packet(p, rest) = front(q.pending, max_message_size) {
                    let k = q.packets.len() as int;
                    assert(r.packets =~= ps.take(k + 1));
                    lemma_stream_split(r.packets, k);
                    assert(r.packets.take(k) =~= q.packets);
                    assert(r.packets.skip(k) =~= seq![p]);
                    assert(stream(seq![p]) =~= frame(p)) by {
                        reveal_with_fuel(stream, 2);
                        assert(seq![p].skip(1) =~= Seq::<PacketView>::empty());
                    }
                    assert(stream(r.packets) + r.pending =~= stream(q.packets) + q.pending);
                }
            },
        }
    } else {
        assert(r.packets =~= ps.take(0));
        assert(stream(r.packets) + r.pending =~= arrived(steps));
    }
    lemma_part(ps, r, arrived(steps), max_message_size);
}

/// What is in the buffer is a part of the stream of the packets that are
/// still to come.
proof fn lemma_part(ps: Seq<PacketView>, r: Reading, bytes: Seq<u8>, max_message_size: u32)
    requires
        all_fit(ps, max_message_size),
        bytes.is_prefix_of(stream(ps)),
        r.packets.is_prefix_of(ps),
        stream(r.packets) + r.pending == bytes,
    ensures
        ({
            let others = ps.skip(r.packets.len() as int);
            match front(r.pending, max_message_size) {
                Front::Incomplete => bytes == stream(ps) ==> r.packets == ps && r.pending
                    == Seq::<u8>::empty(),
                Front::TooLarge(_) => false,
                Front::Packet(p, rest) => {
                    &&& others.len() > 0
                    &&& p == others[0]
                    &&& r.pending == frame(p) + rest
                },
            }
        }),
{
    let k = r.packets.len() as int;
    let others = ps.skip(k);
    assert(r.packets =~= ps.take(k));
    lemma_stream_split(ps, k);
    let given = stream(r.packets).len() as int;
    assert(r.pending =~= bytes.skip(given));
    assert(stream(others) =~= stream(ps).skip(given));
    assert(r.pending =~= stream(others).take(r.pending.len() as int));
    assert forall|i: int| 0 <= i < others.len() implies (#[trigger] others[i]).payload.len()
        <= max_message_size by {
        assert(others[i] == ps[i + k]);
    }
    lemma_front_of_part(others, r.pending, max_message_size);
    if bytes == stream(ps) && front(r.pending, max_message_size) is Incomplete {
        assert(r.pending =~= stream(others));
        assert(r.packets =~= ps);
    }
}

/// Frames packets for a stream and takes them out of it, and keeps them
/// within a maximum size.
pub struct PacketCodec {
    max_message_size: u32,
}

impl PacketCodec {
    /// The maximum size of a payload.
    pub closed spec fn limit(&self) -> u32 {
        self.max_message_size
    }

    /// A codec for payloads of at most `max_message_size` bytes.
    pub fn new(max_message_size: u32) -> (r: Self)
        ensures
            r.limit() == max_message_size,
    {
        Self { max_message_size }
    }

    /// Take a packet out of the buffer, if one is there in full. A machine
    /// whose memory cannot hold the largest frame is ruled out.
    pub fn decode(&mut self, src: &mut BytesMut) -> (r: Result<Option<RawPacket>, NetworkError>)
        requires
            HEADER_LEN + old(self).limit() <= isize::MAX,
        ensures
            *final(self) == *old(self),
            match front(buffer::pending(*old(src)), old(self).limit()) {
                Front::Incomplete => {
                    &&& r == Ok::<Option<RawPacket>, NetworkError>(None)
                    &&& buffer::pending(*final(src)) == buffer::pending(*old(src))
                },
                Front::TooLarge(n) => {
                    &&& r == Err::<Option<RawPacket>, NetworkError>(
                        NetworkError::MessageTooLarge(n as u32),
                    )
                    &&& buffer::pending(*final(src)) == buffer::pending(*old(src))
                },
                Front::Packet(p, rest) => {
                    &&& r matches Ok(Some(q)) && q@ == p
                    &&& buffer::pending(*final(src)) == rest
                },
            },
    {
        let head = buffer::buf_as_slice(src);
        let available: usize = head.len();
        if available < HEADER_LEN {
            return Ok(None);
        }
        let length: u32 = head[0] as u32 * 0x100_0000 + head[1] as u32 * 0x1_0000 + head[2] as u32
            * 0x100 + head[3] as u32;
        let msg_type: u16 = head[4] as u16 * 0x100 + head[5] as u16;
        let flags: u8 = head[6];
        if length > self.max_message_size {
            return Err(NetworkError::MessageTooLarge(length));
        }
        let total: usize = HEADER_LEN + length as usize;
        if available < total {
            buffer::buf_reserve(src, total - available);
            return Ok(None);
        }
        let ghost s = buffer::pending(*src);
        let _header = buffer::buf_split_to(src, HEADER_LEN);
        let payload = buffer::buf_split_to(src, length as usize);
        assert(s.skip(HEADER_LEN as int).take(length as int) =~= s.subrange(
            HEADER_LEN as int,
            total as int,
        ));
        assert(s.skip(HEADER_LEN as int).skip(length as int) =~= s.skip(total as int));
        Ok(Some(RawPacket { msg_type, flags, payload: buffer::buf_freeze(payload) }))
    }

    /// Append a packet's frame to the buffer. The buffer must have room: no
    /// allocation is larger than `isize::MAX` bytes.
    pub fn encode(&mut self, item: RawPacket, dst: &mut BytesMut) -> (r: Result<(), NetworkError>)
        requires
            buffer::pending(*old(dst)).len() + HEADER_LEN + item@.payload.len() <= isize::MAX,
        ensures
            *final(self) == *old(self),
            match r {
                Ok(()) => {
                    &&& item@.payload.len() <= old(self).limit()
                    &&& buffer::pending(*final(dst)) == buffer::pending(*old(dst)) + frame(item@)
                },
                Err(e) => {
                    &&& item@.payload.len() > old(self).limit()
                    &&& e == NetworkError::MessageTooLarge(item@.payload.len() as u32)
                    &&& buffer::pending(*final(dst)) == buffer::pending(*old(dst))
                },
            },
    {
        let payload = buffer::bytes_as_slice(&item.payload);
        if payload.len() as u64 > self.max_message_size as u64 {
            return Err(NetworkError::MessageTooLarge(#[verifier::truncate] (payload.len() as u32)));
        }
        let ghost before = buffer::pending(*dst);
        buffer::buf_reserve(dst, HEADER_LEN + payload.len());
        buffer::buf_put_u32(dst, payload.len() as u32);
        buffer::buf_put_u16(dst, item.msg_type);
        buffer::buf_put_u8(dst, item.flags);
        buffer::buf_put_slice(dst, payload);
        assert(buffer::pending(*dst) =~= before + frame(item@));
        Ok(())
    }
}

} // verus!
