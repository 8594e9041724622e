//! Promises of packets: what goes into one, how it stands on the wire, and
//! that what is read is what was written.

use bytes::{Bytes, BytesMut};
use vstd::prelude::*;

use crate::buffer;
use crate::error::NetworkError;
use crate::laws::routing;
use crate::messaging::{self, PacketView, RawPacket};
use crate::protocol::InternalMessage;
use crate::transport::codec::{self, PacketCodec};
use crate::wire;

verus! {

/// The two questions that a packet is asked: an internal message is one of a
/// type below 0x0100, and the lowest flag bit says that it is compressed.
pub proof fn law_what_a_packet_says_of_itself(
    p: &RawPacket,
    compressed: bool,
    internal: bool,
)
    requires
        call_ensures(RawPacket::is_compressed, (p,), compressed),
        call_ensures(RawPacket::is_internal, (p,), internal),
    ensures
        internal <==> p@.msg_type < 0x0100,
        compressed <==> p@.flags % 2 == 1,
{
    let f = p@.flags;
    assert(f & 0x01 != 0 <==> f % 2 == 1) by (bit_vector);
}

/// A packet made of parts holds just these.
pub proof fn law_packet_of_parts(msg_type: u16, flags: u8, payload: Vec<u8>, r: RawPacket)
    requires
        call_ensures(RawPacket::from_parts, (msg_type, flags, payload), r),
    ensures
        r@.msg_type == msg_type,
        r@.flags == flags,
        r@.payload == payload@,
{
}

/// A payload goes into its packet compressed if it was compressed and that
/// made it shorter, else as it is; the lowest flag bit says which, the others
/// are the user's.
pub proof fn law_shorter_form_is_packed(
    msg_type: u16,
    data: &[u8],
    flags: u8,
    compressed: Option<Vec<u8>>,
    r: RawPacket,
)
    requires
        call_ensures(messaging::pack, (msg_type, data, flags, compressed), r),
    ensures
        r@.msg_type == msg_type,
        r@.flags / 2 == flags / 2,
        (compressed matches Some(c) && c@.len() < data@.len()) ==> r@.payload == compressed->0@
            && r@.flags % 2 == 1,
        (compressed is None || compressed->0@.len() >= data@.len()) ==> r@.payload == data@
            && r@.flags % 2 == 0,
{
    assert(((flags & 0xFE) | 0x01) % 2 == 1 && ((flags & 0xFE) | 0x01) / 2 == flags / 2)
        by (bit_vector);
    assert((flags & 0xFE) % 2 == 0 && (flags & 0xFE) / 2 == flags / 2) by (bit_vector);
}

/// A user message within the limits becomes a packet that carries it; one of
/// another type, or one that is too large, is an error. Up to the threshold
/// it is not compressed; beyond it, it is compressed if that makes it
/// shorter.
pub proof fn law_user_message_becomes_a_packet(
    msg_type: u16,
    data: &[u8],
    flags: u8,
    threshold: u32,
    limit: u32,
    r: Result<RawPacket, NetworkError>,
)
    requires
        call_ensures(messaging::encode_packet, (msg_type, data, flags, threshold, limit), r),
    ensures
        msg_type < 0x0100 ==> r matches Err(NetworkError::InvalidArgument(_)),
        msg_type >= 0x0100 && data@.len() > limit ==> r matches Err(
            NetworkError::MessageTooLarge(_),
        ),
        msg_type >= 0x0100 && data@.len() <= limit ==> {
            &&& r is Ok
            &&& routing::carries(r->Ok_0@, msg_type, data@, flags)
            &&& data@.len() <= threshold ==> r->Ok_0@.payload == data@ && r->Ok_0@.flags % 2 == 0
            &&& data@.len() > threshold && 24 + data@.len() * 110 / 100 <= isize::MAX ==> exists|
                c: Seq<u8>,
            |
                {
                    &&& #[trigger] messaging::lz4_decompress(c) == Some(data@)
                    &&& c.len() < data@.len() ==> r->Ok_0@.payload == c && r->Ok_0@.flags % 2 == 1
                    &&& c.len() >= data@.len() ==> r->Ok_0@.payload == data@ && r->Ok_0@.flags % 2
                        == 0
                }
        },
{
    if let Ok(p) = r {
        messaging::law_unpack_gives_back_packed(p@, msg_type, data@, flags, threshold);
        let c = choose|c: Option<Seq<u8>>|
            {
                &&& p@ == #[trigger] messaging::packed(msg_type, data@, flags, c)
                &&& c is Some <==> data@.len() > threshold && messaging::compressible(data@.len())
                &&& c matches Some(x) ==> messaging::compresses(x, data@)
            };
        assert(((flags & 0xFE) | 0x01) % 2 == 1) by (bit_vector);
        assert((flags & 0xFE) % 2 == 0) by (bit_vector);
        if c is Some {
            assert(messaging::lz4_decompress(c->0) == Some(data@));
        }
    }
}

/// The payload of a packet that is not compressed is read as it is; that of a
/// compressed one is what decompression makes of it, or an error.
pub proof fn law_how_a_payload_is_read(p: &RawPacket, r: Result<Bytes, NetworkError>)
    requires
        call_ensures(messaging::decode_payload, (p,), r),
    ensures
        p@.flags % 2 == 0 ==> (r matches Ok(b) && buffer::contents(b) == p@.payload),
        p@.flags % 2 == 1 && r is Ok ==> messaging::lz4_decompress(p@.payload) == Some(
            buffer::contents(r->Ok_0),
        ),
        p@.flags % 2 == 1 && messaging::lz4_decompress(p@.payload) is Some && p@.payload.len() >= 4
            && p@.payload[0] + p@.payload[1] * 0x100 + p@.payload[2] * 0x1_0000 + p@.payload[3]
            * 0x100_0000 <= isize::MAX ==> r is Ok,
        r matches Err(e) ==> e is Internal,
{
    let f = p@.flags;
    assert(f & 0x01 != 0 <==> f % 2 == 1) by (bit_vector);
}

/// What is read out of the packet of a user message is the message.
pub proof fn law_user_message_is_read_back(
    msg_type: u16,
    data: &[u8],
    flags: u8,
    threshold: u32,
    limit: u32,
    p: RawPacket,
    r: Result<Bytes, NetworkError>,
)
    requires
        call_ensures(messaging::encode_packet, (msg_type, data, flags, threshold, limit), Ok(p)),
        call_ensures(messaging::decode_payload, (&p,), r),
    ensures
        r matches Ok(b) && buffer::contents(b) == data@,
        p@.msg_type == msg_type,
        p@.flags / 2 == flags / 2,
{
    messaging::law_unpack_gives_back_packed(p@, msg_type, data@, flags, threshold);
    let (f, g) = (p@.flags, flags);
    assert(f / 2 == g / 2) by (bit_vector)
        requires
            f & 0xFE == g & 0xFE,
    ;
}

/// An internal message whose form keeps within the limit becomes a packet of
/// its type, without flags; what is read out of it is the message. A larger
/// one is an error.
pub proof fn law_internal_message_is_read_back(
    m: &InternalMessage,
    limit: u32,
    r: Result<RawPacket, NetworkError>,
    back: Result<InternalMessage, NetworkError>,
)
    requires
        call_ensures(messaging::encode_internal, (m, limit), r),
        r is Ok ==> call_ensures(messaging::decode_internal, (&r->Ok_0,), back),
    ensures
        wire::message_form(m@).len() > limit ==> r matches Err(NetworkError::MessageTooLarge(_)),
        wire::message_form(m@).len() <= limit ==> {
            &&& r is Ok
            &&& routing::tells(r->Ok_0@, m@)
            &&& back matches Ok(b) && b@ == m@
        },
{
    if wire::message_form(m@).len() <= limit {
        messaging::law_message_within_limit_is_read_back(m@, limit);
        routing::lemma_tells(m@);
    }
}

/// The bytes of a number, the most significant one first.
pub open spec fn number_of(b: Seq<u8>) -> int
    decreases b.len(),
{
    if b.len() == 0 {
        0
    } else {
        number_of(b.drop_last()) * 0x100 + b.last()
    }
}

/// On the wire a packet is its payload's length in four bytes, its type in
/// two, both with the most significant byte first, its flags, and the
/// payload.
pub proof fn law_layout_of_a_frame(p: PacketView)
    requires
        p.payload.len() <= u32::MAX,
    ensures
        codec::frame(p).len() == 7 + p.payload.len(),
        number_of(codec::frame(p).subrange(0, 4)) == p.payload.len(),
        number_of(codec::frame(p).subrange(4, 6)) == p.msg_type,
        codec::frame(p)[6] == p.flags,
        codec::frame(p).skip(7) == p.payload,
{
    let f = codec::frame(p);
    let n = p.payload.len() as u32;
    let t = p.msg_type;
    let a = f.subrange(0, 4);
    let b = f.subrange(4, 6);
    assert(a[0] == (n / 0x100_0000) as u8);
    assert(a[1] == (n / 0x1_0000 % 0x100) as u8);
    assert(a[2] == (n / 0x100 % 0x100) as u8);
    assert(a[3] == (n % 0x100) as u8);
    assert(b[0] == (t / 0x100) as u8);
    assert(b[1] == (t % 0x100) as u8);
    assert(((n / 0x100_0000 * 0x100 + n / 0x1_0000 % 0x100) * 0x100 + n / 0x100 % 0x100) * 0x100
        + n % 0x100 == n) by (bit_vector);
    reveal_with_fuel(number_of, 5);
    assert(a.drop_last().last() == a[2]);
    assert(a.drop_last().drop_last().last() == a[1]);
    assert(a.drop_last().drop_last().drop_last().last() == a[0]);
    assert(b.drop_last().last() == b[0]);
    assert(f.skip(7) =~= p.payload);
}

/// A packet within the limit is appended to what is to be sent, in full; a
/// larger one is an error, and nothing is appended.
pub proof fn law_packet_is_written(
    c: &mut PacketCodec,
    p: RawPacket,
    dst: &mut BytesMut,
    r: Result<(), NetworkError>,
)
    requires
        call_ensures(PacketCodec::encode, (c, p, dst), r),
    ensures
        p@.payload.len() <= old(c).limit() ==> {
            &&& r is Ok
            &&& buffer::pending(*final(dst)) =~= buffer::pending(*old(dst)) + codec::frame(p@)
        },
        p@.payload.len() > old(c).limit() ==> {
            &&& r matches Err(NetworkError::MessageTooLarge(_))
            &&& buffer::pending(*final(dst)) == buffer::pending(*old(dst))
        },
{
}

/// Where the frame of a packet within the limit stands in front, the packet
/// is taken out and what stands behind it is left.
pub proof fn law_packet_is_read_back(
    c: &mut PacketCodec,
    src: &mut BytesMut,
    p: PacketView,
    rest: Seq<u8>,
    r: Result<Option<RawPacket>, NetworkError>,
)
    requires
        call_ensures(PacketCodec::decode, (c, src), r),
        p.payload.len() <= old(c).limit(),
        buffer::pending(*old(src)) == codec::frame(p) + rest,
    ensures
        r matches Ok(Some(q)) && q@ == p,
        buffer::pending(*final(src)) == rest,
{
    codec::law_frame_round_trip(p, rest, old(c).limit());
}

/// Too few bytes are waited upon, and nothing is taken out: while the header
/// is not there in full, or not all of the payload that it declares. A header
/// that declares more than is allowed is an error.
pub proof fn law_what_is_not_read_yet(
    c: &mut PacketCodec,
    src: &mut BytesMut,
    r: Result<Option<RawPacket>, NetworkError>,
)
    requires
        call_ensures(PacketCodec::decode, (c, src), r),
    ensures
        ({
            let s = buffer::pending(*old(src));
            let declared = s[0] * 0x100_0000 + s[1] * 0x1_0000 + s[2] * 0x100 + s[3];
            &&& s.len() < 7 ==> (r matches Ok(None))
            &&& s.len() >= 7 && declared > old(c).limit() ==> (r matches Err(
                NetworkError::MessageTooLarge(n),
            ) && n == declared)
            &&& s.len() >= 7 && declared <= old(c).limit() && s.len() < 7 + declared ==> (
            r matches Ok(None))
            &&& s.len() >= 7 && declared <= old(c).limit() && s.len() >= 7 + declared ==> (
            r matches Ok(Some(q)) && q@.payload == s.subrange(7, 7 + declared) && q@.flags == s[6]
                && q@.msg_type == s[4] * 0x100 + s[5] && buffer::pending(*final(src)) == s.skip(
                7 + declared,
            ))
            &&& !(r matches Ok(Some(_))) ==> buffer::pending(*final(src)) == s
        }),
{
}

} // verus!
