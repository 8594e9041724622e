//! Packets, and the packing of user payloads and internal messages into
//! them, with optional compression.

use bytes::Bytes;
use vstd::prelude::*;

use crate::buffer;
use crate::error::NetworkError;
use crate::protocol::{msg_types, InternalMessage, MessageView};
use crate::text;
use crate::wire;

verus! {

/// A packet as the transport frames it.
///
/// - `msg_type` is the code of an internal message (below `0x0100`) or the
///   number of a user message.
/// - `flags` holds the compression bit, the lowest, and seven bits for the
///   user.
/// - `payload` holds the user's bytes or an internal message's binary form.
#[derive(Debug)]
pub struct RawPacket {
    pub msg_type: u16,
    pub flags: u8,
    pub payload: Bytes,
}

/// The value of a [`RawPacket`].
#[verifier::ext_equal]
pub struct PacketView {
    pub msg_type: u16,
    pub flags: u8,
    pub payload: Seq<u8>,
}

impl View for RawPacket {
    type V = PacketView;

    open spec fn view(&self) -> PacketView {
        PacketView {
            msg_type: self.msg_type,
            flags: self.flags,
            payload: buffer::contents(self.payload),
        }
    }
}

impl PacketView {
    /// Is the payload marked as compressed?
    pub open spec fn compressed(self) -> bool {
        self.flags & 0x01 != 0
    }

    /// Does the packet carry an internal message?
    pub open spec fn internal(self) -> bool {
        self.msg_type < msg_types::USER_MESSAGE_START
    }
}

impl Clone for RawPacket {
    fn clone(&self) -> (r: Self)
        ensures
            r@ == self@,
    {
        RawPacket {
            msg_type: self.msg_type,
            flags: self.flags,
            payload: buffer::bytes_clone(&self.payload),
        }
    }
}

impl RawPacket {
    /// Was the payload compressed? The lowest bit of `flags` says so.
    pub fn is_compressed(&self) -> (r: bool)
        ensures
            r == self@.compressed(),
    {
        self.flags & 0x01 != 0
    }

    /// Does the packet carry an internal message rather than a user payload?
    pub fn is_internal(&self) -> (r: bool)
        ensures
            r == self@.internal(),
    {
        self.msg_type < msg_types::USER_MESSAGE_START
    }

    /// Make a packet that holds the bytes of `payload`.
    pub fn from_parts(msg_type: u16, flags: u8, payload: Vec<u8>) -> (r: Self)
        ensures
            r@ == (PacketView { msg_type, flags, payload: payload@ }),
    {
        RawPacket { msg_type, flags, payload: buffer::bytes_from_vec(payload) }
    }
}

// --- compression ------------------------------------------------------------
#[verifier::external_type_specification]
#[verifier::external_body]
pub struct ExDecompressError(lz4_flex::block::DecompressError);

/// What `lz4_flex::block::decompress_size_prepended` makes of its input;
/// `None` where it fails.
pub uninterp spec fn lz4_decompress(input: Seq<u8>) -> Option<Seq<u8>>;

/// The size that stands in front of compressed data: the first four bytes,
/// the least significant one first.
pub open spec fn declared_size(input: Seq<u8>) -> nat {
    if input.len() < 4 {
        0
    } else {
        (input[0] + input[1] * 0x100 + input[2] * 0x1_0000 + input[3] * 0x100_0000) as nat
    }
}

/// Is `c` a compressed form of `data`?
pub open spec fn compresses(c: Seq<u8>, data: Seq<u8>) -> bool {
    &&& c.len() >= 4
    &&& declared_size(c) == data.len()
    &&& lz4_decompress(c) == Some(data)
}

/// Can an input of `len` bytes be compressed? Its size must fit in front,
/// and the space set aside for the result must be allocatable.
pub open spec fn compressible(len: nat) -> bool {
    len <= u32::MAX && 24 + len * 110 / 100 <= isize::MAX
}

/// `lz4_flex::block::compress_prepend_size`: the size of the input stands in
/// front as a little-endian `u32`, and decompressing gives back the input.
/// It panics where the space it sets aside cannot be allocated. The bytes
/// themselves depend on the machine's word and byte order, so nothing more
/// is claimed of them.
#[verifier::external_body]
fn lz4_compress(data: &[u8]) -> (r: Vec<u8>)
    requires
        compressible(data@.len()),
    ensures
        compresses(r@, data@),
{
    lz4_flex::block::compress_prepend_size(data)
}

/// `lz4_flex::block::decompress_size_prepended`. It panics where the size
/// that stands in front cannot be allocated.
#[verifier::external_body]
fn lz4_expand(input: &[u8]) -> (r: Result<Vec<u8>, lz4_flex::block::DecompressError>)
    requires
        declared_size(input@) <= isize::MAX,
    ensures
        match r {
            Ok(v) => lz4_decompress(input@) == Some(v@),
            Err(_) => lz4_decompress(input@) is None,
        },
{
    lz4_flex::block::decompress_size_prepended(input)
}

/// The text of a decompression error, by its `Display` implementation.
///
/// Nothing is claimed of the text.
#[verifier::external_body]
fn lz4_error_text(e: &lz4_flex::block::DecompressError) -> (r: String) {
    format!("{e}")
}

fn decompression_failed(detail: &str) -> (r: NetworkError)
    ensures
        decompression_error(r),
{
    NetworkError::Internal(text::concat("LZ4 decompression failed: ", detail))
}

/// Is `e` the error for a payload that cannot be decompressed? Its message
/// ends in a detail that is left open.
pub open spec fn decompression_error(e: NetworkError) -> bool {
    e matches NetworkError::Internal(m) && "LZ4 decompression failed: "@.is_prefix_of(m@)
}

// --- user packets -----------------------------------------------------------
/// The packet for a user payload, given what compression made of it where
/// compression was tried. The compressed form is used only if it is shorter.
pub open spec fn packed(
    msg_type: u16,
    data: Seq<u8>,
    user_flags: u8,
    compressed: Option<Seq<u8>>,
) -> PacketView {
    match compressed {
        Some(c) if c.len() < data.len() => PacketView {
            msg_type,
            flags: (user_flags & 0xFE) | 0x01,
            payload: c,
        },
        _ => PacketView { msg_type, flags: user_flags & 0xFE, payload: data },
    }
}

/// The user's bytes in a packet, `None` where they cannot be recovered.
pub open spec fn unpacked(p: PacketView) -> Option<Seq<u8>> {
    if !p.compressed() {
        Some(p.payload)
    } else if declared_size(p.payload) > isize::MAX {
        None
    } else {
        lz4_decompress(p.payload)
    }
}

/// Can `p` be the packet for a user payload?
pub open spec fn is_packed(
    p: PacketView,
    msg_type: u16,
    data: Seq<u8>,
    user_flags: u8,
    compression_threshold: u32,
) -> bool {
    exists|c: Option<Seq<u8>>|
        {
            &&& p == #[trigger] packed(msg_type, data, user_flags, c)
            &&& c is Some <==> data.len() > compression_threshold && compressible(data.len())
            &&& c matches Some(x) ==> compresses(x, data)
        }
}

/// The value of an optional byte string.
pub open spec fn optional_bytes(b: Option<Vec<u8>>) -> Option<Seq<u8>> {
    match b {
        Some(v) => Some(v@),
        None => None,
    }
}

/// Put a user payload into a packet, given what compression made of it
/// where compression was tried.
pub fn pack(msg_type: u16, data: &[u8], user_flags: u8, compressed: Option<Vec<u8>>) -> (r:
    RawPacket)
    ensures
        r@ == packed(msg_type, data@, user_flags, optional_bytes(compressed)),
{
    let clean_flags: u8 = user_flags & 0xFE;
    if let Some(c) = compressed {
        if c.len() < data.len() {
            return RawPacket {
                msg_type,
                flags: clean_flags | 0x01,
                payload: buffer::bytes_from_vec(c),
            };
        }
    }
    RawPacket { msg_type, flags: clean_flags, payload: buffer::bytes_from_slice(data) }
}

/// Build a user packet. A payload longer than `compression_threshold` is
/// compressed if that makes it shorter. The lowest of the `user_flags` is
/// reserved and cleared.
pub fn encode_packet(
    msg_type: u16,
    data: &[u8],
    user_flags: u8,
    compression_threshold: u32,
    max_message_size: u32,
) -> (r: Result<RawPacket, NetworkError>)
    ensures
        match r {
            Ok(p) => {
                &&& msg_type >= msg_types::USER_MESSAGE_START
                &&& data@.len() <= max_message_size
                &&& is_packed(p@, msg_type, data@, user_flags, compression_threshold)
            },
            Err(NetworkError::InvalidArgument(m)) => {
                &&& msg_type < msg_types::USER_MESSAGE_START
                &&& m@ == "msg_type must be >= 0x0100 for user messages"@
            },
            Err(NetworkError::MessageTooLarge(n)) => {
                &&& msg_type >= msg_types::USER_MESSAGE_START
                &&& data@.len() > max_message_size
                &&& n == data@.len() as u32
            },
            Err(_) => false,
        },
{
    if msg_type < msg_types::USER_MESSAGE_START {
        return Err(
            NetworkError::InvalidArgument(
                "msg_type must be >= 0x0100 for user messages".to_owned(),
            ),
        );
    }
    if data.len() as u64 > max_message_size as u64 {
        return Err(NetworkError::MessageTooLarge(#[verifier::truncate] (data.len() as u32)));
    }
    let len: u64 = data.len() as u64;
    let compressed: Option<Vec<u8>> = if len > compression_threshold as u64 && 24 + len * 110 / 100
        <= isize::MAX as u64 {
        Some(lz4_compress(data))
    } else {
        None
    };
    let ghost c = optional_bytes(compressed);
    let p = pack(msg_type, data, user_flags, compressed);
    assert(p@ == packed(msg_type, data@, user_flags, c));
    Ok(p)
}

fn declared_size_of(input: &[u8]) -> (r: u64)
    ensures
        r == declared_size(input@),
{
    if input.len() < 4 {
        0
    } else {
        input[0] as u64 + input[1] as u64 * 0x100 + input[2] as u64 * 0x1_0000 + input[3] as u64
            * 0x100_0000
    }
}

/// The user's bytes in a packet: decompressed if the packet is marked as
/// compressed, else as they are. A declared size that cannot be allocated
/// is refused.
pub fn decode_payload(packet: &RawPacket) -> (r: Result<Bytes, NetworkError>)
    ensures
        match r {
            Ok(b) => unpacked(packet@) == Some(buffer::contents(b)),
            Err(e) => unpacked(packet@) is None && decompression_error(e),
        },
{
    if packet.is_compressed() {
        let input = buffer::bytes_as_slice(&packet.payload);
        if declared_size_of(input) > isize::MAX as u64 {
            return Err(decompression_failed("declared size too large"));
        }
        match lz4_expand(input) {
            Ok(v) => Ok(buffer::bytes_from_vec(v)),
            Err(e) => {
                let detail = lz4_error_text(&e);
                Err(decompression_failed(detail.as_str()))
            },
        }
    } else {
        Ok(buffer::bytes_clone(&packet.payload))
    }
}

/// Whatever compression makes of a payload, unpacking the packet gives back
/// the payload; the packet keeps the type and the upper seven flag bits, and
/// its lowest flag bit says whether the payload was compressed.
pub proof fn law_unpack_gives_back_packed(
    p: PacketView,
    msg_type: u16,
    data: Seq<u8>,
    user_flags: u8,
    compression_threshold: u32,
)
    requires
        is_packed(p, msg_type, data, user_flags, compression_threshold),
    ensures
        unpacked(p) == Some(data),
        p.msg_type == msg_type,
        p.flags & 0xFE == user_flags & 0xFE,
        !p.compressed() ==> p.payload == data,
        p.compressed() ==> p.payload.len() < data.len(),
        data.len() <= compression_threshold ==> !p.compressed(),
        p.payload.len() <= data.len(),
{
    assert(((user_flags & 0xFE) | 0x01) & 0x01 != 0) by (bit_vector);
    assert((user_flags & 0xFE) & 0x01 == 0) by (bit_vector);
    assert(((user_flags & 0xFE) | 0x01) & 0xFE == user_flags & 0xFE) by (bit_vector);
    assert((user_flags & 0xFE) & 0xFE == user_flags & 0xFE) by (bit_vector);
}

// --- internal packets -------------------------------------------------------
/// The packet for an internal message: its code, no flags, its binary form.
pub open spec fn internal_packet(m: MessageView) -> PacketView {
    PacketView { msg_type: m.code(), flags: 0, payload: wire::message_form(m) }
}

/// Does the binary form of the message keep within the limit?
pub open spec fn fits(m: MessageView, max_message_size: u32) -> bool {
    wire::message_form(m).len() <= max_message_size
}

/// The error for a message that does not keep within the limit.
pub open spec fn oversize(m: MessageView) -> NetworkError {
    NetworkError::MessageTooLarge(wire::message_form(m).len() as u32)
}

/// Put an internal message into a packet. Such packets are never compressed
/// and carry no flags.
pub fn encode_internal(msg: &InternalMessage, max_message_size: u32) -> (r: Result<
    RawPacket,
    NetworkError,
>)
    ensures
        match r {
            Ok(p) => fits(msg@, max_message_size) && p@ == internal_packet(msg@),
            Err(e) => !fits(msg@, max_message_size) && e == oversize(msg@),
        },
{
    let payload = wire::write_message(msg)?;
    if payload.len() as u64 > max_message_size as u64 {
        return Err(NetworkError::MessageTooLarge(#[verifier::truncate] (payload.len() as u32)));
    }
    Ok(RawPacket { msg_type: msg.msg_type(), flags: 0, payload: buffer::bytes_from_vec(payload) })
}

/// Read the internal message in a packet.
pub fn decode_internal(packet: &RawPacket) -> (r: Result<InternalMessage, NetworkError>)
    ensures
        match r {
            Ok(m) => wire::take_message(packet@.payload) == Some(m@),
            Err(e) => wire::take_message(packet@.payload) is None && e is Serialization,
        },
{
    wire::read_message(buffer::bytes_as_slice(&packet.payload))
}

/// Reading the packet of an internal message gives back the message, and
/// the packet is marked as internal and not compressed.
pub proof fn law_internal_packet_round_trip(m: MessageView)
    requires
        wire::lengths_fit(m),
    ensures
        wire::take_message(internal_packet(m).payload) == Some(m),
        internal_packet(m).internal(),
        !internal_packet(m).compressed(),
{
    wire::law_read_gives_back_written(m, seq![]);
    assert(wire::message_form(m) + Seq::<u8>::empty() =~= wire::message_form(m));
    crate::protocol::law_code_identifies_kind(m, m);
    assert(0u8 & 0x01 == 0) by (bit_vector);
}

/// A message that keeps within a limit has lengths that a machine word can
/// hold, so that reading its packet gives it back.
pub proof fn law_message_within_limit_is_read_back(m: MessageView, max_message_size: u32)
    requires
        fits(m, max_message_size),
    ensures
        wire::lengths_fit(m),
        wire::take_message(internal_packet(m).payload) == Some(m),
{
    wire::law_lengths_fit_within_form(m);
    law_internal_packet_round_trip(m);
}

} // verus!
