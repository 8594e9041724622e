//! Binary form of the internal messages, in the format of `postcard`.
//!
//! Numbers wider than a byte are variable-length: seven bits per byte, the
//! least significant group first, the high bit set on every byte but the
//! last. Texts, byte strings and lists carry their length in front.

use vstd::arithmetic::power2;
use vstd::prelude::*;
use vstd::utf8;

use crate::error::NetworkError;
use crate::protocol::{self, InternalMessage, MessageView};

verus! {

// --- the format -------------------------------------------------------------
/// The variable-length form of `n`.
pub open spec fn varint(n: nat) -> Seq<u8>
    decreases n,
{
    if n < 128 {
        seq![n as u8]
    } else {
        seq![(n % 128 + 128) as u8] + varint(n / 128)
    }
}

/// The form of a byte string.
pub open spec fn bytes_form(b: Seq<u8>) -> Seq<u8> {
    varint(b.len()) + b
}

/// The form of a text: that of its UTF-8 encoding.
pub open spec fn text_form(t: Seq<char>) -> Seq<u8> {
    bytes_form(utf8::encode_utf8(t))
}

/// The form of a truth value.
pub open spec fn bool_form(b: bool) -> Seq<u8> {
    seq![if b { 1u8 } else { 0u8 }]
}

/// The form of an optional text.
pub open spec fn optional_form(t: Option<Seq<char>>) -> Seq<u8> {
    match t {
        None => seq![0u8],
        Some(t) => seq![1u8] + text_form(t),
    }
}

/// The forms of pairs of texts, one after the other.
pub open spec fn pairs_body(p: Seq<(Seq<char>, Seq<char>)>) -> Seq<u8>
    decreases p.len(),
{
    if p.len() == 0 {
        seq![]
    } else {
        text_form(p[0].0) + text_form(p[0].1) + pairs_body(p.skip(1))
    }
}

/// The form of a list of pairs of texts.
pub open spec fn pairs_form(p: Seq<(Seq<char>, Seq<char>)>) -> Seq<u8> {
    varint(p.len()) + pairs_body(p)
}

/// The form of the fields of a message, in their order.
pub open spec fn fields_form(m: MessageView) -> Seq<u8> {
    match m {
        MessageView::Handshake { peer_id, listen_port, protocol_version, session_id } =>
            text_form(peer_id) + varint(listen_port as nat) + varint(protocol_version as nat)
            + text_form(session_id),
        MessageView::HandshakeAck { peer_id, listen_port, success, error_reason } => text_form(
            peer_id,
        ) + varint(listen_port as nat) + bool_form(success) + optional_form(error_reason),
        MessageView::PeerLeave { peer_id } => text_form(peer_id),
        MessageView::PeerListSync { peers } => pairs_form(peers),
        MessageView::Heartbeat { term, leader_id, timestamp_ms } => varint(term as nat)
            + text_form(leader_id) + varint(timestamp_ms as nat),
        MessageView::HeartbeatResponse { term, timestamp_ms } => varint(term as nat) + varint(
            timestamp_ms as nat,
        ),
        MessageView::Ping { timestamp_ms } => varint(timestamp_ms as nat),
        MessageView::Pong { timestamp_ms } => varint(timestamp_ms as nat),
        MessageView::RequestVote { term, candidate_id } => varint(term as nat) + text_form(
            candidate_id,
        ),
        MessageView::VoteResponse { term, voter_id, granted } => varint(term as nat) + text_form(
            voter_id,
        ) + bool_form(granted),
        MessageView::LeaderAssign { term, leader_id, assigner_id } => varint(term as nat)
            + text_form(leader_id) + text_form(assigner_id),
        MessageView::ForwardedUserData {
            from_peer_id,
            original_msg_type,
            original_flags,
            payload,
        } => text_form(from_peer_id) + varint(original_msg_type as nat) + seq![original_flags]
            + bytes_form(payload),
        MessageView::DataChannelHandshake { peer_id } => text_form(peer_id),
        MessageView::DataChannelHandshakeAck { peer_id, success } => text_form(peer_id)
            + bool_form(success),
    }
}

/// The form of a message: the position of its kind, then its fields.
pub open spec fn message_form(m: MessageView) -> Seq<u8> {
    varint(m.index()) + fields_form(m)
}

// --- reading the format -----------------------------------------------------
/// What stands at the front of a byte string, and the bytes behind it;
/// `None` where the front is malformed or cut short.
pub type Taken<T> = Option<(T, Seq<u8>)>;

/// Read a number of at most `width` bits.
pub open spec fn take_varint(s: Seq<u8>, width: int) -> Taken<nat>
    decreases s.len(),
{
    if s.len() == 0 || width <= 0 {
        None
    } else if s[0] < 128 {
        if width >= 7 || s[0] < power2::pow2(width as nat) {
            Some((s[0] as nat, s.skip(1)))
        } else {
            None
        }
    } else {
        match take_varint(s.skip(1), width - 7) {
            Some((n, rest)) => Some(((s[0] - 128) as nat + 128 * n, rest)),
            None => None,
        }
    }
}

/// Read a single byte.
pub open spec fn take_byte(s: Seq<u8>) -> Taken<u8> {
    if s.len() == 0 {
        None
    } else {
        Some((s[0], s.skip(1)))
    }
}

/// Read a byte string.
pub open spec fn take_bytes(s: Seq<u8>) -> Taken<Seq<u8>> {
    match take_varint(s, usize::BITS as int) {
        Some((n, rest)) if n <= rest.len() => Some((rest.take(n as int), rest.skip(n as int))),
        _ => None,
    }
}

/// Read a text.
pub open spec fn take_text(s: Seq<u8>) -> Taken<Seq<char>> {
    match take_bytes(s) {
        Some((b, rest)) if utf8::valid_utf8(b) => Some((utf8::decode_utf8(b), rest)),
        _ => None,
    }
}

/// Read a truth value.
pub open spec fn take_bool(s: Seq<u8>) -> Taken<bool> {
    match take_byte(s) {
        Some((b, rest)) if b <= 1 => Some((b == 1, rest)),
        _ => None,
    }
}

/// Read an optional text.
pub open spec fn take_optional(s: Seq<u8>) -> Taken<Option<Seq<char>>> {
    match take_byte(s) {
        Some((b, rest)) if b == 0 => Some((None, rest)),
        Some((b, rest)) if b == 1 => match take_text(rest) {
            Some((t, rest)) => Some((Some(t), rest)),
            None => None,
        },
        _ => None,
    }
}

/// Read `n` pairs of texts.
pub open spec fn take_pairs_body(s: Seq<u8>, n: nat) -> Taken<Seq<(Seq<char>, Seq<char>)>>
    decreases n,
{
    if n == 0 {
        Some((seq![], s))
    } else {
        match take_text(s) {
            Some((a, s1)) => match take_text(s1) {
                Some((b, s2)) => match take_pairs_body(s2, (n - 1) as nat) {
                    Some((tail, rest)) => Some((seq![(a, b)] + tail, rest)),
                    None => None,
                },
                None => None,
            },
            None => None,
        }
    }
}

/// Read a list of pairs of texts.
pub open spec fn take_pairs(s: Seq<u8>) -> Taken<Seq<(Seq<char>, Seq<char>)>> {
    match take_varint(s, usize::BITS as int) {
        Some((n, rest)) => take_pairs_body(rest, n),
        None => None,
    }
}

/// What `next` makes of the value read, and of the bytes behind it.
pub open spec fn chain<A, B>(taken: Taken<A>, next: spec_fn(A, Seq<u8>) -> Option<B>) -> Option<
    B,
> {
    match taken {
        Some((a, rest)) => next(a, rest),
        None => None,
    }
}

/// Read the fields of a message whose kind is at position `index`. Bytes
/// behind the last field are ignored.
pub open spec fn take_fields(index: nat, s: Seq<u8>) -> Option<MessageView> {
    if index == 0 {
        chain(
            take_text(s),
            |peer_id: Seq<char>, s: Seq<u8>|
                chain(
                    take_varint(s, 16),
                    |port: nat, s: Seq<u8>|
                        chain(
                            take_varint(s, 16),
                            |version: nat, s: Seq<u8>|
                                chain(
                                    take_text(s),
                                    |session_id: Seq<char>, s: Seq<u8>|
                                        Some(
                                            MessageView::Handshake {
                                                peer_id,
                                                listen_port: port as u16,
                                                protocol_version: version as u16,
                                                session_id,
                                            },
                                        ),
                                ),
                        ),
                ),
        )
    } else if index == 1 {
        chain(
            take_text(s),
            |peer_id: Seq<char>, s: Seq<u8>|
                chain(
                    take_varint(s, 16),
                    |port: nat, s: Seq<u8>|
                        chain(
                            take_bool(s),
                            |success: bool, s: Seq<u8>|
                                chain(
                                    take_optional(s),
                                    |error_reason: Option<Seq<char>>, s: Seq<u8>|
                                        Some(
                                            MessageView::HandshakeAck {
                                                peer_id,
                                                listen_port: port as u16,
                                                success,
                                                error_reason,
                                            },
                                        ),
                                ),
                        ),
                ),
        )
    } else if index == 2 {
        chain(
            take_text(s),
            |peer_id: Seq<char>, s: Seq<u8>| Some(MessageView::PeerLeave { peer_id }),
        )
    } else if index == 3 {
        chain(
            take_pairs(s),
            |peers: Seq<(Seq<char>, Seq<char>)>, s: Seq<u8>|
                Some(MessageView::PeerListSync { peers }),
        )
    } else if index == 4 {
        chain(
            take_varint(s, 64),
            |term: nat, s: Seq<u8>|
                chain(
                    take_text(s),
                    |leader_id: Seq<char>, s: Seq<u8>|
                        chain(
                            take_varint(s, 64),
                            |time: nat, s: Seq<u8>|
                                Some(
                                    MessageView::Heartbeat {
                                        term: term as u64,
                                        leader_id,
                                        timestamp_ms: time as u64,
                                    },
                                ),
                        ),
                ),
        )
    } else if index == 5 {
        chain(
            take_varint(s, 64),
            |term: nat, s: Seq<u8>|
                chain(
                    take_varint(s, 64),
                    |time: nat, s: Seq<u8>|
                        Some(
                            MessageView::HeartbeatResponse {
                                term: term as u64,
                                timestamp_ms: time as u64,
                            },
                        ),
                ),
        )
    } else if index == 6 {
        chain(
            take_varint(s, 64),
            |time: nat, s: Seq<u8>| Some(MessageView::Ping { timestamp_ms: time as u64 }),
        )
    } else if index == 7 {
        chain(
            take_varint(s, 64),
            |time: nat, s: Seq<u8>| Some(MessageView::Pong { timestamp_ms: time as u64 }),
        )
    } else if index == 8 {
        chain(
            take_varint(s, 64),
            |term: nat, s: Seq<u8>|
                chain(
                    take_text(s),
                    |candidate_id: Seq<char>, s: Seq<u8>|
                        Some(MessageView::RequestVote { term: term as u64, candidate_id }),
                ),
        )
    } else if index == 9 {
        chain(
            take_varint(s, 64),
            |term: nat, s: Seq<u8>|
                chain(
                    take_text(s),
                    |voter_id: Seq<char>, s: Seq<u8>|
                        chain(
                            take_bool(s),
                            |granted: bool, s: Seq<u8>|
                                Some(
                                    MessageView::VoteResponse {
                                        term: term as u64,
                                        voter_id,
                                        granted,
                                    },
                                ),
                        ),
                ),
        )
    } else if index == 10 {
        chain(
            take_varint(s, 64),
            |term: nat, s: Seq<u8>|
                chain(
                    take_text(s),
                    |leader_id: Seq<char>, s: Seq<u8>|
                        chain(
                            take_text(s),
                            |assigner_id: Seq<char>, s: Seq<u8>|
                                Some(
                                    MessageView::LeaderAssign {
                                        term: term as u64,
                                        leader_id,
                                        assigner_id,
                                    },
                                ),
                        ),
                ),
        )
    } else if index == 11 {
        chain(
            take_text(s),
            |from_peer_id: Seq<char>, s: Seq<u8>|
                chain(
                    take_varint(s, 16),
                    |msg_type: nat, s: Seq<u8>|
                        chain(
                            take_byte(s),
                            |flags: u8, s: Seq<u8>|
                                chain(
                                    take_bytes(s),
                                    |payload: Seq<u8>, s: Seq<u8>|
                                        Some(
                                            MessageView::ForwardedUserData {
                                                from_peer_id,
                                                original_msg_type: msg_type as u16,
                                                original_flags: flags,
                                                payload,
                                            },
                                        ),
                                ),
                        ),
                ),
        )
    } else if index == 12 {
        chain(
            take_text(s),
            |peer_id: Seq<char>, s: Seq<u8>| Some(MessageView::DataChannelHandshake { peer_id }),
        )
    } else if index == 13 {
        chain(
            take_text(s),
            |peer_id: Seq<char>, s: Seq<u8>|
                chain(
                    take_bool(s),
                    |success: bool, s: Seq<u8>|
                        Some(MessageView::DataChannelHandshakeAck { peer_id, success }),
                ),
        )
    } else {
        None
    }
}

/// Read a message.
pub open spec fn take_message(s: Seq<u8>) -> Option<MessageView> {
    chain(take_varint(s, 32), |index: nat, s: Seq<u8>| take_fields(index, s))
}

// --- reading gives back what was written ------------------------------------
/// The number of bits that a length takes is that of a machine word.
proof fn lemma_length_fits(n: nat)
    requires
        n <= usize::MAX,
    ensures
        n < power2::pow2(usize::BITS as nat),
{
    power2::lemma2_to64();
    power2::lemma2_to64_rest();
}

proof fn lemma_take_varint(n: nat, rest: Seq<u8>, width: int)
    requires
        width > 0,
        n < power2::pow2(width as nat),
    ensures
        take_varint(varint(n) + rest, width) == Some((n, rest)),
    decreases n,
{
    let s = varint(n) + rest;
    power2::lemma2_to64();
    if n < 128 {
        assert(s[0] == n as u8);
        assert(s.skip(1) =~= rest);
    } else {
        if width <= 7 {
            power2::lemma_pow2_strictly_increases(width as nat, 8);
            assert(power2::pow2(width as nat) <= 128) by {
                if width < 7 {
                    power2::lemma_pow2_strictly_increases(width as nat, 7);
                }
            }
        }
        power2::lemma_pow2_adds(7, (width - 7) as nat);
        let p = power2::pow2((width - 7) as nat);
        assert(n / 128 < p) by (nonlinear_arith)
            requires
                n < 128 * p,
        ;
        assert(s.skip(1) =~= varint(n / 128) + rest);
        lemma_take_varint(n / 128, rest, width - 7);
        assert(s[0] == (n % 128 + 128) as u8);
    }
}

proof fn lemma_take_bytes(b: Seq<u8>, rest: Seq<u8>)
    requires
        b.len() <= usize::MAX,
    ensures
        take_bytes(bytes_form(b) + rest) == Some((b, rest)),
{
    lemma_length_fits(b.len());
    assert(bytes_form(b) + rest =~= varint(b.len()) + (b + rest));
    lemma_take_varint(b.len(), b + rest, usize::BITS as int);
    assert((b + rest).take(b.len() as int) =~= b);
    assert((b + rest).skip(b.len() as int) =~= rest);
}

proof fn lemma_take_text(t: Seq<char>, rest: Seq<u8>)
    requires
        utf8::encode_utf8(t).len() <= usize::MAX,
    ensures
        take_text(text_form(t) + rest) == Some((t, rest)),
{
    lemma_take_bytes(utf8::encode_utf8(t), rest);
    utf8::encode_utf8_valid_utf8(t);
    utf8::encode_utf8_decode_utf8(t);
}

proof fn lemma_take_optional(t: Option<Seq<char>>, rest: Seq<u8>)
    requires
        t matches Some(x) ==> utf8::encode_utf8(x).len() <= usize::MAX,
    ensures
        take_optional(optional_form(t) + rest) == Some((t, rest)),
{
    let s = optional_form(t) + rest;
    match t {
        None => {
            assert(s.skip(1) =~= rest);
        },
        Some(x) => {
            assert(s.skip(1) =~= text_form(x) + rest);
            lemma_take_text(x, rest);
        },
    }
}

proof fn lemma_take_pairs_body(p: Seq<(Seq<char>, Seq<char>)>, rest: Seq<u8>)
    requires
        forall|i: int|
            #![auto]
            0 <= i < p.len() ==> utf8::encode_utf8(p[i].0).len() <= usize::MAX
                && utf8::encode_utf8(p[i].1).len() <= usize::MAX,
    ensures
        take_pairs_body(pairs_body(p) + rest, p.len()) == Some((p, rest)),
    decreases p.len(),
{
    if p.len() == 0 {
        assert(pairs_body(p) + rest =~= rest);
        assert(p =~= seq![]);
    } else {
        let tail = p.skip(1);
        let (a, b) = p[0];
        let s2 = pairs_body(tail) + rest;
        let s1 = text_form(b) + s2;
        assert(pairs_body(p) + rest =~= text_form(a) + s1);
        lemma_take_text(a, s1);
        lemma_take_text(b, s2);
        assert forall|i: int| 0 <= i < tail.len() implies utf8::encode_utf8(
            (#[trigger] tail[i]).0,
        ).len() <= usize::MAX && utf8::encode_utf8(tail[i].1).len() <= usize::MAX by {
            assert(tail[i] == p[i + 1]);
        }
        lemma_take_pairs_body(tail, rest);
        assert(seq![(a, b)] + tail =~= p);
    }
}

proof fn lemma_take_pairs(p: Seq<(Seq<char>, Seq<char>)>, rest: Seq<u8>)
    requires
        p.len() <= usize::MAX,
        forall|i: int|
            #![auto]
            0 <= i < p.len() ==> utf8::encode_utf8(p[i].0).len() <= usize::MAX
                && utf8::encode_utf8(p[i].1).len() <= usize::MAX,
    ensures
        take_pairs(pairs_form(p) + rest) == Some((p, rest)),
{
    lemma_length_fits(p.len());
    assert(pairs_form(p) + rest =~= varint(p.len()) + (pairs_body(p) + rest));
    lemma_take_varint(p.len(), pairs_body(p) + rest, usize::BITS as int);
    lemma_take_pairs_body(p, rest);
}

/// Does every text, byte string and list of the message have a length that
/// a machine word can hold? True of every message that exists in memory.
pub open spec fn lengths_fit(m: MessageView) -> bool {
    let fits = |t: Seq<char>| utf8::encode_utf8(t).len() <= usize::MAX;
    match m {
        MessageView::Handshake { peer_id, session_id, .. } => fits(peer_id) && fits(session_id),
        MessageView::HandshakeAck { peer_id, error_reason, .. } => fits(peer_id) && (
        error_reason matches Some(t) ==> fits(t)),
        MessageView::PeerLeave { peer_id } => fits(peer_id),
        MessageView::PeerListSync { peers } => peers.len() <= usize::MAX && forall|i: int|
            #![auto]
            0 <= i < peers.len() ==> fits(peers[i].0) && fits(peers[i].1),
        MessageView::Heartbeat { leader_id, .. } => fits(leader_id),
        MessageView::RequestVote { candidate_id, .. } => fits(candidate_id),
        MessageView::VoteResponse { voter_id, .. } => fits(voter_id),
        MessageView::LeaderAssign { leader_id, assigner_id, .. } => fits(leader_id) && fits(
            assigner_id,
        ),
        MessageView::ForwardedUserData { from_peer_id, payload, .. } => fits(from_peer_id)
            && payload.len() <= usize::MAX,
        MessageView::DataChannelHandshake { peer_id } => fits(peer_id),
        MessageView::DataChannelHandshakeAck { peer_id, .. } => fits(peer_id),
        _ => true,
    }
}

proof fn lemma_varint_not_empty(n: nat)
    ensures
        varint(n).len() >= 1,
{
}

proof fn lemma_pairs_within_body(p: Seq<(Seq<char>, Seq<char>)>)
    ensures
        p.len() <= pairs_body(p).len(),
        forall|i: int|
            #![auto]
            0 <= i < p.len() ==> utf8::encode_utf8(p[i].0).len() <= pairs_body(p).len()
                && utf8::encode_utf8(p[i].1).len() <= pairs_body(p).len(),
    decreases p.len(),
{
    if p.len() > 0 {
        let tail = p.skip(1);
        lemma_pairs_within_body(tail);
        lemma_varint_not_empty(utf8::encode_utf8(p[0].0).len());
        assert forall|i: int| 0 <= i < p.len() implies utf8::encode_utf8((#[trigger] p[i]).0).len()
            <= pairs_body(p).len() && utf8::encode_utf8(p[i].1).len() <= pairs_body(p).len() by {
            if i > 0 {
                assert(p[i] == tail[i - 1]);
            }
        }
    }
}

/// Where the form of a message has a length that a machine word can hold, so
/// have the texts, byte strings and lists in it.
pub proof fn law_lengths_fit_within_form(m: MessageView)
    requires
        message_form(m).len() <= usize::MAX,
    ensures
        lengths_fit(m),
{
    if let MessageView::PeerListSync { peers } = m {
        lemma_pairs_within_body(peers);
    }
}

proof fn lemma_widths()
    ensures
        power2::pow2(16) == 0x1_0000,
        power2::pow2(32) == 0x1_0000_0000,
        power2::pow2(64) == 0x1_0000_0000_0000_0000,
{
    power2::lemma2_to64();
    power2::lemma2_to64_rest();
}

proof fn lemma_take_handshake(m: MessageView, rest: Seq<u8>)
    requires
        m is Handshake,
        lengths_fit(m),
    ensures
        take_fields(m.index(), fields_form(m) + rest) == Some(m),
{
    lemma_widths();
    let s = fields_form(m) + rest;
    if let MessageView::Handshake { peer_id, listen_port, protocol_version, session_id } = m {
        let s3 = text_form(session_id) + rest;
        let s2 = varint(protocol_version as nat) + s3;
        let s1 = varint(listen_port as nat) + s2;
        assert(s =~= text_form(peer_id) + s1);
        lemma_take_text(peer_id, s1);
        lemma_take_varint(listen_port as nat, s2, 16);
        lemma_take_varint(protocol_version as nat, s3, 16);
        lemma_take_text(session_id, rest);
    }
}

proof fn lemma_take_handshake_ack(m: MessageView, rest: Seq<u8>)
    requires
        m is HandshakeAck,
        lengths_fit(m),
    ensures
        take_fields(m.index(), fields_form(m) + rest) == Some(m),
{
    lemma_widths();
    let s = fields_form(m) + rest;
    if let MessageView::HandshakeAck { peer_id, listen_port, success, error_reason } = m {
        let s3 = optional_form(error_reason) + rest;
        let s2 = bool_form(success) + s3;
        let s1 = varint(listen_port as nat) + s2;
        assert(s =~= text_form(peer_id) + s1);
        lemma_take_text(peer_id, s1);
        lemma_take_varint(listen_port as nat, s2, 16);
        assert(s2.skip(1) =~= s3);
        lemma_take_optional(error_reason, rest);
    }
}

proof fn lemma_take_peer_leave(m: MessageView, rest: Seq<u8>)
    requires
        m is PeerLeave,
        lengths_fit(m),
    ensures
        take_fields(m.index(), fields_form(m) + rest) == Some(m),
{
    lemma_widths();
    let s = fields_form(m) + rest;
    if let MessageView::PeerLeave { peer_id } = m {
        lemma_take_text(peer_id, rest);
    }
}

proof fn lemma_take_peer_list_sync(m: MessageView, rest: Seq<u8>)
    requires
        m is PeerListSync,
        lengths_fit(m),
    ensures
        take_fields(m.index(), fields_form(m) + rest) == Some(m),
{
    lemma_widths();
    let s = fields_form(m) + rest;
    if let MessageView::PeerListSync { peers } = m {
        lemma_take_pairs(peers, rest);
    }
}

proof fn lemma_take_heartbeat(m: MessageView, rest: Seq<u8>)
    requires
        m is Heartbeat,
        lengths_fit(m),
    ensures
        take_fields(m.index(), fields_form(m) + rest) == Some(m),
{
    lemma_widths();
    let s = fields_form(m) + rest;
    if let MessageView::Heartbeat { term, leader_id, timestamp_ms } = m {
        let s2 = varint(timestamp_ms as nat) + rest;
        let s1 = text_form(leader_id) + s2;
        assert(s =~= varint(term as nat) + s1);
        lemma_take_varint(term as nat, s1, 64);
        lemma_take_text(leader_id, s2);
        lemma_take_varint(timestamp_ms as nat, rest, 64);
    }
}

proof fn lemma_take_heartbeat_response(m: MessageView, rest: Seq<u8>)
    requires
        m is HeartbeatResponse,
        lengths_fit(m),
    ensures
        take_fields(m.index(), fields_form(m) + rest) == Some(m),
{
    lemma_widths();
    let s = fields_form(m) + rest;
    if let MessageView::HeartbeatResponse { term, timestamp_ms } = m {
        let s1 = varint(timestamp_ms as nat) + rest;
        assert(s =~= varint(term as nat) + s1);
        lemma_take_varint(term as nat, s1, 64);
        lemma_take_varint(timestamp_ms as nat, rest, 64);
    }
}

proof fn lemma_take_ping(m: MessageView, rest: Seq<u8>)
    requires
        m is Ping,
        lengths_fit(m),
    ensures
        take_fields(m.index(), fields_form(m) + rest) == Some(m),
{
    lemma_widths();
    let s = fields_form(m) + rest;
    if let MessageView::Ping { timestamp_ms } = m {
        lemma_take_varint(timestamp_ms as nat, rest, 64);
    }
}

proof fn lemma_take_pong(m: MessageView, rest: Seq<u8>)
    requires
        m is Pong,
        lengths_fit(m),
    ensures
        take_fields(m.index(), fields_form(m) + rest) == Some(m),
{
    lemma_widths();
    let s = fields_form(m) + rest;
    if let MessageView::Pong { timestamp_ms } = m {
        lemma_take_varint(timestamp_ms as nat, rest, 64);
    }
}

proof fn lemma_take_request_vote(m: MessageView, rest: Seq<u8>)
    requires
        m is RequestVote,
        lengths_fit(m),
    ensures
        take_fields(m.index(), fields_form(m) + rest) == Some(m),
{
    lemma_widths();
    let s = fields_form(m) + rest;
    if let MessageView::RequestVote { term, candidate_id } = m {
        let s1 = text_form(candidate_id) + rest;
        assert(s =~= varint(term as nat) + s1);
        lemma_take_varint(term as nat, s1, 64);
        lemma_take_text(candidate_id, rest);
    }
}

proof fn lemma_take_vote_response(m: MessageView, rest: Seq<u8>)
    requires
        m is VoteResponse,
        lengths_fit(m),
    ensures
        take_fields(m.index(), fields_form(m) + rest) == Some(m),
{
    lemma_widths();
    let s = fields_form(m) + rest;
    if let MessageView::VoteResponse { term, voter_id, granted } = m {
        let s2 = bool_form(granted) + rest;
        let s1 = text_form(voter_id) + s2;
        assert(s =~= varint(term as nat) + s1);
        lemma_take_varint(term as nat, s1, 64);
        lemma_take_text(voter_id, s2);
    }
}

proof fn lemma_take_leader_assign(m: MessageView, rest: Seq<u8>)
    requires
        m is LeaderAssign,
        lengths_fit(m),
    ensures
        take_fields(m.index(), fields_form(m) + rest) == Some(m),
{
    lemma_widths();
    let s = fields_form(m) + rest;
    if let MessageView::LeaderAssign { term, leader_id, assigner_id } = m {
        let s2 = text_form(assigner_id) + rest;
        let s1 = text_form(leader_id) + s2;
        assert(s =~= varint(term as nat) + s1);
        lemma_take_varint(term as nat, s1, 64);
        lemma_take_text(leader_id, s2);
        lemma_take_text(assigner_id, rest);
    }
}

proof fn lemma_take_forwarded_user_data(m: MessageView, rest: Seq<u8>)
    requires
        m is ForwardedUserData,
        lengths_fit(m),
    ensures
        take_fields(m.index(), fields_form(m) + rest) == Some(m),
{
    lemma_widths();
    let s = fields_form(m) + rest;
    if let MessageView::ForwardedUserData {
        from_peer_id,
        original_msg_type,
        original_flags,
        payload,
    } = m {
        let s3 = bytes_form(payload) + rest;
        let s2 = seq![original_flags] + s3;
        let s1 = varint(original_msg_type as nat) + s2;
        assert(s =~= text_form(from_peer_id) + s1);
        lemma_take_text(from_peer_id, s1);
        lemma_take_varint(original_msg_type as nat, s2, 16);
        assert(s2.skip(1) =~= s3);
        lemma_take_bytes(payload, rest);
    }
}

proof fn lemma_take_data_channel_handshake(m: MessageView, rest: Seq<u8>)
    requires
        m is DataChannelHandshake,
        lengths_fit(m),
    ensures
        take_fields(m.index(), fields_form(m) + rest) == Some(m),
{
    lemma_widths();
    let s = fields_form(m) + rest;
    if let MessageView::DataChannelHandshake { peer_id } = m {
        lemma_take_text(peer_id, rest);
    }
}

proof fn lemma_take_data_channel_handshake_ack(m: MessageView, rest: Seq<u8>)
    requires
        m is DataChannelHandshakeAck,
        lengths_fit(m),
    ensures
        take_fields(m.index(), fields_form(m) + rest) == Some(m),
{
    lemma_widths();
    let s = fields_form(m) + rest;
    if let MessageView::DataChannelHandshakeAck { peer_id, success } = m {
        let s1 = bool_form(success) + rest;
        assert(s =~= text_form(peer_id) + s1);
        lemma_take_text(peer_id, s1);
    }
}

/// Reading the form of a message, with any bytes behind it, gives back the
/// message.
pub proof fn law_read_gives_back_written(m: MessageView, rest: Seq<u8>)
    requires
        lengths_fit(m),
    ensures
        take_message(message_form(m) + rest) == Some(m),
{
    let s = fields_form(m) + rest;
    assert(message_form(m) + rest =~= varint(m.index()) + s);
    assert(take_varint(varint(m.index()) + s, 32) == Some((m.index(), s))) by {
        lemma_widths();
        lemma_take_varint(m.index(), s, 32);
    }
    match m {
        MessageView::Handshake { .. } => lemma_take_handshake(m, rest),
        MessageView::HandshakeAck { .. } => lemma_take_handshake_ack(m, rest),
        MessageView::PeerLeave { .. } => lemma_take_peer_leave(m, rest),
        MessageView::PeerListSync { .. } => lemma_take_peer_list_sync(m, rest),
        MessageView::Heartbeat { .. } => lemma_take_heartbeat(m, rest),
        MessageView::HeartbeatResponse { .. } => lemma_take_heartbeat_response(m, rest),
        MessageView::Ping { .. } => lemma_take_ping(m, rest),
        MessageView::Pong { .. } => lemma_take_pong(m, rest),
        MessageView::RequestVote { .. } => lemma_take_request_vote(m, rest),
        MessageView::VoteResponse { .. } => lemma_take_vote_response(m, rest),
        MessageView::LeaderAssign { .. } => lemma_take_leader_assign(m, rest),
        MessageView::ForwardedUserData { .. } => lemma_take_forwarded_user_data(m, rest),
        MessageView::DataChannelHandshake { .. } => lemma_take_data_channel_handshake(m, rest),
        MessageView::DataChannelHandshakeAck { .. } => lemma_take_data_channel_handshake_ack(m, rest),
    }
}

/// Different messages have different forms.
pub proof fn law_forms_are_distinct(a: MessageView, b: MessageView)
    requires
        lengths_fit(a),
        lengths_fit(b),
        message_form(a) == message_form(b),
    ensures
        a == b,
{
    law_read_gives_back_written(a, seq![]);
    law_read_gives_back_written(b, seq![]);
}

// --- single values, by `postcard` -------------------------------------------
/// `postcard::to_allocvec` on a `u64`: the variable-length form. Writing to
/// a vector does not fail. A narrower number has the same form.
#[verifier::external_body]
fn write_number(n: u64) -> (r: Result<Vec<u8>, postcard::Error>)
    ensures
        r is Ok,
        r->Ok_0@ == varint(n as nat),
{
    postcard::to_allocvec(&n)
}

/// `postcard::to_allocvec` on a `u8`: the byte itself.
#[verifier::external_body]
fn write_byte(n: u8) -> (r: Result<Vec<u8>, postcard::Error>)
    ensures
        r is Ok,
        r->Ok_0@ == seq![n],
{
    postcard::to_allocvec(&n)
}

/// `postcard::to_allocvec` on a `bool`: one byte, `0` or `1`.
#[verifier::external_body]
fn write_bool(v: bool) -> (r: Result<Vec<u8>, postcard::Error>)
    ensures
        r is Ok,
        r->Ok_0@ == bool_form(v),
{
    postcard::to_allocvec(&v)
}

/// `postcard::to_allocvec` on a text: the number of its bytes, then they.
#[verifier::external_body]
fn write_text(t: &String) -> (r: Result<Vec<u8>, postcard::Error>)
    ensures
        r is Ok,
        r->Ok_0@ == text_form(t@),
{
    postcard::to_allocvec(t)
}

/// `postcard::to_allocvec` on an optional text: `0`, or `1` and the text.
#[verifier::external_body]
fn write_optional(t: &Option<String>) -> (r: Result<Vec<u8>, postcard::Error>)
    ensures
        r is Ok,
        r->Ok_0@ == optional_form(protocol::optional_text(*t)),
{
    postcard::to_allocvec(t)
}

/// `postcard::to_allocvec` on bytes: their number, then they.
#[verifier::external_body]
fn write_bytes(data: &Vec<u8>) -> (r: Result<Vec<u8>, postcard::Error>)
    ensures
        r is Ok,
        r->Ok_0@ == bytes_form(data@),
{
    postcard::to_allocvec(data)
}

/// `postcard::to_allocvec` on pairs of texts: their number, then the texts
/// in order.
#[verifier::external_body]
fn write_pairs(p: &Vec<(String, String)>) -> (r: Result<Vec<u8>, postcard::Error>)
    ensures
        r is Ok,
        r->Ok_0@ == pairs_form(protocol::pairs_view(p@)),
{
    postcard::to_allocvec(p)
}

/// `postcard::take_from_bytes` for a `u16`: a number of at most 16 bits.
#[verifier::external_body]
fn read_u16(s: &[u8]) -> (r: Result<(u16, &[u8]), postcard::Error>)
    ensures
        match r {
            Ok((n, rest)) => take_varint(s@, 16) == Some((n as nat, rest@)),
            Err(_) => take_varint(s@, 16) is None,
        },
{
    postcard::take_from_bytes(s)
}

/// `postcard::take_from_bytes` for a `u32`: a number of at most 32 bits.
#[verifier::external_body]
fn read_u32(s: &[u8]) -> (r: Result<(u32, &[u8]), postcard::Error>)
    ensures
        match r {
            Ok((n, rest)) => take_varint(s@, 32) == Some((n as nat, rest@)),
            Err(_) => take_varint(s@, 32) is None,
        },
{
    postcard::take_from_bytes(s)
}

/// `postcard::take_from_bytes` for a `u64`: a number of at most 64 bits.
#[verifier::external_body]
fn read_u64(s: &[u8]) -> (r: Result<(u64, &[u8]), postcard::Error>)
    ensures
        match r {
            Ok((n, rest)) => take_varint(s@, 64) == Some((n as nat, rest@)),
            Err(_) => take_varint(s@, 64) is None,
        },
{
    postcard::take_from_bytes(s)
}

/// `postcard::take_from_bytes` for a `u8`: the first byte.
#[verifier::external_body]
fn read_byte(s: &[u8]) -> (r: Result<(u8, &[u8]), postcard::Error>)
    ensures
        match r {
            Ok((n, rest)) => take_byte(s@) == Some((n, rest@)),
            Err(_) => take_byte(s@) is None,
        },
{
    postcard::take_from_bytes(s)
}

/// `postcard::take_from_bytes` for a `bool`: one byte, `0` or `1`.
#[verifier::external_body]
fn read_bool(s: &[u8]) -> (r: Result<(bool, &[u8]), postcard::Error>)
    ensures
        match r {
            Ok((v, rest)) => take_bool(s@) == Some((v, rest@)),
            Err(_) => take_bool(s@) is None,
        },
{
    postcard::take_from_bytes(s)
}

/// `postcard::take_from_bytes` for a text: a length of a machine word's
/// width, then that many bytes, which must be valid UTF-8.
#[verifier::external_body]
fn read_text(s: &[u8]) -> (r: Result<(String, &[u8]), postcard::Error>)
    ensures
        match r {
            Ok((t, rest)) => take_text(s@) == Some((t@, rest@)),
            Err(_) => take_text(s@) is None,
        },
{
    postcard::take_from_bytes(s)
}

/// `postcard::take_from_bytes` for an optional text: `0`, or `1` and a text.
#[verifier::external_body]
fn read_optional(s: &[u8]) -> (r: Result<(Option<String>, &[u8]), postcard::Error>)
    ensures
        match r {
            Ok((t, rest)) => take_optional(s@) == Some((protocol::optional_text(t), rest@)),
            Err(_) => take_optional(s@) is None,
        },
{
    postcard::take_from_bytes(s)
}

/// `postcard::take_from_bytes` for bytes: a length of a machine word's
/// width, then that many bytes.
#[verifier::external_body]
fn read_bytes(s: &[u8]) -> (r: Result<(Vec<u8>, &[u8]), postcard::Error>)
    ensures
        match r {
            Ok((b, rest)) => take_bytes(s@) == Some((b@, rest@)),
            Err(_) => take_bytes(s@) is None,
        },
{
    postcard::take_from_bytes(s)
}

/// `postcard::take_from_bytes` for pairs of texts: a length of a machine
/// word's width, then that many pairs.
#[verifier::external_body]
fn read_pairs(s: &[u8]) -> (r: Result<(Vec<(String, String)>, &[u8]), postcard::Error>)
    ensures
        match r {
            Ok((p, rest)) => take_pairs(s@) == Some((protocol::pairs_view(p@), rest@)),
            Err(_) => take_pairs(s@) is None,
        },
{
    postcard::take_from_bytes(s)
}

/// The error of `postcard` for a kind of message that does not exist.
#[verifier::external_body]
fn unknown_kind() -> (r: postcard::Error) {
    postcard::Error::SerdeDeCustom
}

// --- messages ---------------------------------------------------------------
/// Append a value that was written to what is there already.
fn append(out: &mut Vec<u8>, part: Result<Vec<u8>, postcard::Error>) -> (r: Result<
    (),
    NetworkError,
>)
    ensures
        match part {
            Ok(b) => r is Ok && final(out)@ == old(out)@ + b@,
            Err(e) => r == Err::<(), NetworkError>(NetworkError::Serialization(e)),
        },
{
    match part {
        Ok(b) => {
            let mut b = b;
            out.append(&mut b);
            Ok(())
        },
        Err(e) => Err(NetworkError::Serialization(e)),
    }
}

/// Write a message in its binary form.
pub fn write_message(msg: &InternalMessage) -> (r: Result<Vec<u8>, NetworkError>)
    ensures
        r matches Ok(b) && b@ == message_form(msg@),
{
    let mut out: Vec<u8> = Vec::new();
    match msg {
        InternalMessage::Handshake { peer_id, listen_port, protocol_version, session_id } => {
            append(&mut out, write_number(0))?;
            append(&mut out, write_text(peer_id))?;
            append(&mut out, write_number(*listen_port as u64))?;
            append(&mut out, write_number(*protocol_version as u64))?;
            append(&mut out, write_text(session_id))?;
        },
        InternalMessage::HandshakeAck { peer_id, listen_port, success, error_reason } => {
            append(&mut out, write_number(1))?;
            append(&mut out, write_text(peer_id))?;
            append(&mut out, write_number(*listen_port as u64))?;
            append(&mut out, write_bool(*success))?;
            append(&mut out, write_optional(error_reason))?;
        },
        InternalMessage::PeerLeave { peer_id } => {
            append(&mut out, write_number(2))?;
            append(&mut out, write_text(peer_id))?;
        },
        InternalMessage::PeerListSync { peers } => {
            append(&mut out, write_number(3))?;
            append(&mut out, write_pairs(peers))?;
        },
        InternalMessage::Heartbeat { term, leader_id, timestamp_ms } => {
            append(&mut out, write_number(4))?;
            append(&mut out, write_number(*term))?;
            append(&mut out, write_text(leader_id))?;
            append(&mut out, write_number(*timestamp_ms))?;
        },
        InternalMessage::HeartbeatResponse { term, timestamp_ms } => {
            append(&mut out, write_number(5))?;
            append(&mut out, write_number(*term))?;
            append(&mut out, write_number(*timestamp_ms))?;
        },
        InternalMessage::Ping { timestamp_ms } => {
            append(&mut out, write_number(6))?;
            append(&mut out, write_number(*timestamp_ms))?;
        },
        InternalMessage::Pong { timestamp_ms } => {
            append(&mut out, write_number(7))?;
            append(&mut out, write_number(*timestamp_ms))?;
        },
        InternalMessage::RequestVote { term, candidate_id } => {
            append(&mut out, write_number(8))?;
            append(&mut out, write_number(*term))?;
            append(&mut out, write_text(candidate_id))?;
        },
        InternalMessage::VoteResponse { term, voter_id, granted } => {
            append(&mut out, write_number(9))?;
            append(&mut out, write_number(*term))?;
            append(&mut out, write_text(voter_id))?;
            append(&mut out, write_bool(*granted))?;
        },
        InternalMessage::LeaderAssign { term, leader_id, assigner_id } => {
            append(&mut out, write_number(10))?;
            append(&mut out, write_number(*term))?;
            append(&mut out, write_text(leader_id))?;
            append(&mut out, write_text(assigner_id))?;
        },
        InternalMessage::ForwardedUserData {
            from_peer_id,
            original_msg_type,
            original_flags,
            payload,
        } => {
            append(&mut out, write_number(11))?;
            append(&mut out, write_text(from_peer_id))?;
            append(&mut out, write_number(*original_msg_type as u64))?;
            append(&mut out, write_byte(*original_flags))?;
            append(&mut out, write_bytes(payload))?;
        },
        InternalMessage::DataChannelHandshake { peer_id } => {
            append(&mut out, write_number(12))?;
            append(&mut out, write_text(peer_id))?;
        },
        InternalMessage::DataChannelHandshakeAck { peer_id, success } => {
            append(&mut out, write_number(13))?;
            append(&mut out, write_text(peer_id))?;
            append(&mut out, write_bool(*success))?;
        },
    }
    assert(out@ =~= message_form(msg@));
    Ok(out)
}

fn read_fields(index: u32, s: &[u8]) -> (r: Result<InternalMessage, postcard::Error>)
    ensures
        match r {
            Ok(m) => take_fields(index as nat, s@) == Some(m@),
            Err(_) => take_fields(index as nat, s@) is None,
        },
{
    match index {
        0 => {
            let (peer_id, s) = read_text(s)?;
            let (listen_port, s) = read_u16(s)?;
            let (protocol_version, s) = read_u16(s)?;
            let (session_id, _) = read_text(s)?;
            Ok(InternalMessage::Handshake { peer_id, listen_port, protocol_version, session_id })
        },
        1 => {
            let (peer_id, s) = read_text(s)?;
            let (listen_port, s) = read_u16(s)?;
            let (success, s) = read_bool(s)?;
            let (error_reason, _) = read_optional(s)?;
            Ok(InternalMessage::HandshakeAck { peer_id, listen_port, success, error_reason })
        },
        2 => {
            let (peer_id, _) = read_text(s)?;
            Ok(InternalMessage::PeerLeave { peer_id })
        },
        3 => {
            let (peers, _) = read_pairs(s)?;
            Ok(InternalMessage::PeerListSync { peers })
        },
        4 => {
            let (term, s) = read_u64(s)?;
            let (leader_id, s) = read_text(s)?;
            let (timestamp_ms, _) = read_u64(s)?;
            Ok(InternalMessage::Heartbeat { term, leader_id, timestamp_ms })
        },
        5 => {
            let (term, s) = read_u64(s)?;
            let (timestamp_ms, _) = read_u64(s)?;
            Ok(InternalMessage::HeartbeatResponse { term, timestamp_ms })
        },
        6 => {
            let (timestamp_ms, _) = read_u64(s)?;
            Ok(InternalMessage::Ping { timestamp_ms })
        },
        7 => {
            let (timestamp_ms, _) = read_u64(s)?;
            Ok(InternalMessage::Pong { timestamp_ms })
        },
        8 => {
            let (term, s) = read_u64(s)?;
            let (candidate_id, _) = read_text(s)?;
            Ok(InternalMessage::RequestVote { term, candidate_id })
        },
        9 => {
            let (term, s) = read_u64(s)?;
            let (voter_id, s) = read_text(s)?;
            let (granted, _) = read_bool(s)?;
            Ok(InternalMessage::VoteResponse { term, voter_id, granted })
        },
        10 => {
            let (term, s) = read_u64(s)?;
            let (leader_id, s) = read_text(s)?;
            let (assigner_id, _) = read_text(s)?;
            Ok(InternalMessage::LeaderAssign { term, leader_id, assigner_id })
        },
        11 => {
            let (from_peer_id, s) = read_text(s)?;
            let (original_msg_type, s) = read_u16(s)?;
            let (original_flags, s) = read_byte(s)?;
            let (payload, _) = read_bytes(s)?;
            Ok(
                InternalMessage::ForwardedUserData {
                    from_peer_id,
                    original_msg_type,
                    original_flags,
                    payload,
                },
            )
        },
        12 => {
            let (peer_id, _) = read_text(s)?;
            Ok(InternalMessage::DataChannelHandshake { peer_id })
        },
        13 => {
            let (peer_id, s) = read_text(s)?;
            let (success, _) = read_bool(s)?;
            Ok(InternalMessage::DataChannelHandshakeAck { peer_id, success })
        },
        _ => Err(unknown_kind()),
    }
}

/// Read a message from its binary form. Which error of `postcard` comes for
/// malformed bytes is left open.
pub fn read_message(s: &[u8]) -> (r: Result<InternalMessage, NetworkError>)
    ensures
        match r {
            Ok(m) => take_message(s@) == Some(m@),
            Err(e) => take_message(s@) is None && e is Serialization,
        },
{
    let (index, fields) = match read_u32(s) {
        Ok(taken) => taken,
        Err(e) => {
            return Err(NetworkError::Serialization(e));
        },
    };
    match read_fields(index, fields) {
        Ok(m) => Ok(m),
        Err(e) => Err(NetworkError::Serialization(e)),
    }
}

} // verus!
