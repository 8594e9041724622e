//! Numeric type codes of the internal protocol messages.

use vstd::prelude::*;

verus! {

// handshake
pub const HANDSHAKE: u16 = 0x0001;

pub const HANDSHAKE_ACK: u16 = 0x0002;

// membership
pub const PEER_LEAVE: u16 = 0x0003;

pub const PEER_LIST_SYNC: u16 = 0x0004;

// heartbeat / ping
pub const HEARTBEAT: u16 = 0x0010;

pub const HEARTBEAT_RESPONSE: u16 = 0x0011;

pub const PING: u16 = 0x0012;

pub const PONG: u16 = 0x0013;

// election
pub const REQUEST_VOTE: u16 = 0x0020;

pub const VOTE_RESPONSE: u16 = 0x0021;

pub const LEADER_ASSIGN: u16 = 0x0022;

// forwarded payload
pub const FORWARDED_USER_DATA: u16 = 0x0030;

// dual-channel handshake
pub const DATA_CHANNEL_HANDSHAKE: u16 = 0x0040;

pub const DATA_CHANNEL_HANDSHAKE_ACK: u16 = 0x0041;

// user messages (>= 0x0100) are sent without internal encoding
pub const USER_MESSAGE_START: u16 = 0x0100;

/// All internal message codes, in the order of their definition.
pub open spec fn all_codes() -> Seq<u16> {
    seq![
        HANDSHAKE,
        HANDSHAKE_ACK,
        PEER_LEAVE,
        PEER_LIST_SYNC,
        HEARTBEAT,
        HEARTBEAT_RESPONSE,
        PING,
        PONG,
        REQUEST_VOTE,
        VOTE_RESPONSE,
        LEADER_ASSIGN,
        FORWARDED_USER_DATA,
        DATA_CHANNEL_HANDSHAKE,
        DATA_CHANNEL_HANDSHAKE_ACK,
    ]
}

/// All internal message codes, in the order of their definition.
pub fn all() -> (r: [u16; 14])
    ensures
        r@ == all_codes(),
{
    [
        HANDSHAKE,
        HANDSHAKE_ACK,
        PEER_LEAVE,
        PEER_LIST_SYNC,
        HEARTBEAT,
        HEARTBEAT_RESPONSE,
        PING,
        PONG,
        REQUEST_VOTE,
        VOTE_RESPONSE,
        LEADER_ASSIGN,
        FORWARDED_USER_DATA,
        DATA_CHANNEL_HANDSHAKE,
        DATA_CHANNEL_HANDSHAKE_ACK,
    ]
}

/// No code stands for two kinds of message, and all of them lie below the
/// codes of user messages.
pub proof fn law_codes_are_unique_and_internal()
    ensures
        all_codes().no_duplicates(),
        forall|i: int| 0 <= i < all_codes().len() ==> all_codes()[i] < USER_MESSAGE_START,
{
}

} // verus!
