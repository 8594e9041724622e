//! Basic types used throughout the network stack: peer identifiers,
//! connection states and routing targets.

use vstd::prelude::*;

use crate::text;

verus! {

/// Unique name of a peer. Its view is the text of the name.
#[derive(Debug, Eq, Hash)]
pub struct PeerId(String);

impl View for PeerId {
    type V = Seq<char>;

    closed spec fn view(&self) -> Seq<char> {
        self.0@
    }
}

impl PeerId {
    /// Create a peer name from its text.
    pub fn new(id: &str) -> (r: Self)
        ensures
            r@ == id@,
    {
        Self(id.to_owned())
    }

    /// Borrow the text of the name.
    pub fn as_str(&self) -> (r: &str)
        ensures
            r@ == self@,
    {
        self.0.as_str()
    }

    /// Borrow the text of the name.
    pub fn as_ref(&self) -> (r: &str)
        ensures
            r@ == self@,
    {
        self.0.as_str()
    }

    /// The text of the name, as it is displayed.
    pub fn to_string(&self) -> (r: String)
        ensures
            r@ == self@,
    {
        self.0.clone()
    }

    /// Does this name come strictly before `other`?
    pub fn less_than(&self, other: &PeerId) -> (r: bool)
        ensures
            r == text::text_less(self@, other@),
    {
        text::str_less(self.as_str(), other.as_str())
    }
}

impl Clone for PeerId {
    fn clone(&self) -> (r: Self)
        ensures
            r == *self,
    {
        Self(self.0.clone())
    }
}

impl PartialEq for PeerId {
    fn eq(&self, other: &Self) -> (r: bool) {
        self.0 == other.0
    }
}

impl vstd::std_specs::cmp::PartialEqSpecImpl for PeerId {
    open spec fn obeys_eq_spec() -> bool {
        true
    }

    open spec fn eq_spec(&self, other: &Self) -> bool {
        self@ == other@
    }
}

impl From<&str> for PeerId {
    fn from(s: &str) -> (r: Self)
        ensures
            r@ == s@,
    {
        Self(s.to_owned())
    }
}

impl vstd::std_specs::convert::FromSpecImpl<&str> for PeerId {
    open spec fn obeys_from_spec() -> bool {
        false
    }

    open spec fn from_spec(s: &str) -> Self {
        arbitrary()
    }
}

impl From<String> for PeerId {
    fn from(s: String) -> (r: Self)
        ensures
            r@ == s@,
    {
        Self(s)
    }
}

impl vstd::std_specs::convert::FromSpecImpl<String> for PeerId {
    open spec fn obeys_from_spec() -> bool {
        true
    }

    closed spec fn from_spec(s: String) -> Self {
        PeerId(s)
    }
}

/// The text of an optional peer name.
pub open spec fn optional_id(id: Option<PeerId>) -> Option<Seq<char>> {
    match id {
        Some(p) => Some(p@),
        None => None,
    }
}

/// The texts of a list of peer names.
pub open spec fn ids_view(ids: Seq<PeerId>) -> Seq<Seq<char>> {
    ids.map_values(|p: PeerId| p@)
}

/// Current state of a connection to a peer, exported through callbacks.
#[derive(Clone, Copy, Debug, PartialEq, Eq, Structural)]
pub enum PeerStatus {
    Connected,
    Disconnected,
    Reconnecting,
    Handshaking,
}

impl PeerStatus {
    /// The number that stands for the status outside of the library.
    pub open spec fn number(self) -> i32 {
        match self {
            PeerStatus::Connected => 0,
            PeerStatus::Disconnected => 1,
            PeerStatus::Reconnecting => 2,
            PeerStatus::Handshaking => 3,
        }
    }

    /// Convert the status to an integer for callbacks and other consumers.
    pub fn as_i32(self) -> (r: i32)
        ensures
            r == self.number(),
    {
        match self {
            Self::Connected => 0,
            Self::Disconnected => 1,
            Self::Reconnecting => 2,
            Self::Handshaking => 3,
        }
    }
}

/// What is known about a peer. Points in time are nanoseconds on the
/// node's monotonic clock.
#[derive(Debug)]
pub struct PeerInfo {
    // identity
    pub peer_id: PeerId,
    pub addr: String,
    // runtime state
    pub status: PeerStatus,
    pub last_seen: u128,
    pub rtt_ms: Option<u32>,
    pub connected_at: u128,
    // configuration
    pub should_reconnect: bool,
}

impl PeerInfo {
    /// The record of a peer that has just connected, at time `now`.
    pub fn new(peer_id: PeerId, addr: String, now: u128) -> (r: Self)
        ensures
            r == (PeerInfo {
                peer_id,
                addr,
                status: PeerStatus::Connected,
                last_seen: now,
                rtt_ms: None,
                connected_at: now,
                should_reconnect: true,
            }),
    {
        Self {
            peer_id,
            addr,
            status: PeerStatus::Connected,
            last_seen: now,
            rtt_ms: None,
            connected_at: now,
            should_reconnect: true,
        }
    }
}

impl Clone for PeerInfo {
    fn clone(&self) -> (r: Self)
        ensures
            r == *self,
    {
        Self {
            peer_id: self.peer_id.clone(),
            addr: self.addr.clone(),
            status: self.status,
            last_seen: self.last_seen,
            rtt_ms: self.rtt_ms,
            connected_at: self.connected_at,
            should_reconnect: self.should_reconnect,
        }
    }
}

/// Destination of a user message.
#[derive(Debug)]
pub enum MessageTarget {
    Broadcast,
    ToPeer(PeerId),
    ToLeader,
}

impl Clone for MessageTarget {
    fn clone(&self) -> (r: Self)
        ensures
            r == *self,
    {
        match self {
            Self::Broadcast => Self::Broadcast,
            Self::ToPeer(p) => Self::ToPeer(p.clone()),
            Self::ToLeader => Self::ToLeader,
        }
    }
}

/// Where the leader sends a forwarded message.
#[derive(Debug)]
pub enum ForwardTarget {
    ToPeer(PeerId),
    Broadcast,
}

impl Clone for ForwardTarget {
    fn clone(&self) -> (r: Self)
        ensures
            r == *self,
    {
        match self {
            Self::ToPeer(p) => Self::ToPeer(p.clone()),
            Self::Broadcast => Self::Broadcast,
        }
    }
}

} // verus!
