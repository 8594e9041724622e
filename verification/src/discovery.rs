//! Discovery of peers by mDNS: what a node publishes about itself, and to
//! which of the nodes that it finds it connects.

use vstd::prelude::*;

use crate::config::PROTOCOL_VERSION;
use crate::error::NetworkError;
use crate::membership::{MembershipManager, MembershipView};
use crate::protocol;
use crate::text;
use crate::types::PeerId;

verus! {

/// The kind of service that nodes publish and look for.
pub const SERVICE_TYPE: &'static str = "_meta-mystia._tcp.local.";

/// What a node publishes about itself.
pub struct ServiceRecord {
    pub service_type: String,
    pub instance_name: String,
    pub host_name: String,
    pub port: u16,
    /// Pairs of a name and a value.
    pub properties: Vec<(String, String)>,
}

/// A node that was found. Its properties may be missing.
pub struct ResolvedService {
    pub session_id: Option<String>,
    pub peer_id: Option<String>,
    pub addresses: Vec<String>,
    pub port: u16,
}

/// The value of a [`DiscoveryManager`].
#[verifier::ext_equal]
pub struct DiscoveryView {
    pub local: Seq<char>,
    pub session: Seq<char>,
    pub listen_port: u16,
}

/// Does a node named `local` in the session `session` connect to the node
/// that it found? Only within the session, not to itself, not to a member,
/// and of two nodes only the one whose name comes first connects.
pub open spec fn connects(
    local: Seq<char>,
    session: Seq<char>,
    found_peer: Seq<char>,
    found_session: Seq<char>,
    m: MembershipView,
) -> bool {
    &&& found_session == session
    &&& found_peer != local
    &&& !m.peers.contains(found_peer)
    &&& !text::text_less(found_peer, local)
}

impl DiscoveryView {
    /// The name under which the node publishes itself.
    pub open spec fn instance(self) -> Seq<char> {
        self.session + "_"@ + self.local
    }

    /// Is `r` what the node publishes on the given host?
    pub open spec fn publishes(self, host: Seq<char>, r: ServiceRecord) -> bool {
        &&& r.service_type@ == SERVICE_TYPE@
        &&& r.instance_name@ == self.instance()
        &&& r.host_name@ == host + ".local."@
        &&& r.port == self.listen_port
        &&& protocol::pairs_view(r.properties@) == seq![
            ("peer_id"@, self.local),
            ("session_id"@, self.session),
            ("protocol_version"@, text::decimal(PROTOCOL_VERSION as nat)),
        ]
    }

    /// The address to connect to, if the node connects to the one that it
    /// found: the first address with the port.
    pub open spec fn target(self, found: ResolvedService, m: MembershipView) -> Option<Seq<char>> {
        match (found.session_id, found.peer_id) {
            (Some(s), Some(p)) if connects(self.local, self.session, p@, s@, m)
                && found.addresses@.len() > 0 => Some(
                found.addresses@[0]@ + ":"@ + text::decimal(found.port as nat),
            ),
            _ => None,
        }
    }
}

/// Knows what the node publishes and to which nodes it connects.
pub struct DiscoveryManager {
    local_peer_id: PeerId,
    session_id: String,
    instance_name: String,
    listen_port: u16,
}

impl View for DiscoveryManager {
    type V = DiscoveryView;

    closed spec fn view(&self) -> DiscoveryView {
        DiscoveryView {
            local: self.local_peer_id@,
            session: self.session_id@,
            listen_port: self.listen_port,
        }
    }
}

impl DiscoveryManager {
    /// Does the name fit the node?
    pub closed spec fn wf(&self) -> bool {
        self.instance_name@ == self@.instance()
    }

    /// Discovery for a node that listens on the given port.
    pub fn new(local_peer_id: PeerId, session_id: String, listen_port: u16) -> (r: Self)
        ensures
            r.wf(),
            r@ == (DiscoveryView { local: local_peer_id@, session: session_id@, listen_port }),
    {
        let mut instance_name = text::concat(session_id.as_str(), "_");
        instance_name.append(local_peer_id.as_str());
        Self { local_peer_id, session_id, instance_name, listen_port }
    }

    /// What the node publishes; the host is `unknown` where its name cannot
    /// be found out.
    pub fn service_record(&self, hostname: Option<String>) -> (r: ServiceRecord)
        requires
            self.wf(),
        ensures
            self@.publishes(
                match hostname {
                    Some(h) => h@,
                    None => "unknown"@,
                },
                r,
            ),
    {
        let host = match hostname {
            Some(h) => h,
            None => "unknown".to_owned(),
        };
        let mut version = String::new();
        text::append_decimal(&mut version, PROTOCOL_VERSION as u64);
        let mut properties: Vec<(String, String)> = Vec::new();
        properties.push(("peer_id".to_owned(), self.local_peer_id.to_string()));
        properties.push(("session_id".to_owned(), self.session_id.clone()));
        properties.push(("protocol_version".to_owned(), version));
        assert(version@ =~= text::decimal(PROTOCOL_VERSION as nat));
        assert(protocol::pairs_view(properties@) =~= seq![
            ("peer_id"@, self@.local),
            ("session_id"@, self@.session),
            ("protocol_version"@, text::decimal(PROTOCOL_VERSION as nat)),
        ]);
        ServiceRecord {
            service_type: SERVICE_TYPE.to_owned(),
            instance_name: self.instance_name.clone(),
            host_name: text::concat(host.as_str(), ".local."),
            port: self.listen_port,
            properties,
        }
    }

    /// The full name under which the node is published.
    pub fn full_name(&self) -> (r: String)
        requires
            self.wf(),
        ensures
            r@ == self@.instance() + "."@ + SERVICE_TYPE@,
    {
        let mut name = text::concat(self.instance_name.as_str(), ".");
        name.append(SERVICE_TYPE);
        name
    }

    /// The address to connect to, if the node connects to the one that it
    /// found.
    pub fn connect_target(&self, found: &ResolvedService, membership: &MembershipManager) -> (r:
        Option<String>)
        requires
            membership.wf(),
        ensures
            protocol::optional_text(r) == self@.target(*found, membership@),
    {
        if let Some(session) = &found.session_id {
            if let Some(peer) = &found.peer_id {
                if Self::should_connect_to_discovered_peer(
                    &self.local_peer_id,
                    self.session_id.as_str(),
                    peer.as_str(),
                    session.as_str(),
                    membership,
                ) && found.addresses.len() > 0 {
                    let mut target = text::concat(found.addresses[0].as_str(), ":");
                    text::append_decimal(&mut target, found.port as u64);
                    return Some(target);
                }
            }
        }
        None
    }

    /// Discovery through a server; there is none yet.
    pub fn connect_to_discovery_server(_server_addr: &str) -> (r: Result<(), NetworkError>)
        ensures
            r == Err::<(), NetworkError>(NetworkError::NotImplemented),
    {
        Err(NetworkError::NotImplemented)
    }

    /// Does a node connect to the one that it found?
    pub fn should_connect_to_discovered_peer(
        local_peer_id: &PeerId,
        local_session_id: &str,
        discovered_peer_id: &str,
        discovered_session_id: &str,
        membership: &MembershipManager,
    ) -> (r: bool)
        requires
            membership.wf(),
        ensures
            r == connects(
                local_peer_id@,
                local_session_id@,
                discovered_peer_id@,
                discovered_session_id@,
                membership@,
            ),
    {
        if !text::str_eq(discovered_session_id, local_session_id) {
            return false;
        }
        let discovered = PeerId::new(discovered_peer_id);
        if discovered == *local_peer_id {
            return false;
        }
        if membership.has_peer(&discovered) {
            return false;
        }
        !discovered.less_than(local_peer_id)
    }
}

// --- laws -------------------------------------------------------------------
/// Of two nodes of a session that find each other, exactly one connects to
/// the other.
pub proof fn law_exactly_one_side_connects(
    a: Seq<char>,
    b: Seq<char>,
    session: Seq<char>,
    of_a: MembershipView,
    of_b: MembershipView,
)
    requires
        a != b,
        !of_a.peers.contains(b),
        !of_b.peers.contains(a),
    ensures
        connects(a, session, b, session, of_a) <==> !connects(b, session, a, session, of_b),
{
    text::law_text_order_is_total(a, b, a);
}

/// No node connects to one of another session, to itself or to a member.
pub proof fn law_who_is_not_connected_to(
    local: Seq<char>,
    session: Seq<char>,
    peer: Seq<char>,
    peer_session: Seq<char>,
    m: MembershipView,
)
    ensures
        peer_session != session ==> !connects(local, session, peer, peer_session, m),
        peer == local ==> !connects(local, session, peer, peer_session, m),
        m.peers.contains(peer) ==> !connects(local, session, peer, peer_session, m),
{
}

} // verus!
