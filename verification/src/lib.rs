//! Peer-to-peer networking core: membership, leader election, message
//! routing, framing and the rules of the connection handshake.

pub mod buffer;
pub mod callback;
pub mod clock;
pub mod config;
pub mod discovery;
pub mod error;
pub mod ffi;
pub mod laws;
pub mod leader;
pub mod membership;
pub mod messaging;
pub mod network;
pub mod peer_map;
pub mod protocol;
pub mod session_router;
pub mod text;
pub mod transport;
pub mod types;
pub mod wire;

pub use network::NetworkState;
