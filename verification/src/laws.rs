//! What the operations promise, each stated of what a call is given, what it
//! returns and what it leaves behind.
//!
//! A premise `call_ensures(operation, arguments, result)` says that the call
//! returned that result. A state that an operation changes is `old(..)` before
//! the call and `final(..)` after it.

pub mod basics;
pub mod connections;
pub mod election;
pub mod handshakes;
pub mod interface;
pub mod members;
pub mod node;
pub mod outside;
pub mod packets;
pub mod routing;
pub mod timed;
