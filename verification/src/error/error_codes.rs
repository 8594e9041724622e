//! Numeric codes exposed across the FFI boundary. Errors are negative,
//! which leaves `0` for success.

use vstd::prelude::*;

verus! {

pub const OK: i32 = 0;

// initialization / state
pub const NOT_INITIALIZED: i32 = -1;

pub const ALREADY_INITIALIZED: i32 = -2;

// argument validation
pub const INVALID_ARGUMENT: i32 = -3;

// connection and network errors
pub const CONNECTION_FAILED: i32 = -4;

pub const PEER_NOT_FOUND: i32 = -5;

pub const NOT_LEADER: i32 = -6;

pub const SEND_QUEUE_FULL: i32 = -7;

pub const MESSAGE_TOO_LARGE: i32 = -8;

pub const SERIALIZATION_ERROR: i32 = -9;

pub const SESSION_MISMATCH: i32 = -10;

pub const DUPLICATE_PEER_ID: i32 = -11;

pub const VERSION_MISMATCH: i32 = -12;

pub const MAX_CONNECTIONS_REACHED: i32 = -13;

pub const ALREADY_CONNECTED: i32 = -14;

// catch-all internal error, not supposed to be returned normally
pub const INTERNAL_ERROR: i32 = -99;

} // verus!
