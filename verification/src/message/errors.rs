//! What a peer answers to a message of each kind that it cannot accept.

use vstd::prelude::*;

verus! {

pub const INVALID_MESSAGE: &'static str = "Invalid message";

pub const INVALID_DISCOVERY: &'static str = "Invalid discovery";

pub const INVALID_ACK: &'static str = "Invalid ack";

pub const INVALID_ERROR: &'static str = "Invalid error";

pub const INVALID_DISCONNECT: &'static str = "Invalid disconnect";

} // verus!
