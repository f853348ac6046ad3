//! The kinds of message, as they stand in `message_type`.

use vstd::prelude::*;

verus! {

pub const MESSAGE: &'static str = "message";

pub const DISCOVERY: &'static str = "discovery";

pub const ACK: &'static str = "ack";

pub const ERROR: &'static str = "error";

pub const DISCONNECT: &'static str = "disconnect";

} // verus!
