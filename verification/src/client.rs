//! What a listening client tells its owner about the connections it sees.

use crate::envelope::{decoded, encoded, DecodeError};
use crate::message::types::{DISCOVERY, ERROR};
use crate::message::{build_discovery, build_error, built, MessageView};
use vstd::prelude::*;
use vstd::string::StringExecFns;

verus! {

/// The message that announces `incoming` to the owner of the client at
/// `own`: a discovery from the peer that connected, with an empty body, or
/// an error from the client to itself that carries the failure as its body.
pub open spec fn announcement(own: Seq<char>, incoming: Result<Seq<char>, Seq<char>>)
    -> MessageView {
    match incoming {
        Ok(peer) => built(peer, own, DISCOVERY@, Seq::<char>::empty()),
        Err(failure) => built(own, own, ERROR@, failure),
    }
}

/// The wire form of the message that announces one turn of the accept loop:
/// `Ok` with the address of the peer that connected, `Err` with the text of
/// the failure.
pub fn announce(own: &str, incoming: Result<String, String>) -> (text: String)
    ensures
        text@ == encoded(
            announcement(
                own@,
                match incoming {
                    Ok(peer) => Ok(peer@),
                    Err(failure) => Err(failure@),
                },
            ),
        ),
        decoded(text@) == Ok::<MessageView, DecodeError>(
            announcement(
                own@,
                match incoming {
                    Ok(peer) => Ok(peer@),
                    Err(failure) => Err(failure@),
                },
            ),
        ),
{
    match incoming {
        Ok(peer) => build_discovery(peer, String::from_str(own), String::new()),
        Err(failure) => build_error(String::from_str(own), String::from_str(own), failure),
    }
}

} // verus!
