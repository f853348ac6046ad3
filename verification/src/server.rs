//! The acceptor: whether the relay listens, and where.

use crate::address::{address_verdict, validate_address, BindError};
use vstd::prelude::*;
use vstd::string::StringExecFns;

verus! {

/// What a [`Server`] holds.
pub struct ServerView {
    pub address: Option<Seq<char>>,
    pub listening: bool,
}

/// The acceptor of the relay. It decides whether to listen; the caller binds
/// the socket and runs the accept loop while `is_listening` holds.
#[derive(Debug)]
pub struct Server {
    /// The address last started on.
    pub address: Option<String>,
    listening: bool,
}

impl View for Server {
    type V = ServerView;

    closed spec fn view(&self) -> ServerView {
        ServerView {
            address: match self.address {
                Some(address) => Some(address@),
                None => None,
            },
            listening: self.listening,
        }
    }
}

impl Server {
    /// A server that has no address and does not listen.
    pub fn new() -> (server: Server)
        ensures
            server@ == (ServerView { address: None, listening: false }),
    {
        Server { address: None, listening: false }
    }

    /// Whether the accept loop is to run.
    pub fn is_listening(&self) -> (listening: bool)
        ensures
            listening == self@.listening,
    {
        self.listening
    }

    /// Starts listening on `address` if it can be bound to. An address that
    /// cannot leaves the server as it was.
    pub fn start(&mut self, address: &str) -> (started: Result<(), BindError>)
        ensures
            started == address_verdict(address@),
            started is Ok ==> final(self)@ == (ServerView {
                address: Some(address@),
                listening: true,
            }),
            started is Err ==> final(self)@ == old(self)@,
    {
        match validate_address(address) {
            Ok(_) => {
                self.address = Some(String::from_str(address));
                self.listening = true;
                Ok(())
            },
            Err(error) => Err(error),
        }
    }

    /// Stops accepting. The address stays, and so does every session that
    /// was accepted before.
    pub fn close(&mut self)
        ensures
            final(self)@ == (ServerView { address: old(self)@.address, listening: false }),
    {
        self.listening = false;
    }
}

} // verus!
