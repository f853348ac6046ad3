//! The message that peers exchange, and builders for each kind of it.

pub mod errors;
pub mod types;

use crate::envelope::{decode, decoded, encode, encoded, DecodeError, EncodeError};
use vstd::prelude::*;
use vstd::string::StringExecFns;

verus! {

/// What a [`Message`] holds, as plain text.
pub struct MessageView {
    pub from: Seq<char>,
    pub to: Seq<char>,
    pub message_type: Seq<char>,
    pub body: Seq<char>,
}

/// One message between peers. The relay carries `to` and `message_type`
/// through and consults neither.
#[derive(Debug)]
pub struct Message {
    pub from: String,
    pub to: String,
    pub message_type: String,
    pub body: String,
}

impl View for Message {
    type V = MessageView;

    open spec fn view(&self) -> MessageView {
        MessageView {
            from: self.from@,
            to: self.to@,
            message_type: self.message_type@,
            body: self.body@,
        }
    }
}

impl Clone for Message {
    fn clone(&self) -> (copy: Message)
        ensures
            copy@ == self@,
    {
        Message {
            from: self.from.clone(),
            to: self.to.clone(),
            message_type: self.message_type.clone(),
            body: self.body.clone(),
        }
    }
}

impl Message {
    /// A message of the four members as given.
    pub fn new(from: String, to: String, message_type: String, body: String) -> (message: Message)
        ensures
            message.from == from,
            message.to == to,
            message.message_type == message_type,
            message.body == body,
    {
        Message { from: from, to: to, message_type: message_type, body: body }
    }

    /// The wire form of the message. It is always there, and it reads back
    /// as the message it was written from.
    pub fn to_json(&self) -> (text: Result<String, EncodeError>)
        ensures
            text is Ok,
            text matches Ok(t) ==> t@ == encoded(self@),
            text matches Ok(t) ==> decoded(t@) == Ok::<MessageView, DecodeError>(self@),
    {
        encode(self)
    }

    /// Reads a message from its wire form, or says why the text holds none.
    pub fn from_json(json: &str) -> (message: Result<Message, DecodeError>)
        ensures
            match message {
                Ok(m) => decoded(json@) == Ok::<MessageView, DecodeError>(m@),
                Err(e) => decoded(json@) == Err::<MessageView, DecodeError>(e),
            },
    {
        decode(json)
    }
}

/// The message that a builder frames: `kind` in `message_type`, the rest as
/// given.
pub open spec fn built(from: Seq<char>, to: Seq<char>, kind: Seq<char>, body: Seq<char>)
    -> MessageView {
    MessageView { from: from, to: to, message_type: kind, body: body }
}

fn build(from: String, to: String, kind: &str, body: String) -> (text: String)
    ensures
        text@ == encoded(built(from@, to@, kind@, body@)),
        decoded(text@) == Ok::<MessageView, DecodeError>(built(from@, to@, kind@, body@)),
{
    Message::new(from, to, String::from_str(kind), body).to_json().unwrap()
}

/// The wire form of a message of kind `message`.
pub fn build_message(from: String, to: String, body: String) -> (text: String)
    ensures
        text@ == encoded(built(from@, to@, types::MESSAGE@, body@)),
        decoded(text@) == Ok::<MessageView, DecodeError>(
            built(from@, to@, types::MESSAGE@, body@),
        ),
{
    build(from, to, types::MESSAGE, body)
}

/// The wire form of a message of kind `discovery`.
pub fn build_discovery(from: String, to: String, body: String) -> (text: String)
    ensures
        text@ == encoded(built(from@, to@, types::DISCOVERY@, body@)),
        decoded(text@) == Ok::<MessageView, DecodeError>(
            built(from@, to@, types::DISCOVERY@, body@),
        ),
{
    build(from, to, types::DISCOVERY, body)
}

/// The wire form of a message of kind `ack`.
pub fn build_ack(from: String, to: String, body: String) -> (text: String)
    ensures
        text@ == encoded(built(from@, to@, types::ACK@, body@)),
        decoded(text@) == Ok::<MessageView, DecodeError>(built(from@, to@, types::ACK@, body@)),
{
    build(from, to, types::ACK, body)
}

/// The wire form of a message of kind `error`.
pub fn build_error(from: String, to: String, body: String) -> (text: String)
    ensures
        text@ == encoded(built(from@, to@, types::ERROR@, body@)),
        decoded(text@) == Ok::<MessageView, DecodeError>(built(from@, to@, types::ERROR@, body@)),
{
    build(from, to, types::ERROR, body)
}

/// The wire form of a message of kind `disconnect`.
pub fn build_disconnect(from: String, to: String, body: String) -> (text: String)
    ensures
        text@ == encoded(built(from@, to@, types::DISCONNECT@, body@)),
        decoded(text@) == Ok::<MessageView, DecodeError>(
            built(from@, to@, types::DISCONNECT@, body@),
        ),
{
    build(from, to, types::DISCONNECT, body)
}

} // verus!
