//! The push event: one message as a JSON record of three string fields.
//!
//! The record is put together here; the JSON form of each string comes from
//! `serde_json`, which is trusted for it.

use crate::message::{Message, MessageView};
use vstd::prelude::*;
use vstd::string::StringExecFns;

verus! {

/// What `serde_json::to_string` gives for a string: its JSON text, which is
/// the string in double quotes with the characters escaped that JSON wants
/// escaped, or nothing where the call fails.
pub uninterp spec fn json_text(text: Seq<char>) -> Option<Seq<char>>;

/// The error type of `serde_json`.
#[verifier::external_type_specification]
#[verifier::external_body]
pub struct ExJsonError(serde_json::Error);

/// Calls `serde_json::to_string` on a string. Trusted: what comes back
/// depends on the string alone, so the same string gives the same text, or
/// fails, every time. Nothing is claimed about which strings it succeeds on.
#[verifier::external_body]
fn quote(text: &str) -> (r: Result<String, serde_json::Error>)
    ensures
        text_of(r) == json_text(text@),
{
    serde_json::to_string(text)
}

/// The record that holds three fields already in JSON form: an object with
/// the keys `room`, `username` and `message`, in this order, without spaces.
pub open spec fn record(room: Seq<char>, username: Seq<char>, message: Seq<char>) -> Seq<char> {
    "{\"room\":"@ + room + ",\"username\":"@ + username + ",\"message\":"@ + message + "}"@
}

/// The payload of the event that carries `message`: the record of its three
/// texts in JSON form, or the empty text where one of them has no JSON form.
pub open spec fn wire_text(message: MessageView) -> Seq<char> {
    payload_text(json_text(message.room), json_text(message.username), json_text(message.body))
}

/// What a push event is, mathematically: a message and the payload sent for it.
pub struct EventView {
    pub message: MessageView,
    pub data: Seq<char>,
}

impl EventView {
    /// The payload is the one that belongs to the message.
    pub open spec fn sound(self) -> bool {
        self.data == wire_text(self.message)
    }
}

/// The text that a quoting attempt gave, if it gave one.
pub open spec fn text_of(attempt: Result<String, serde_json::Error>) -> Option<Seq<char>> {
    match attempt {
        Ok(text) => Some(text@),
        Err(_) => None,
    }
}

/// The payload for three quoting attempts: the record of the three texts if
/// all succeeded, and the empty text if one of them failed.
pub open spec fn payload_text(
    room: Option<Seq<char>>,
    username: Option<Seq<char>>,
    message: Option<Seq<char>>,
) -> Seq<char> {
    if room is Some && username is Some && message is Some {
        record(room->0, username->0, message->0)
    } else {
        Seq::empty()
    }
}

/// Puts three fields, each already in JSON form, into one record.
pub fn frame(room: &str, username: &str, message: &str) -> (r: String)
    ensures
        r@ == record(room@, username@, message@),
{
    let mut out = "{\"room\":".to_owned();
    out.append(room);
    out.append(",\"username\":");
    out.append(username);
    out.append(",\"message\":");
    out.append(message);
    out.append("}");
    out
}

/// The payload for the outcome of quoting the three fields of a message.
pub fn payload(
    room: Result<String, serde_json::Error>,
    username: Result<String, serde_json::Error>,
    message: Result<String, serde_json::Error>,
) -> (r: String)
    ensures
        r@ == payload_text(text_of(room), text_of(username), text_of(message)),
{
    match (room, username, message) {
        (Ok(room), Ok(username), Ok(message)) => frame(
            room.as_str(),
            username.as_str(),
            message.as_str(),
        ),
        _ => String::new(),
    }
}

/// The payload of the event that carries `message`: each of the three texts
/// is put into JSON form by `serde_json`, and the three are framed as one
/// record. It is empty only where `serde_json` fails on one of them.
pub fn encode(message: &Message) -> (r: String)
    ensures
        r@ == wire_text(message@),
{
    let room = quote(message.room());
    let username = quote(message.username());
    let body = quote(message.body());
    payload(room, username, body)
}

/// One push event: a message together with its payload.
#[derive(Debug, PartialEq, Eq)]
pub struct Event {
    message: Message,
    data: String,
}

impl View for Event {
    type V = EventView;

    closed spec fn view(&self) -> EventView {
        EventView { message: self.message@, data: self.data@ }
    }
}

impl Event {
    #[verifier::type_invariant]
    spec fn inv(self) -> bool {
        self@.sound()
    }

    /// The event that carries `message`, with the message's JSON record as
    /// its payload.
    pub fn json(message: Message) -> (event: Event)
        ensures
            event@.message == message@,
            event@.sound(),
    {
        let data = encode(&message);
        Event { message, data }
    }

    /// The message that the event carries.
    pub fn message(&self) -> (r: &Message)
        ensures
            r@ == self@.message,
    {
        &self.message
    }

    /// The payload: what goes over the wire for this event.
    pub fn data(&self) -> (r: &str)
        ensures
            r@ == self@.data,
            self@.sound(),
    {
        proof {
            use_type_invariant(self);
        }
        self.data.as_str()
    }
}

} // verus!
