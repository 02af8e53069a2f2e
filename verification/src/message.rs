//! The chat message: three texts, two of them bounded in length.

use vstd::prelude::*;
use vstd::utf8::encode_utf8;

verus! {

/// The most code units a room name may have.
pub const ROOM_LIMIT: usize = 30;

/// The most code units a username may have.
pub const USERNAME_LIMIT: usize = 20;

/// The length of a text in code units: the bytes of its UTF-8 encoding.
pub open spec fn code_units(text: Seq<char>) -> nat {
    encode_utf8(text).len()
}

/// What a message is, mathematically: its three texts.
pub struct MessageView {
    pub room: Seq<char>,
    pub username: Seq<char>,
    pub body: Seq<char>,
}

impl MessageView {
    /// The length bounds that every message meets.
    pub open spec fn within_limits(self) -> bool {
        &&& code_units(self.room) <= ROOM_LIMIT
        &&& code_units(self.username) <= USERNAME_LIMIT
    }
}

/// Why a candidate message was turned down.
#[derive(Clone, Copy, Debug, PartialEq, Eq)]
pub enum Rejection {
    /// The room name has more than `ROOM_LIMIT` code units.
    RoomTooLong,
    /// The room name is fine; the username has more than `USERNAME_LIMIT` code units.
    UsernameTooLong,
}

/// A chat message. It is complete and within its bounds from the moment it
/// exists, and nothing changes it afterwards.
#[derive(Debug, PartialEq, Eq)]
pub struct Message {
    room: String,
    username: String,
    body: String,
}

impl View for Message {
    type V = MessageView;

    closed spec fn view(&self) -> MessageView {
        MessageView { room: self.room@, username: self.username@, body: self.body@ }
    }
}

/// The number of code units of `text`.
fn measure(text: &str) -> (r: usize)
    ensures
        r == code_units(text@),
{
    text.as_bytes().len()
}

impl Message {
    #[verifier::type_invariant]
    spec fn bounded(self) -> bool {
        self@.within_limits()
    }

    /// Makes a message of three texts, or says which bound the candidate breaks.
    /// The room is judged before the username; the body has no bound.
    pub fn new(room: String, username: String, body: String) -> (r: Result<Message, Rejection>)
        ensures
            match r {
                Ok(m) => {
                    &&& m@ == (MessageView { room: room@, username: username@, body: body@ })
                    &&& m@.within_limits()
                },
                Err(Rejection::RoomTooLong) => code_units(room@) > ROOM_LIMIT,
                Err(Rejection::UsernameTooLong) => {
                    &&& code_units(room@) <= ROOM_LIMIT
                    &&& code_units(username@) > USERNAME_LIMIT
                },
            },
    {
        if measure(room.as_str()) > ROOM_LIMIT {
            Err(Rejection::RoomTooLong)
        } else if measure(username.as_str()) > USERNAME_LIMIT {
            Err(Rejection::UsernameTooLong)
        } else {
            Ok(Message { room, username, body })
        }
    }

    /// The room the message was posted to.
    pub fn room(&self) -> (r: &str)
        ensures
            r@ == self@.room,
            code_units(r@) <= ROOM_LIMIT,
    {
        proof {
            use_type_invariant(self);
        }
        self.room.as_str()
    }

    /// The name of the one who posted it.
    pub fn username(&self) -> (r: &str)
        ensures
            r@ == self@.username,
            code_units(r@) <= USERNAME_LIMIT,
    {
        proof {
            use_type_invariant(self);
        }
        self.username.as_str()
    }

    /// The text of the message.
    pub fn body(&self) -> (r: &str)
        ensures
            r@ == self@.body,
    {
        self.body.as_str()
    }
}

impl Clone for Message {
    /// A copy with the same three texts.
    fn clone(&self) -> (r: Message)
        ensures
            r@ == self@,
    {
        proof {
            use_type_invariant(self);
        }
        Message {
            room: self.room.clone(),
            username: self.username.clone(),
            body: self.body.clone(),
        }
    }
}

} // verus!
