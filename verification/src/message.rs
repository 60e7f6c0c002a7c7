//! The chat messages that peers exchange: a request carries a line of text
//! under a unique id, and the answer acknowledges it.
use uuid::Uuid;
use vstd::prelude::*;

verus! {

/// A chat message sent to a peer: its id (the 128 bits of a UUID) and its text.
#[derive(Clone, Debug, PartialEq, Eq)]
pub struct MessageRequest {
    pub id: u128,
    pub message: String,
}

/// The answer to a chat message.
#[derive(Clone, Copy, Debug, PartialEq, Eq)]
pub struct MessageResponse {
    pub ack: bool,
}

/// A chat message as a mathematical value.
pub struct RequestView {
    pub id: u128,
    pub message: Seq<char>,
}

impl View for MessageRequest {
    type V = RequestView;

    open spec fn view(&self) -> RequestView {
        RequestView { id: self.id, message: self.message@ }
    }
}

impl MessageRequest {
    /// A copy of the message, with the same id and text.
    pub fn duplicate(&self) -> (copy: MessageRequest)
        ensures
            copy@ == self@,
    {
        MessageRequest { id: self.id, message: self.message.clone() }
    }
}

/// The bits of a random (version 4, RFC 4122 variant) UUID that are fixed:
/// the version nibble reads 4 and the two variant bits read `10`.
pub open spec fn is_random_uuid(id: u128) -> bool {
    id & 0xF000_C000_0000_0000_0000u128 == 0x4000_8000_0000_0000_0000u128
}

/// A new message id: `Uuid::new_v4`, taken as a `u128` (`Uuid::as_u128`).
/// Claimed: the id has the version and variant bits of a random UUID; its
/// other 122 bits come from the operating system's random source and are not
/// described.
#[verifier::external_body]
pub(crate) fn fresh_message_id() -> (id: u128)
    ensures
        is_random_uuid(id),
{
    Uuid::new_v4().as_u128()
}

} // verus!
