//! The chat message record and its mathematical model.
//!
//! A message is created once, on successful inbound-frame processing, and is
//! mutated only by the one-way read-flag transition; it is never deleted.

use vstd::prelude::*;

verus! {

/// A user identity: the 128 bits of the user's id, treated as opaque.
pub type UserId = u128;

/// A persisted chat message. The id and the creation timestamp are assigned
/// by the store at persistence time; `is_read` starts false and flips to
/// true only when the receiving party fetches history.
pub struct Message {
    pub id: u64,
    pub sender_id: UserId,
    pub receiver_id: UserId,
    pub content: String,
    pub image_url: Option<String>,
    pub is_read: bool,
    pub created_at: i64,
    pub updated_at: i64,
}

/// The mathematical model of a message: the same fields over unbounded
/// integers and character sequences.
pub struct MessageView {
    pub id: int,
    pub sender_id: int,
    pub receiver_id: int,
    pub content: Seq<char>,
    pub image_url: Option<Seq<char>>,
    pub is_read: bool,
    pub created_at: int,
    pub updated_at: int,
}

impl View for Message {
    type V = MessageView;

    open spec fn view(&self) -> MessageView {
        MessageView {
            id: self.id as int,
            sender_id: self.sender_id as int,
            receiver_id: self.receiver_id as int,
            content: self.content@,
            image_url: match self.image_url {
                Some(s) => Some(s@),
                None => None,
            },
            is_read: self.is_read,
            created_at: self.created_at as int,
            updated_at: self.updated_at as int,
        }
    }
}

impl Clone for Message {
    /// A clone carries the same model.
    fn clone(&self) -> (r: Self)
        ensures
            r@ == self@,
    {
        Message {
            id: self.id,
            sender_id: self.sender_id,
            receiver_id: self.receiver_id,
            content: self.content.clone(),
            image_url: match &self.image_url {
                Some(s) => Some(s.clone()),
                None => None,
            },
            is_read: self.is_read,
            created_at: self.created_at,
            updated_at: self.updated_at,
        }
    }
}

impl MessageView {
    /// The same message with the read flag raised; all other fields kept.
    pub open spec fn marked_read(self) -> MessageView {
        MessageView { is_read: true, ..self }
    }

    /// Whether this message flows from `sender` to `receiver`.
    pub open spec fn is_from_to(self, sender: int, receiver: int) -> bool {
        self.sender_id == sender && self.receiver_id == receiver
    }

    /// Whether this message belongs to the conversation between `a` and
    /// `b`, in either direction.
    pub open spec fn between(self, a: int, b: int) -> bool {
        self.is_from_to(a, b) || self.is_from_to(b, a)
    }
}

} // verus!
