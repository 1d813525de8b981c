//! The messages that travel over a relay's sockets, and the bodies of the
//! login endpoint.

use crate::wire::TextOpcode;
use vstd::prelude::*;

verus! {

/// A user known to the server.
#[derive(Clone, Debug, PartialEq, Eq)]
pub struct User {
    pub id: String,
    pub name: String,
    pub is_system: bool,
}

/// The user in whose name the server itself speaks.
pub fn sys_user() -> (user: User)
    ensures
        user.id@ == "system"@,
        user.name@ == "System"@,
        user.is_system,
{
    User { id: String::from_str("system"), name: String::from_str("System"), is_system: true }
}

/// The body of a login request.
#[derive(Clone, Debug, PartialEq, Eq)]
pub struct LoginRequestBody {
    pub username: String,
}

/// The body of the answer to a login request.
#[derive(Clone, Debug, PartialEq, Eq)]
pub struct LoginResponseBody {
    pub id: String,
    pub username: String,
}

/// The relay tells a connection the id it was given.
#[derive(Clone, Debug, PartialEq, Eq)]
pub struct Hello {
    pub id: String,
}

/// A chat message: the id of the connection it came from, and what it says.
#[derive(Clone, Debug, PartialEq, Eq)]
pub struct ChatMessage {
    pub author_id: String,
    pub content: String,
}

/// A message of the socket protocol, whatever its encoding on the wire.
#[derive(Clone, Debug, PartialEq, Eq)]
pub enum TextPayload {
    Hello(Hello),
    ChatMessage(ChatMessage),
}

impl TextPayload {
    /// The id of the connection that the message came from. Only a chat
    /// message has one.
    pub open spec fn author(self) -> Option<Seq<char>> {
        match self {
            TextPayload::Hello(_) => None,
            TextPayload::ChatMessage(m) => Some(m.author_id@),
        }
    }

    /// The opcode that tags the message on the wire.
    pub open spec fn spec_opcode(self) -> TextOpcode {
        match self {
            TextPayload::Hello(_) => TextOpcode::AssignID,
            TextPayload::ChatMessage(_) => TextOpcode::ChatMessage,
        }
    }

    /// The hello that assigns `id`.
    pub fn hello(id: String) -> (p: Self)
        ensures
            p == TextPayload::Hello(Hello { id }),
    {
        TextPayload::Hello(Hello { id })
    }

    /// The chat message from `author_id` that says `content`.
    pub fn chat(author_id: String, content: String) -> (p: Self)
        ensures
            p == TextPayload::ChatMessage(ChatMessage { author_id, content }),
    {
        TextPayload::ChatMessage(ChatMessage { author_id, content })
    }

    /// The opcode that tags the message on the wire.
    pub fn opcode(&self) -> (op: TextOpcode)
        ensures
            op == self.spec_opcode(),
    {
        match self {
            TextPayload::Hello(_) => TextOpcode::AssignID,
            TextPayload::ChatMessage(_) => TextOpcode::ChatMessage,
        }
    }

    /// The id of the connection that the message came from, if it has one.
    pub fn author_id(&self) -> (id: Option<&String>)
        ensures
            id is Some <==> self.author() is Some,
            id is Some ==> id->0@ == self.author()->0,
    {
        match self {
            TextPayload::Hello(_) => None,
            TextPayload::ChatMessage(m) => Some(&m.author_id),
        }
    }

    /// A copy of the message.
    pub fn duplicate(&self) -> (copy: Self)
        ensures
            copy == *self,
    {
        match self {
            TextPayload::Hello(h) => TextPayload::Hello(Hello { id: h.id.clone() }),
            TextPayload::ChatMessage(m) => TextPayload::ChatMessage(
                ChatMessage { author_id: m.author_id.clone(), content: m.content.clone() },
            ),
        }
    }
}

} // verus!
