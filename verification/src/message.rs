//! Conversation messages exchanged with a completion service.

use vstd::prelude::*;
use vstd::string::StringExecFns;

verus! {

/// Who is speaking in a conversation.
#[derive(Clone, Copy, PartialEq, Eq, Structural, Debug)]
pub enum Role {
    System,
    User,
    Assistant,
}

impl Role {
    /// The lower-case name under which the role travels in a request.
    pub open spec fn wire_name(self) -> Seq<char> {
        match self {
            Role::System => "system"@,
            Role::User => "user"@,
            Role::Assistant => "assistant"@,
        }
    }

    /// Returns the role's wire name.
    pub fn as_str(&self) -> (name: &'static str)
        ensures
            name@ == self.wire_name(),
    {
        match self {
            Role::System => "system",
            Role::User => "user",
            Role::Assistant => "assistant",
        }
    }

    /// Reads a role from its wire name. Any other text names no role.
    pub fn parse(name: &str) -> (role: Option<Role>)
        ensures
            match role {
                Some(found) => name@ == found.wire_name(),
                None => forall|any: Role| name@ != #[trigger] any.wire_name(),
            },
    {
        let text = String::from_str(name);
        if text == String::from_str("system") {
            Some(Role::System)
        } else if text == String::from_str("user") {
            Some(Role::User)
        } else if text == String::from_str("assistant") {
            Some(Role::Assistant)
        } else {
            None
        }
    }
}

/// No two roles share a wire name, so a name that [`Role::parse`] accepts
/// is read as the one role that [`Role::as_str`] writes in that way.
pub proof fn law_wire_names_differ(a: Role, b: Role)
    requires
        a != b,
    ensures
        a.wire_name() != b.wire_name(),
{
    reveal_strlit("system");
    reveal_strlit("user");
    reveal_strlit("assistant");
    assert("system"@.len() == 6);
    assert("user"@.len() == 4);
    assert("assistant"@.len() == 9);
}

/// Mathematical content of a [`Message`].
pub struct MessageView {
    pub role: Role,
    pub content: Seq<char>,
}

/// One utterance of a conversation. A message cannot be changed once built.
#[derive(Debug, PartialEq, Eq)]
pub struct Message {
    role: Role,
    content: String,
}

impl View for Message {
    type V = MessageView;

    closed spec fn view(&self) -> MessageView {
        MessageView { role: self.role, content: self.content@ }
    }
}

impl Message {
    /// Builds a message spoken by `role`.
    pub fn new(role: Role, content: String) -> (message: Message)
        ensures
            message@ == (MessageView { role, content: content@ }),
    {
        Message { role, content }
    }

    /// The speaker.
    pub fn role(&self) -> (role: Role)
        ensures
            role == self@.role,
    {
        self.role
    }

    /// The text.
    pub fn content(&self) -> (content: &String)
        ensures
            content@ == self@.content,
    {
        &self.content
    }
}

impl Clone for Message {
    fn clone(&self) -> (copy: Message)
        ensures
            copy == *self,
    {
        Message { role: self.role, content: self.content.clone() }
    }
}

/// Views of the messages of `messages`, in order.
pub open spec fn conversation_view(messages: Seq<Message>) -> Seq<MessageView> {
    Seq::new(messages.len(), |i: int| messages[i]@)
}

} // verus!
