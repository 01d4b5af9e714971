//! Chat messages exchanged with a provider.
use vstd::prelude::*;

use crate::text::owned;

verus! {

#[derive(Clone, Copy, PartialEq, Eq, Structural)]
pub enum Role {
    System,
    User,
    Assistant,
    Tool,
}

pub struct Message {
    pub role: Role,
    pub name: Option<String>,
    pub tool_call_id: Option<String>,
    pub content: String,
}

/// A message as text: role, name, call id, content.
pub struct MessageView {
    pub role: Role,
    pub name: Option<Seq<char>>,
    pub tool_call_id: Option<Seq<char>>,
    pub content: Seq<char>,
}

/// The view of an optional string.
pub open spec fn opt_view(o: Option<String>) -> Option<Seq<char>> {
    match o {
        Some(s) => Some(s@),
        None => None,
    }
}

/// A copy of an optional string.
pub fn clone_opt(o: &Option<String>) -> (r: Option<String>)
    ensures
        r == *o,
{
    match o {
        Some(s) => Some(s.clone()),
        None => None,
    }
}

impl View for Message {
    type V = MessageView;

    open spec fn view(&self) -> MessageView {
        MessageView {
            role: self.role,
            name: opt_view(self.name),
            tool_call_id: opt_view(self.tool_call_id),
            content: self.content@,
        }
    }
}

impl Clone for Message {
    fn clone(&self) -> (r: Self)
        ensures
            r == *self,
    {
        Message {
            role: self.role,
            name: clone_opt(&self.name),
            tool_call_id: clone_opt(&self.tool_call_id),
            content: self.content.clone(),
        }
    }
}

impl Message {
    /// A system message.
    pub fn system(content: &str) -> (m: Self)
        ensures
            m.role == Role::System,
            m.name is None,
            m.tool_call_id is None,
            m.content@ == content@,
    {
        Self::new(Role::System, content)
    }

    /// A user message.
    pub fn user(content: &str) -> (m: Self)
        ensures
            m.role == Role::User,
            m.name is None,
            m.tool_call_id is None,
            m.content@ == content@,
    {
        Self::new(Role::User, content)
    }

    /// An assistant message.
    pub fn assistant(content: &str) -> (m: Self)
        ensures
            m.role == Role::Assistant,
            m.name is None,
            m.tool_call_id is None,
            m.content@ == content@,
    {
        Self::new(Role::Assistant, content)
    }

    /// A tool message with no call id.
    pub fn tool(name: &str, content: &str) -> (m: Self)
        ensures
            m.role == Role::Tool,
            m.name matches Some(n) && n@ == name@,
            m.tool_call_id is None,
            m.content@ == content@,
    {
        Self::tool_with_id(name, None, content)
    }

    /// A tool message answering the call `tool_call_id`.
    pub fn tool_with_id(name: &str, tool_call_id: Option<String>, content: &str) -> (m: Self)
        ensures
            m.role == Role::Tool,
            m.name matches Some(n) && n@ == name@,
            m.tool_call_id == tool_call_id,
            m.content@ == content@,
    {
        Message { role: Role::Tool, name: Some(owned(name)), tool_call_id, content: owned(content) }
    }

    /// A message of the given role with no name and no call id.
    pub fn new(role: Role, content: &str) -> (m: Self)
        ensures
            m.role == role,
            m.name is None,
            m.tool_call_id is None,
            m.content@ == content@,
    {
        Message { role, name: None, tool_call_id: None, content: owned(content) }
    }
}

} // verus!
