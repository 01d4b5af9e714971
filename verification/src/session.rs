//! The record of a run: its messages, split into parts, and its events.
use vstd::prelude::*;

use crate::agent::Agent;
use crate::context::Context;
use crate::json::JsonValue;
use crate::message::{clone_opt, opt_view, Message, Role};
use crate::provider::{ProviderSelection, ToolCall};
use crate::text::owned;

verus! {

pub struct Session {
    pub id: String,
    pub cwd: String,
    pub repository_root: Option<String>,
    pub agent: Agent,
    pub provider: ProviderSelection,
    pub messages: Vec<SessionMessage>,
}

pub struct SessionMessage {
    pub id: String,
    pub role: Role,
    pub parts: Vec<MessagePart>,
}

pub enum MessagePart {
    Text { text: String },
    ToolCall { tool: String, input: JsonValue },
    ToolResult { tool: String, output: JsonValue },
    State { key: String, value: JsonValue },
}

/// A message part with its strings as text.
pub enum PartView {
    Text(Seq<char>),
    ToolCall(Seq<char>, JsonValue),
    ToolResult(Seq<char>, JsonValue),
    State(Seq<char>, JsonValue),
}

impl View for MessagePart {
    type V = PartView;

    open spec fn view(&self) -> PartView {
        match *self {
            MessagePart::Text { text } => PartView::Text(text@),
            MessagePart::ToolCall { tool, input } => PartView::ToolCall(tool@, input),
            MessagePart::ToolResult { tool, output } => PartView::ToolResult(tool@, output),
            MessagePart::State { key, value } => PartView::State(key@, value),
        }
    }
}

/// A session message with its strings as text.
pub struct SessionMessageView {
    pub id: Seq<char>,
    pub role: Role,
    pub parts: Seq<PartView>,
}

impl View for SessionMessage {
    type V = SessionMessageView;

    open spec fn view(&self) -> SessionMessageView {
        SessionMessageView { id: self.id@, role: self.role, parts: self.parts@.map_values(|p: MessagePart| p@) }
    }
}

/// The views of a sequence of session messages.
pub open spec fn message_views(v: Seq<SessionMessage>) -> Seq<SessionMessageView> {
    v.map_values(|m: SessionMessage| m@)
}

impl Session {
    /// An empty session of a run in `context`.
    pub fn new(id: &str, context: &Context, agent: Agent, provider: ProviderSelection) -> (s: Self)
        ensures
            s.id@ == id@,
            s.cwd == context.cwd,
            s.repository_root == context.repository_root,
            s.agent == agent,
            s.provider == provider,
            s.messages@.len() == 0,
    {
        Session {
            id: owned(id),
            cwd: context.cwd.clone(),
            repository_root: clone_opt(&context.repository_root),
            agent,
            provider,
            messages: Vec::new(),
        }
    }

    /// Appends a message.
    pub fn push(&mut self, message: SessionMessage)
        ensures
            final(self).messages@ == old(self).messages@.push(message),
            final(self).id == old(self).id,
            final(self).cwd == old(self).cwd,
            final(self).repository_root == old(self).repository_root,
            final(self).agent == old(self).agent,
            final(self).provider == old(self).provider,
    {
        self.messages.push(message);
    }
}

impl SessionMessage {
    /// A message of one text part.
    pub fn from_text(id: &str, role: Role, text: &str) -> (m: Self)
        ensures
            m@ == (SessionMessageView { id: id@, role, parts: seq![PartView::Text(text@)] }),
    {
        let mut parts: Vec<MessagePart> = Vec::new();
        parts.push(MessagePart::Text { text: owned(text) });
        let m = SessionMessage { id: owned(id), role, parts };
        assert(m@.parts =~= seq![PartView::Text(text@)]);
        m
    }

    /// A chat message as a session message: one text part, none when the
    /// content is empty.
    pub fn from_message(id: String, message: Message) -> (m: Self)
        ensures
            m@ == from_message_view(id@, message@),
    {
        let mut parts: Vec<MessagePart> = Vec::new();
        let ghost content = message.content@;
        let empty = message.content.as_str().unicode_len() == 0;
        if !empty {
            parts.push(MessagePart::Text { text: message.content });
        }
        let m = SessionMessage { id, role: message.role, parts };
        assert(m@.parts =~= from_message_view(m@.id, message@).parts);
        m
    }
}

/// The session message that `from_message` makes.
pub open spec fn from_message_view(id: Seq<char>, message: crate::message::MessageView) -> SessionMessageView {
    SessionMessageView {
        id,
        role: message.role,
        parts: if message.content.len() == 0 {
            seq![]
        } else {
            seq![PartView::Text(message.content)]
        },
    }
}

impl MessagePart {
    /// The part recording a tool call.
    pub fn tool_call(call: ToolCall) -> (p: Self)
        ensures
            p@ == PartView::ToolCall(call.name@, call.input),
    {
        MessagePart::ToolCall { tool: call.name, input: call.input }
    }

    /// The part recording a tool's output.
    pub fn tool_result(tool: &str, output: JsonValue) -> (p: Self)
        ensures
            p@ == PartView::ToolResult(tool@, output),
    {
        MessagePart::ToolResult { tool: owned(tool), output }
    }
}

pub enum SessionEvent {
    SessionStarted { session_id: String, agent: String, provider: String, model: String },
    MessageRecorded { session_id: String, message_id: String, role: Role },
    ToolCalled { session_id: String, message_id: String, tool: String },
    PermissionRequired { session_id: String, message_id: String, tool: String, scope: String, target: String },
    ToolDenied { session_id: String, message_id: String, tool: String, scope: String, target: String },
    ToolCompleted { session_id: String, message_id: String, tool: String },
    SessionFinished { session_id: String, iterations: usize },
}

/// An event with its strings as text.
pub enum EventView {
    Started(Seq<char>, Seq<char>, Seq<char>, Seq<char>),
    Recorded(Seq<char>, Seq<char>, Role),
    ToolCalled(Seq<char>, Seq<char>, Seq<char>),
    PermissionRequired(Seq<char>, Seq<char>, Seq<char>, Seq<char>, Seq<char>),
    ToolDenied(Seq<char>, Seq<char>, Seq<char>, Seq<char>, Seq<char>),
    ToolCompleted(Seq<char>, Seq<char>, Seq<char>),
    Finished(Seq<char>, usize),
}

impl View for SessionEvent {
    type V = EventView;

    open spec fn view(&self) -> EventView {
        match *self {
            SessionEvent::SessionStarted { session_id, agent, provider, model } => EventView::Started(
                session_id@,
                agent@,
                provider@,
                model@,
            ),
            SessionEvent::MessageRecorded { session_id, message_id, role } => EventView::Recorded(
                session_id@,
                message_id@,
                role,
            ),
            SessionEvent::ToolCalled { session_id, message_id, tool } => EventView::ToolCalled(
                session_id@,
                message_id@,
                tool@,
            ),
            SessionEvent::PermissionRequired { session_id, message_id, tool, scope, target } =>
                EventView::PermissionRequired(session_id@, message_id@, tool@, scope@, target@),
            SessionEvent::ToolDenied { session_id, message_id, tool, scope, target } => EventView::ToolDenied(
                session_id@,
                message_id@,
                tool@,
                scope@,
                target@,
            ),
            SessionEvent::ToolCompleted { session_id, message_id, tool } => EventView::ToolCompleted(
                session_id@,
                message_id@,
                tool@,
            ),
            SessionEvent::SessionFinished { session_id, iterations } => EventView::Finished(
                session_id@,
                iterations,
            ),
        }
    }
}

/// The views of a sequence of events.
pub open spec fn event_views(v: Seq<SessionEvent>) -> Seq<EventView> {
    v.map_values(|e: SessionEvent| e@)
}

pub struct SessionRun {
    pub session: Session,
    pub events: Vec<SessionEvent>,
    pub final_message: String,
    pub iterations: usize,
}

} // verus!
