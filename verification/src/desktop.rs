//! What the desktop shell decides: approval modes, stored settings, the run
//! timeline, message rendering, change previews and the state it shows.
use vstd::prelude::*;

use crate::agent::{Agent, PermissionAction, PermissionRule, PermissionScope};
use crate::config::WorkspaceConfig;
use crate::engine::chosen_agent;
use crate::json::JsonValue;
use crate::message::Role;
use crate::session::{EventView, MessagePart, PartView, SessionEvent, SessionMessage};
use crate::strmap::StrMap;
use crate::text::{
    concat2, concat3, decimal, decimal_string, join, join_strings, lines, lines_of, owned, str_eq, trim, trim_str,
    usize_string, views,
};
use crate::tool::{json_pretty, pretty_json};

verus! {

#[derive(Clone, Copy, PartialEq, Eq, Structural)]
pub enum ApprovalMode {
    Manual,
    Auto,
}

/// What the desktop shell remembers between launches.
pub struct DesktopSettings {
    pub selected_provider: Option<String>,
    pub selected_model: Option<String>,
    pub selected_agent: Option<String>,
    pub approval_mode: ApprovalMode,
    pub provider_api_keys: StrMap<String>,
}

impl Default for DesktopSettings {
    /// No selection, manual approval, no stored key.
    fn default() -> (s: Self)
        ensures
            s.selected_provider is None,
            s.selected_model is None,
            s.selected_agent is None,
            s.approval_mode == ApprovalMode::Manual,
            s.provider_api_keys.wf(),
            s.provider_api_keys.size() == 0,
    {
        DesktopSettings {
            selected_provider: None,
            selected_model: None,
            selected_agent: None,
            approval_mode: ApprovalMode::Manual,
            provider_api_keys: StrMap::new(),
        }
    }
}

impl DesktopSettings {
    /// Stores a provider's key, trimmed; a blank key removes the stored one.
    pub fn set_provider_api_key(&mut self, provider_id: &str, api_key: &str)
        requires
            old(self).provider_api_keys.wf(),
        ensures
            final(self).provider_api_keys.wf(),
            trim(api_key@).len() == 0 ==> !final(self).provider_api_keys.has_key(provider_id@),
            trim(api_key@).len() > 0 ==> (final(self).provider_api_keys.get_spec(provider_id@) matches Some(k)
                && k@ == trim(api_key@)),
            forall|x: Seq<char>|
                x != provider_id@ ==> #[trigger] final(self).provider_api_keys.get_spec(x)
                    == old(self).provider_api_keys.get_spec(x),
            final(self).selected_provider == old(self).selected_provider,
            final(self).selected_model == old(self).selected_model,
            final(self).selected_agent == old(self).selected_agent,
            final(self).approval_mode == old(self).approval_mode,
    {
        let trimmed = trim_str(api_key);
        if trimmed.as_str().unicode_len() == 0 {
            self.provider_api_keys.remove(provider_id);
        } else {
            self.provider_api_keys.insert(owned(provider_id), trimmed);
        }
    }

    /// Remembers the provider and model to use.
    pub fn set_provider_selection(&mut self, provider_id: String, model_id: String)
        ensures
            final(self).selected_provider == Some(provider_id),
            final(self).selected_model == Some(model_id),
            final(self).selected_agent == old(self).selected_agent,
            final(self).approval_mode == old(self).approval_mode,
            final(self).provider_api_keys == old(self).provider_api_keys,
    {
        self.selected_provider = Some(provider_id);
        self.selected_model = Some(model_id);
    }

    /// Remembers the agent and approval mode to use.
    pub fn set_execution_preferences(&mut self, agent_id: String, approval_mode: ApprovalMode)
        ensures
            final(self).selected_agent == Some(agent_id),
            final(self).approval_mode == approval_mode,
            final(self).selected_provider == old(self).selected_provider,
            final(self).selected_model == old(self).selected_model,
            final(self).provider_api_keys == old(self).provider_api_keys,
    {
        self.selected_agent = Some(agent_id);
        self.approval_mode = approval_mode;
    }
}

// ---------------------------------------------------------------------------
// Approval modes
// ---------------------------------------------------------------------------

/// Writing and shell rules are the ones an approval mode adjusts.
pub open spec fn adjustable(s: PermissionScope) -> bool {
    s is Write || s is Bash
}

/// The action of a rule under an approval mode: in manual mode writing and
/// shell rules that allow ask instead; in automatic mode those that ask allow.
pub open spec fn adjusted_action(mode: ApprovalMode, scope: PermissionScope, action: PermissionAction) -> PermissionAction {
    if adjustable(scope) && mode == ApprovalMode::Manual && action == PermissionAction::Allow {
        PermissionAction::Ask
    } else if adjustable(scope) && mode == ApprovalMode::Auto && action == PermissionAction::Ask {
        PermissionAction::Allow
    } else {
        action
    }
}

/// The agent for a desktop run: the configured agent of that name (else the
/// default agent), its writing and shell rules adjusted to the approval mode.
pub fn resolve_agent_for_request(config: &WorkspaceConfig, agent_name: Option<&str>, approval_mode: ApprovalMode) -> (r: Agent)
    requires
        config.wf(),
        config.agents.size() > 0,
    ensures
        ({
            let chosen = chosen_agent(
                *config,
                match agent_name {
                    Some(n) => Some(n@),
                    None => None,
                },
            );
            &&& r.name == chosen.name
            &&& r.description == chosen.description
            &&& r.mode == chosen.mode
            &&& r.model == chosen.model
            &&& r.prompt == chosen.prompt
            &&& r.tools.entries@ == chosen.tools.entries@
            &&& r.max_steps == chosen.max_steps
            &&& r.permissions@.len() == chosen.permissions@.len()
            &&& forall|i: int|
                0 <= i < r.permissions@.len() ==> {
                    &&& (#[trigger] r.permissions@[i]).scope == chosen.permissions@[i].scope
                    &&& r.permissions@[i].pattern == chosen.permissions@[i].pattern
                    &&& r.permissions@[i].action == adjusted_action(
                        approval_mode,
                        chosen.permissions@[i].scope,
                        chosen.permissions@[i].action,
                    )
                }
        }),
{
    let named = match agent_name {
        Some(name) => config.agent(name),
        None => None,
    };
    let base = match named {
        Some(a) => a,
        None => config.default_agent(),
    };
    let mut permissions: Vec<PermissionRule> = Vec::new();
    let mut i: usize = 0;
    while i < base.permissions.len()
        invariant
            i <= base.permissions@.len(),
            permissions@.len() == i,
            forall|k: int|
                0 <= k < i ==> {
                    &&& (#[trigger] permissions@[k]).scope == base.permissions@[k].scope
                    &&& permissions@[k].pattern == base.permissions@[k].pattern
                    &&& permissions@[k].action == adjusted_action(
                        approval_mode,
                        base.permissions@[k].scope,
                        base.permissions@[k].action,
                    )
                },
        decreases base.permissions.len() - i,
    {
        let rule = &base.permissions[i];
        let scope = match &rule.scope {
            PermissionScope::Read => PermissionScope::Read,
            PermissionScope::Write => PermissionScope::Write,
            PermissionScope::Bash => PermissionScope::Bash,
            PermissionScope::Web => PermissionScope::Web,
            PermissionScope::Task => PermissionScope::Task,
            PermissionScope::Question => PermissionScope::Question,
            PermissionScope::Custom(n) => PermissionScope::Custom(n.clone()),
        };
        let adjustable_scope = match &rule.scope {
            PermissionScope::Write | PermissionScope::Bash => true,
            _ => false,
        };
        let action = match approval_mode {
            ApprovalMode::Manual => if adjustable_scope && rule.action == PermissionAction::Allow {
                PermissionAction::Ask
            } else {
                rule.action
            },
            ApprovalMode::Auto => if adjustable_scope && rule.action == PermissionAction::Ask {
                PermissionAction::Allow
            } else {
                rule.action
            },
        };
        permissions.push(PermissionRule { scope, pattern: rule.pattern.clone(), action });
        i += 1;
    }
    let mut agent = base.duplicate();
    agent.permissions = permissions;
    agent
}

/// In manual mode no writing or shell rule allows; in automatic mode none asks.
pub proof fn law_approval_mode_rules(mode: ApprovalMode, scope: PermissionScope, action: PermissionAction)
    ensures
        mode == ApprovalMode::Manual && adjustable(scope) ==> adjusted_action(mode, scope, action)
            != PermissionAction::Allow,
        mode == ApprovalMode::Auto && adjustable(scope) ==> adjusted_action(mode, scope, action)
            != PermissionAction::Ask,
        !adjustable(scope) ==> adjusted_action(mode, scope, action) == action,
        action == PermissionAction::Deny ==> adjusted_action(mode, scope, action) == PermissionAction::Deny,
{
}

// ---------------------------------------------------------------------------
// Timeline
// ---------------------------------------------------------------------------

pub struct TimelineEntry {
    pub id: String,
    pub kind: String,
    pub title: String,
    pub detail: String,
    pub status: String,
}

/// A timeline entry as text.
pub struct TimelineView {
    pub id: Seq<char>,
    pub kind: Seq<char>,
    pub title: Seq<char>,
    pub detail: Seq<char>,
    pub status: Seq<char>,
}

impl View for TimelineEntry {
    type V = TimelineView;

    open spec fn view(&self) -> TimelineView {
        TimelineView {
            id: self.id@,
            kind: self.kind@,
            title: self.title@,
            detail: self.detail@,
            status: self.status@,
        }
    }
}

/// `format!("{:?}", role)`.
pub open spec fn role_label(r: Role) -> Seq<char> {
    match r {
        Role::System => "System"@,
        Role::User => "User"@,
        Role::Assistant => "Assistant"@,
        Role::Tool => "Tool"@,
    }
}

/// `format!("{:?}", role).to_lowercase()`.
pub open spec fn role_lower(r: Role) -> Seq<char> {
    match r {
        Role::System => "system"@,
        Role::User => "user"@,
        Role::Assistant => "assistant"@,
        Role::Tool => "tool"@,
    }
}

/// The timeline entry of an event.
pub open spec fn timeline_entry(e: EventView) -> TimelineView {
    match e {
        EventView::Started(sid, agent, provider, model) => TimelineView {
            id: sid + "-started"@,
            kind: "session"@,
            title: "Session started"@,
            detail: "agent: "@ + agent + " \u{b7} provider: "@ + provider + "/"@ + model,
            status: "completed"@,
        },
        EventView::Recorded(_, mid, role) => TimelineView {
            id: mid,
            kind: "message"@,
            title: role_label(role) + " message"@,
            detail: "recorded message id "@ + mid,
            status: "completed"@,
        },
        EventView::ToolCalled(_, mid, tool) => TimelineView {
            id: mid + "-called"@,
            kind: "tool"@,
            title: "Tool called: "@ + tool,
            detail: "agent requested tool execution"@,
            status: "running"@,
        },
        EventView::PermissionRequired(_, mid, tool, scope, target) => TimelineView {
            id: mid + "-approval"@,
            kind: "approval"@,
            title: "Approval required: "@ + tool,
            detail: scope + " \u{b7} "@ + target,
            status: "waiting"@,
        },
        EventView::ToolDenied(_, mid, tool, scope, target) => TimelineView {
            id: mid + "-denied"@,
            kind: "tool"@,
            title: "Tool denied: "@ + tool,
            detail: scope + " \u{b7} "@ + target,
            status: "denied"@,
        },
        EventView::ToolCompleted(_, mid, tool) => TimelineView {
            id: mid + "-completed"@,
            kind: "tool"@,
            title: "Tool completed: "@ + tool,
            detail: "tool finished successfully"@,
            status: "completed"@,
        },
        EventView::Finished(sid, n) => TimelineView {
            id: sid + "-finished"@,
            kind: "session"@,
            title: "Session finished"@,
            detail: "iterations: "@ + decimal(n as nat),
            status: "completed"@,
        },
    }
}

fn entry(id: String, kind: &str, title: String, detail: String, status: &str) -> (t: TimelineEntry)
    ensures
        t@ == (TimelineView { id: id@, kind: kind@, title: title@, detail: detail@, status: status@ }),
{
    TimelineEntry { id, kind: owned(kind), title, detail, status: owned(status) }
}

/// The timeline entry of an event.
pub fn timeline_entry_of(event: &SessionEvent) -> (t: TimelineEntry)
    ensures
        t@ == timeline_entry(event@),
{
    match event {
        SessionEvent::SessionStarted { session_id, agent, provider, model } => {
            let mut detail = concat3("agent: ", agent.as_str(), " \u{b7} provider: ");
            detail.append(provider.as_str());
            detail.append("/");
            detail.append(model.as_str());
            entry(concat2(session_id.as_str(), "-started"), "session", owned("Session started"), detail, "completed")
        },
        SessionEvent::MessageRecorded { message_id, role, .. } => {
            let label = match role {
                Role::System => "System",
                Role::User => "User",
                Role::Assistant => "Assistant",
                Role::Tool => "Tool",
            };
            entry(
                message_id.clone(),
                "message",
                concat2(label, " message"),
                concat2("recorded message id ", message_id.as_str()),
                "completed",
            )
        },
        SessionEvent::ToolCalled { message_id, tool, .. } => entry(
            concat2(message_id.as_str(), "-called"),
            "tool",
            concat2("Tool called: ", tool.as_str()),
            owned("agent requested tool execution"),
            "running",
        ),
        SessionEvent::PermissionRequired { message_id, tool, scope, target, .. } => entry(
            concat2(message_id.as_str(), "-approval"),
            "approval",
            concat2("Approval required: ", tool.as_str()),
            concat3(scope.as_str(), " \u{b7} ", target.as_str()),
            "waiting",
        ),
        SessionEvent::ToolDenied { message_id, tool, scope, target, .. } => entry(
            concat2(message_id.as_str(), "-denied"),
            "tool",
            concat2("Tool denied: ", tool.as_str()),
            concat3(scope.as_str(), " \u{b7} ", target.as_str()),
            "denied",
        ),
        SessionEvent::ToolCompleted { message_id, tool, .. } => entry(
            concat2(message_id.as_str(), "-completed"),
            "tool",
            concat2("Tool completed: ", tool.as_str()),
            owned("tool finished successfully"),
            "completed",
        ),
        SessionEvent::SessionFinished { session_id, iterations } => entry(
            concat2(session_id.as_str(), "-finished"),
            "session",
            owned("Session finished"),
            concat2("iterations: ", usize_string(*iterations).as_str()),
            "completed",
        ),
    }
}

/// One timeline entry per event, in order.
pub fn build_timeline(events: &Vec<SessionEvent>) -> (r: Vec<TimelineEntry>)
    ensures
        r@.len() == events@.len(),
        forall|i: int| 0 <= i < events@.len() ==> #[trigger] r@[i]@ == timeline_entry(events@[i]@),
{
    let mut out: Vec<TimelineEntry> = Vec::new();
    let mut i: usize = 0;
    while i < events.len()
        invariant
            i <= events@.len(),
            out@.len() == i,
            forall|k: int| 0 <= k < i ==> #[trigger] out@[k]@ == timeline_entry(events@[k]@),
        decreases events.len() - i,
    {
        out.push(timeline_entry_of(&events[i]));
        i += 1;
    }
    out
}

// ---------------------------------------------------------------------------
// Messages shown in the desktop shell
// ---------------------------------------------------------------------------

pub struct UiMessage {
    pub role: String,
    pub content: String,
}

/// The texts a message shows: each text part, and each tool result as
/// `[tool] ` and its output as pretty JSON.
pub open spec fn shown_texts(parts: Seq<PartView>) -> Seq<Seq<char>>
    decreases parts.len(),
{
    if parts.len() == 0 {
        seq![]
    } else {
        let rest = shown_texts(parts.drop_last());
        match parts.last() {
            PartView::Text(t) => rest.push(t),
            PartView::ToolResult(tool, out) => rest.push("["@ + tool + "] "@ + json_pretty(out)),
            _ => rest,
        }
    }
}

/// A session message as the shell shows it: the role in lower case and the
/// shown texts one per line; `None` when that text is blank.
pub fn render_session_message(message: &SessionMessage) -> (r: Option<UiMessage>)
    ensures
        ({
            let content = join(shown_texts(message@.parts), "\n"@);
            &&& r is Some <==> trim(content).len() > 0
            &&& r matches Some(u) ==> u.role@ == role_lower(message.role) && u.content@ == content
        }),
{
    let mut texts: Vec<String> = Vec::new();
    let mut i: usize = 0;
    while i < message.parts.len()
        invariant
            i <= message.parts@.len(),
            views(texts@) == shown_texts(message@.parts.take(i as int)),
        decreases message.parts.len() - i,
    {
        let ghost prefix = message@.parts.take(i + 1);
        assert(prefix.drop_last() =~= message@.parts.take(i as int));
        assert(prefix.last() == message.parts@[i as int]@);
        match &message.parts[i] {
            MessagePart::Text { text } => {
                let ghost before = texts@;
                texts.push(text.clone());
                assert(views(texts@) =~= views(before).push(text@));
            },
            MessagePart::ToolResult { tool, output } => {
                let mut line = concat3("[", tool.as_str(), "] ");
                line.append(pretty_json(output).as_str());
                let ghost before = texts@;
                texts.push(line);
                assert(views(texts@) =~= views(before).push(line@));
            },
            _ => {},
        }
        i += 1;
    }
    assert(message@.parts.take(i as int) =~= message@.parts);
    let content = join_strings(&texts, "\n");
    let trimmed = trim_str(content.as_str());
    if trimmed.as_str().unicode_len() == 0 {
        return None;
    }
    let role = match message.role {
        Role::System => "system",
        Role::User => "user",
        Role::Assistant => "assistant",
        Role::Tool => "tool",
    };
    Some(UiMessage { role: owned(role), content })
}

// ---------------------------------------------------------------------------
// Change previews
// ---------------------------------------------------------------------------

/// The line at `i`, if any.
pub open spec fn line_at(ls: Seq<Seq<char>>, i: int) -> Option<Seq<char>> {
    if 0 <= i < ls.len() {
        Some(ls[i])
    } else {
        None
    }
}

/// The diff lines for line positions `0..n`: for each position whose old and
/// new lines differ, a `@@ line N @@` header, the old line with `-` and the
/// new line with `+` (each when present).
pub open spec fn diff_body(a: Seq<Seq<char>>, b: Seq<Seq<char>>, n: nat) -> Seq<Seq<char>>
    decreases n,
{
    if n == 0 {
        seq![]
    } else {
        let i = n - 1;
        let rest = diff_body(a, b, (n - 1) as nat);
        let old_line = line_at(a, i);
        let new_line = line_at(b, i);
        if old_line == new_line {
            rest
        } else {
            rest.push("@@ line "@ + decimal(n) + " @@"@) + (match old_line {
                Some(l) => seq!["-"@ + l],
                None => seq![],
            }) + (match new_line {
                Some(l) => seq!["+"@ + l],
                None => seq![],
            })
        }
    }
}

/// A line-by-line diff of two texts under `--- a/` and `+++ b/` headers, or a
/// note that nothing changed.
pub open spec fn simple_diff(path: Seq<char>, old_content: Seq<char>, new_content: Seq<char>) -> Seq<char> {
    let a = lines(old_content);
    let b = lines(new_content);
    let n = if a.len() >= b.len() {
        a.len()
    } else {
        b.len()
    };
    let body = diff_body(a, b, n);
    let head = seq!["--- a/"@ + path, "+++ b/"@ + path];
    join(head + if body.len() == 0 { seq!["(no content change)"@] } else { body }, "\n"@)
}

/// Whether two optional lines are equal.
fn same_line(a: Option<&String>, b: Option<&String>) -> (r: bool)
    ensures
        r == (match a {
            Some(x) => Some(x@),
            None => None,
        } == match b {
            Some(y) => Some(y@),
            None => None,
        }),
{
    match (a, b) {
        (Some(x), Some(y)) => str_eq(x.as_str(), y.as_str()),
        (None, None) => true,
        _ => false,
    }
}

/// A line-by-line diff of two texts, as the approval preview shows it.
pub fn render_simple_diff(path: &str, old_content: &str, new_content: &str) -> (r: String)
    ensures
        r@ == simple_diff(path@, old_content@, new_content@),
{
    let a = lines_of(old_content);
    let b = lines_of(new_content);
    let n = if a.len() >= b.len() {
        a.len()
    } else {
        b.len()
    };
    let mut out: Vec<String> = Vec::new();
    out.push(concat2("--- a/", path));
    out.push(concat2("+++ b/", path));
    let ghost head = seq!["--- a/"@ + path@, "+++ b/"@ + path@];
    assert(views(out@) =~= head);
    let mut i: usize = 0;
    while i < n
        invariant
            i <= n,
            n == if a@.len() >= b@.len() {
                a@.len()
            } else {
                b@.len()
            },
            views(a@) == lines(old_content@),
            views(b@) == lines(new_content@),
            views(out@) == head + diff_body(views(a@), views(b@), i as nat),
        decreases n - i,
    {
        let old_line = if i < a.len() {
            Some(&a[i])
        } else {
            None
        };
        let new_line = if i < b.len() {
            Some(&b[i])
        } else {
            None
        };
        let ghost ol = line_at(views(a@), i as int);
        let ghost nl = line_at(views(b@), i as int);
        let ghost before = views(out@);
        if !same_line(old_line, new_line) {
            let mut header = owned("@@ line ");
            header.append(usize_string(i + 1).as_str());
            header.append(" @@");
            out.push(header);
            if let Some(l) = old_line {
                out.push(concat2("-", l.as_str()));
            }
            if let Some(l) = new_line {
                out.push(concat2("+", l.as_str()));
            }
            assert(views(out@) =~= before.push("@@ line "@ + decimal((i + 1) as nat) + " @@"@) + (match ol {
                Some(l) => seq!["-"@ + l],
                None => seq![],
            }) + (match nl {
                Some(l) => seq!["+"@ + l],
                None => seq![],
            }));
        }
        i += 1;
    }
    let ghost body = diff_body(views(a@), views(b@), n as nat);
    if out.len() == 2 {
        out.push(owned("(no content change)"));
        assert(views(out@) =~= head + seq!["(no content change)"@]);
    } else {
        assert(views(out@) =~= head + body);
    }
    join_strings(&out, "\n")
}

// ---------------------------------------------------------------------------
// Small decisions
// ---------------------------------------------------------------------------

/// The editor language of a file by its extension.
pub open spec fn editor_language(ext: Seq<char>) -> Seq<char> {
    if ext == "rs"@ {
        "rust"@
    } else if ext == "ts"@ || ext == "tsx"@ {
        "typescript"@
    } else if ext == "js"@ || ext == "jsx"@ {
        "javascript"@
    } else if ext == "json"@ {
        "json"@
    } else if ext == "md"@ {
        "markdown"@
    } else if ext == "toml"@ {
        "toml"@
    } else if ext == "yml"@ || ext == "yaml"@ {
        "yaml"@
    } else if ext == "css"@ {
        "css"@
    } else if ext == "html"@ {
        "html"@
    } else if ext == "sh"@ {
        "shell"@
    } else {
        "plaintext"@
    }
}

/// The editor language of a file by its extension (`""` when it has none).
pub fn detect_language(extension: &str) -> (r: String)
    ensures
        r@ == editor_language(extension@),
{
    let l = if str_eq(extension, "rs") {
        "rust"
    } else if str_eq(extension, "ts") || str_eq(extension, "tsx") {
        "typescript"
    } else if str_eq(extension, "js") || str_eq(extension, "jsx") {
        "javascript"
    } else if str_eq(extension, "json") {
        "json"
    } else if str_eq(extension, "md") {
        "markdown"
    } else if str_eq(extension, "toml") {
        "toml"
    } else if str_eq(extension, "yml") || str_eq(extension, "yaml") {
        "yaml"
    } else if str_eq(extension, "css") {
        "css"
    } else if str_eq(extension, "html") {
        "html"
    } else if str_eq(extension, "sh") {
        "shell"
    } else {
        "plaintext"
    };
    owned(l)
}

/// The id of a desktop run started at `millis` since the epoch.
pub fn task_id(millis: u128) -> (r: String)
    ensures
        r@ == "desktop-"@ + decimal(millis as nat),
{
    concat2("desktop-", decimal_string(millis).as_str())
}

/// Whether a provider can be used: a local one always; a remote one with a
/// non-blank stored key, or with a non-blank value of its key variable
/// (`env_value`, read by the caller).
pub fn provider_authenticated(provider: &crate::config::ProviderConfig, env_value: Option<&str>) -> (r: bool)
    ensures
        r == match provider.kind {
            crate::config::ProviderKind::LocalEcho => true,
            crate::config::ProviderKind::RemoteOpenAiCompatible => (match provider.api_key {
                Some(k) => trim(k@).len() > 0,
                None => false,
            }) || (provider.api_key_env is Some && match env_value {
                Some(v) => trim(v@).len() > 0,
                None => false,
            }),
        },
{
    match provider.kind {
        crate::config::ProviderKind::LocalEcho => true,
        crate::config::ProviderKind::RemoteOpenAiCompatible => {
            let stored = match &provider.api_key {
                Some(k) => trim_str(k.as_str()).as_str().unicode_len() > 0,
                None => false,
            };
            let from_env = provider.api_key_env.is_some() && match env_value {
                Some(v) => trim_str(v).as_str().unicode_len() > 0,
                None => false,
            };
            stored || from_env
        },
    }
}

/// Skipped in the workspace tree.
pub open spec fn hidden_tree_entry(name: Seq<char>) -> bool {
    name == ".git"@ || name == "node_modules"@ || name == "target"@
}

/// Whether the workspace tree skips an entry of this name.
pub fn is_hidden_tree_entry(name: &str) -> (r: bool)
    ensures
        r == hidden_tree_entry(name@),
{
    str_eq(name, ".git") || str_eq(name, "node_modules") || str_eq(name, "target")
}

/// What the diff view reports of a file from git's output: the lines of
/// `git status --short`, and whether the file changed, which it did where a
/// status line shows or the diff holds more than whitespace.
pub fn diff_report(status_output: &str, diff_output: &str) -> (r: (Vec<String>, bool))
    ensures
        views(r.0@) == lines(status_output@),
        r.1 == (lines(status_output@).len() > 0 || trim(diff_output@).len() > 0),
{
    let status = lines_of(status_output);
    let trimmed = trim_str(diff_output);
    let changed = status.len() > 0 || trimmed.as_str().unicode_len() > 0;
    proof {
        assert(views(status@).len() == status@.len());
    }
    (status, changed)
}

} // verus!
