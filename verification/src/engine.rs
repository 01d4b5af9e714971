//! The agent loop, as a state machine: the engine decides, the caller talks
//! to the provider and runs tools, and hands each answer back.
use vstd::prelude::*;

use crate::agent::{decide, flags_consistent, known_match, match_flags, path_separators, permission_target, scope_eq, tool_enabled,
    tool_scope, Agent, AgentMode, PathSeparators, PermissionAction, PermissionRequest, PermissionRule, PermissionScope};
use crate::config::{ConfigError, WorkspaceConfig};
use crate::context::Context;
use crate::json::{as_text, JsonValue};
use crate::message::{Message, MessageView, Role};
use crate::provider::{ProviderRequest, ProviderResponse, ProviderSelection, ToolCall};
use crate::session::{
    event_views, message_views, EventView, MessagePart, PartView, Session, SessionEvent, SessionMessage,
    SessionMessageView, SessionRun,
};
use crate::task::Task;
use crate::text::{concat2, decimal, join, owned, usize_string, views};
use crate::tool::{render_value, rendered, sort_specs, ToolSpec};

verus! {

/// Why a run stopped without an answer.
pub enum EngineError {
    ToolDisabled { tool: String, agent: String },
    NotFinished(usize),
}

impl EngineError {
    /// The error's text.
    pub fn message(&self) -> (r: String)
        ensures
            r@ == engine_error_text(*self),
    {
        match self {
            EngineError::ToolDisabled { tool, agent } => {
                let mut r = concat2("tool ", tool.as_str());
                r.append(" is disabled for agent ");
                r.append(agent.as_str());
                r
            },
            EngineError::NotFinished(n) => {
                let mut r = owned("provider did not finish within ");
                r.append(usize_string(*n).as_str());
                r.append(" iterations");
                r
            },
        }
    }
}

/// The text of each error.
pub open spec fn engine_error_text(e: EngineError) -> Seq<char> {
    match e {
        EngineError::ToolDisabled { tool, agent } => "tool "@ + tool@ + " is disabled for agent "@ + agent@,
        EngineError::NotFinished(n) => "provider did not finish within "@ + decimal(n as nat) + " iterations"@,
    }
}

/// What the caller does next.
pub enum Step {
    /// Send `RunState::request()` to the provider and hand the answer to `on_response`.
    CallProvider,
    /// Run the tool call in `RunState::running` and hand its output to `on_tool_output`.
    CallTool,
    /// Call `advance`.
    Continue,
    /// The run is over: `finish` gives its record.
    Finished,
    /// The run failed.
    Failed(EngineError),
}

/// A tool call that the caller is to run.
pub struct RunningCall {
    pub message_id: String,
    pub call: ToolCall,
}

/// A run in progress.
pub struct RunState {
    pub context: Context,
    /// The tools the agent may use, by name.
    pub tools: Vec<ToolSpec>,
    /// The session so far; it holds the agent and the provider selection.
    pub session: Session,
    pub events: Vec<SessionEvent>,
    /// The conversation sent to the provider.
    pub messages: Vec<Message>,
    pub final_message: String,
    pub iteration: usize,
    pub max_iterations: usize,
    /// The tool calls of the last answer not yet handled, in order.
    pub pending: Vec<ToolCall>,
    /// The position, in the last answer, of the next call to handle.
    pub call_index: usize,
    pub running: Option<RunningCall>,
    /// The path separators of this machine, with which the agent's glob
    /// patterns are matched.
    pub separators: PathSeparators,
}

pub struct Engine {
    pub config: WorkspaceConfig,
    /// The specifications of the registered tools, by name.
    pub tools: Vec<ToolSpec>,
    pub max_iterations: usize,
}

// ---------------------------------------------------------------------------
// Texts and records
// ---------------------------------------------------------------------------

/// `format!("{:?}", mode)`.
pub open spec fn mode_label(m: AgentMode) -> Seq<char> {
    match m {
        AgentMode::Primary => "Primary"@,
        AgentMode::Subagent => "Subagent"@,
        AgentMode::All => "All"@,
    }
}

/// The scope's name as the events carry it (`Debug`; a custom scope's name is
/// quoted without escapes).
pub open spec fn scope_label(s: PermissionScope) -> Seq<char> {
    match s {
        PermissionScope::Read => "Read"@,
        PermissionScope::Write => "Write"@,
        PermissionScope::Bash => "Bash"@,
        PermissionScope::Web => "Web"@,
        PermissionScope::Task => "Task"@,
        PermissionScope::Question => "Question"@,
        PermissionScope::Custom(n) => "Custom(\""@ + n@ + "\")"@,
    }
}

/// The scope's name as the events carry it.
pub fn scope_label_string(s: &PermissionScope) -> (r: String)
    ensures
        r@ == scope_label(*s),
{
    match s {
        PermissionScope::Read => owned("Read"),
        PermissionScope::Write => owned("Write"),
        PermissionScope::Bash => owned("Bash"),
        PermissionScope::Web => owned("Web"),
        PermissionScope::Task => owned("Task"),
        PermissionScope::Question => owned("Question"),
        PermissionScope::Custom(n) => crate::text::concat3("Custom(\"", n.as_str(), "\")"),
    }
}

/// The system prompt of a run.
pub open spec fn system_prompt(
    app_name: Seq<char>,
    agent: Seq<char>,
    mode: AgentMode,
    provider: Seq<char>,
    model: Seq<char>,
    cwd: Seq<char>,
    repository_root: Seq<char>,
    targets: Seq<char>,
    workspace_section: Seq<char>,
) -> Seq<char> {
    "You are "@ + app_name + ", a coding agent oriented toward Codex-style workflows.\nagent: "@ + agent
        + "\nagent_mode: "@ + mode_label(mode) + "\nprovider: "@ + provider + "\nmodel: "@ + model
        + "\nworkspace: "@ + cwd + "\nrepository_root: "@ + repository_root + "\ndesktop_targets: "@ + targets
        + "\n"@ + workspace_section
        + "\nUse tools when they help, prefer repository-aware actions, and keep behavior portable across macOS, Windows, and Linux.\n"@
}

/// The repository root as the prompt shows it.
pub open spec fn root_text(root: Option<String>) -> Seq<char> {
    match root {
        Some(r) => r@,
        None => "<none>"@,
    }
}

/// The workspace section of the system prompt: the map of the workspace
/// as Markdown, or why it could not be made.
pub fn build_workspace_map_section(scan: Result<crate::workspace_map::WorkspaceMap, String>) -> (r: String)
    requires
        scan matches Ok(m) ==> m.languages.wf(),
    ensures
        r@ == match scan {
            Ok(m) => crate::workspace_map::markdown(m),
            Err(e) => "Workspace map unavailable: "@ + e@,
        },
{
    match scan {
        Ok(map) => map.render_markdown(),
        Err(error) => concat2("Workspace map unavailable: ", error.as_str()),
    }
}

/// The system prompt of a run of `agent` on `selection` in `context`, with the
/// rendered workspace map `workspace_section`.
pub fn build_system_prompt(
    context: &Context,
    agent: &Agent,
    selection: &ProviderSelection,
    config: &WorkspaceConfig,
    workspace_section: &str,
) -> (r: String)
    ensures
        r@ == system_prompt(
            config.app_name@,
            agent.name@,
            agent.mode,
            selection.provider_id@,
            selection.model_id@,
            context.cwd@,
            root_text(context.repository_root),
            join(views(config.desktop_targets@), ", "@),
            workspace_section@,
        ),
{
    let mut r = owned("You are ");
    r.append(config.app_name.as_str());
    r.append(", a coding agent oriented toward Codex-style workflows.\nagent: ");
    r.append(agent.name.as_str());
    r.append("\nagent_mode: ");
    let mode = match agent.mode {
        AgentMode::Primary => "Primary",
        AgentMode::Subagent => "Subagent",
        AgentMode::All => "All",
    };
    r.append(mode);
    r.append("\nprovider: ");
    r.append(selection.provider_id.as_str());
    r.append("\nmodel: ");
    r.append(selection.model_id.as_str());
    r.append("\nworkspace: ");
    r.append(context.cwd.as_str());
    r.append("\nrepository_root: ");
    match &context.repository_root {
        Some(root) => r.append(root.as_str()),
        None => r.append("<none>"),
    }
    r.append("\ndesktop_targets: ");
    let targets = crate::text::join_strings(&config.desktop_targets, ", ");
    r.append(targets.as_str());
    r.append("\n");
    r.append(workspace_section);
    r.append(
        "\nUse tools when they help, prefer repository-aware actions, and keep behavior portable across macOS, Windows, and Linux.\n",
    );
    r
}

/// `{task}-system`.
pub open spec fn system_id(sid: Seq<char>) -> Seq<char> {
    sid + "-system"@
}

/// `{task}-user-0`.
pub open spec fn user_id(sid: Seq<char>) -> Seq<char> {
    sid + "-user-0"@
}

/// `{task}-assistant-{iteration}`.
pub open spec fn assistant_id(sid: Seq<char>, iteration: nat) -> Seq<char> {
    sid + "-assistant-"@ + decimal(iteration)
}

/// `{task}-tool-{iteration}-{index}`.
pub open spec fn tool_message_id(sid: Seq<char>, iteration: nat, index: nat) -> Seq<char> {
    sid + "-tool-"@ + decimal(iteration) + "-"@ + decimal(index)
}

/// The session message that records a tool call and its output.
pub open spec fn tool_record(id: Seq<char>, tool: Seq<char>, input: JsonValue, output: JsonValue) -> SessionMessageView {
    SessionMessageView {
        id,
        role: Role::Tool,
        parts: seq![PartView::ToolCall(tool, input), PartView::ToolResult(tool, output)],
    }
}

/// The message that tells the provider a tool's output.
pub open spec fn tool_reply(tool: Seq<char>, output: JsonValue) -> MessageView {
    MessageView { role: Role::Tool, name: Some(tool), tool_call_id: None, content: rendered(output) }
}

/// The output that stands in for a call that did not run: an object with the
/// fields `message`, `scope`, `status`, `target` and `tool`, in that order.
pub open spec fn is_permission_output(
    v: JsonValue,
    status: Seq<char>,
    tool: Seq<char>,
    scope: Seq<char>,
    target: Seq<char>,
    message: Seq<char>,
) -> bool {
    v matches JsonValue::Object(fields) && {
        let f = fields@;
        &&& f.len() == 5
        &&& f[0].0@ == "message"@ && as_text(f[0].1) == Some(message)
        &&& f[1].0@ == "scope"@ && as_text(f[1].1) == Some(scope)
        &&& f[2].0@ == "status"@ && as_text(f[2].1) == Some(status)
        &&& f[3].0@ == "target"@ && as_text(f[3].1) == Some(target)
        &&& f[4].0@ == "tool"@ && as_text(f[4].1) == Some(tool)
    }
}

fn string_field(key: &str, value: String) -> (r: (String, JsonValue))
    ensures
        r.0@ == key@,
        r.1 matches JsonValue::String(x) && x == value,
{
    (owned(key), JsonValue::String(value))
}

/// Builds the output that stands in for a call that did not run.
fn permission_output(status: &str, tool: &str, scope: &str, target: &str, message: &str) -> (v: JsonValue)
    ensures
        is_permission_output(v, status@, tool@, scope@, target@, message@),
{
    let mut fields: Vec<(String, JsonValue)> = Vec::new();
    fields.push(string_field("message", owned(message)));
    fields.push(string_field("scope", owned(scope)));
    fields.push(string_field("status", owned(status)));
    fields.push(string_field("target", owned(target)));
    fields.push(string_field("tool", owned(tool)));
    JsonValue::Object(fields)
}

/// The action the agent's rules give a call of `scope` on `target`, where
/// `seps` tells which of `/` and `\\` separate path components.
pub open spec fn permission_action(agent: Agent, seps: (bool, bool), scope: PermissionScope, target: Seq<char>) -> PermissionAction {
    decide(agent.permissions@, scope, match_flags(seps, agent.permissions@, scope, target))
}

// ---------------------------------------------------------------------------
// The engine
// ---------------------------------------------------------------------------

/// The tools among `specs` that the agent has not turned off, in order.
pub open spec fn enabled_names(agent: Agent, specs: Seq<ToolSpec>) -> Seq<Seq<char>>
    decreases specs.len(),
{
    if specs.len() == 0 {
        seq![]
    } else if tool_enabled(agent, specs.last().name@) {
        enabled_names(agent, specs.drop_last()).push(specs.last().name@)
    } else {
        enabled_names(agent, specs.drop_last())
    }
}

/// The names of a sequence of tool specifications.
pub open spec fn spec_names(specs: Seq<ToolSpec>) -> Seq<Seq<char>> {
    specs.map_values(|t: ToolSpec| t.name@)
}

/// Every name among specifications is a name among any permutation of them.
proof fn lemma_names_multiset(a: Seq<ToolSpec>, b: Seq<ToolSpec>)
    requires
        a.to_multiset() == b.to_multiset(),
    ensures
        forall|n: Seq<char>| #[trigger] spec_names(a).contains(n) ==> spec_names(b).contains(n),
{
    broadcast use vstd::seq_lib::group_to_multiset_ensures;
    assert forall|n: Seq<char>| #[trigger] spec_names(a).contains(n) implies spec_names(b).contains(n) by {
        let i = choose|i: int| 0 <= i < spec_names(a).len() && spec_names(a)[i] == n;
        let t = a[i];
        assert(a.contains(t));
        assert(a.to_multiset().count(t) > 0);
        assert(b.contains(t));
        let j = choose|j: int| 0 <= j < b.len() && b[j] == t;
        assert(spec_names(b)[j] == n);
    }
}

impl Engine {
    /// An engine over the registered tools' specifications, with the default
    /// configuration and at most 8 provider rounds.
    pub fn new(tools: Vec<ToolSpec>) -> (e: Self)
        ensures
            crate::config::is_default_config(e.config),
            e.tools@.to_multiset() == tools@.to_multiset(),
            crate::sorting::sorted_by_key(e.tools@),
            e.max_iterations == 8,
    {
        Engine { config: WorkspaceConfig::default(), tools: sort_specs(tools), max_iterations: 8 }
    }

    /// An engine over the standard tools.
    pub fn with_standard_tools() -> (e: Self)
        ensures
            crate::config::is_default_config(e.config),
            e.tools@.len() == crate::tools::standard_names().len(),
            forall|n: Seq<char>| #[trigger] spec_names(e.tools@).contains(n) <==> crate::tools::standard_names().contains(n),
            crate::sorting::sorted_by_key(e.tools@),
            e.max_iterations == 8,
    {
        let specs = crate::tools::standard_tool_specs();
        let ghost given = specs@;
        let e = Engine::new(specs);
        proof {
            lemma_names_multiset(e.tools@, given);
            lemma_names_multiset(given, e.tools@);
            vstd::seq_lib::to_multiset_len(e.tools@);
            vstd::seq_lib::to_multiset_len(given);
            assert(e.tools@.len() == given.len());
        }
        e
    }

    /// The same engine with another configuration.
    pub fn with_config(self, config: WorkspaceConfig) -> (e: Self)
        ensures
            e.config == config,
            e.tools == self.tools,
            e.max_iterations == self.max_iterations,
    {
        Engine { config, tools: self.tools, max_iterations: self.max_iterations }
    }

    /// The configuration.
    pub fn config(&self) -> (r: &WorkspaceConfig)
        ensures
            *r == self.config,
    {
        &self.config
    }

    /// The specifications of the tools that `agent` may use, in the engine's order.
    pub fn enabled_tools(&self, agent: &Agent) -> (r: Vec<ToolSpec>)
        requires
            agent.tools.wf(),
        ensures
            spec_names(r@) == enabled_names(*agent, self.tools@),
    {
        let mut out: Vec<ToolSpec> = Vec::new();
        let mut i: usize = 0;
        while i < self.tools.len()
            invariant
                agent.tools.wf(),
                i <= self.tools@.len(),
                spec_names(out@) == enabled_names(*agent, self.tools@.take(i as int)),
            decreases self.tools.len() - i,
        {
            let t = &self.tools[i];
            assert(self.tools@.take(i + 1).drop_last() =~= self.tools@.take(i as int));
            assert(self.tools@.take(i + 1).last() == self.tools@[i as int]);
            if agent.is_tool_enabled(t.name.as_str()) {
                let c = t.clone_spec();
                let ghost before = out@;
                out.push(c);
                assert(spec_names(out@) =~= spec_names(before).push(c.name@));
            }
            i += 1;
        }
        assert(self.tools@.take(i as int) =~= self.tools@);
        out
    }

    /// Starts a run of `task` by `agent` on `selection` in `context`: the
    /// session opens with the system prompt and the task's prompt, and the
    /// provider is called first (unless no round is allowed at all).
    pub fn start_run(
        &self,
        context: Context,
        task: Task,
        agent: Agent,
        selection: ProviderSelection,
        workspace_section: &str,
    ) -> (r: (RunState, Step))
        requires
            agent.tools.wf(),
        ensures
            r.0.session.id@ == task.id@,
            r.0.session.cwd == context.cwd,
            r.0.session.repository_root == context.repository_root,
            r.0.session.agent == agent,
            r.0.session.provider == selection,
            r.0.context == context,
            spec_names(r.0.tools@) == enabled_names(agent, self.tools@),
            ({
                let prompt = system_prompt(
                    self.config.app_name@,
                    agent.name@,
                    agent.mode,
                    selection.provider_id@,
                    selection.model_id@,
                    context.cwd@,
                    root_text(context.repository_root),
                    join(views(self.config.desktop_targets@), ", "@),
                    workspace_section@,
                );
                let system = MessageView { role: Role::System, name: None, tool_call_id: None, content: prompt };
                let user = MessageView {
                    role: Role::User,
                    name: None,
                    tool_call_id: None,
                    content: task.prompt@,
                };
                &&& r.0.messages@.map_values(|m: Message| m@) == seq![system, user]
                &&& message_views(r.0.session.messages@) == seq![
                    crate::session::from_message_view(system_id(task.id@), system),
                    crate::session::from_message_view(user_id(task.id@), user),
                ]
            }),
            event_views(r.0.events@) == seq![
                EventView::Started(task.id@, agent.name@, selection.provider_id@, selection.model_id@),
                EventView::Recorded(task.id@, system_id(task.id@), Role::System),
                EventView::Recorded(task.id@, user_id(task.id@), Role::User),
            ],
            r.0.final_message@.len() == 0,
            r.0.iteration == 0,
            r.0.max_iterations == self.max_iterations,
            r.0.pending@.len() == 0,
            r.0.call_index == 0,
            r.0.running is None,
            self.max_iterations > 0 ==> r.1 is CallProvider && r.0.awaiting_response(),
            self.max_iterations == 0 ==> (r.1 matches Step::Failed(EngineError::NotFinished(n)) && n == 0),
    {
        let prompt = build_system_prompt(&context, &agent, &selection, &self.config, workspace_section);
        let tools = self.enabled_tools(&agent);
        let mut events: Vec<SessionEvent> = Vec::new();
        events.push(SessionEvent::SessionStarted {
            session_id: task.id.clone(),
            agent: agent.name.clone(),
            provider: selection.provider_id.clone(),
            model: selection.model_id.clone(),
        });
        let mut session = Session::new(task.id.as_str(), &context, agent, selection);
        let system_message = Message::system(prompt.as_str());
        let sys_id = concat2(task.id.as_str(), "-system");
        session.push(SessionMessage::from_message(sys_id.clone(), system_message.clone()));
        events.push(SessionEvent::MessageRecorded {
            session_id: task.id.clone(),
            message_id: sys_id,
            role: Role::System,
        });
        let user_message = Message::user(task.prompt.as_str());
        let usr_id = concat2(task.id.as_str(), "-user-0");
        session.push(SessionMessage::from_message(usr_id.clone(), user_message.clone()));
        events.push(SessionEvent::MessageRecorded {
            session_id: task.id.clone(),
            message_id: usr_id,
            role: Role::User,
        });
        let mut messages: Vec<Message> = Vec::new();
        messages.push(system_message);
        messages.push(user_message);
        let st = RunState {
            context,
            tools,
            session,
            events,
            messages,
            final_message: String::new(),
            iteration: 0,
            max_iterations: self.max_iterations,
            pending: Vec::new(),
            call_index: 0,
            running: None,
            separators: path_separators(),
        };
        proof {
            assert(st.messages@.map_values(|m: Message| m@) =~= seq![system_message@, user_message@]);
            assert(message_views(st.session.messages@) =~= seq![
                crate::session::from_message_view(system_id(task.id@), system_message@),
                crate::session::from_message_view(user_id(task.id@), user_message@),
            ]);
            assert(event_views(st.events@) =~= seq![
                EventView::Started(task.id@, st.session.agent.name@, st.session.provider.provider_id@, st.session.provider.model_id@),
                EventView::Recorded(task.id@, system_id(task.id@), Role::System),
                EventView::Recorded(task.id@, user_id(task.id@), Role::User),
            ]);
        }
        if self.max_iterations == 0 {
            (st, Step::Failed(EngineError::NotFinished(0)))
        } else {
            (st, Step::CallProvider)
        }
    }
}

impl ToolSpec {
    /// A copy with the same name and description.
    pub fn clone_spec(&self) -> (r: Self)
        ensures
            r.name == self.name,
            r.description == self.description,
    {
        ToolSpec {
            name: self.name.clone(),
            description: self.description.clone(),
            input_schema: self.input_schema.clone(),
        }
    }
}

impl RunState {
    /// The run waits for the provider's answer.
    pub open spec fn awaiting_response(&self) -> bool {
        &&& self.session.agent.tools.wf()
        &&& self.iteration < self.max_iterations
        &&& self.pending@.len() == 0
        &&& self.running is None
    }
}

impl RunState {
    /// The run handles the tool calls of the last answer.
    pub open spec fn processing(&self) -> bool {
        &&& self.session.agent.tools.wf()
        &&& self.iteration < self.max_iterations
        &&& self.running is None
        &&& self.call_index + self.pending@.len() <= usize::MAX
    }

    /// The run waits for the output of the call in `running`.
    pub open spec fn awaiting_tool(&self) -> bool {
        &&& self.session.agent.tools.wf()
        &&& self.iteration < self.max_iterations
        &&& self.running is Some
        &&& self.call_index + self.pending@.len() < usize::MAX
    }

    /// The views of the conversation.
    pub open spec fn message_list(&self) -> Seq<MessageView> {
        self.messages@.map_values(|m: Message| m@)
    }

    /// Everything but the records, the pending calls and the counters is as in `o`.
    pub open spec fn same_run(&self, o: &RunState) -> bool {
        &&& self.context == o.context
        &&& self.tools == o.tools
        &&& self.session.id == o.session.id
        &&& self.session.cwd == o.session.cwd
        &&& self.session.repository_root == o.session.repository_root
        &&& self.session.agent == o.session.agent
        &&& self.session.provider == o.session.provider
        &&& self.max_iterations == o.max_iterations
        &&& self.separators == o.separators
    }

    /// The request for the provider: the context and selection of the run,
    /// the conversation so far, and the tools the agent may use.
    pub fn request(&self) -> (r: ProviderRequest)
        ensures
            r.context == self.context,
            r.selection == self.session.provider,
            r.messages@.map_values(|m: Message| m@) == self.message_list(),
            spec_names(r.tools@) == spec_names(self.tools@),
    {
        let mut messages: Vec<Message> = Vec::new();
        let mut i: usize = 0;
        while i < self.messages.len()
            invariant
                i <= self.messages@.len(),
                messages@ == self.messages@.take(i as int),
            decreases self.messages.len() - i,
        {
            messages.push(self.messages[i].clone());
            assert(self.messages@.take(i + 1) =~= self.messages@.take(i as int).push(self.messages@[i as int]));
            i += 1;
        }
        let mut tools: Vec<ToolSpec> = Vec::new();
        let mut j: usize = 0;
        while j < self.tools.len()
            invariant
                j <= self.tools@.len(),
                spec_names(tools@) == spec_names(self.tools@.take(j as int)),
            decreases self.tools.len() - j,
        {
            let c = self.tools[j].clone_spec();
            let ghost before = tools@;
            tools.push(c);
            assert(spec_names(tools@) =~= spec_names(before).push(c.name@));
            assert(self.tools@.take(j + 1) =~= self.tools@.take(j as int).push(self.tools@[j as int]));
            assert(spec_names(self.tools@.take(j + 1)) =~= spec_names(self.tools@.take(j as int)).push(self.tools@[j as int].name@));
            j += 1;
        }
        assert(self.messages@.take(i as int) =~= self.messages@);
        assert(self.tools@.take(j as int) =~= self.tools@);
        ProviderRequest {
            context: self.context.clone(),
            selection: self.session.provider.clone(),
            messages,
            tools,
        }
    }

    /// Takes the provider's answer: its text, when there is any, becomes the
    /// run's final message and an assistant message; an answer without tool
    /// calls ends the run, otherwise its calls are handled next.
    pub fn on_response(&mut self, response: ProviderResponse) -> (step: Step)
        requires
            old(self).awaiting_response(),
        ensures
            final(self).same_run(old(self)),
            final(self).iteration == old(self).iteration,
            final(self).call_index == 0,
            final(self).running is None,
            ({
                let sid = old(self).session.id@;
                let aid = assistant_id(sid, old(self).iteration as nat);
                let content = response.content@;
                let said = content.len() > 0;
                let assistant = MessageView { role: Role::Assistant, name: None, tool_call_id: None, content };
                &&& final(self).final_message@ == if said { content } else { old(self).final_message@ }
                &&& message_views(final(self).session.messages@) == message_views(old(self).session.messages@)
                    + if said { seq![crate::session::from_message_view(aid, assistant)] } else { seq![] }
                &&& final(self).message_list() == old(self).message_list() + if said { seq![assistant] } else { seq![] }
                &&& event_views(final(self).events@) == event_views(old(self).events@)
                    + (if said { seq![EventView::Recorded(sid, aid, Role::Assistant)] } else { seq![] })
                    + (if response.tool_calls@.len() == 0 {
                        seq![EventView::Finished(sid, (old(self).iteration + 1) as usize)]
                    } else {
                        seq![]
                    })
            }),
            response.tool_calls@.len() == 0 ==> step is Finished && final(self).pending@.len() == 0,
            response.tool_calls@.len() > 0 ==> step is Continue && final(self).pending@ == response.tool_calls@
                && final(self).processing(),
    {
        let ghost old_events = event_views(self.events@);
        let ghost old_msgs = message_views(self.session.messages@);
        let ghost old_list = self.message_list();
        let ghost sid = self.session.id@;
        let said = response.content.as_str().unicode_len() > 0;
        if said {
            self.final_message = response.content.clone();
            let aid = assistant_message_id(&self.session.id, self.iteration);
            let message = Message::assistant(response.content.as_str());
            self.session.push(SessionMessage::from_message(aid.clone(), message.clone()));
            self.events.push(SessionEvent::MessageRecorded {
                session_id: self.session.id.clone(),
                message_id: aid,
                role: Role::Assistant,
            });
            self.messages.push(message);
            proof {
                assert(message_views(self.session.messages@) =~= old_msgs.push(
                    crate::session::from_message_view(assistant_id(sid, self.iteration as nat), message@),
                ));
                assert(self.message_list() =~= old_list.push(message@));
                assert(event_views(self.events@) =~= old_events.push(
                    EventView::Recorded(sid, assistant_id(sid, self.iteration as nat), Role::Assistant),
                ));
            }
        } else {
            assert(message_views(self.session.messages@) =~= old_msgs + Seq::<SessionMessageView>::empty());
            assert(self.message_list() =~= old_list + Seq::<MessageView>::empty());
        }
        let ghost mid_events = event_views(self.events@);
        self.call_index = 0;
        if response.tool_calls.len() == 0 {
            let n = self.iteration + 1;
            self.events.push(SessionEvent::SessionFinished { session_id: self.session.id.clone(), iterations: n });
            proof {
                assert(event_views(self.events@) =~= mid_events.push(EventView::Finished(sid, n)));
            }
            Step::Finished
        } else {
            self.pending = response.tool_calls;
            assert(event_views(self.events@) =~= mid_events + Seq::<EventView>::empty());
            Step::Continue
        }
    }

    /// Records a tool call with its output: the session message with the
    /// call and the output, the completion event, and the reply to the provider.
    fn record_tool(&mut self, message_id: String, call: ToolCall, output: JsonValue)
        requires
            old(self).call_index < usize::MAX,
        ensures
            final(self).same_run(old(self)),
            final(self).iteration == old(self).iteration,
            final(self).pending == old(self).pending,
            final(self).running == old(self).running,
            final(self).final_message == old(self).final_message,
            final(self).call_index == old(self).call_index + 1,
            message_views(final(self).session.messages@) == message_views(old(self).session.messages@).push(
                tool_record(message_id@, call.name@, call.input, output),
            ),
            event_views(final(self).events@) == event_views(old(self).events@).push(
                EventView::ToolCompleted(old(self).session.id@, message_id@, call.name@),
            ),
            final(self).message_list() == old(self).message_list().push(tool_reply(call.name@, output)),
    {
        let ghost old_events = event_views(self.events@);
        let ghost old_msgs = message_views(self.session.messages@);
        let ghost old_list = self.message_list();
        let ghost name = call.name@;
        let ghost input = call.input;
        let reply = Message::tool_with_id(call.name.as_str(), None, render_value(&output).as_str());
        self.events.push(SessionEvent::ToolCompleted {
            session_id: self.session.id.clone(),
            message_id: message_id.clone(),
            tool: call.name.clone(),
        });
        let tool_name = call.name.clone();
        let mut parts: Vec<MessagePart> = Vec::new();
        parts.push(MessagePart::tool_call(call));
        parts.push(MessagePart::tool_result(tool_name.as_str(), output));
        let record = SessionMessage { id: message_id, role: Role::Tool, parts };
        proof {
            assert(record@.parts =~= seq![PartView::ToolCall(name, input), PartView::ToolResult(name, output)]);
        }
        self.session.push(record);
        self.messages.push(reply);
        self.call_index = self.call_index + 1;
        proof {
            assert(message_views(self.session.messages@) =~= old_msgs.push(tool_record(record@.id, name, input, output)));
            assert(event_views(self.events@) =~= old_events.push(EventView::ToolCompleted(self.session.id@, record@.id, name)));
            assert(self.message_list() =~= old_list.push(reply@));
        }
    }

    /// Takes the output of the call in `running` and records it.
    pub fn on_tool_output(&mut self, output: JsonValue) -> (step: Step)
        requires
            old(self).awaiting_tool(),
        ensures
            step is Continue,
            final(self).processing(),
            final(self).same_run(old(self)),
            final(self).iteration == old(self).iteration,
            final(self).pending == old(self).pending,
            final(self).final_message == old(self).final_message,
            final(self).call_index == old(self).call_index + 1,
            ({
                let rc = old(self).running->0;
                &&& message_views(final(self).session.messages@) == message_views(old(self).session.messages@).push(
                    tool_record(rc.message_id@, rc.call.name@, rc.call.input, output),
                )
                &&& event_views(final(self).events@) == event_views(old(self).events@).push(
                    EventView::ToolCompleted(old(self).session.id@, rc.message_id@, rc.call.name@),
                )
                &&& final(self).message_list() == old(self).message_list().push(tool_reply(rc.call.name@, output))
            }),
    {
        let rc = self.running.take().unwrap();
        self.record_tool(rc.message_id, rc.call, output);
        Step::Continue
    }

    /// The record of a finished run.
    pub fn finish(self) -> (run: SessionRun)
        requires
            self.iteration < self.max_iterations,
        ensures
            run.session == self.session,
            run.events == self.events,
            run.final_message == self.final_message,
            run.iterations == self.iteration + 1,
    {
        SessionRun {
            session: self.session,
            events: self.events,
            final_message: self.final_message,
            iterations: self.iteration + 1,
        }
    }
}

impl RunState {
    /// Handles the next tool call of the last answer, or, when all are
    /// handled, starts the next provider round.
    ///
    /// A call of a tool the agent turned off fails the run. A call that needs
    /// no permission, or that the agent's rules allow, is handed to the caller
    /// to run. A call the rules hold for approval, or refuse, does not run: an
    /// output that says so is recorded in its place. When the answer's calls
    /// are all handled, the run goes on to the next round, or fails when the
    /// rounds are used up.
    pub fn advance(&mut self) -> (step: Step)
        requires
            old(self).processing(),
        ensures
            final(self).same_run(old(self)),
            final(self).final_message == old(self).final_message,
            old(self).pending@.len() == 0 ==> {
                &&& final(self).iteration == old(self).iteration + 1
                &&& final(self).pending@.len() == 0
                &&& final(self).running is None
                &&& final(self).events == old(self).events
                &&& final(self).session.messages == old(self).session.messages
                &&& final(self).messages == old(self).messages
                &&& final(self).iteration < final(self).max_iterations ==> step is CallProvider
                    && final(self).awaiting_response()
                &&& final(self).iteration >= final(self).max_iterations ==> (step matches Step::Failed(
                    EngineError::NotFinished(n),
                ) && n == final(self).max_iterations)
            },
            old(self).pending@.len() > 0 ==> ({
                let call = old(self).pending@[0];
                let agent = old(self).session.agent;
                let sid = old(self).session.id@;
                let mid = tool_message_id(sid, old(self).iteration as nat, old(self).call_index as nat);
                let name = call.name@;
                let called = event_views(old(self).events@).push(EventView::ToolCalled(sid, mid, name));
                &&& final(self).pending@ == old(self).pending@.drop_first()
                &&& final(self).iteration == old(self).iteration
                &&& !tool_enabled(agent, name) ==> (step matches Step::Failed(EngineError::ToolDisabled { tool, agent: a })
                    && tool@ == name && a@ == agent.name@)
                &&& tool_enabled(agent, name) ==> {
                    ||| {
                        &&& step is CallTool
                        &&& (tool_scope(name) is None || permission_action(
                            agent,
                            old(self).separators@,
                            tool_scope(name)->0,
                            permission_target(name, call.input),
                        ) == PermissionAction::Allow)
                        &&& final(self).running matches Some(rc) && rc.message_id@ == mid && rc.call == call
                        &&& final(self).awaiting_tool()
                        &&& final(self).call_index == old(self).call_index
                        &&& event_views(final(self).events@) == called
                        &&& final(self).session.messages == old(self).session.messages
                        &&& final(self).messages == old(self).messages
                    }
                    ||| {
                        let scope = tool_scope(name)->0;
                        let target = permission_target(name, call.input);
                        let label = scope_label(scope);
                        &&& step is Continue
                        &&& tool_scope(name) is Some
                        &&& final(self).processing()
                        &&& final(self).call_index == old(self).call_index + 1
                        &&& exists|out: JsonValue| #![trigger tool_reply(name, out)] {
                            &&& message_views(final(self).session.messages@) == message_views(
                                old(self).session.messages@,
                            ).push(tool_record(mid, name, call.input, out))
                            &&& final(self).message_list() == old(self).message_list().push(tool_reply(name, out))
                            &&& {
                                ||| permission_action(agent, old(self).separators@, scope, target)
                                    == PermissionAction::Ask && is_permission_output(
                                    out,
                                    "permission_required"@,
                                    name,
                                    label,
                                    target,
                                    "This tool requires user approval before execution."@,
                                ) && event_views(final(self).events@) == called.push(
                                    EventView::PermissionRequired(sid, mid, name, label, target),
                                ).push(EventView::ToolCompleted(sid, mid, name))
                                ||| permission_action(agent, old(self).separators@, scope, target)
                                    == PermissionAction::Deny && is_permission_output(
                                    out,
                                    "permission_denied"@,
                                    name,
                                    label,
                                    target,
                                    "This tool is denied by the current agent permission rules."@,
                                ) && event_views(final(self).events@) == called.push(
                                    EventView::ToolDenied(sid, mid, name, label, target),
                                ).push(EventView::ToolCompleted(sid, mid, name))
                            }
                        }
                    }
                }
            }),
    {
        if self.pending.len() == 0 {
            self.iteration = self.iteration + 1;
            if self.iteration < self.max_iterations {
                return Step::CallProvider;
            } else {
                return Step::Failed(EngineError::NotFinished(self.max_iterations));
            }
        }
        let ghost old_self = *self;
        let call = self.pending.remove(0);
        if !self.session.agent.is_tool_enabled(call.name.as_str()) {
            return Step::Failed(
                EngineError::ToolDisabled { tool: call.name, agent: self.session.agent.name.clone() },
            );
        }
        let sid = self.session.id.clone();
        let mid = tool_call_message_id(&sid, self.iteration, self.call_index);
        self.events.push(SessionEvent::ToolCalled {
            session_id: sid.clone(),
            message_id: mid.clone(),
            tool: call.name.clone(),
        });
        let ghost called = event_views(self.events@);
        proof {
            assert(called =~= event_views(old_self.events@).push(
                EventView::ToolCalled(sid@, mid@, call.name@),
            ));
        }
        let request = match self.session.agent.permission_for_tool(call.name.as_str(), &call.input) {
            None => {
                self.running = Some(RunningCall { message_id: mid, call });
                return Step::CallTool;
            },
            Some(request) => request,
        };
        let ghost scope = tool_scope(call.name@)->0;
        let ghost target = permission_target(call.name@, call.input);
        assert(request.scope == scope);
        let action = self.session.agent.evaluate_permission_on(&self.separators, &request);
        assert(action == permission_action(self.session.agent, self.separators@, scope, target));
        let label = scope_label_string(&request.scope);
        match action {
            PermissionAction::Allow => {
                self.running = Some(RunningCall { message_id: mid, call });
                Step::CallTool
            },
            PermissionAction::Ask => {
                self.events.push(SessionEvent::PermissionRequired {
                    session_id: sid.clone(),
                    message_id: mid.clone(),
                    tool: call.name.clone(),
                    scope: label.clone(),
                    target: request.target.clone(),
                });
                let ghost asked = event_views(self.events@);
                assert(asked =~= called.push(EventView::PermissionRequired(sid@, mid@, call.name@, label@, target)));
                let out = permission_output(
                    "permission_required",
                    call.name.as_str(),
                    label.as_str(),
                    request.target.as_str(),
                    "This tool requires user approval before execution.",
                );
                let ghost name = call.name@;
                let ghost input = call.input;
                self.record_tool(mid, call, out);
                assert(is_permission_output(
                    out,
                    "permission_required"@,
                    name,
                    label@,
                    target,
                    "This tool requires user approval before execution."@,
                ));
                assert(self.message_list() == old_self.message_list().push(tool_reply(name, out)));
                Step::Continue
            },
            PermissionAction::Deny => {
                self.events.push(SessionEvent::ToolDenied {
                    session_id: sid.clone(),
                    message_id: mid.clone(),
                    tool: call.name.clone(),
                    scope: label.clone(),
                    target: request.target.clone(),
                });
                let ghost denied = event_views(self.events@);
                assert(denied =~= called.push(EventView::ToolDenied(sid@, mid@, call.name@, label@, target)));
                let out = permission_output(
                    "permission_denied",
                    call.name.as_str(),
                    label.as_str(),
                    request.target.as_str(),
                    "This tool is denied by the current agent permission rules.",
                );
                let ghost name = call.name@;
                self.record_tool(mid, call, out);
                assert(is_permission_output(
                    out,
                    "permission_denied"@,
                    name,
                    label@,
                    target,
                    "This tool is denied by the current agent permission rules."@,
                ));
                assert(self.message_list() == old_self.message_list().push(tool_reply(name, out)));
                Step::Continue
            },
        }
    }
}

/// `{task}-assistant-{iteration}`.
fn assistant_message_id(sid: &String, iteration: usize) -> (r: String)
    ensures
        r@ == assistant_id(sid@, iteration as nat),
{
    let mut r = concat2(sid.as_str(), "-assistant-");
    r.append(usize_string(iteration).as_str());
    r
}

/// `{task}-tool-{iteration}-{index}`.
fn tool_call_message_id(sid: &String, iteration: usize, index: usize) -> (r: String)
    ensures
        r@ == tool_message_id(sid@, iteration as nat, index as nat),
{
    let mut r = concat2(sid.as_str(), "-tool-");
    r.append(usize_string(iteration).as_str());
    r.append("-");
    r.append(usize_string(index).as_str());
    r
}

// ---------------------------------------------------------------------------
// Choosing the agent and provider; flattening a finished run
// ---------------------------------------------------------------------------

/// The agent a run uses: the configured agent of that name, else the default agent.
pub open spec fn chosen_agent(config: WorkspaceConfig, agent_name: Option<Seq<char>>) -> Agent {
    match agent_name {
        Some(n) if config.agents.has_key(n) => config.agents.get_spec(n)->0,
        _ => config.default_agent_spec(),
    }
}

impl Agent {
    /// The same agent, field by field.
    pub open spec fn same_as(&self, other: &Agent) -> bool {
        &&& self.name == other.name
        &&& self.description == other.description
        &&& self.mode == other.mode
        &&& self.model == other.model
        &&& self.prompt == other.prompt
        &&& self.tools.entries@ == other.tools.entries@
        &&& self.permissions@ == other.permissions@
        &&& self.max_steps == other.max_steps
    }

    /// A copy of the agent.
    pub fn duplicate(&self) -> (r: Agent)
        ensures
            r.same_as(self),
    {
        let mut entries: Vec<(String, bool)> = Vec::new();
        let mut i: usize = 0;
        while i < self.tools.entries.len()
            invariant
                i <= self.tools.entries@.len(),
                entries@ == self.tools.entries@.take(i as int),
            decreases self.tools.entries.len() - i,
        {
            entries.push((self.tools.entries[i].0.clone(), self.tools.entries[i].1));
            assert(entries@[i as int] == self.tools.entries@[i as int]);
            assert(entries@ =~= self.tools.entries@.take(i + 1));
            i += 1;
        }
        let mut permissions: Vec<crate::agent::PermissionRule> = Vec::new();
        let mut j: usize = 0;
        while j < self.permissions.len()
            invariant
                j <= self.permissions@.len(),
                permissions@ == self.permissions@.take(j as int),
            decreases self.permissions.len() - j,
        {
            let rule = &self.permissions[j];
            let scope = match &rule.scope {
                PermissionScope::Read => PermissionScope::Read,
                PermissionScope::Write => PermissionScope::Write,
                PermissionScope::Bash => PermissionScope::Bash,
                PermissionScope::Web => PermissionScope::Web,
                PermissionScope::Task => PermissionScope::Task,
                PermissionScope::Question => PermissionScope::Question,
                PermissionScope::Custom(n) => PermissionScope::Custom(n.clone()),
            };
            permissions.push(crate::agent::PermissionRule { scope, pattern: rule.pattern.clone(), action: rule.action });
            assert(permissions@ =~= self.permissions@.take(j + 1));
            j += 1;
        }
        assert(entries@ =~= self.tools.entries@);
        assert(permissions@ =~= self.permissions@);
        Agent {
            name: self.name.clone(),
            description: self.description.clone(),
            mode: self.mode,
            model: crate::message::clone_opt(&self.model),
            prompt: crate::message::clone_opt(&self.prompt),
            tools: crate::strmap::StrMap { entries },
            permissions,
            max_steps: self.max_steps,
        }
    }
}

impl Engine {
    /// The agent and the provider selection of a run: the agent named
    /// `agent_name` if the configuration has it, else the default agent; the
    /// selection as `resolve_provider_selection` makes it for that agent.
    pub fn select(
        &self,
        agent_name: Option<&str>,
        provider_name: Option<&str>,
        model_name: Option<&str>,
    ) -> (r: Result<(Agent, ProviderSelection), ConfigError>)
        requires
            self.config.wf(),
            self.config.agents.size() > 0,
            crate::config::falls_back(
                crate::message::opt_view(
                    chosen_agent(
                        self.config,
                        match agent_name {
                            Some(n) => Some(n@),
                            None => None,
                        },
                    ).model,
                ),
                match provider_name {
                    Some(p) => Some(p@),
                    None => None,
                },
                match model_name {
                    Some(m) => Some(m@),
                    None => None,
                },
            ) ==> self.config.providers.size() > 0,
        ensures
            ({
                let agent = chosen_agent(
                    self.config,
                    match agent_name {
                        Some(n) => Some(n@),
                        None => None,
                    },
                );
                let outcome = self.config.resolve_spec(
                    crate::message::opt_view(agent.model),
                    match provider_name {
                        Some(p) => Some(p@),
                        None => None,
                    },
                    match model_name {
                        Some(m) => Some(m@),
                        None => None,
                    },
                );
                &&& crate::config::selection_of(
                    match r {
                        Ok((_, s)) => Ok(s),
                        Err(e) => Err(e),
                    },
                ) == outcome
                &&& r matches Ok((a, _)) ==> a.same_as(&agent) && a.tools.wf()
            }),
    {
        let named = match agent_name {
            Some(name) => self.config.agent(name),
            None => None,
        };
        let agent = match named {
            Some(a) => a.duplicate(),
            None => self.config.default_agent().duplicate(),
        };
        proof {
            let chosen = chosen_agent(
                self.config,
                match agent_name {
                    Some(n) => Some(n@),
                    None => None,
                },
            );
            if agent_name is Some && self.config.agents.has_key(agent_name->0@) {
                let i = self.config.agents.index_of(agent_name->0@);
                assert(self.config.agents.value(i).tools.wf());
            } else {
                if self.config.agents.has_key(self.config.default_agent@) {
                    let i = self.config.agents.index_of(self.config.default_agent@);
                    assert(self.config.agents.value(i).tools.wf());
                } else {
                    assert(self.config.agents.value(0).tools.wf());
                }
            }
            assert(agent.model == chosen.model);
            assert(crate::message::opt_view(agent.model) == match agent.model {
                Some(m) => Some(m@),
                None => None,
            });
        }
        let res = self.config.resolve_provider_selection(&agent, provider_name, model_name);
        let ghost chosen = chosen_agent(
            self.config,
            match agent_name {
                Some(n) => Some(n@),
                None => None,
            },
        );
        assert(agent.same_as(&chosen));
        proof {
            if agent_name is Some && self.config.agents.has_key(agent_name->0@) {
                let i = self.config.agents.index_of(agent_name->0@);
                assert(self.config.agents.value(i).tools.wf());
                assert(chosen == self.config.agents.value(i));
            } else if self.config.agents.has_key(self.config.default_agent@) {
                let i = self.config.agents.index_of(self.config.default_agent@);
                assert(self.config.agents.value(i).tools.wf());
                assert(chosen == self.config.agents.value(i));
            } else {
                assert(self.config.agents.value(0).tools.wf());
                assert(chosen == self.config.agents.value(0));
            }
            assert(chosen.tools.wf());
            assert forall|a: int, b: int|
                0 <= a < b < agent.tools.entries@.len() implies crate::text::seq_lt(
                #[trigger] agent.tools.key(a),
                #[trigger] agent.tools.key(b),
            ) by {
                assert(agent.tools.key(a) == chosen.tools.key(a));
                assert(agent.tools.key(b) == chosen.tools.key(b));
            }
        }
        assert(agent.tools.wf());
        match res {
            Ok(selection) => Ok((agent, selection)),
            Err(e) => Err(e),
        }
    }
}

/// The outcome of a run as a list of messages.
pub struct RunResult {
    pub task_id: String,
    pub final_message: String,
    pub iterations: usize,
    pub messages: Vec<Message>,
}

/// The text a part contributes to its message: a text part its text, a tool
/// result its rendered output; other parts nothing.
pub open spec fn part_text(p: PartView) -> Option<Seq<char>> {
    match p {
        PartView::Text(t) => Some(t),
        PartView::ToolResult(_, out) => Some(rendered(out)),
        _ => None,
    }
}

/// The texts of the parts, one per line; a part's text goes on a new line
/// once some text is there.
pub open spec fn combined_text(parts: Seq<PartView>) -> Seq<char>
    decreases parts.len(),
{
    if parts.len() == 0 {
        seq![]
    } else {
        let t = combined_text(parts.drop_last());
        match part_text(parts.last()) {
            Some(v) => if t.len() == 0 {
                v
            } else {
                t + "\n"@ + v
            },
            None => t,
        }
    }
}

/// One tool message per tool-result part, in order.
pub open spec fn tool_messages(parts: Seq<PartView>) -> Seq<MessageView>
    decreases parts.len(),
{
    if parts.len() == 0 {
        seq![]
    } else {
        let rest = tool_messages(parts.drop_last());
        match parts.last() {
            PartView::ToolResult(tool, out) => rest.push(
                MessageView { role: Role::Tool, name: Some(tool), tool_call_id: None, content: rendered(out) },
            ),
            _ => rest,
        }
    }
}

/// What one session message becomes: its tool messages, then, for a message
/// not of the tool role with some text, one message of its combined text.
pub open spec fn flatten_message(m: SessionMessageView) -> Seq<MessageView> {
    let text = combined_text(m.parts);
    tool_messages(m.parts) + if text.len() > 0 && m.role != Role::Tool {
        seq![MessageView { role: m.role, name: None, tool_call_id: None, content: text }]
    } else {
        seq![]
    }
}

/// What the session messages become, in order.
pub open spec fn flatten(ms: Seq<SessionMessageView>) -> Seq<MessageView>
    decreases ms.len(),
{
    if ms.len() == 0 {
        seq![]
    } else {
        flatten(ms.drop_last()) + flatten_message(ms.last())
    }
}

/// The messages of one session message, appended to `out`.
fn flatten_into(m: &SessionMessage, out: &mut Vec<Message>)
    ensures
        final(out)@.map_values(|x: Message| x@) == old(out)@.map_values(|x: Message| x@) + flatten_message(m@),
{
    let ghost start = out@.map_values(|x: Message| x@);
    let mut text = String::new();
    let mut i: usize = 0;
    while i < m.parts.len()
        invariant
            i <= m.parts@.len(),
            text@ == combined_text(m@.parts.take(i as int)),
            out@.map_values(|x: Message| x@) == start + tool_messages(m@.parts.take(i as int)),
        decreases m.parts.len() - i,
    {
        let ghost prefix = m@.parts.take(i + 1);
        assert(prefix.drop_last() =~= m@.parts.take(i as int));
        assert(prefix.last() == m.parts@[i as int]@);
        match &m.parts[i] {
            MessagePart::Text { text: value } => {
                if text.as_str().unicode_len() > 0 {
                    text.append("\n");
                }
                text.append(value.as_str());
            },
            MessagePart::ToolResult { tool, output } => {
                let r = render_value(output);
                if text.as_str().unicode_len() > 0 {
                    text.append("\n");
                }
                text.append(r.as_str());
                let ghost before = out@;
                let msg = Message::tool(tool.as_str(), r.as_str());
                out.push(msg);
                assert(out@.map_values(|x: Message| x@) =~= before.map_values(|x: Message| x@).push(msg@));
            },
            _ => {},
        }
        i += 1;
    }
    assert(m@.parts.take(i as int) =~= m@.parts);
    if text.as_str().unicode_len() > 0 && m.role != Role::Tool {
        let ghost before = out@;
        let msg = Message { role: m.role, name: None, tool_call_id: None, content: text };
        out.push(msg);
        assert(out@.map_values(|x: Message| x@) =~= before.map_values(|x: Message| x@).push(msg@));
    } else {
        assert(out@.map_values(|x: Message| x@) =~= start + tool_messages(m@.parts) + Seq::<MessageView>::empty());
    }
}

/// The outcome of a finished run: its id, final message and rounds, and its
/// messages flattened.
pub fn run_result(run: SessionRun) -> (r: RunResult)
    ensures
        r.task_id == run.session.id,
        r.final_message == run.final_message,
        r.iterations == run.iterations,
        r.messages@.map_values(|x: Message| x@) == flatten(message_views(run.session.messages@)),
{
    let mut messages: Vec<Message> = Vec::new();
    let mut i: usize = 0;
    while i < run.session.messages.len()
        invariant
            i <= run.session.messages@.len(),
            messages@.map_values(|x: Message| x@) == flatten(message_views(run.session.messages@.take(i as int))),
        decreases run.session.messages.len() - i,
    {
        let ghost prefix = run.session.messages@.take(i + 1);
        assert(message_views(prefix).drop_last() =~= message_views(run.session.messages@.take(i as int)));
        assert(message_views(prefix).last() == run.session.messages@[i as int]@);
        flatten_into(&run.session.messages[i], &mut messages);
        i += 1;
    }
    assert(run.session.messages@.take(i as int) =~= run.session.messages@);
    RunResult {
        task_id: run.session.id,
        final_message: run.final_message,
        iterations: run.iterations,
        messages,
    }
}

// ---------------------------------------------------------------------------
// Laws of the built-in agents
// ---------------------------------------------------------------------------

/// The `"*"` rules of the built-in agents match every target, so the flags
/// they give agree with what is known of every pattern.
proof fn lemma_star_flags_consistent(rules: Seq<PermissionRule>, seps: (bool, bool), scope: PermissionScope, target: Seq<char>)
    requires
        rules.len() == 3,
        forall|i: int| 0 <= i < 3 ==> (#[trigger] rules[i]).pattern@ == "*"@,
    ensures
        flags_consistent(rules, scope, target, match_flags(seps, rules, scope, target)),
{
    reveal_strlit("*");
    assert("*"@ =~= seq!['*']);
    let flags = match_flags(seps, rules, scope, target);
    assert forall|i: int|
        0 <= i < rules.len() && scope_eq(rules[i].scope, scope) implies (known_match(
        #[trigger] rules[i].pattern@,
        target,
    ) matches Some(b) ==> flags[i] == b) by {
        assert(rules[i].pattern@ == seq!['*']);
    }
}

/// The plan agent never runs a writing tool: whatever the target and on
/// every platform, its rules deny a call of the write scope.
pub proof fn law_plan_agent_denies_writes(agent: Agent, seps: (bool, bool), target: Seq<char>)
    requires
        crate::agent::is_plan_agent(agent),
    ensures
        permission_action(agent, seps, PermissionScope::Write, target) == PermissionAction::Deny,
{
    let rules = agent.permissions@;
    lemma_star_flags_consistent(rules, seps, PermissionScope::Write, target);
    crate::agent::law_star_rules_decide_by_scope(
        rules,
        PermissionAction::Allow,
        PermissionAction::Deny,
        PermissionAction::Ask,
        PermissionScope::Write,
        target,
        match_flags(seps, rules, PermissionScope::Write, target),
    );
}

/// The build agent runs reading and writing tools and holds every shell
/// command for approval, whatever the target and on every platform.
pub proof fn law_build_agent_asks_for_shell(agent: Agent, seps: (bool, bool), target: Seq<char>)
    requires
        crate::agent::is_build_agent(agent),
    ensures
        permission_action(agent, seps, PermissionScope::Bash, target) == PermissionAction::Ask,
        permission_action(agent, seps, PermissionScope::Write, target) == PermissionAction::Allow,
        permission_action(agent, seps, PermissionScope::Read, target) == PermissionAction::Allow,
{
    let rules = agent.permissions@;
    lemma_star_flags_consistent(rules, seps, PermissionScope::Bash, target);
    lemma_star_flags_consistent(rules, seps, PermissionScope::Write, target);
    lemma_star_flags_consistent(rules, seps, PermissionScope::Read, target);
    crate::agent::law_star_rules_decide_by_scope(
        rules,
        PermissionAction::Allow,
        PermissionAction::Allow,
        PermissionAction::Ask,
        PermissionScope::Bash,
        target,
        match_flags(seps, rules, PermissionScope::Bash, target),
    );
    crate::agent::law_star_rules_decide_by_scope(
        rules,
        PermissionAction::Allow,
        PermissionAction::Allow,
        PermissionAction::Ask,
        PermissionScope::Write,
        target,
        match_flags(seps, rules, PermissionScope::Write, target),
    );
    crate::agent::law_star_rules_decide_by_scope(
        rules,
        PermissionAction::Allow,
        PermissionAction::Allow,
        PermissionAction::Ask,
        PermissionScope::Read,
        target,
        match_flags(seps, rules, PermissionScope::Read, target),
    );
}

/// The tools that change files, `write` and `edit`, are both of the write
/// scope, the shell of its own, and the tools that only look of the read
/// scope.
pub proof fn law_file_changing_tools_are_writes()
    ensures
        tool_scope("write"@) == Some(PermissionScope::Write),
        tool_scope("edit"@) == Some(PermissionScope::Write),
        tool_scope("bash"@) == Some(PermissionScope::Bash),
        tool_scope("read_file"@) == Some(PermissionScope::Read),
        tool_scope("list_directory"@) == Some(PermissionScope::Read),
        tool_scope("current_directory"@) == Some(PermissionScope::Read),
        tool_scope("git_status"@) == Some(PermissionScope::Read),
        tool_scope("glob"@) == Some(PermissionScope::Read),
        tool_scope("grep"@) == Some(PermissionScope::Read),
{
    reveal_strlit("write");
    reveal_strlit("edit");
    reveal_strlit("bash");
    reveal_strlit("read_file");
    reveal_strlit("list_directory");
    reveal_strlit("current_directory");
    reveal_strlit("git_status");
    reveal_strlit("glob");
    reveal_strlit("grep");
    let read_names = seq!["current_directory"@, "list_directory"@, "read_file"@, "git_status"@, "glob"@, "grep"@];
    assert forall|i: int| 0 <= i < read_names.len() implies read_names[i] != "write"@ && read_names[i] != "edit"@
        && read_names[i] != "bash"@ by {
        assert(read_names[i][0] != "write"@[0] || read_names[i].len() != "write"@.len());
        assert(read_names[i][0] != "edit"@[0]);
        assert(read_names[i][0] != "bash"@[0] || read_names[i].len() != "bash"@.len());
    }
    assert(read_names[0] == "current_directory"@);
    assert(read_names[1] == "list_directory"@);
    assert(read_names[2] == "read_file"@);
    assert(read_names[3] == "git_status"@);
    assert(read_names[4] == "glob"@);
    assert(read_names[5] == "grep"@);
    assert("edit"@.len() != "write"@.len());
    assert("bash"@.len() != "write"@.len());
    assert("bash"@[0] != "edit"@[0]);
}

/// The plan agent never changes a file: a call of `write` or `edit`, with
/// any input and on every platform, asks for the write scope, and the plan
/// agent's rules deny it.
pub proof fn law_plan_agent_never_changes_files(agent: Agent, seps: (bool, bool), name: Seq<char>, input: JsonValue)
    requires
        crate::agent::is_plan_agent(agent),
        name == "write"@ || name == "edit"@,
    ensures
        tool_scope(name) == Some(PermissionScope::Write),
        permission_action(agent, seps, tool_scope(name)->0, permission_target(name, input)) == PermissionAction::Deny,
{
    law_file_changing_tools_are_writes();
    law_plan_agent_denies_writes(agent, seps, permission_target(name, input));
}

} // verus!
