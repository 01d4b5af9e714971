//! The state the desktop shell shows, and the approvals a run leaves pending.
use vstd::prelude::*;

use crate::agent::Agent;
use crate::app_paths::{join_step, path_join, rooted};
use crate::auth::AuthStatus;
use crate::clock::unix_timestamp_millis;
use crate::config::{ConfigError, ProviderConfig, ProviderKind, Selection, WorkspaceConfig, selection_of};
use crate::context::Context;
use crate::desktop::{provider_authenticated, render_simple_diff, simple_diff, task_id, ApprovalMode, DesktopSettings};
use crate::engine::chosen_agent;
use crate::json::{as_flag, flag_field, same_json, text_field, JsonValue};
use crate::message::{clone_opt, opt_view};
use crate::session::{EventView, MessagePart, PartView, SessionEvent, SessionMessage};
use crate::session_store::SessionSummary;
use crate::strmap::StrMap;
use crate::text::{concat2, concat3, decimal, owned, replace_all, replace_first, str_eq, trim};
use crate::tool::{json_pretty, pretty_json};

verus! {

// ---------------------------------------------------------------------------
// Stored keys
// ---------------------------------------------------------------------------

/// The key a provider ends up with: a non-blank stored key, else its own.
pub open spec fn applied_key(stored: Option<String>, own: Option<String>) -> Option<String> {
    match stored {
        Some(v) => if trim(v@).len() > 0 {
            Some(v)
        } else {
            own
        },
        None => own,
    }
}

/// `q` is `p` with the key `key`.
pub open spec fn with_key(q: ProviderConfig, p: ProviderConfig, key: Option<String>) -> bool {
    &&& q.id == p.id
    &&& q.label == p.label
    &&& q.kind == p.kind
    &&& q.api_base == p.api_base
    &&& q.api_key_env == p.api_key_env
    &&& q.default_model == p.default_model
    &&& q.models == p.models
    &&& q.api_key == key
}

/// The configuration with each provider's stored key applied: a non-blank
/// key stored for a configured provider becomes its key.
pub fn apply_stored_keys(config: WorkspaceConfig, settings: &DesktopSettings) -> (r: WorkspaceConfig)
    requires
        config.wf(),
        settings.provider_api_keys.wf(),
    ensures
        r.wf(),
        r.app_name == config.app_name,
        r.default_agent == config.default_agent,
        r.desktop_targets == config.desktop_targets,
        r.agents == config.agents,
        r.providers.size() == config.providers.size(),
        forall|i: int|
            0 <= i < config.providers.size() ==> #[trigger] r.providers.key(i) == config.providers.key(i) && with_key(
                r.providers.value(i),
                config.providers.value(i),
                applied_key(settings.provider_api_keys.get_spec(config.providers.key(i)), config.providers.value(i).api_key),
            ),
{
    let WorkspaceConfig { app_name, default_agent, desktop_targets, providers, agents } = config;
    let ghost original = providers;
    let mut rest = providers.entries;
    let mut out: Vec<(String, ProviderConfig)> = Vec::new();
    while rest.len() > 0
        invariant
            settings.provider_api_keys.wf(),
            out@.len() + rest@.len() == original.size(),
            rest@ == original.entries@.skip(out@.len() as int),
            forall|j: int|
                0 <= j < out@.len() ==> #[trigger] out@[j].0@ == original.key(j) && with_key(
                    out@[j].1,
                    original.value(j),
                    applied_key(settings.provider_api_keys.get_spec(original.key(j)), original.value(j).api_key),
                ),
        decreases rest.len(),
    {
        let ghost n = out@.len();
        let (k, p) = rest.remove(0);
        assert(original.entries@.skip(n as int)[0] == original.entries@[n as int]);
        assert(rest@ =~= original.entries@.skip((n + 1) as int));
        let key = match settings.provider_api_keys.get(k.as_str()) {
            Some(v) => {
                let blank = str_eq(crate::text::trim_str(v.as_str()).as_str(), "");
                proof {
                    reveal_strlit("");
                    assert(trim(v@).len() == 0 ==> trim(v@) =~= ""@);
                }
                if blank {
                    p.api_key
                } else {
                    Some(v.clone())
                }
            },
            None => p.api_key,
        };
        let q = ProviderConfig {
            id: p.id,
            label: p.label,
            kind: p.kind,
            api_base: p.api_base,
            api_key_env: p.api_key_env,
            api_key: key,
            default_model: p.default_model,
            models: p.models,
        };
        out.push((k, q));
    }
    let providers = StrMap { entries: out };
    proof {
        assert forall|a: int, b: int| 0 <= a < b < providers.entries@.len() implies crate::text::seq_lt(
            #[trigger] providers.key(a),
            #[trigger] providers.key(b),
        ) by {
            assert(providers.key(a) == original.key(a));
            assert(providers.key(b) == original.key(b));
        }
        assert forall|i: int| 0 <= i < providers.size() implies (#[trigger] providers.value(i)).models.wf() by {
            assert(providers.key(i) == original.key(i));
            assert(providers.value(i).models == original.value(i).models);
        }
    }
    WorkspaceConfig { app_name, default_agent, desktop_targets, providers, agents }
}

// ---------------------------------------------------------------------------
// The shown state
// ---------------------------------------------------------------------------

pub struct DesktopAgent {
    pub id: String,
    pub label: String,
    pub description: String,
}

pub struct DesktopModel {
    pub id: String,
    pub label: String,
    pub supports_tools: bool,
}

pub struct DesktopProvider {
    pub id: String,
    pub label: String,
    pub kind: String,
    pub default_model: Option<String>,
    pub authenticated: bool,
    pub uses_stored_key: bool,
    pub models: Vec<DesktopModel>,
}

pub struct DesktopAuthState {
    pub provider: String,
    pub stored: bool,
    pub source: Option<String>,
    pub auth_file: String,
}

pub struct DesktopSessionSummary {
    pub id: String,
    pub provider: String,
    pub model: String,
    pub agent: String,
    pub iterations: usize,
    pub final_message_preview: String,
}

pub struct DesktopState {
    pub app_name: String,
    pub cwd: String,
    pub repository_root: Option<String>,
    pub selected_agent: String,
    pub approval_mode: ApprovalMode,
    pub selected_provider: String,
    pub selected_model: String,
    pub agents: Vec<DesktopAgent>,
    pub providers: Vec<DesktopProvider>,
    pub copilot_auth: DesktopAuthState,
    pub sessions: Vec<DesktopSessionSummary>,
}

/// The most saved runs the desktop lists.
pub const LISTED_SESSIONS: usize = 20;

/// `format!("{:?}", kind)`.
pub open spec fn kind_label(k: ProviderKind) -> Seq<char> {
    match k {
        ProviderKind::LocalEcho => "LocalEcho"@,
        ProviderKind::RemoteOpenAiCompatible => "RemoteOpenAiCompatible"@,
    }
}

/// Whether a provider counts as signed in (`provider_authenticated`).
pub open spec fn authenticated(p: ProviderConfig, env_value: Option<String>) -> bool {
    match p.kind {
        ProviderKind::LocalEcho => true,
        ProviderKind::RemoteOpenAiCompatible => (match p.api_key {
            Some(k) => trim(k@).len() > 0,
            None => false,
        }) || (p.api_key_env is Some && match env_value {
            Some(v) => trim(v@).len() > 0,
            None => false,
        }),
    }
}

/// The value of a provider's key variable in `env`, the environment the
/// caller read, by variable name.
pub open spec fn env_value_of(env: StrMap<String>, p: ProviderConfig) -> Option<String> {
    match p.api_key_env {
        Some(name) => env.get_spec(name@),
        None => None,
    }
}

/// How the desktop shows a provider.
pub open spec fn shows_provider(d: DesktopProvider, p: ProviderConfig, env_value: Option<String>, stored: bool) -> bool {
    &&& d.id == p.id
    &&& d.label == p.label
    &&& d.kind@ == kind_label(p.kind)
    &&& d.default_model == p.default_model
    &&& d.authenticated == authenticated(p, env_value)
    &&& d.uses_stored_key == stored
    &&& d.models@.len() == p.models.size()
    &&& forall|j: int|
        0 <= j < p.models.size() ==> {
            &&& (#[trigger] d.models@[j]).id == p.models.value(j).id
            &&& d.models@[j].label == p.models.value(j).label
            &&& d.models@[j].supports_tools == p.models.value(j).supports_tools
        }
}

/// How the desktop shows a saved run.
pub open spec fn shows_session(d: DesktopSessionSummary, s: SessionSummary) -> bool {
    &&& d.id == s.id
    &&& d.provider == s.provider
    &&& d.model == s.model
    &&& d.agent == s.agent
    &&& d.iterations == s.iterations
    &&& d.final_message_preview == s.final_message_preview
}

/// How the desktop shows an agent: by name, with its description.
pub open spec fn shows_agent(d: DesktopAgent, a: Agent) -> bool {
    &&& d.id == a.name
    &&& d.label == a.name
    &&& d.description == a.description
}

impl DesktopAuthState {
    /// The Copilot sign-in as the desktop shows it.
    pub fn from_status(status: AuthStatus) -> (r: Self)
        ensures
            r.provider@ == "github-copilot"@,
            r.stored == status.stored,
            r.source == status.source,
            r.auth_file == status.auth_file,
    {
        DesktopAuthState {
            provider: owned(status.provider.as_str()),
            stored: status.stored,
            source: status.source,
            auth_file: status.auth_file,
        }
    }
}

fn kind_text(k: ProviderKind) -> (r: String)
    ensures
        r@ == kind_label(k),
{
    match k {
        ProviderKind::LocalEcho => owned("LocalEcho"),
        ProviderKind::RemoteOpenAiCompatible => owned("RemoteOpenAiCompatible"),
    }
}

fn show_provider(p: &ProviderConfig, env_value: &Option<String>, stored: bool) -> (d: DesktopProvider)
    requires
        p.models.wf(),
    ensures
        shows_provider(d, *p, *env_value, stored),
{
    let mut models: Vec<DesktopModel> = Vec::new();
    let mut j: usize = 0;
    while j < p.models.entries.len()
        invariant
            j <= p.models.entries@.len(),
            models@.len() == j,
            forall|k: int|
                0 <= k < j ==> {
                    &&& (#[trigger] models@[k]).id == p.models.value(k).id
                    &&& models@[k].label == p.models.value(k).label
                    &&& models@[k].supports_tools == p.models.value(k).supports_tools
                },
        decreases p.models.entries.len() - j,
    {
        let m = &p.models.entries[j].1;
        models.push(DesktopModel { id: m.id.clone(), label: m.label.clone(), supports_tools: m.supports_tools });
        j += 1;
    }
    let env = match env_value {
        Some(v) => Some(v.as_str()),
        None => None,
    };
    let authenticated = provider_authenticated(p, env);
    DesktopProvider {
        id: p.id.clone(),
        label: p.label.clone(),
        kind: kind_text(p.kind),
        default_model: clone_opt(&p.default_model),
        authenticated,
        uses_stored_key: stored,
        models,
    }
}

/// The state the desktop shows: the agent the settings select (else the
/// default agent), the provider and model chosen for it with the settings'
/// overrides, every agent and provider, the Copilot sign-in, and the newest
/// saved runs. `env` holds the environment variables the caller read, by
/// name; a provider's key variable that it lacks is unset. An error where no
/// provider and model can be chosen.
pub fn build_state(
    config: &WorkspaceConfig,
    settings: &DesktopSettings,
    context: &Context,
    sessions: Vec<SessionSummary>,
    env: &StrMap<String>,
    copilot_auth: DesktopAuthState,
) -> (r: Result<DesktopState, ConfigError>)
    requires
        config.wf(),
        config.agents.size() > 0,
        crate::config::falls_back(
            opt_view(chosen_agent(*config, opt_view(settings.selected_agent)).model),
            opt_view(settings.selected_provider),
            opt_view(settings.selected_model),
        ) ==> config.providers.size() > 0,
        settings.provider_api_keys.wf(),
        env.wf(),
    ensures
        ({
            let agent = chosen_agent(*config, opt_view(settings.selected_agent));
            let choice = config.resolve_spec(
                opt_view(agent.model),
                opt_view(settings.selected_provider),
                opt_view(settings.selected_model),
            );
            match r {
                Err(e) => !(choice is Chosen) && selection_of(Err(e)) == choice,
                Ok(s) => {
                    &&& choice == Selection::Chosen(s.selected_provider@, s.selected_model@)
                    &&& s.app_name == config.app_name
                    &&& s.cwd == context.cwd
                    &&& s.repository_root == context.repository_root
                    &&& s.selected_agent == agent.name
                    &&& s.approval_mode == settings.approval_mode
                    &&& s.copilot_auth == copilot_auth
                    &&& s.agents@.len() == config.agents.size()
                    &&& forall|i: int| 0 <= i < config.agents.size() ==> shows_agent(#[trigger] s.agents@[i], config.agents.value(i))
                    &&& s.providers@.len() == config.providers.size()
                    &&& forall|i: int|
                        0 <= i < config.providers.size() ==> shows_provider(
                            #[trigger] s.providers@[i],
                            config.providers.value(i),
                            env_value_of(*env, config.providers.value(i)),
                            settings.provider_api_keys.has_key(config.providers.key(i)),
                        )
                    &&& s.sessions@.len() == if sessions@.len() < LISTED_SESSIONS { sessions@.len() } else { LISTED_SESSIONS as nat }
                    &&& forall|i: int| 0 <= i < s.sessions@.len() ==> shows_session(#[trigger] s.sessions@[i], sessions@[i])
                },
            }
        }),
{
    let named = match &settings.selected_agent {
        Some(name) => config.agent(name.as_str()),
        None => None,
    };
    let agent = match named {
        Some(a) => a,
        None => config.default_agent(),
    };
    proof {
        let i = config.agents.index_of(agent.name@);
        assert(agent.tools.wf()) by {
            if named is Some {
                let j = config.agents.index_of(settings.selected_agent->0@);
                config.agents.lemma_get_at(j);
            } else {
                if config.agents.has_key(config.default_agent@) {
                    let j = config.agents.index_of(config.default_agent@);
                    config.agents.lemma_get_at(j);
                }
            }
        }
    }
    let selection = match config.resolve_provider_selection(
        agent,
        match &settings.selected_provider {
            Some(p) => Some(p.as_str()),
            None => None,
        },
        match &settings.selected_model {
            Some(m) => Some(m.as_str()),
            None => None,
        },
    ) {
        Ok(s) => s,
        Err(e) => return Err(e),
    };
    let mut shown_sessions: Vec<DesktopSessionSummary> = Vec::new();
    let mut i: usize = 0;
    while i < sessions.len() && i < LISTED_SESSIONS
        invariant
            i <= sessions@.len(),
            i <= LISTED_SESSIONS,
            shown_sessions@.len() == i,
            forall|k: int| 0 <= k < i ==> shows_session(#[trigger] shown_sessions@[k], sessions@[k]),
        decreases sessions.len() - i,
    {
        let s = &sessions[i];
        shown_sessions.push(
            DesktopSessionSummary {
                id: s.id.clone(),
                provider: s.provider.clone(),
                model: s.model.clone(),
                agent: s.agent.clone(),
                iterations: s.iterations,
                final_message_preview: s.final_message_preview.clone(),
            },
        );
        i += 1;
    }
    let mut providers: Vec<DesktopProvider> = Vec::new();
    let mut i: usize = 0;
    while i < config.providers.entries.len()
        invariant
            i <= config.providers.entries@.len(),
            config.wf(),
            settings.provider_api_keys.wf(),
            env.wf(),
            providers@.len() == i,
            forall|k: int|
                0 <= k < i ==> shows_provider(
                    #[trigger] providers@[k],
                    config.providers.value(k),
                    env_value_of(*env, config.providers.value(k)),
                    settings.provider_api_keys.has_key(config.providers.key(k)),
                ),
        decreases config.providers.entries.len() - i,
    {
        let p = &config.providers.entries[i].1;
        assert(config.providers.value(i as int).models.wf());
        let stored = settings.provider_api_keys.contains_key(config.providers.entries[i].0.as_str());
        let env_value = match &p.api_key_env {
            Some(name) => match env.get(name.as_str()) {
                Some(v) => Some(v.clone()),
                None => None,
            },
            None => None,
        };
        providers.push(show_provider(p, &env_value, stored));
        i += 1;
    }
    let mut agents: Vec<DesktopAgent> = Vec::new();
    let mut i: usize = 0;
    while i < config.agents.entries.len()
        invariant
            i <= config.agents.entries@.len(),
            agents@.len() == i,
            forall|k: int| 0 <= k < i ==> shows_agent(#[trigger] agents@[k], config.agents.value(k)),
        decreases config.agents.entries.len() - i,
    {
        let a = &config.agents.entries[i].1;
        agents.push(DesktopAgent { id: a.name.clone(), label: a.name.clone(), description: a.description.clone() });
        i += 1;
    }
    Ok(
        DesktopState {
            app_name: config.app_name.clone(),
            cwd: context.cwd.clone(),
            repository_root: clone_opt(&context.repository_root),
            selected_agent: agent.name.clone(),
            approval_mode: settings.approval_mode,
            selected_provider: selection.provider_id,
            selected_model: selection.model_id,
            agents,
            providers,
            copilot_auth,
            sessions: shown_sessions,
        },
    )
}

/// The id of a desktop run started now: `desktop-` and the time in
/// milliseconds; `None` when the clock cannot be read.
pub fn current_task_id() -> (r: Option<String>)
    ensures
        r matches Some(id) ==> exists|m: nat| #[trigger] decimal(m) == id@.skip(8) && id@ == "desktop-"@ + decimal(m),
{
    match unix_timestamp_millis() {
        Ok(millis) => {
            let id = task_id(millis);
            proof {
                reveal_strlit("desktop-");
                assert((("desktop-"@ + decimal(millis as nat)).skip(8)) =~= decimal(millis as nat));
            }
            Some(id)
        },
        Err(_) => None,
    }
}

// ---------------------------------------------------------------------------
// Pending approvals
// ---------------------------------------------------------------------------

/// The input of the first tool call among a message's parts.
pub open spec fn first_call_input(parts: Seq<PartView>) -> Option<JsonValue>
    decreases parts.len(),
{
    if parts.len() == 0 {
        None
    } else {
        match parts[0] {
            PartView::ToolCall(_, input) => Some(input),
            _ => first_call_input(parts.drop_first()),
        }
    }
}

/// The tool call input of the first message with id `id`: `None` where there
/// is no such message or it holds no tool call.
pub open spec fn call_input_of(msgs: Seq<SessionMessage>, id: Seq<char>) -> Option<JsonValue>
    decreases msgs.len(),
{
    if msgs.len() == 0 {
        None
    } else if msgs[0].id@ == id {
        first_call_input(msgs[0]@.parts)
    } else {
        call_input_of(msgs.drop_first(), id)
    }
}

/// The tool call input that the message `message_id` of a run holds.
pub fn pending_call_input(messages: &Vec<SessionMessage>, message_id: &str) -> (r: Option<JsonValue>)
    ensures
        r is Some <==> call_input_of(messages@, message_id@) is Some,
        r matches Some(v) ==> same_json(call_input_of(messages@, message_id@)->0, v),
{
    let mut i: usize = 0;
    assert(messages@.skip(0) =~= messages@);
    while i < messages.len()
        invariant
            i <= messages@.len(),
            call_input_of(messages@, message_id@) == call_input_of(messages@.skip(i as int), message_id@),
        decreases messages.len() - i,
    {
        assert(messages@.skip(i as int).drop_first() =~= messages@.skip(i + 1));
        assert(messages@.skip(i as int)[0] == messages@[i as int]);
        let m = &messages[i];
        if str_eq(m.id.as_str(), message_id) {
            let parts = &m.parts;
            let ghost pv = m@.parts;
            assert(call_input_of(messages@.skip(i as int), message_id@) == first_call_input(pv));
            let mut j: usize = 0;
            assert(pv.skip(0) =~= pv);
            while j < parts.len()
                invariant
                    j <= parts@.len(),
                    pv == parts@.map_values(|p: MessagePart| p@),
                    first_call_input(pv) == first_call_input(pv.skip(j as int)),
                    call_input_of(messages@, message_id@) == first_call_input(pv),
                decreases parts.len() - j,
            {
                assert(pv.skip(j as int).drop_first() =~= pv.skip(j + 1));
                assert(pv.skip(j as int)[0] == parts@[j as int]@);
                match &parts[j] {
                    MessagePart::ToolCall { tool: _, input } => {
                        assert(first_call_input(pv.skip(j as int)) == Some(*input));
                        return Some(input.deep_copy());
                    },
                    _ => {},
                }
                j += 1;
            }
            return None;
        }
        i += 1;
    }
    None
}

/// A permission request that a run left open: the message, tool, scope and
/// target of the call.
pub struct PermissionAsk {
    pub message_id: String,
    pub tool: String,
    pub scope: String,
    pub target: String,
}

/// The requests among a run's events, in order: one for each
/// `PermissionRequired` event.
pub open spec fn permission_asks(events: Seq<EventView>) -> Seq<(Seq<char>, Seq<char>, Seq<char>, Seq<char>)>
    decreases events.len(),
{
    if events.len() == 0 {
        seq![]
    } else {
        let rest = permission_asks(events.drop_last());
        match events.last() {
            EventView::PermissionRequired(_, m, t, s, g) => rest.push((m, t, s, g)),
            _ => rest,
        }
    }
}

/// The permission requests of a run's events, in order.
pub fn permission_requests(events: &Vec<SessionEvent>) -> (r: Vec<PermissionAsk>)
    ensures
        r@.map_values(|a: PermissionAsk| (a.message_id@, a.tool@, a.scope@, a.target@))
            == permission_asks(events@.map_values(|e: SessionEvent| e@)),
{
    let ghost ev = events@.map_values(|e: SessionEvent| e@);
    let mut out: Vec<PermissionAsk> = Vec::new();
    let mut i: usize = 0;
    assert(ev.take(0) =~= seq![]);
    while i < events.len()
        invariant
            i <= events@.len(),
            ev == events@.map_values(|e: SessionEvent| e@),
            out@.map_values(|a: PermissionAsk| (a.message_id@, a.tool@, a.scope@, a.target@))
                == permission_asks(ev.take(i as int)),
        decreases events.len() - i,
    {
        assert(ev.take(i + 1).drop_last() =~= ev.take(i as int));
        assert(ev.take(i + 1).last() == events@[i as int]@);
        let ghost before = out@;
        match &events[i] {
            SessionEvent::PermissionRequired { message_id, tool, scope, target, .. } => {
                out.push(PermissionAsk {
                    message_id: message_id.clone(),
                    tool: tool.clone(),
                    scope: scope.clone(),
                    target: target.clone(),
                });
                assert(out@.map_values(|a: PermissionAsk| (a.message_id@, a.tool@, a.scope@, a.target@))
                    =~= before.map_values(|a: PermissionAsk| (a.message_id@, a.tool@, a.scope@, a.target@)).push(
                    (message_id@, tool@, scope@, target@),
                ));
            },
            _ => {},
        }
        i += 1;
    }
    assert(ev.take(events@.len() as int) =~= ev);
    out
}

/// A tool call waiting for the user's approval, with a preview of its effect.
pub struct PendingPermission {
    pub message_id: String,
    pub tool: String,
    pub scope: String,
    pub target: String,
    pub input: JsonValue,
    pub preview: String,
}

impl PendingPermission {
    /// The approval of a call: its input (`null` where the call was not found)
    /// and its preview (the target where there is none).
    pub fn new(message_id: String, tool: String, scope: String, target: String, input: Option<JsonValue>, preview: Option<String>) -> (r: Self)
        ensures
            r.message_id == message_id,
            r.tool == tool,
            r.scope == scope,
            r.target == target,
            r.input == match input {
                Some(v) => v,
                None => JsonValue::Null,
            },
            r.preview == match preview {
                Some(p) => p,
                None => target,
            },
    {
        let input = match input {
            Some(v) => v,
            None => JsonValue::Null,
        };
        let preview = match preview {
            Some(p) => p,
            None => target.clone(),
        };
        PendingPermission { message_id, tool, scope, target, input, preview }
    }
}

/// The path a write or edit preview reads: the input's `path` (or
/// `<unknown>`), kept where absolute and otherwise joined onto `cwd`.
pub open spec fn preview_path_ok(r: Seq<char>, cwd: Seq<char>, raw: Seq<char>) -> bool {
    if rooted(raw) {
        r == raw || join_step(r, cwd, raw)
    } else {
        join_step(r, cwd, raw)
    }
}

/// The input's text field, or a default.
pub open spec fn text_or(input: JsonValue, key: Seq<char>, default: Seq<char>) -> Seq<char> {
    match text_field(input, key) {
        Some(t) => t,
        None => default,
    }
}

/// Whether a preview of this call shows a file's change.
pub open spec fn previews_file(tool: Seq<char>, input: JsonValue) -> bool {
    (tool == "write"@ || tool == "edit"@) && input is Object
}

/// The file whose change a call's preview shows, where it shows one.
pub fn preview_file(context: &Context, tool: &str, input: &JsonValue) -> (r: Option<String>)
    ensures
        r is Some <==> previews_file(tool@, *input),
        r matches Some(p) ==> preview_path_ok(p@, context.cwd@, text_or(*input, "path"@, "<unknown>"@)),
{
    let file_tool = str_eq(tool, "write") || str_eq(tool, "edit");
    if !file_tool {
        return None;
    }
    match input {
        JsonValue::Object(_) => {},
        _ => return None,
    }
    let raw = match input.text_field("path") {
        Some(p) => p,
        None => "<unknown>",
    };
    if crate::tools::is_absolute(raw) {
        Some(owned(raw))
    } else {
        Some(path_join(context.cwd.as_str(), raw))
    }
}

/// The text a call's approval shows: for a file change, a diff of the file's
/// `current` text (read by the caller from `file`) against the text after
/// the call; for a shell command, the command; otherwise the target and the
/// input as pretty JSON. An input that is not an object shows as pretty JSON.
pub open spec fn pending_preview(tool: Seq<char>, input: JsonValue, target: Seq<char>, file: Seq<char>, current: Seq<char>) -> Seq<char> {
    if !(input is Object) {
        json_pretty(input)
    } else if tool == "write"@ {
        simple_diff(file, current, text_or(input, "content"@, seq![]))
    } else if tool == "edit"@ {
        let all = match flag_field(input, "replace_all"@) {
            Some(b) => b,
            None => false,
        };
        let next = if all {
            replace_all(current, text_or(input, "old_text"@, seq![]), text_or(input, "new_text"@, seq![]))
        } else {
            replace_first(current, text_or(input, "old_text"@, seq![]), text_or(input, "new_text"@, seq![]))
        };
        simple_diff(file, current, next)
    } else if tool == "bash"@ {
        "bash\n\n"@ + text_or(input, "command"@, seq![])
    } else {
        target + "\n\n"@ + json_pretty(input)
    }
}

fn text_or_empty(input: &JsonValue, key: &str) -> (r: String)
    ensures
        r@ == text_or(*input, key@, seq![]),
{
    match input.text_field(key) {
        Some(t) => owned(t),
        None => String::new(),
    }
}

/// The text a call's approval shows (`pending_preview`).
pub fn render_pending_preview(tool: &str, input: &JsonValue, target: &str, file: &str, current: &str) -> (r: String)
    ensures
        r@ == pending_preview(tool@, *input, target@, file@, current@),
{
    match input {
        JsonValue::Object(_) => {},
        _ => return pretty_json(input),
    }
    if str_eq(tool, "write") {
        let content = text_or_empty(input, "content");
        render_simple_diff(file, current, content.as_str())
    } else if str_eq(tool, "edit") {
        let old_text = text_or_empty(input, "old_text");
        let new_text = text_or_empty(input, "new_text");
        let all = match input.flag_field("replace_all") {
            Some(b) => b,
            None => false,
        };
        let cur = crate::text::chars_of(current);
        let old_chars = crate::text::chars_of(old_text.as_str());
        let new_chars = crate::text::chars_of(new_text.as_str());
        let next = if all {
            crate::text::replace_all_exec(&cur, &old_chars, &new_chars)
        } else {
            crate::text::replace_first_exec(&cur, &old_chars, &new_chars)
        };
        let next_text = crate::text::string_of_range(&next, 0, next.len());
        assert(next@.subrange(0, next@.len() as int) =~= next@);
        render_simple_diff(file, current, next_text.as_str())
    } else if str_eq(tool, "bash") {
        let command = text_or_empty(input, "command");
        concat2("bash\n\n", command.as_str())
    } else {
        let rendered = pretty_json(input);
        concat3(target, "\n\n", rendered.as_str())
    }
}

} // verus!
