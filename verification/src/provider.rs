//! Provider requests and responses, the built-in local providers, and the
//! OpenAI-compatible wire format.
use vstd::prelude::*;

use crate::config::{ProviderConfig, ProviderKind, WorkspaceConfig};
use crate::context::Context;
use crate::json::{field, text_field, JsonValue};
use crate::message::{clone_opt, Message, Role};
use crate::strmap::StrMap;
use crate::tool::ToolSpec;
use crate::text::{concat2, concat3, owned, str_eq, trim_end_char, trim_trailing};

verus! {

#[derive(Clone)]
pub struct ModelInfo {
    pub id: String,
    pub label: String,
    pub supports_tools: bool,
}

impl ModelInfo {
    /// A model that supports tools.
    pub fn new(id: &str, label: &str) -> (m: Self)
        ensures
            m.id@ == id@,
            m.label@ == label@,
            m.supports_tools,
    {
        ModelInfo { id: owned(id), label: owned(label), supports_tools: true }
    }
}

/// The provider and model a run talks to.
pub struct ProviderSelection {
    pub provider_id: String,
    pub model_id: String,
}

impl Clone for ProviderSelection {
    fn clone(&self) -> (r: Self)
        ensures
            r == *self,
    {
        ProviderSelection { provider_id: self.provider_id.clone(), model_id: self.model_id.clone() }
    }
}

impl ProviderSelection {
    pub fn new(provider_id: &str, model_id: &str) -> (s: Self)
        ensures
            s.provider_id@ == provider_id@,
            s.model_id@ == model_id@,
    {
        ProviderSelection { provider_id: owned(provider_id), model_id: owned(model_id) }
    }
}

#[derive(Clone)]
pub struct ProviderCatalogEntry {
    pub id: String,
    pub label: String,
    pub models: Vec<ModelInfo>,
}

/// A tool call that a provider asks for.
pub struct ToolCall {
    pub name: String,
    pub input: JsonValue,
}

impl ToolCall {
    pub fn new(name: &str, input: JsonValue) -> (c: Self)
        ensures
            c.name@ == name@,
            c.input == input,
    {
        ToolCall { name: owned(name), input }
    }
}

/// What a provider is asked: the run's context and selection, the
/// conversation so far, and the tools it may call.
pub struct ProviderRequest {
    pub context: Context,
    pub selection: ProviderSelection,
    pub messages: Vec<Message>,
    pub tools: Vec<ToolSpec>,
}

/// A provider's answer: text, and the tool calls it asks for.
pub struct ProviderResponse {
    pub content: String,
    pub tool_calls: Vec<ToolCall>,
}

impl ProviderResponse {
    /// An answer that asks for no tool.
    pub fn final_message(content: &str) -> (r: Self)
        ensures
            r.content@ == content@,
            r.tool_calls@.len() == 0,
    {
        ProviderResponse { content: owned(content), tool_calls: Vec::new() }
    }

    /// An answer with tool calls.
    pub fn with_tool_calls(content: &str, tool_calls: Vec<ToolCall>) -> (r: Self)
        ensures
            r.content@ == content@,
            r.tool_calls == tool_calls,
    {
        ProviderResponse { content: owned(content), tool_calls }
    }
}

/// Why a provider gave no answer.
pub enum ProviderError {
    UnknownBackend(String),
    Exhausted,
    MissingApiBase(String),
    MissingApiKeyEnv(String),
    MissingApiKey(String, String),
    NoContent,
}

impl ProviderError {
    pub fn message(&self) -> (r: String)
        ensures
            r@ == match self {
                ProviderError::UnknownBackend(id) => "unknown provider backend: "@ + id@,
                ProviderError::Exhausted => "scripted provider exhausted"@,
                ProviderError::MissingApiBase(id) => "provider "@ + id@ + " is missing api_base"@,
                ProviderError::MissingApiKeyEnv(id) => "provider "@ + id@ + " is missing api_key_env"@,
                ProviderError::MissingApiKey(var, id) => "environment variable "@ + var@ + " is required for provider "@ + id@,
                ProviderError::NoContent => "openai-compatible response did not include assistant content"@,
            },
    {
        match self {
            ProviderError::UnknownBackend(id) => concat2("unknown provider backend: ", id.as_str()),
            ProviderError::Exhausted => owned("scripted provider exhausted"),
            ProviderError::MissingApiBase(id) => concat3("provider ", id.as_str(), " is missing api_base"),
            ProviderError::MissingApiKeyEnv(id) => concat3("provider ", id.as_str(), " is missing api_key_env"),
            ProviderError::MissingApiKey(var, id) => {
                let head = concat3("environment variable ", var.as_str(), " is required for provider ");
                concat2(head.as_str(), id.as_str())
            },
            ProviderError::NoContent => owned("openai-compatible response did not include assistant content"),
        }
    }
}

/// The content of the last user message, or nothing where there is none.
pub open spec fn last_user_content(msgs: Seq<Message>) -> Seq<char>
    decreases msgs.len(),
{
    if msgs.len() == 0 {
        seq![]
    } else if msgs.last().role == Role::User {
        msgs.last().content@
    } else {
        last_user_content(msgs.drop_last())
    }
}

/// What the local provider answers: `Planner: ` for the `planner` model,
/// `Echo: ` for any other, then the last user message.
pub open spec fn echo_reply(model: Seq<char>, msgs: Seq<Message>) -> Seq<char> {
    (if model == "planner"@ {
        "Planner"@
    } else {
        "Echo"@
    }) + ": "@ + last_user_content(msgs)
}

/// The local provider: it echoes the prompt.
pub struct EchoProvider;

impl EchoProvider {
    pub fn name(&self) -> (r: &'static str)
        ensures
            r@ == "local"@,
    {
        "local"
    }

    /// A final answer echoing the last user message.
    pub fn complete(&self, request: &ProviderRequest) -> (r: ProviderResponse)
        ensures
            r.content@ == echo_reply(request.selection.model_id@, request.messages@),
            r.tool_calls@.len() == 0,
    {
        let msgs = &request.messages;
        let mut i: usize = msgs.len();
        assert(msgs@.take(i as int) =~= msgs@);
        while i > 0 && msgs[i - 1].role != Role::User
            invariant
                i <= msgs@.len(),
                last_user_content(msgs@) == last_user_content(msgs@.take(i as int)),
            decreases i,
        {
            assert(msgs@.take(i as int).drop_last() =~= msgs@.take(i - 1));
            i -= 1;
        }
        let prompt = if i > 0 {
            msgs[i - 1].content.clone()
        } else {
            String::new()
        };
        let prefix = if str_eq(request.selection.model_id.as_str(), "planner") { "Planner" } else { "Echo" };
        let content = concat3(prefix, ": ", prompt.as_str());
        ProviderResponse::final_message(content.as_str())
    }
}

/// A provider that hands out prepared answers in order.
pub struct ScriptedProvider {
    pub responses: Vec<ProviderResponse>,
}

impl ScriptedProvider {
    pub fn new(responses: Vec<ProviderResponse>) -> (p: Self)
        ensures
            p.responses == responses,
    {
        ScriptedProvider { responses }
    }

    pub fn name(&self) -> (r: &'static str)
        ensures
            r@ == "scripted"@,
    {
        "scripted"
    }

    /// The next prepared answer, which is then used up; an error once they
    /// are all used.
    pub fn complete(&mut self) -> (r: Result<ProviderResponse, ProviderError>)
        ensures
            old(self).responses@.len() == 0 ==> (r matches Err(ProviderError::Exhausted) && final(self).responses@ == old(
                self,
            ).responses@),
            old(self).responses@.len() > 0 ==> (r matches Ok(x) && x == old(self).responses@[0]
                && final(self).responses@ == old(self).responses@.drop_first()),
    {
        if self.responses.len() == 0 {
            Err(ProviderError::Exhausted)
        } else {
            let first = self.responses.remove(0);
            assert(self.responses@ =~= old(self).responses@.drop_first());
            Ok(first)
        }
    }
}

/// The role's name on the wire.
pub open spec fn openai_role_name(r: Role) -> Seq<char> {
    match r {
        Role::System => "system"@,
        Role::User => "user"@,
        Role::Assistant => "assistant"@,
        Role::Tool => "tool"@,
    }
}

/// The role's name on the wire.
pub fn openai_role(role: &Role) -> (r: &'static str)
    ensures
        r@ == openai_role_name(*role),
{
    match role {
        Role::System => "system",
        Role::User => "user",
        Role::Assistant => "assistant",
        Role::Tool => "tool",
    }
}

/// A message on the wire: an object of `content` and `role`, its keys in
/// order.
pub open spec fn is_message_payload(v: JsonValue, m: Message) -> bool {
    match v {
        JsonValue::Object(f) => {
            &&& f@.len() == 2
            &&& f@[0].0@ == "content"@
            &&& f@[0].1 == JsonValue::String(m.content)
            &&& f@[1].0@ == "role"@
            &&& match f@[1].1 {
                JsonValue::String(role) => role@ == openai_role_name(m.role),
                _ => false,
            }
        },
        _ => false,
    }
}

/// The request body of a chat completion: an object of `messages` and
/// `model`, its keys in order.
pub open spec fn is_chat_payload(v: JsonValue, model: Seq<char>, msgs: Seq<Message>) -> bool {
    match v {
        JsonValue::Object(f) => {
            &&& f@.len() == 2
            &&& f@[0].0@ == "messages"@
            &&& f@[1].0@ == "model"@
            &&& match f@[1].1 {
                JsonValue::String(m) => m@ == model,
                _ => false,
            }
            &&& match f@[0].1 {
                JsonValue::Array(items) => items@.len() == msgs.len() && forall|i: int|
                    0 <= i < msgs.len() ==> is_message_payload(#[trigger] items@[i], msgs[i]),
                _ => false,
            }
        },
        _ => false,
    }
}

fn message_payload(m: &Message) -> (v: JsonValue)
    ensures
        is_message_payload(v, *m),
{
    let mut f: Vec<(String, JsonValue)> = Vec::new();
    f.push((owned("content"), JsonValue::String(m.content.clone())));
    f.push((owned("role"), JsonValue::String(owned(openai_role(&m.role)))));
    JsonValue::Object(f)
}

/// The body of a chat completion request for `request`: its model and its
/// messages, each with its role's wire name and its content.
pub fn build_openai_payload(request: &ProviderRequest) -> (v: JsonValue)
    ensures
        is_chat_payload(v, request.selection.model_id@, request.messages@),
        text_field(v, "model"@) == Some(request.selection.model_id@),
{
    let mut items: Vec<JsonValue> = Vec::new();
    let mut i: usize = 0;
    while i < request.messages.len()
        invariant
            i <= request.messages@.len(),
            items@.len() == i,
            forall|j: int| 0 <= j < i ==> is_message_payload(#[trigger] items@[j], request.messages@[j]),
        decreases request.messages.len() - i,
    {
        items.push(message_payload(&request.messages[i]));
        i += 1;
    }
    let mut f: Vec<(String, JsonValue)> = Vec::new();
    f.push((owned("messages"), JsonValue::Array(items)));
    f.push((owned("model"), JsonValue::String(request.selection.model_id.clone())));
    let v = JsonValue::Object(f);
    proof {
        reveal_strlit("messages");
        reveal_strlit("model");
        assert(f@[0].0@ == "messages"@);
        assert("messages"@.len() != "model"@.len());
        assert(f@[0].0@ != "model"@);
        assert(f@.drop_first()[0] == f@[1]);
        assert(crate::json::lookup(f@.drop_first(), "model"@) == Some(f@[1].1));
        assert(crate::json::lookup(f@, "model"@) == Some(f@[1].1));
    }
    v
}

/// The reply message of a chat completion.
pub struct OpenAiMessage {
    pub content: Option<String>,
}

/// One choice of a chat completion.
pub struct OpenAiChoice {
    pub message: OpenAiMessage,
}

/// The body of a chat completion reply.
pub struct OpenAiChatCompletionResponse {
    pub choices: Vec<OpenAiChoice>,
}

/// The answer in a chat completion reply: the first choice's content; an
/// error where there is no choice or it has no content.
pub fn parse_openai_response(body: OpenAiChatCompletionResponse) -> (r: Result<ProviderResponse, ProviderError>)
    ensures
        match r {
            Ok(x) => body.choices@.len() > 0 && (body.choices@[0].message.content matches Some(c) && x.content@ == c@)
                && x.tool_calls@.len() == 0,
            Err(e) => e is NoContent && (body.choices@.len() == 0 || body.choices@[0].message.content is None),
        },
{
    if body.choices.len() == 0 {
        return Err(ProviderError::NoContent);
    }
    match &body.choices[0].message.content {
        Some(c) => Ok(ProviderResponse::final_message(c.as_str())),
        None => Err(ProviderError::NoContent),
    }
}

/// A provider that speaks the OpenAI chat completions protocol.
pub struct OpenAiCompatibleProvider {
    pub config: ProviderConfig,
}

impl OpenAiCompatibleProvider {
    pub fn from_config(config: ProviderConfig) -> (p: Self)
        ensures
            p.config == config,
    {
        OpenAiCompatibleProvider { config }
    }

    pub fn name(&self) -> (r: &'static str)
        ensures
            r@ == "openai-compatible"@,
    {
        "openai-compatible"
    }

    /// The configured API base; an error where there is none.
    pub fn api_base(&self) -> (r: Result<&str, ProviderError>)
        ensures
            match (r, self.config.api_base) {
                (Ok(b), Some(base)) => b@ == base@,
                (Err(ProviderError::MissingApiBase(id)), None) => id@ == self.config.id@,
                _ => false,
            },
    {
        match &self.config.api_base {
            Some(b) => Ok(b.as_str()),
            None => Err(ProviderError::MissingApiBase(self.config.id.clone())),
        }
    }

    /// The environment variable that holds the API key; an error where none
    /// is configured.
    pub fn api_key_env(&self) -> (r: Result<&str, ProviderError>)
        ensures
            match (r, self.config.api_key_env) {
                (Ok(n), Some(name)) => n@ == name@,
                (Err(ProviderError::MissingApiKeyEnv(id)), None) => id@ == self.config.id@,
                _ => false,
            },
    {
        match &self.config.api_key_env {
            Some(n) => Ok(n.as_str()),
            None => Err(ProviderError::MissingApiKeyEnv(self.config.id.clone())),
        }
    }

    /// The API key, given the value that the variable `api_key_env` names
    /// holds (`None` where it is unset); an error where either is missing.
    pub fn api_key(&self, env_value: Option<String>) -> (r: Result<String, ProviderError>)
        ensures
            match self.config.api_key_env {
                None => r matches Err(ProviderError::MissingApiKeyEnv(id)) && id@ == self.config.id@,
                Some(name) => match env_value {
                    Some(v) => r == Ok::<String, ProviderError>(v),
                    None => r matches Err(ProviderError::MissingApiKey(var, id)) && var@ == name@ && id@ == self.config.id@,
                },
            },
    {
        let name = match self.api_key_env() {
            Ok(n) => n,
            Err(e) => return Err(e),
        };
        match env_value {
            Some(v) => Ok(v),
            None => Err(ProviderError::MissingApiKey(owned(name), self.config.id.clone())),
        }
    }

    /// The chat completions endpoint: the API base without trailing slashes,
    /// then `/chat/completions`.
    pub fn chat_url(&self) -> (r: Result<String, ProviderError>)
        ensures
            match (r, self.config.api_base) {
                (Ok(u), Some(base)) => u@ == trim_trailing(base@, '/') + "/chat/completions"@,
                (Err(ProviderError::MissingApiBase(id)), None) => id@ == self.config.id@,
                _ => false,
            },
    {
        let base = match self.api_base() {
            Ok(b) => b,
            Err(e) => return Err(e),
        };
        let trimmed = trim_end_char(base, '/');
        Ok(concat2(trimmed.as_str(), "/chat/completions"))
    }
}

/// A provider the router hands requests to.
pub enum Backend {
    Echo(EchoProvider),
    OpenAiCompatible(OpenAiCompatibleProvider),
}

/// A provider that hands each request to the backend of its selected
/// provider.
pub struct RouterProvider {
    pub backends: StrMap<Backend>,
}

impl RouterProvider {
    pub fn new() -> (r: Self)
        ensures
            r.backends.wf(),
            forall|k: Seq<char>| !#[trigger] r.backends.has_key(k),
    {
        RouterProvider { backends: StrMap::new() }
    }

    pub fn name(&self) -> (r: &'static str)
        ensures
            r@ == "router"@,
    {
        "router"
    }

    /// The router with `provider` as the backend of `provider_id`.
    pub fn with_provider(self, provider_id: String, provider: Backend) -> (r: Self)
        requires
            self.backends.wf(),
        ensures
            r.backends.wf(),
            r.backends.get_spec(provider_id@) == Some(provider),
            forall|k: Seq<char>| k != provider_id@ ==> #[trigger] r.backends.get_spec(k) == self.backends.get_spec(k),
            forall|k: Seq<char>| #[trigger] r.backends.has_key(k) <==> (self.backends.has_key(k) || k == provider_id@),
    {
        let mut backends = self.backends;
        backends.insert(provider_id, provider);
        RouterProvider { backends }
    }

    /// A backend for each configured provider: the local one for a local
    /// provider, an OpenAI-compatible one with the provider's settings for a
    /// remote one.
    pub fn from_config(config: &WorkspaceConfig) -> (r: Self)
        requires
            config.providers.wf(),
        ensures
            r.backends.wf(),
            forall|k: Seq<char>| #[trigger] r.backends.has_key(k) <==> config.providers.has_key(k),
            forall|k: Seq<char>|
                config.providers.has_key(k) ==> match (#[trigger] r.backends.get_spec(k), config.providers.get_spec(k)) {
                    (Some(Backend::Echo(_)), Some(p)) => p.kind == ProviderKind::LocalEcho,
                    (Some(Backend::OpenAiCompatible(o)), Some(p)) => p.kind == ProviderKind::RemoteOpenAiCompatible
                        && o.config.id == p.id && o.config.api_base == p.api_base
                        && o.config.api_key_env == p.api_key_env,
                    _ => false,
                },
    {
        let mut router = RouterProvider::new();
        let mut i: usize = 0;
        while i < config.providers.entries.len()
            invariant
                i <= config.providers.entries@.len(),
                config.providers.wf(),
                router.backends.wf(),
                forall|k: Seq<char>|
                    #[trigger] router.backends.has_key(k) <==> exists|j: int| 0 <= j < i && config.providers.key(j) == k,
                forall|j: int|
                    0 <= j < i ==> match (#[trigger] router.backends.get_spec(config.providers.key(j)), config.providers.value(j)) {
                        (Some(Backend::Echo(_)), p) => p.kind == ProviderKind::LocalEcho,
                        (Some(Backend::OpenAiCompatible(o)), p) => p.kind == ProviderKind::RemoteOpenAiCompatible
                            && o.config.id == p.id && o.config.api_base == p.api_base
                            && o.config.api_key_env == p.api_key_env,
                        _ => false,
                    },
            decreases config.providers.entries.len() - i,
        {
            let p = &config.providers.entries[i].1;
            let backend = match p.kind {
                ProviderKind::LocalEcho => Backend::Echo(EchoProvider),
                ProviderKind::RemoteOpenAiCompatible => Backend::OpenAiCompatible(
                    OpenAiCompatibleProvider::from_config(ProviderConfig {
                        id: p.id.clone(),
                        label: p.label.clone(),
                        kind: ProviderKind::RemoteOpenAiCompatible,
                        api_base: clone_opt(&p.api_base),
                        api_key_env: clone_opt(&p.api_key_env),
                        api_key: clone_opt(&p.api_key),
                        default_model: clone_opt(&p.default_model),
                        models: p.models.clone(),
                    }),
                ),
            };
            let ghost before = router.backends;
            router = router.with_provider(config.providers.entries[i].0.clone(), backend);
            proof {
                assert forall|j: int| 0 <= j < i + 1 implies match (#[trigger] router.backends.get_spec(config.providers.key(j)), config.providers.value(j)) {
                        (Some(Backend::Echo(_)), p) => p.kind == ProviderKind::LocalEcho,
                        (Some(Backend::OpenAiCompatible(o)), p) => p.kind == ProviderKind::RemoteOpenAiCompatible
                            && o.config.id == p.id && o.config.api_base == p.api_base
                            && o.config.api_key_env == p.api_key_env,
                        _ => false,
                    } by {
                    if j < i {
                        if config.providers.key(j) == config.providers.key(i as int) {
                            config.providers.lemma_unique(j, i as int);
                        }
                    }
                }
                assert forall|k: Seq<char>|
                    #[trigger] router.backends.has_key(k) <==> exists|j: int| 0 <= j < i + 1 && config.providers.key(j) == k by {
                    if router.backends.has_key(k) && k != config.providers.key(i as int) {
                        assert(before.has_key(k));
                    }
                    if exists|j: int| 0 <= j < i + 1 && config.providers.key(j) == k {
                        let j = choose|j: int| 0 <= j < i + 1 && config.providers.key(j) == k;
                        if j < i {
                            assert(before.has_key(k));
                        }
                    }
                }
            }
            i += 1;
        }
        proof {
            assert forall|k: Seq<char>| config.providers.has_key(k) implies match (#[trigger] router.backends.get_spec(k), config.providers.get_spec(k)) {
                    (Some(Backend::Echo(_)), Some(p)) => p.kind == ProviderKind::LocalEcho,
                    (Some(Backend::OpenAiCompatible(o)), Some(p)) => p.kind == ProviderKind::RemoteOpenAiCompatible
                        && o.config.id == p.id && o.config.api_base == p.api_base
                        && o.config.api_key_env == p.api_key_env,
                    _ => false,
                } by {
                let j = config.providers.index_of(k);
                config.providers.lemma_get_at(j);
            }
        }
        router
    }


    /// The backend of the request's selected provider; an error where there
    /// is none.
    pub fn backend_for(&self, provider_id: &str) -> (r: Result<&Backend, ProviderError>)
        requires
            self.backends.wf(),
        ensures
            match r {
                Ok(b) => self.backends.get_spec(provider_id@) == Some(*b),
                Err(e) => !self.backends.has_key(provider_id@) && (e matches ProviderError::UnknownBackend(id) && id@
                    == provider_id@),
            },
    {
        match self.backends.get(provider_id) {
            Some(b) => Ok(b),
            None => Err(ProviderError::UnknownBackend(owned(provider_id))),
        }
    }
}

impl Default for RouterProvider {
    /// The router with the local provider as the backend of `local`.
    fn default() -> (r: Self)
        ensures
            r.backends.wf(),
            r.backends.get_spec("local"@) matches Some(Backend::Echo(_)),
            forall|k: Seq<char>| #[trigger] r.backends.has_key(k) <==> k == "local"@,
    {
        RouterProvider::new().with_provider(owned("local"), Backend::Echo(EchoProvider))
    }
}

impl Default for ScriptedProvider {
    /// A provider with no prepared answer.
    fn default() -> (p: Self)
        ensures
            p.responses@.len() == 0,
    {
        ScriptedProvider::new(Vec::new())
    }
}

} // verus!
