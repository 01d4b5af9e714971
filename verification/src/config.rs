//! The workspace configuration: providers, their models, agents, and how a
//! run's provider and model are chosen.
use vstd::prelude::*;

use crate::agent::{is_build_agent, is_plan_agent, Agent};
use crate::provider::ProviderSelection;
use crate::strmap::StrMap;
use crate::text::{concat2, concat3, owned, seq_lt, split_once, split_once_char};

verus! {

#[derive(Clone, Copy, PartialEq, Eq, Structural)]
pub enum ProviderKind {
    LocalEcho,
    RemoteOpenAiCompatible,
}

#[derive(Clone)]
pub struct ModelConfig {
    pub id: String,
    pub label: String,
    pub supports_tools: bool,
}

impl ModelConfig {
    /// A model that supports tools.
    pub fn new(id: &str, label: &str) -> (m: Self)
        ensures
            m.id@ == id@,
            m.label@ == label@,
            m.supports_tools,
    {
        ModelConfig { id: owned(id), label: owned(label), supports_tools: true }
    }
}

#[derive(Clone)]
pub struct ProviderConfig {
    pub id: String,
    pub label: String,
    pub kind: ProviderKind,
    pub api_base: Option<String>,
    pub api_key_env: Option<String>,
    /// A key stored by the desktop settings; the desktop counts a provider
    /// that holds one as signed in.
    pub api_key: Option<String>,
    pub default_model: Option<String>,
    pub models: StrMap<ModelConfig>,
}

impl ProviderConfig {
    /// A local provider with no models and no remote settings.
    pub fn new(id: &str, label: &str) -> (p: Self)
        ensures
            p.id@ == id@,
            p.label@ == label@,
            p.kind == ProviderKind::LocalEcho,
            p.api_base is None,
            p.api_key_env is None,
            p.api_key is None,
            p.default_model is None,
            p.models.wf(),
            p.models.size() == 0,
            forall|k: Seq<char>| !p.models.has_key(k),
    {
        ProviderConfig {
            id: owned(id),
            label: owned(label),
            kind: ProviderKind::LocalEcho,
            api_base: None,
            api_key_env: None,
            api_key: None,
            default_model: None,
            models: StrMap::new(),
        }
    }

    /// Whether the provider exposes a model with this id.
    pub fn has_model(&self, model_id: &str) -> (r: bool)
        requires
            self.models.wf(),
        ensures
            r == self.models.has_key(model_id@),
    {
        self.models.contains_key(model_id)
    }
}

pub struct WorkspaceConfig {
    pub app_name: String,
    pub default_agent: String,
    pub desktop_targets: Vec<String>,
    pub providers: StrMap<ProviderConfig>,
    pub agents: StrMap<Agent>,
}

/// Why no provider and model could be chosen.
pub enum ConfigError {
    UnknownProvider(String),
    ModelNotExposed(String, String),
    NoDefaultModel(String),
    NoProviderForModel(String),
    DefaultProviderWithoutModel(String),
}

impl ConfigError {
    /// The error's text.
    pub fn message(&self) -> (r: String)
        ensures
            r@ == error_text(*self),
    {
        match self {
            ConfigError::UnknownProvider(p) => concat2("unknown provider: ", p.as_str()),
            ConfigError::ModelNotExposed(p, m) => {
                let mut r = concat3("provider ", p.as_str(), " does not expose model ");
                r.append(m.as_str());
                r
            },
            ConfigError::NoDefaultModel(p) => concat3("provider ", p.as_str(), " does not define a default model"),
            ConfigError::NoProviderForModel(m) => concat2("no provider exposes model ", m.as_str()),
            ConfigError::DefaultProviderWithoutModel(p) => concat3(
                "default provider ",
                p.as_str(),
                " is missing a default model",
            ),
        }
    }
}

/// The text of each error.
pub open spec fn error_text(e: ConfigError) -> Seq<char> {
    match e {
        ConfigError::UnknownProvider(p) => "unknown provider: "@ + p@,
        ConfigError::ModelNotExposed(p, m) => "provider "@ + p@ + " does not expose model "@ + m@,
        ConfigError::NoDefaultModel(p) => "provider "@ + p@ + " does not define a default model"@,
        ConfigError::NoProviderForModel(m) => "no provider exposes model "@ + m@,
        ConfigError::DefaultProviderWithoutModel(p) => "default provider "@ + p@
            + " is missing a default model"@,
    }
}

/// The outcome of choosing a provider and model, over the text of names.
pub enum Selection {
    Chosen(Seq<char>, Seq<char>),
    UnknownProvider(Seq<char>),
    ModelNotExposed(Seq<char>, Seq<char>),
    NoDefaultModel(Seq<char>),
    NoProviderForModel(Seq<char>),
    DefaultProviderWithoutModel(Seq<char>),
}

/// The outcome that a result stands for.
pub open spec fn selection_of(r: Result<ProviderSelection, ConfigError>) -> Selection {
    match r {
        Ok(s) => Selection::Chosen(s.provider_id@, s.model_id@),
        Err(ConfigError::UnknownProvider(p)) => Selection::UnknownProvider(p@),
        Err(ConfigError::ModelNotExposed(p, m)) => Selection::ModelNotExposed(p@, m@),
        Err(ConfigError::NoDefaultModel(p)) => Selection::NoDefaultModel(p@),
        Err(ConfigError::NoProviderForModel(m)) => Selection::NoProviderForModel(m@),
        Err(ConfigError::DefaultProviderWithoutModel(p)) => Selection::DefaultProviderWithoutModel(p@),
    }
}

/// The first provider at or after position `i`, in id order, that exposes `model`.
pub open spec fn first_provider_with(providers: StrMap<ProviderConfig>, model: Seq<char>, i: int) -> Option<int>
    decreases providers.size() - i,
{
    if i < 0 || i >= providers.size() {
        None
    } else if providers.value(i).models.has_key(model) {
        Some(i)
    } else {
        first_provider_with(providers, model, i + 1)
    }
}

/// The provider `p` with the model `m`, checked to exist.
pub open spec fn checked_pair(providers: StrMap<ProviderConfig>, p: Seq<char>, m: Seq<char>) -> Selection {
    if !providers.has_key(p) {
        Selection::UnknownProvider(p)
    } else if !providers.get_spec(p)->0.models.has_key(m) {
        Selection::ModelNotExposed(p, m)
    } else {
        Selection::Chosen(p, m)
    }
}

impl WorkspaceConfig {
    /// Maps are well formed, and so are the maps that providers and agents hold.
    pub open spec fn wf(&self) -> bool {
        &&& self.providers.wf()
        &&& self.agents.wf()
        &&& forall|i: int| 0 <= i < self.providers.size() ==> (#[trigger] self.providers.value(i)).models.wf()
        &&& forall|i: int| 0 <= i < self.agents.size() ==> (#[trigger] self.agents.value(i)).tools.wf()
    }

    /// The agent that a run uses by default: the one named `default_agent`, or
    /// else the first agent by name.
    pub open spec fn default_agent_spec(&self) -> Agent {
        match self.agents.get_spec(self.default_agent@) {
            Some(a) => a,
            None => self.agents.value(0),
        }
    }

    /// How the provider and model of a run are chosen, given the agent's model
    /// reference and the overrides: both overrides name a pair that must exist;
    /// a provider override alone takes that provider's default model; a model
    /// override alone takes the first provider, by id, that exposes it; then
    /// the agent's `provider/model` reference; else the first provider by id
    /// with its default model.
    pub open spec fn resolve_spec(
        &self,
        agent_model: Option<Seq<char>>,
        provider_override: Option<Seq<char>>,
        model_override: Option<Seq<char>>,
    ) -> Selection {
        let agent_selection = match agent_model {
            Some(m) => split_once(m, '/'),
            None => None,
        };
        if provider_override is Some && model_override is Some {
            checked_pair(self.providers, provider_override->0, model_override->0)
        } else if provider_override is Some {
            let p = provider_override->0;
            if !self.providers.has_key(p) {
                Selection::UnknownProvider(p)
            } else {
                match self.providers.get_spec(p)->0.default_model {
                    None => Selection::NoDefaultModel(p),
                    Some(d) => checked_pair(self.providers, p, d@),
                }
            }
        } else if model_override is Some {
            let m = model_override->0;
            match first_provider_with(self.providers, m, 0) {
                Some(i) => Selection::Chosen(self.providers.value(i).id@, m),
                None => Selection::NoProviderForModel(m),
            }
        } else if let Some((p, m)) = agent_selection {
            checked_pair(self.providers, p, m)
        } else {
            let d = self.providers.value(0);
            match d.default_model {
                None => Selection::DefaultProviderWithoutModel(d.id@),
                Some(m) => Selection::Chosen(d.id@, m@),
            }
        }
    }

    /// The agent named `name`.
    pub fn agent(&self, name: &str) -> (r: Option<&Agent>)
        requires
            self.wf(),
        ensures
            r is Some <==> self.agents.has_key(name@),
            r matches Some(a) ==> self.agents.get_spec(name@) == Some(*a),
    {
        self.agents.get(name)
    }

    /// The provider with id `name`.
    pub fn provider(&self, name: &str) -> (r: Option<&ProviderConfig>)
        requires
            self.wf(),
        ensures
            r is Some <==> self.providers.has_key(name@),
            r matches Some(p) ==> self.providers.get_spec(name@) == Some(*p),
    {
        self.providers.get(name)
    }

    /// The first provider by id.
    pub fn default_provider(&self) -> (r: &ProviderConfig)
        requires
            self.providers.size() > 0,
        ensures
            *r == self.providers.value(0),
    {
        &self.providers.entries[0].1
    }

    /// The agent named `default_agent`, or else the first agent by name.
    pub fn default_agent(&self) -> (r: &Agent)
        requires
            self.wf(),
            self.agents.size() > 0,
        ensures
            *r == self.default_agent_spec(),
    {
        match self.agents.get(self.default_agent.as_str()) {
            Some(a) => a,
            None => &self.agents.entries[0].1,
        }
    }

    /// Checks that provider `p` exists and exposes model `m`.
    fn checked_selection(&self, p: &str, m: &str) -> (r: Result<ProviderSelection, ConfigError>)
        requires
            self.wf(),
        ensures
            selection_of(r) == checked_pair(self.providers, p@, m@),
    {
        match self.provider(p) {
            None => Err(ConfigError::UnknownProvider(owned(p))),
            Some(provider) => {
                proof {
                    let i = self.providers.index_of(p@);
                    assert(self.providers.value(i).models.wf());
                }
                if !provider.has_model(m) {
                    Err(ConfigError::ModelNotExposed(owned(p), owned(m)))
                } else {
                    Ok(ProviderSelection::new(p, m))
                }
            },
        }
    }

    /// Chooses the provider and model of a run for `agent`, with optional
    /// overrides, as `resolve_spec` states.
    pub fn resolve_provider_selection(
        &self,
        agent: &Agent,
        provider_override: Option<&str>,
        model_override: Option<&str>,
    ) -> (r: Result<ProviderSelection, ConfigError>)
        requires
            self.wf(),
            provider_override is None && model_override is None && (match agent.model {
                Some(m) => split_once(m@, '/') is None,
                None => true,
            }) ==> self.providers.size() > 0,
        ensures
            selection_of(r) == self.resolve_spec(
                match agent.model {
                    Some(m) => Some(m@),
                    None => None,
                },
                match provider_override {
                    Some(p) => Some(p@),
                    None => None,
                },
                match model_override {
                    Some(m) => Some(m@),
                    None => None,
                },
            ),
    {
        let agent_selection = match &agent.model {
            Some(m) => split_once_char(m.as_str(), '/'),
            None => None,
        };
        match (provider_override, model_override) {
            (Some(p), Some(m)) => {
                return self.checked_selection(p, m);
            },
            (Some(p), None) => {
                return match self.provider(p) {
                    None => Err(ConfigError::UnknownProvider(owned(p))),
                    Some(provider) => match &provider.default_model {
                        None => Err(ConfigError::NoDefaultModel(owned(p))),
                        Some(d) => self.checked_selection(p, d.as_str()),
                    },
                };
            },
            (None, Some(m)) => {
                let mut i: usize = 0;
                while i < self.providers.entries.len()
                    invariant
                        self.wf(),
                        provider_override is None,
                        model_override == Some(m),
                        i <= self.providers.size(),
                        first_provider_with(self.providers, m@, 0) == first_provider_with(
                            self.providers,
                            m@,
                            i as int,
                        ),
                    decreases self.providers.size() - i,
                {
                    let provider = &self.providers.entries[i].1;
                    assert(self.providers.value(i as int).models.wf());
                    if provider.has_model(m) {
                        assert(first_provider_with(self.providers, m@, i as int) == Some(i as int));
                        return Ok(ProviderSelection::new(provider.id.as_str(), m));
                    }
                    i += 1;
                }
                return Err(ConfigError::NoProviderForModel(owned(m)));
            },
            (None, None) => {},
        }
        match agent_selection {
            Some((p, m)) => self.checked_selection(p.as_str(), m.as_str()),
            None => {
                let provider = self.default_provider();
                match &provider.default_model {
                    None => Err(ConfigError::DefaultProviderWithoutModel(owned(provider.id.as_str()))),
                    Some(m) => Ok(ProviderSelection::new(provider.id.as_str(), m.as_str())),
                }
            },
        }
    }
}

/// Whether a choice falls back to the first provider and its default model:
/// no override and no `provider/model` reference on the agent.
pub open spec fn falls_back(agent_model: Option<Seq<char>>, provider_override: Option<Seq<char>>, model_override: Option<Seq<char>>) -> bool {
    &&& provider_override is None
    &&& model_override is None
    &&& match agent_model {
        Some(m) => split_once(m, '/') is None,
        None => true,
    }
}

proof fn lemma_first_provider_with(providers: StrMap<ProviderConfig>, model: Seq<char>, i: int)
    requires
        0 <= i,
    ensures
        first_provider_with(providers, model, i) matches Some(k) ==> i <= k < providers.size()
            && providers.value(k).models.has_key(model),
    decreases providers.size() - i,
{
    if i < providers.size() && !providers.value(i).models.has_key(model) {
        lemma_first_provider_with(providers, model, i + 1);
    }
}

/// A provider and model that are chosen name a configured provider, and,
/// unless the choice fell back to the first provider's default model, one
/// that exposes the model. (The fallback takes the default model unchecked:
/// a first provider whose default model is not among its models is chosen
/// with it. Where the choice falls back, the configuration has a provider,
/// as the fallback needs.)
pub proof fn law_chosen_provider_exposes_model(
    config: WorkspaceConfig,
    agent_model: Option<Seq<char>>,
    provider_override: Option<Seq<char>>,
    model_override: Option<Seq<char>>,
)
    requires
        config.wf(),
        forall|i: int| 0 <= i < config.providers.size() ==> (#[trigger] config.providers.value(i)).id@ == config.providers.key(i),
        falls_back(agent_model, provider_override, model_override) ==> config.providers.size() > 0,
    ensures
        config.resolve_spec(agent_model, provider_override, model_override) matches Selection::Chosen(p, m)
            ==> config.providers.has_key(p),
        config.resolve_spec(agent_model, provider_override, model_override) matches Selection::Chosen(p, m)
            ==> (config.providers.get_spec(p)->0.models.has_key(m)
                || falls_back(agent_model, provider_override, model_override)),
{
    if provider_override is None && model_override is Some {
        let m = model_override->0;
        lemma_first_provider_with(config.providers, m, 0);
        if let Some(i) = first_provider_with(config.providers, m, 0) {
            config.providers.lemma_get_at(i);
            assert(config.providers.value(i).id@ == config.providers.key(i));
        }
    } else if falls_back(agent_model, provider_override, model_override) {
        config.providers.lemma_get_at(0);
        assert(config.providers.value(0).id@ == config.providers.key(0));
    }
}

/// Overrides take precedence over the agent's own `provider/model`
/// reference: a chosen model is the model override where one is given, a
/// chosen provider is the provider override where one is given, and with a
/// model override alone a provider is chosen exactly when some configured
/// provider exposes that model.
pub proof fn law_overrides_take_precedence(
    config: WorkspaceConfig,
    agent_model: Option<Seq<char>>,
    provider_override: Option<Seq<char>>,
    model_override: Option<Seq<char>>,
)
    ensures
        model_override matches Some(m) ==> (config.resolve_spec(agent_model, provider_override, model_override) matches Selection::Chosen(
            _,
            chosen,
        ) ==> chosen == m),
        provider_override matches Some(p) ==> (config.resolve_spec(agent_model, provider_override, model_override) matches Selection::Chosen(
            chosen,
            _,
        ) ==> chosen == p),
        provider_override is None && model_override is Some ==> ((config.resolve_spec(
            agent_model,
            provider_override,
            model_override,
        ) is Chosen) <==> exists|i: int|
            0 <= i < config.providers.size() && (#[trigger] config.providers.value(i)).models.has_key(model_override->0)),
{
    if provider_override is None && model_override is Some {
        let m = model_override->0;
        lemma_first_provider_with(config.providers, m, 0);
        lemma_first_provider_with_complete(config.providers, m, 0);
    }
}

proof fn lemma_first_provider_with_complete(providers: StrMap<ProviderConfig>, model: Seq<char>, i: int)
    requires
        0 <= i,
    ensures
        first_provider_with(providers, model, i) is None ==> forall|j: int|
            i <= j < providers.size() ==> !(#[trigger] providers.value(j)).models.has_key(model),
    decreases providers.size() - i,
{
    if i < providers.size() {
        lemma_first_provider_with_complete(providers, model, i + 1);
    }
}

/// `value.split_once('/')`: a `provider/model` reference split in two.
pub fn parse_model_reference(value: &str) -> (r: Option<(String, String)>)
    ensures
        r is Some <==> split_once(value@, '/') is Some,
        r matches Some((p, m)) ==> split_once(value@, '/') == Some((p@, m@)),
{
    split_once_char(value, '/')
}

/// A model with this id and label that supports tools.
pub open spec fn is_model(m: ModelConfig, id: Seq<char>, label: Seq<char>) -> bool {
    m.id@ == id && m.label@ == label && m.supports_tools
}

/// The built-in local provider: the echo and planner models, echo by default.
pub open spec fn is_local_provider(p: ProviderConfig) -> bool {
    &&& p.id@ == "local"@
    &&& p.label@ == "Local / development provider"@
    &&& p.kind == ProviderKind::LocalEcho
    &&& p.api_base is None
    &&& p.api_key_env is None
    &&& p.api_key is None
    &&& p.default_model matches Some(d) && d@ == "echo"@
    &&& p.models.wf()
    &&& forall|k: Seq<char>| #[trigger] p.models.has_key(k) <==> (k == "echo"@ || k == "planner"@)
    &&& is_model(p.models.get_spec("echo"@)->0, "echo"@, "Echo model for basic plumbing checks"@)
    &&& is_model(p.models.get_spec("planner"@)->0, "planner"@, "Planning-flavored local echo model"@)
}

/// The built-in OpenAI-compatible provider: `gpt-4.1-mini` by default and `gpt-4.1`,
/// its key read from `OPENAI_API_KEY`.
pub open spec fn is_openai_provider(p: ProviderConfig) -> bool {
    &&& p.id@ == "openai"@
    &&& p.label@ == "OpenAI-compatible remote provider"@
    &&& p.kind == ProviderKind::RemoteOpenAiCompatible
    &&& p.api_base matches Some(b) && b@ == "https://api.openai.com/v1"@
    &&& p.api_key_env matches Some(e) && e@ == "OPENAI_API_KEY"@
    &&& p.api_key is None
    &&& p.default_model matches Some(d) && d@ == "gpt-4.1-mini"@
    &&& p.models.wf()
    &&& forall|k: Seq<char>| #[trigger] p.models.has_key(k) <==> (k == "gpt-4.1-mini"@ || k == "gpt-4.1"@)
    &&& is_model(p.models.get_spec("gpt-4.1-mini"@)->0, "gpt-4.1-mini"@, "Fast general coding model"@)
    &&& is_model(p.models.get_spec("gpt-4.1"@)->0, "gpt-4.1"@, "Higher-capability coding model"@)
}

/// The configuration a workspace starts with.
pub open spec fn is_default_config(c: WorkspaceConfig) -> bool {
    &&& c.wf()
    &&& c.app_name@ == "Rovdex"@
    &&& c.default_agent@ == "build"@
    &&& c.desktop_targets@.len() == 3
    &&& c.desktop_targets@[0]@ == "macos"@
    &&& c.desktop_targets@[1]@ == "windows"@
    &&& c.desktop_targets@[2]@ == "linux"@
    &&& c.agents.size() == 2
    &&& forall|k: Seq<char>| #[trigger] c.agents.has_key(k) <==> (k == "build"@ || k == "plan"@)
    &&& is_build_agent(c.agents.get_spec("build"@)->0)
    &&& is_plan_agent(c.agents.get_spec("plan"@)->0)
    &&& c.providers.size() == 2
    &&& c.providers.key(0) == "local"@
    &&& c.providers.key(1) == "openai"@
    &&& is_local_provider(c.providers.value(0))
    &&& is_openai_provider(c.providers.value(1))
}

fn local_provider() -> (p: ProviderConfig)
    ensures
        is_local_provider(p),
{
    let mut p = ProviderConfig::new("local", "Local / development provider");
    p.default_model = Some(owned("echo"));
    p.models.insert(owned("echo"), ModelConfig::new("echo", "Echo model for basic plumbing checks"));
    p.models.insert(owned("planner"), ModelConfig::new("planner", "Planning-flavored local echo model"));
    proof {
        reveal_strlit("echo");
        reveal_strlit("planner");
        assert("echo"@.len() != "planner"@.len());
    }
    p
}

fn openai_provider() -> (p: ProviderConfig)
    ensures
        is_openai_provider(p),
{
    let mut p = ProviderConfig::new("openai", "OpenAI-compatible remote provider");
    p.kind = ProviderKind::RemoteOpenAiCompatible;
    p.api_base = Some(owned("https://api.openai.com/v1"));
    p.api_key_env = Some(owned("OPENAI_API_KEY"));
    p.default_model = Some(owned("gpt-4.1-mini"));
    p.models.insert(owned("gpt-4.1-mini"), ModelConfig::new("gpt-4.1-mini", "Fast general coding model"));
    p.models.insert(owned("gpt-4.1"), ModelConfig::new("gpt-4.1", "Higher-capability coding model"));
    proof {
        reveal_strlit("gpt-4.1-mini");
        reveal_strlit("gpt-4.1");
        assert("gpt-4.1-mini"@.len() != "gpt-4.1"@.len());
    }
    p
}

impl Default for WorkspaceConfig {
    /// The workspace configuration of a fresh install: the build and plan
    /// agents, the local and OpenAI-compatible providers, the build agent by
    /// default.
    fn default() -> (c: Self)
        ensures
            is_default_config(c),
    {
        let mut agents: StrMap<Agent> = StrMap::new();
        agents.insert(owned("build"), Agent::build());
        agents.insert(owned("plan"), Agent::plan());
        let mut providers: StrMap<ProviderConfig> = StrMap::new();
        let local = local_provider();
        let openai = openai_provider();
        providers.insert(owned("local"), local);
        providers.insert(owned("openai"), openai);
        let mut desktop_targets: Vec<String> = Vec::new();
        desktop_targets.push(owned("macos"));
        desktop_targets.push(owned("windows"));
        desktop_targets.push(owned("linux"));
        let c = WorkspaceConfig {
            app_name: owned("Rovdex"),
            default_agent: owned("build"),
            desktop_targets,
            providers,
            agents,
        };
        proof {
            reveal_strlit("local");
            reveal_strlit("openai");
            reveal_strlit("build");
            reveal_strlit("plan");
            assert(seq_lt("local"@, "openai"@));
            assert("local"@ != "openai"@);
            assert("build"@.len() != "plan"@.len());
            assert(c.providers.has_key(c.providers.key(0)));
            assert(c.providers.has_key(c.providers.key(1)));
            assert(seq_lt(c.providers.key(0), c.providers.key(1)));
            if c.providers.key(0) == "openai"@ {
                crate::text::lemma_seq_lt_total("local"@, "openai"@);
            }
            c.providers.lemma_get_at(0);
            c.providers.lemma_get_at(1);
            assert forall|i: int| 0 <= i < c.agents.size() implies (#[trigger] c.agents.value(i)).tools.wf() by {
                c.agents.lemma_get_at(i);
            }
        }
        c
    }
}

} // verus!
