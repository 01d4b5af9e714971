//! Agents: which tools they may use and the permission rules that decide
//! whether a tool call runs, waits for approval, or is refused.
use vstd::prelude::*;

use crate::json::{text_field, JsonValue};
use crate::strmap::StrMap;
use crate::text::{owned, str_eq};

verus! {

#[derive(Clone, Copy, PartialEq, Eq, Structural)]
pub enum AgentMode {
    Primary,
    Subagent,
    All,
}

#[derive(Clone)]
pub enum PermissionScope {
    Read,
    Write,
    Bash,
    Web,
    Task,
    Question,
    Custom(String),
}

#[derive(Clone, Copy, PartialEq, Eq, Structural)]
pub enum PermissionAction {
    Allow,
    Ask,
    Deny,
}

#[derive(Clone)]
pub struct PermissionRule {
    pub scope: PermissionScope,
    pub pattern: String,
    pub action: PermissionAction,
}

#[derive(Clone)]
pub struct PermissionRequest {
    pub scope: PermissionScope,
    pub target: String,
}

/// Two scopes are the same scope (a custom scope by its name).
pub open spec fn scope_eq(a: PermissionScope, b: PermissionScope) -> bool {
    match (a, b) {
        (PermissionScope::Read, PermissionScope::Read) => true,
        (PermissionScope::Write, PermissionScope::Write) => true,
        (PermissionScope::Bash, PermissionScope::Bash) => true,
        (PermissionScope::Web, PermissionScope::Web) => true,
        (PermissionScope::Task, PermissionScope::Task) => true,
        (PermissionScope::Question, PermissionScope::Question) => true,
        (PermissionScope::Custom(x), PermissionScope::Custom(y)) => x@ == y@,
        _ => false,
    }
}

impl PermissionScope {
    /// `==` on scopes.
    pub fn same_as(&self, other: &PermissionScope) -> (r: bool)
        ensures
            r == scope_eq(*self, *other),
    {
        match (self, other) {
            (PermissionScope::Read, PermissionScope::Read) => true,
            (PermissionScope::Write, PermissionScope::Write) => true,
            (PermissionScope::Bash, PermissionScope::Bash) => true,
            (PermissionScope::Web, PermissionScope::Web) => true,
            (PermissionScope::Task, PermissionScope::Task) => true,
            (PermissionScope::Question, PermissionScope::Question) => true,
            (PermissionScope::Custom(x), PermissionScope::Custom(y)) => str_eq(x.as_str(), y.as_str()),
            _ => false,
        }
    }
}

impl PermissionRule {
    /// A rule that lets matching calls run.
    pub fn allow(scope: PermissionScope, pattern: &str) -> (r: Self)
        ensures
            r.scope == scope,
            r.pattern@ == pattern@,
            r.action == PermissionAction::Allow,
    {
        PermissionRule { scope, pattern: owned(pattern), action: PermissionAction::Allow }
    }

    /// A rule that makes matching calls wait for approval.
    pub fn ask(scope: PermissionScope, pattern: &str) -> (r: Self)
        ensures
            r.scope == scope,
            r.pattern@ == pattern@,
            r.action == PermissionAction::Ask,
    {
        PermissionRule { scope, pattern: owned(pattern), action: PermissionAction::Ask }
    }

    /// A rule that refuses matching calls.
    pub fn deny(scope: PermissionScope, pattern: &str) -> (r: Self)
        ensures
            r.scope == scope,
            r.pattern@ == pattern@,
            r.action == PermissionAction::Deny,
    {
        PermissionRule { scope, pattern: owned(pattern), action: PermissionAction::Deny }
    }
}

// ---------------------------------------------------------------------------
// Glob patterns (the `glob` crate)
// ---------------------------------------------------------------------------

#[verifier::external_type_specification]
#[verifier::external_body]
pub struct ExGlobPattern(glob::Pattern);

/// Which of `/` and `\\` separate path components on this machine, as
/// `std::path::is_separator` tells. A value is made only by
/// `path_separators`, so every value holds this machine's answer.
#[derive(Clone, Copy)]
pub struct PathSeparators {
    slash: bool,
    backslash: bool,
}

impl View for PathSeparators {
    type V = (bool, bool);

    /// Whether `/` separates, and whether `\\` does.
    closed spec fn view(&self) -> (bool, bool) {
        (self.slash, self.backslash)
    }
}

/// `std::path::is_separator` on `/` and on `\\`. The answer depends on the
/// platform (`/` alone on Unix, both on Windows), so nothing is claimed or
/// named of it; it is carried to the glob calls, whose outcome it fixes.
#[verifier::external_body]
pub(crate) fn path_separators() -> (r: PathSeparators) {
    PathSeparators { slash: std::path::is_separator('/'), backslash: std::path::is_separator('\\') }
}

/// A compiled glob pattern, the text it was compiled from, and the path
/// separators of the machine it was compiled on.
pub struct GlobPattern {
    source: String,
    separators: PathSeparators,
    compiled: glob::Pattern,
}

impl GlobPattern {
    /// The pattern's text.
    pub closed spec fn source(&self) -> Seq<char> {
        self.source@
    }

    /// Whether `/`, and whether `\\`, separated path components where the
    /// pattern was compiled.
    pub closed spec fn separators(&self) -> (bool, bool) {
        self.separators@
    }
}

/// Characters that `glob::Pattern` treats specially.
pub open spec fn glob_meta(c: char) -> bool {
    c == '?' || c == '*' || c == '['
}

/// A pattern with no wildcard and no path separator: it stands for itself.
pub open spec fn literal_pattern(p: Seq<char>) -> bool {
    forall|i: int| 0 <= i < p.len() ==> !glob_meta(#[trigger] p[i]) && p[i] != '/' && p[i] != '\\'
}

/// Whether `glob::Pattern::new` accepts `pattern` on a machine where `/`
/// separates path components exactly when `slash` and `\\` exactly when
/// `backslash`. The glob crate looks at the platform only through
/// `path::is_separator` and, in `chars_eq`, `cfg!(windows)` where two
/// separators meet, which can happen only where both characters separate:
/// on Windows.
pub uninterp spec fn glob_compiles(slash: bool, backslash: bool, pattern: Seq<char>) -> bool;

/// Whether the pattern compiled from `pattern` matches `target`
/// (`glob::Pattern::matches`) on a machine where `/` separates exactly when
/// `slash` and `\\` exactly when `backslash`.
pub uninterp spec fn glob_match(slash: bool, backslash: bool, pattern: Seq<char>, target: Seq<char>) -> bool;

/// `glob::Pattern::new`, keeping the source text and the separators beside
/// the compiled pattern. Which patterns compile is named, not described; it
/// depends on the pattern and on which characters separate path components,
/// which `separators` holds for this machine. Beside the name, the contract
/// claims what the crate's source shows: a pattern without `?`, `*` or `[`
/// always compiles.
#[verifier::external_body]
pub(crate) fn compile_glob(pattern: &str, separators: &PathSeparators) -> (r: Option<GlobPattern>)
    ensures
        r is Some <==> glob_compiles(separators@.0, separators@.1, pattern@),
        literal_pattern(pattern@) ==> r is Some,
        r matches Some(g) ==> g.source() == pattern@ && g.separators() == separators@,
{
    glob::Pattern::new(pattern).ok().map(
        |compiled| GlobPattern { source: pattern.to_string(), separators: *separators, compiled },
    )
}

/// `glob::Pattern::matches` with the default options. What it matches is
/// named, not described; it depends on the pattern, the target and the
/// separators. Beside the name, the contract claims what the crate's source
/// shows: a pattern made of plain characters (no wildcard, no separator)
/// matches exactly the text equal to it.
#[verifier::external_body]
pub(crate) fn glob_matches(g: &GlobPattern, target: &str) -> (r: bool)
    ensures
        r == glob_match(g.separators().0, g.separators().1, g.source(), target@),
        literal_pattern(g.source()) ==> (r == (g.source() == target@)),
{
    g.compiled.matches(target)
}

/// Whether a permission pattern matches a target, with path separators
/// `seps`: `"*"` matches everything, a pattern the glob crate accepts matches
/// as it says, and any other pattern matches only the text equal to it.
pub open spec fn pattern_match(seps: (bool, bool), pattern: Seq<char>, target: Seq<char>) -> bool {
    if pattern == seq!['*'] {
        true
    } else if glob_compiles(seps.0, seps.1, pattern) {
        glob_match(seps.0, seps.1, pattern, target)
    } else {
        pattern == target
    }
}

/// For each rule, whether it is of `scope` and its pattern matches `target`.
pub open spec fn match_flags(
    seps: (bool, bool),
    rules: Seq<PermissionRule>,
    scope: PermissionScope,
    target: Seq<char>,
) -> Seq<bool> {
    Seq::new(rules.len(), |i: int| scope_eq(rules[i].scope, scope) && pattern_match(seps, rules[i].pattern@, target))
}

/// What a pattern is known to do on a target: `"*"` matches everything and a
/// literal pattern matches itself; for other patterns the glob crate decides.
pub open spec fn known_match(pattern: Seq<char>, target: Seq<char>) -> Option<bool> {
    if pattern == seq!['*'] {
        Some(true)
    } else if literal_pattern(pattern) {
        Some(pattern == target)
    } else {
        None
    }
}

/// Whether a permission pattern matches a target on a machine with path
/// separators `separators`: `"*"` matches everything, a valid glob pattern
/// matches as the glob crate says, and a pattern that does not compile
/// matches only the text equal to it.
pub fn permission_pattern_matches_on(separators: &PathSeparators, pattern: &str, target: &str) -> (r: bool)
    ensures
        r == pattern_match(separators@, pattern@, target@),
        known_match(pattern@, target@) matches Some(b) ==> r == b,
{
    proof {
        reveal_strlit("*");
        assert("*"@ =~= seq!['*']);
    }
    if str_eq(pattern, "*") {
        return true;
    }
    match compile_glob(pattern, separators) {
        Some(g) => glob_matches(&g, target),
        None => str_eq(pattern, target),
    }
}

/// Whether a permission pattern matches a target on this machine, as
/// `permission_pattern_matches_on` says for this machine's path separators.
pub fn permission_pattern_matches(pattern: &str, target: &str) -> (r: bool)
    ensures
        exists|s: PathSeparators| r == #[trigger] pattern_match(s@, pattern@, target@),
        known_match(pattern@, target@) matches Some(b) ==> r == b,
{
    let separators = path_separators();
    let r = permission_pattern_matches_on(&separators, pattern, target);
    assert(r == pattern_match(separators@, pattern@, target@));
    r
}

// ---------------------------------------------------------------------------
// Agents
// ---------------------------------------------------------------------------

pub struct Agent {
    pub name: String,
    pub description: String,
    pub mode: AgentMode,
    pub model: Option<String>,
    pub prompt: Option<String>,
    pub tools: StrMap<bool>,
    pub permissions: Vec<PermissionRule>,
    pub max_steps: Option<usize>,
}

/// The decision of the rules `rules` for a call in `scope`, where `flags[i]`
/// tells whether the pattern of `rules[i]` matches the call's target: the last
/// rule of that scope whose pattern matches decides; when none does, the call
/// waits for approval.
pub open spec fn decide(rules: Seq<PermissionRule>, scope: PermissionScope, flags: Seq<bool>) -> PermissionAction
    decreases rules.len(),
{
    if rules.len() == 0 || flags.len() != rules.len() {
        PermissionAction::Ask
    } else if scope_eq(rules.last().scope, scope) && flags.last() {
        rules.last().action
    } else {
        decide(rules.drop_last(), scope, flags.drop_last())
    }
}

/// `flags` agrees with every pattern whose outcome on `target` is known, for
/// the rules of scope `scope`.
pub open spec fn flags_consistent(
    rules: Seq<PermissionRule>,
    scope: PermissionScope,
    target: Seq<char>,
    flags: Seq<bool>,
) -> bool {
    &&& flags.len() == rules.len()
    &&& forall|i: int|
        0 <= i < rules.len() && scope_eq(rules[i].scope, scope) ==> (known_match(
            #[trigger] rules[i].pattern@,
            target,
        ) matches Some(b) ==> flags[i] == b)
}

/// A rule set decides as its prefix does when no later rule of the scope matches.
pub proof fn lemma_decide_prefix(rules: Seq<PermissionRule>, scope: PermissionScope, flags: Seq<bool>, k: int)
    requires
        0 <= k <= rules.len(),
        flags.len() == rules.len(),
        forall|j: int| k <= j < rules.len() ==> !(scope_eq(rules[j].scope, scope) && #[trigger] flags[j]),
    ensures
        decide(rules, scope, flags) == decide(rules.take(k), scope, flags.take(k)),
    decreases rules.len(),
{
    if rules.len() > k {
        lemma_decide_prefix(rules.drop_last(), scope, flags.drop_last(), k);
        assert(rules.drop_last().take(k) =~= rules.take(k));
        assert(flags.drop_last().take(k) =~= flags.take(k));
    } else {
        assert(rules.take(k) =~= rules);
        assert(flags.take(k) =~= flags);
    }
}

impl Agent {
    /// An agent with no tool settings, no rules, no model and no step limit.
    pub fn new(name: &str, description: &str, mode: AgentMode) -> (a: Self)
        ensures
            a.name@ == name@,
            a.description@ == description@,
            a.mode == mode,
            a.model is None,
            a.prompt is None,
            a.tools.wf(),
            a.tools.size() == 0,
            a.permissions@.len() == 0,
            a.max_steps is None,
    {
        Agent {
            name: owned(name),
            description: owned(description),
            mode,
            model: None,
            prompt: None,
            tools: StrMap::new(),
            permissions: Vec::new(),
            max_steps: None,
        }
    }

    /// `tools.get(name).copied().unwrap_or(true)`: a tool is enabled unless the
    /// agent turns it off.
    pub fn is_tool_enabled(&self, tool_name: &str) -> (r: bool)
        requires
            self.tools.wf(),
        ensures
            r == tool_enabled(*self, tool_name@),
    {
        match self.tools.get(tool_name) {
            Some(b) => *b,
            None => true,
        }
    }

    /// The permission request for a call of `tool_name`: its scope by the tool,
    /// and as target the `command` (bash), `pattern` (glob) or `path` string
    /// field of the input, `"*"` when absent. `None` for tools that need none.
    pub fn permission_for_tool(&self, tool_name: &str, input: &JsonValue) -> (r: Option<PermissionRequest>)
        ensures
            r is Some <==> tool_scope(tool_name@) is Some,
            r matches Some(req) ==> scope_eq(req.scope, tool_scope(tool_name@)->0) && req.target@
                == permission_target(tool_name@, *input),
    {
        let scope = match scope_of_tool(tool_name) {
            Some(s) => s,
            None => return None,
        };
        let field = if str_eq(tool_name, "bash") {
            "command"
        } else if str_eq(tool_name, "glob") {
            "pattern"
        } else {
            "path"
        };
        proof {
            reveal_strlit("bash");
            reveal_strlit("glob");
        }
        let target = match input.text_field(field) {
            Some(t) => owned(t),
            None => owned("*"),
        };
        Some(PermissionRequest { scope, target })
    }

    /// The action the agent's rules give a request, with the pattern outcomes
    /// given by `matched`: the last rule of the request's scope whose pattern
    /// matches decides, and a request that no rule matches waits for approval.
    pub fn evaluate_permission_with(&self, request: &PermissionRequest, matched: &Vec<bool>) -> (r: PermissionAction)
        requires
            matched@.len() == self.permissions@.len(),
        ensures
            r == decide(self.permissions@, request.scope, matched@),
    {
        let n = self.permissions.len();
        let mut i = n;
        while i > 0
            invariant
                i <= n,
                n == self.permissions@.len(),
                matched@.len() == n,
                forall|j: int|
                    i <= j < n ==> !(scope_eq(self.permissions@[j].scope, request.scope) && #[trigger] matched@[j]),
            decreases i,
        {
            let rule = &self.permissions[i - 1];
            if rule.scope.same_as(&request.scope) && matched[i - 1] {
                proof {
                    lemma_decide_prefix(self.permissions@, request.scope, matched@, i as int);
                    assert(self.permissions@.take(i as int).last() == self.permissions@[i - 1]);
                    assert(matched@.take(i as int).last() == matched@[i - 1]);
                }
                return rule.action;
            }
            i -= 1;
        }
        proof {
            lemma_decide_prefix(self.permissions@, request.scope, matched@, 0);
        }
        PermissionAction::Ask
    }

    /// The action the agent's rules give a request on a machine with path
    /// separators `separators`: the last rule of the request's scope whose
    /// pattern matches the target decides (`"*"` matches every target, a
    /// literal pattern the equal target, another as the glob crate says); a
    /// request that no rule matches waits for approval.
    pub fn evaluate_permission_on(&self, separators: &PathSeparators, request: &PermissionRequest) -> (r: PermissionAction)
        ensures
            r == decide(
                self.permissions@,
                request.scope,
                match_flags(separators@, self.permissions@, request.scope, request.target@),
            ),
            flags_consistent(
                self.permissions@,
                request.scope,
                request.target@,
                match_flags(separators@, self.permissions@, request.scope, request.target@),
            ),
    {
        let n = self.permissions.len();
        let ghost flags = match_flags(separators@, self.permissions@, request.scope, request.target@);
        let mut matched: Vec<bool> = Vec::new();
        let mut i: usize = 0;
        while i < n
            invariant
                i <= n,
                n == self.permissions@.len(),
                flags == match_flags(separators@, self.permissions@, request.scope, request.target@),
                matched@.len() == i,
                forall|j: int|
                    0 <= j < i && scope_eq(self.permissions@[j].scope, request.scope) ==> (known_match(
                        #[trigger] self.permissions@[j].pattern@,
                        request.target@,
                    ) matches Some(b) ==> matched@[j] == b),
                forall|j: int| 0 <= j < i ==> #[trigger] matched@[j] == flags[j],
            decreases n - i,
        {
            let rule = &self.permissions[i];
            let m = if rule.scope.same_as(&request.scope) {
                permission_pattern_matches_on(separators, rule.pattern.as_str(), request.target.as_str())
            } else {
                false
            };
            matched.push(m);
            i += 1;
        }
        let r = self.evaluate_permission_with(request, &matched);
        assert(flags_consistent(self.permissions@, request.scope, request.target@, matched@));
        assert(matched@ =~= flags);
        r
    }

    /// The action the agent's rules give a request on this machine, as
    /// `evaluate_permission_on` says for this machine's path separators.
    pub fn evaluate_permission(&self, request: &PermissionRequest) -> (r: PermissionAction)
        ensures
            exists|s: PathSeparators|
                r == #[trigger] decide(
                    self.permissions@,
                    request.scope,
                    match_flags(s@, self.permissions@, request.scope, request.target@),
                ),
            exists|flags: Seq<bool>|
                flags_consistent(self.permissions@, request.scope, request.target@, flags) && r == #[trigger] decide(
                    self.permissions@,
                    request.scope,
                    flags,
                ),
    {
        let separators = path_separators();
        let r = self.evaluate_permission_on(&separators, request);
        let ghost flags = match_flags(separators@, self.permissions@, request.scope, request.target@);
        assert(flags_consistent(self.permissions@, request.scope, request.target@, flags));
        assert(r == decide(self.permissions@, request.scope, flags));
        r
    }
}

/// `tools.get(name).copied().unwrap_or(true)`.
pub open spec fn tool_enabled(a: Agent, name: Seq<char>) -> bool {
    match a.tools.get_spec(name) {
        Some(b) => b,
        None => true,
    }
}

/// The scope of a tool's calls: reading tools, writing tools and the shell.
pub open spec fn tool_scope(name: Seq<char>) -> Option<PermissionScope> {
    if name == "current_directory"@ || name == "list_directory"@ || name == "read_file"@ || name
        == "git_status"@ || name == "glob"@ || name == "grep"@ {
        Some(PermissionScope::Read)
    } else if name == "write"@ || name == "edit"@ {
        Some(PermissionScope::Write)
    } else if name == "bash"@ {
        Some(PermissionScope::Bash)
    } else {
        None
    }
}

/// The input field that names a call's target.
pub open spec fn target_field(name: Seq<char>) -> Seq<char> {
    if name == "bash"@ {
        "command"@
    } else if name == "glob"@ {
        "pattern"@
    } else {
        "path"@
    }
}

/// A call's target: its target field, or `"*"` when the input has no such string field.
pub open spec fn permission_target(name: Seq<char>, input: JsonValue) -> Seq<char> {
    match text_field(input, target_field(name)) {
        Some(t) => t,
        None => "*"@,
    }
}

/// The scope of a tool's calls, as a value.
pub fn scope_of_tool(name: &str) -> (r: Option<PermissionScope>)
    ensures
        r is Some <==> tool_scope(name@) is Some,
        r matches Some(s) ==> scope_eq(s, tool_scope(name@)->0),
{
    if str_eq(name, "current_directory") || str_eq(name, "list_directory") || str_eq(name, "read_file")
        || str_eq(name, "git_status") || str_eq(name, "glob") || str_eq(name, "grep") {
        Some(PermissionScope::Read)
    } else if str_eq(name, "write") || str_eq(name, "edit") {
        Some(PermissionScope::Write)
    } else if str_eq(name, "bash") {
        Some(PermissionScope::Bash)
    } else {
        None
    }
}

/// Rules with these scopes, each for every target, with these actions.
pub open spec fn rules_are(
    rules: Seq<PermissionRule>,
    read: PermissionAction,
    write: PermissionAction,
    bash: PermissionAction,
) -> bool {
    &&& rules.len() == 3
    &&& rules[0].scope == PermissionScope::Read && rules[0].pattern@ == "*"@ && rules[0].action == read
    &&& rules[1].scope == PermissionScope::Write && rules[1].pattern@ == "*"@ && rules[1].action == write
    &&& rules[2].scope == PermissionScope::Bash && rules[2].pattern@ == "*"@ && rules[2].action == bash
}

/// The tools that the build agent enables.
pub open spec fn build_tool(k: Seq<char>) -> bool {
    k == "bash"@ || k == "current_directory"@ || k == "edit"@ || k == "glob"@ || k == "grep"@ || k
        == "list_directory"@ || k == "read_file"@ || k == "workspace_map"@ || k == "write"@ || k
        == "git_status"@
}

/// The tools that the plan agent enables.
pub open spec fn plan_tool(k: Seq<char>) -> bool {
    k == "bash"@ || k == "current_directory"@ || k == "glob"@ || k == "grep"@ || k
        == "list_directory"@ || k == "read_file"@ || k == "workspace_map"@ || k == "git_status"@
}

/// The build agent: named `build`, a primary agent with no model of its own,
/// every repository tool enabled, reading and writing allowed, shell commands
/// asked for, at most 12 steps.
pub open spec fn is_build_agent(a: Agent) -> bool {
    &&& a.name@ == "build"@
    &&& a.description@ == "Default coding agent with repository tool access."@
    &&& a.mode == AgentMode::Primary
    &&& a.model is None
    &&& a.prompt is None
    &&& a.tools.wf()
    &&& forall|k: Seq<char>| #[trigger] a.tools.has_key(k) <==> build_tool(k)
    &&& forall|k: Seq<char>| build_tool(k) ==> #[trigger] a.tools.get_spec(k) == Some(true)
    &&& rules_are(a.permissions@, PermissionAction::Allow, PermissionAction::Allow, PermissionAction::Ask)
    &&& a.max_steps == Some(12usize)
}

/// The plan agent: named `plan`, a primary agent on the `local/planner` model,
/// no writing tools, reading allowed, writing denied, shell commands asked
/// for, at most 8 steps.
pub open spec fn is_plan_agent(a: Agent) -> bool {
    &&& a.name@ == "plan"@
    &&& a.description@ == "Read-only planning agent for repository analysis."@
    &&& a.mode == AgentMode::Primary
    &&& a.model matches Some(m) && m@ == "local/planner"@
    &&& a.prompt is None
    &&& a.tools.wf()
    &&& forall|k: Seq<char>| #[trigger] a.tools.has_key(k) <==> plan_tool(k)
    &&& forall|k: Seq<char>| plan_tool(k) ==> #[trigger] a.tools.get_spec(k) == Some(true)
    &&& rules_are(a.permissions@, PermissionAction::Allow, PermissionAction::Deny, PermissionAction::Ask)
    &&& a.max_steps == Some(8usize)
}

/// Turns a tool on.
fn enable(tools: &mut StrMap<bool>, name: &str)
    requires
        old(tools).wf(),
    ensures
        final(tools).wf(),
        forall|x: Seq<char>| #[trigger] final(tools).has_key(x) <==> (old(tools).has_key(x) || x == name@),
        forall|x: Seq<char>| #[trigger]
            final(tools).get_spec(x) == if x == name@ {
                Some(true)
            } else {
                old(tools).get_spec(x)
            },
{
    tools.insert(owned(name), true);
}

/// Builds a rule set of one `"*"` rule each for reading, writing and the shell.
fn three_rules(read: PermissionAction, write: PermissionAction, bash: PermissionAction) -> (v: Vec<PermissionRule>)
    ensures
        rules_are(v@, read, write, bash),
{
    let mut v: Vec<PermissionRule> = Vec::new();
    v.push(PermissionRule { scope: PermissionScope::Read, pattern: owned("*"), action: read });
    v.push(PermissionRule { scope: PermissionScope::Write, pattern: owned("*"), action: write });
    v.push(PermissionRule { scope: PermissionScope::Bash, pattern: owned("*"), action: bash });
    v
}

impl Agent {
    /// The default coding agent: every repository tool enabled, reading and
    /// writing allowed, shell commands asked for, at most 12 steps.
    pub fn build() -> (a: Self)
        ensures
            is_build_agent(a),
    {
        let mut agent = Agent::new(
            "build",
            "Default coding agent with repository tool access.",
            AgentMode::Primary,
        );
        enable(&mut agent.tools, "bash");
        enable(&mut agent.tools, "current_directory");
        enable(&mut agent.tools, "edit");
        enable(&mut agent.tools, "glob");
        enable(&mut agent.tools, "grep");
        enable(&mut agent.tools, "list_directory");
        enable(&mut agent.tools, "read_file");
        enable(&mut agent.tools, "workspace_map");
        enable(&mut agent.tools, "write");
        enable(&mut agent.tools, "git_status");
        agent.permissions = three_rules(PermissionAction::Allow, PermissionAction::Allow, PermissionAction::Ask);
        agent.max_steps = Some(12);
        agent
    }

    /// The read-only planning agent: the `local/planner` model, no writing
    /// tools, reading allowed, writing denied, shell commands asked for, at
    /// most 8 steps.
    pub fn plan() -> (a: Self)
        ensures
            is_plan_agent(a),
    {
        let mut agent = Agent::new(
            "plan",
            "Read-only planning agent for repository analysis.",
            AgentMode::Primary,
        );
        agent.model = Some(owned("local/planner"));
        enable(&mut agent.tools, "bash");
        enable(&mut agent.tools, "current_directory");
        enable(&mut agent.tools, "glob");
        enable(&mut agent.tools, "grep");
        enable(&mut agent.tools, "list_directory");
        enable(&mut agent.tools, "read_file");
        enable(&mut agent.tools, "workspace_map");
        enable(&mut agent.tools, "git_status");
        agent.permissions = three_rules(PermissionAction::Allow, PermissionAction::Deny, PermissionAction::Ask);
        agent.max_steps = Some(8);
        agent
    }
}

/// With one `"*"` rule each for reading, writing and the shell, a call of one
/// of these scopes gets that scope's action, whatever its target, and a call of
/// any other scope waits for approval.
pub proof fn law_star_rules_decide_by_scope(
    rules: Seq<PermissionRule>,
    read: PermissionAction,
    write: PermissionAction,
    bash: PermissionAction,
    scope: PermissionScope,
    target: Seq<char>,
    flags: Seq<bool>,
)
    requires
        rules_are(rules, read, write, bash),
        flags_consistent(rules, scope, target, flags),
    ensures
        decide(rules, scope, flags) == match scope {
            PermissionScope::Read => read,
            PermissionScope::Write => write,
            PermissionScope::Bash => bash,
            _ => PermissionAction::Ask,
        },
{
    reveal_strlit("*");
    assert("*"@ =~= seq!['*']);
    reveal_with_fuel(decide, 4);
    let r1 = rules.drop_last();
    let r0 = r1.drop_last();
    let f1 = flags.drop_last();
    let f0 = f1.drop_last();
    assert(r1.last() == rules[1]);
    assert(r0.last() == rules[0]);
    assert(f1.last() == flags[1]);
    assert(f0.last() == flags[0]);
    assert(r0.drop_last().len() == 0);
    assert(known_match(rules[0].pattern@, target) == Some(true));
    assert(known_match(rules[1].pattern@, target) == Some(true));
    assert(known_match(rules[2].pattern@, target) == Some(true));
    match scope {
        PermissionScope::Read => {
            assert(flags[0]);
        },
        PermissionScope::Write => {
            assert(flags[1]);
        },
        PermissionScope::Bash => {
            assert(flags[2]);
        },
        _ => {},
    }
}

/// The last rule of a scope whose pattern matches decides, whatever came before it.
pub proof fn law_last_matching_rule_decides(
    rules: Seq<PermissionRule>,
    rule: PermissionRule,
    request: PermissionRequest,
    flags: Seq<bool>,
)
    requires
        flags.len() == rules.len(),
        scope_eq(rule.scope, request.scope),
    ensures
        decide(rules.push(rule), request.scope, flags.push(true)) == rule.action,
{
    assert(rules.push(rule).last() == rule);
    assert(flags.push(true).last() == true);
}

/// A rule of another scope, or whose pattern does not match, changes nothing.
pub proof fn law_unmatched_rule_changes_nothing(
    rules: Seq<PermissionRule>,
    rule: PermissionRule,
    request: PermissionRequest,
    flags: Seq<bool>,
    matched: bool,
)
    requires
        flags.len() == rules.len(),
        !(scope_eq(rule.scope, request.scope) && matched),
    ensures
        decide(rules.push(rule), request.scope, flags.push(matched)) == decide(rules, request.scope, flags),
{
    assert(rules.push(rule).drop_last() =~= rules);
    assert(flags.push(matched).drop_last() =~= flags);
}

} // verus!
