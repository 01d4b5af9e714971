//! Credentials of sign-in providers: the records kept in the auth file, and
//! where a GitHub token is looked for.
use vstd::prelude::*;

use crate::app_paths::{
    chained, home_of, lemma_chained_none, lemma_chained_push, path_join, planned_config, AppPaths, DesktopPlatform,
    PathEnvironment, PathsError,
};
use crate::clock::{unix_timestamp, ClockError};
use crate::json::{json_parsed, parse_json, text_field, JsonValue};
use crate::message::{clone_opt, opt_view};
use crate::text::{concat2, contains, has_substring, owned, str_eq, trim, trim_str};

verus! {

/// A provider that signs in with a stored token.
#[derive(Clone, Copy, PartialEq, Eq, Structural, Debug)]
pub enum AuthProvider {
    GitHubCopilot,
}

pub enum AuthError {
    UnsupportedProvider(String),
}

impl AuthError {
    pub fn message(&self) -> (r: String)
        ensures
            match self {
                AuthError::UnsupportedProvider(v) => r@ == "unsupported auth provider: "@ + v@,
            },
    {
        match self {
            AuthError::UnsupportedProvider(v) => concat2("unsupported auth provider: ", v.as_str()),
        }
    }
}

/// The names a provider is known by.
pub open spec fn provider_named(value: Seq<char>) -> Option<AuthProvider> {
    if value == "copilot"@ || value == "github-copilot"@ || value == "github_copilot"@ {
        Some(AuthProvider::GitHubCopilot)
    } else {
        None
    }
}

impl AuthProvider {
    pub fn as_str(&self) -> (r: &'static str)
        ensures
            r@ == "github-copilot"@,
    {
        match self {
            AuthProvider::GitHubCopilot => "github-copilot",
        }
    }

    /// The provider named `value`; an error for any other name.
    pub fn parse(value: &str) -> (r: Result<AuthProvider, AuthError>)
        ensures
            r matches Ok(p) ==> provider_named(value@) == Some(p),
            r matches Err(AuthError::UnsupportedProvider(v)) ==> provider_named(value@) is None && v@ == value@,
    {
        if str_eq(value, "copilot") || str_eq(value, "github-copilot") || str_eq(value, "github_copilot") {
            Ok(AuthProvider::GitHubCopilot)
        } else {
            Err(AuthError::UnsupportedProvider(owned(value)))
        }
    }
}

/// A provider's name reads back as that provider.
pub proof fn law_provider_name_parses_back(p: AuthProvider)
    ensures
        provider_named("github-copilot"@) == Some(p),
{
}

/// A stored credential.
pub struct AuthRecord {
    pub provider: AuthProvider,
    pub token: String,
    pub source: String,
    pub saved_at_unix: u64,
}

impl Clone for AuthRecord {
    fn clone(&self) -> (r: Self)
        ensures
            r == *self,
    {
        AuthRecord {
            provider: self.provider,
            token: self.token.clone(),
            source: self.source.clone(),
            saved_at_unix: self.saved_at_unix,
        }
    }
}

/// The content of the auth file: at most one record per provider.
pub struct AuthFile {
    pub records: Vec<AuthRecord>,
}

impl AuthFile {
    /// No two records belong to the same provider.
    pub open spec fn wf(&self) -> bool {
        forall|i: int, j: int|
            0 <= i < j < self.records@.len() ==> #[trigger] self.records@[i].provider != #[trigger] self.records@[j].provider
    }

    /// The record kept for `p`.
    pub open spec fn record_of(&self, p: AuthProvider) -> Option<AuthRecord> {
        if exists|i: int| 0 <= i < self.records@.len() && #[trigger] self.records@[i].provider == p {
            let i = choose|i: int| 0 <= i < self.records@.len() && #[trigger] self.records@[i].provider == p;
            Some(self.records@[i])
        } else {
            None
        }
    }

    fn position(&self, p: AuthProvider) -> (r: Option<usize>)
        requires
            self.wf(),
        ensures
            r is None ==> self.record_of(p) is None,
            r matches Some(i) ==> i < self.records@.len() && self.records@[i as int].provider == p
                && self.record_of(p) == Some(self.records@[i as int]),
    {
        let mut i: usize = 0;
        while i < self.records.len()
            invariant
                i <= self.records@.len(),
                self.wf(),
                forall|j: int| 0 <= j < i ==> #[trigger] self.records@[j].provider != p,
            decreases self.records.len() - i,
        {
            if self.records[i].provider == p {
                proof {
                    let k = choose|k: int| 0 <= k < self.records@.len() && #[trigger] self.records@[k].provider == p;
                    assert(self.records@[i as int].provider == p);
                    if k < i {
                        assert(self.records@[k].provider != p);
                    } else if k > i {
                        assert(self.records@[i as int].provider != self.records@[k].provider);
                    }
                }
                return Some(i);
            }
            i += 1;
        }
        None
    }

    /// The record kept for `p`.
    pub fn get(&self, p: AuthProvider) -> (r: Option<&AuthRecord>)
        requires
            self.wf(),
        ensures
            match r {
                Some(rec) => self.record_of(p) == Some(*rec),
                None => self.record_of(p) is None,
            },
    {
        match self.position(p) {
            Some(i) => Some(&self.records[i]),
            None => None,
        }
    }

    /// Keeps `record` for its provider, in place of any record it had; the
    /// other providers' records stay.
    pub fn insert(&mut self, record: AuthRecord)
        requires
            old(self).wf(),
        ensures
            final(self).wf(),
            final(self).record_of(record.provider) == Some(record),
            forall|q: AuthProvider| q != record.provider ==> #[trigger] final(self).record_of(q) == old(self).record_of(q),
    {
        let p = record.provider;
        match self.position(p) {
            Some(i) => {
                self.records.set(i, record);
                proof {
                    assert forall|q: AuthProvider| q != p implies #[trigger] self.record_of(q) == old(self).record_of(q) by {
                        if exists|k: int| 0 <= k < old(self).records@.len() && #[trigger] old(self).records@[k].provider == q {
                            let k = choose|k: int| 0 <= k < old(self).records@.len() && #[trigger] old(self).records@[k].provider == q;
                            assert(self.records@[k].provider == q);
                        }
                    }
                    assert(self.records@[i as int].provider == p);
                }
            },
            None => {
                self.records.push(record);
                proof {
                    let n = old(self).records@.len() as int;
                    assert(self.records@[n].provider == p);
                    assert forall|q: AuthProvider| q != p implies #[trigger] self.record_of(q) == old(self).record_of(q) by {
                        if exists|k: int| 0 <= k < old(self).records@.len() && #[trigger] old(self).records@[k].provider == q {
                            let k = choose|k: int| 0 <= k < old(self).records@.len() && #[trigger] old(self).records@[k].provider == q;
                            assert(self.records@[k].provider == q);
                        }
                        if exists|k: int| 0 <= k < self.records@.len() && #[trigger] self.records@[k].provider == q {
                            let k = choose|k: int| 0 <= k < self.records@.len() && #[trigger] self.records@[k].provider == q;
                            assert(old(self).records@[k].provider == q);
                        }
                    }
                }
            },
        }
    }

    /// Drops the record of `p`, giving it back; the other providers' records
    /// stay.
    pub fn remove(&mut self, p: AuthProvider) -> (r: Option<AuthRecord>)
        requires
            old(self).wf(),
        ensures
            final(self).wf(),
            r == old(self).record_of(p),
            final(self).record_of(p) is None,
            forall|q: AuthProvider| q != p ==> #[trigger] final(self).record_of(q) == old(self).record_of(q),
    {
        match self.position(p) {
            Some(i) => {
                let ghost before = self.records@;
                let rec = self.records.remove(i);
                proof {
                    assert(self.records@ =~= before.subrange(0, i as int) + before.subrange(i + 1, before.len() as int));
                    assert forall|k: int| 0 <= k < self.records@.len() implies #[trigger] self.records@[k].provider != p by {
                        if k < i {
                            assert(self.records@[k] == before[k]);
                        } else {
                            assert(self.records@[k] == before[k + 1]);
                        }
                    }
                    assert forall|q: AuthProvider| q != p implies #[trigger] self.record_of(q) == old(self).record_of(q) by {
                        if exists|k: int| 0 <= k < before.len() && #[trigger] before[k].provider == q {
                            let k = choose|k: int| 0 <= k < before.len() && #[trigger] before[k].provider == q;
                            if k < i {
                                assert(self.records@[k].provider == q);
                            } else {
                                assert(self.records@[k - 1].provider == q);
                            }
                        }
                        if exists|k: int| 0 <= k < self.records@.len() && #[trigger] self.records@[k].provider == q {
                            let k = choose|k: int| 0 <= k < self.records@.len() && #[trigger] self.records@[k].provider == q;
                            if k < i {
                                assert(before[k].provider == q);
                            } else {
                                assert(before[k + 1].provider == q);
                            }
                        }
                    }
                }
                Some(rec)
            },
            None => None,
        }
    }
}

impl Default for AuthFile {
    /// A file with no record.
    fn default() -> (f: Self)
        ensures
            f.wf(),
            forall|p: AuthProvider| #[trigger] f.record_of(p) is None,
    {
        AuthFile { records: Vec::new() }
    }
}

/// What is known of a provider's stored credential.
pub struct AuthStatus {
    pub provider: AuthProvider,
    pub source: Option<String>,
    pub stored: bool,
    pub auth_file: String,
}

/// A GitHub token and where it was found.
pub struct TokenDiscovery {
    pub token: String,
    pub source: String,
}

/// A Copilot bearer token obtained for a GitHub token.
pub struct CopilotExchange {
    pub bearer_token: String,
    pub expires_at: Option<i64>,
}

/// The auth file at a path.
pub struct AuthStore {
    path: String,
}

impl View for AuthStore {
    type V = Seq<char>;

    closed spec fn view(&self) -> Seq<char> {
        self.path@
    }
}

impl AuthStore {
    /// The store at `auth.json` in the application's configuration directory;
    /// an error when the home directory is unknown.
    pub fn for_app(app_name: &str, platform: DesktopPlatform, env: &PathEnvironment) -> (r: Result<Self, PathsError>)
        ensures
            r is Err <==> home_of(*env) is None,
            r matches Ok(s) ==> chained(
                s@,
                planned_config(app_name@, platform, *env).0,
                planned_config(app_name@, platform, *env).1.push("auth.json"@),
            ),
    {
        let paths = match AppPaths::discover(app_name, platform, env) {
            Ok(p) => p,
            Err(e) => return Err(e),
        };
        let path = path_join(paths.config_dir_path(), "auth.json");
        proof {
            lemma_chained_push(
                path@,
                paths.config_dir@,
                planned_config(app_name@, platform, *env).0,
                planned_config(app_name@, platform, *env).1,
                "auth.json"@,
            );
        }
        Ok(AuthStore { path })
    }

    pub fn new(path: &str) -> (s: Self)
        ensures
            s@ == path@,
    {
        AuthStore { path: owned(path) }
    }

    /// The auth file's path.
    pub fn path(&self) -> (r: &str)
        ensures
            r@ == self@,
    {
        self.path.as_str()
    }

    /// Whether `file` holds a record for `provider`, and where it came from.
    pub fn status(&self, file: &AuthFile, provider: AuthProvider) -> (r: AuthStatus)
        requires
            file.wf(),
        ensures
            r.provider == provider,
            opt_view(r.source) == match file.record_of(provider) {
                Some(rec) => Some(rec.source@),
                None => None,
            },
            r.stored == file.record_of(provider) is Some,
            r.auth_file@ == self@,
    {
        let source = match file.get(provider) {
            Some(rec) => Some(rec.source.clone()),
            None => None,
        };
        let stored = source.is_some();
        AuthStatus { provider, source, stored, auth_file: self.path.clone() }
    }

    /// The record `file` holds for `provider`.
    pub fn load(&self, file: &AuthFile, provider: AuthProvider) -> (r: Option<AuthRecord>)
        requires
            file.wf(),
        ensures
            r == file.record_of(provider),
    {
        match file.get(provider) {
            Some(rec) => Some(rec.clone()),
            None => None,
        }
    }

    /// Records `token` from `source` for `provider`, saved at `saved_at_unix`,
    /// in place of any record the provider had.
    pub fn save_at(&self, file: &mut AuthFile, provider: AuthProvider, token: String, source: String, saved_at_unix: u64) -> (r: AuthRecord)
        requires
            old(file).wf(),
        ensures
            final(file).wf(),
            r == (AuthRecord { provider, token, source, saved_at_unix }),
            final(file).record_of(provider) == Some(r),
            forall|q: AuthProvider| q != provider ==> #[trigger] final(file).record_of(q) == old(file).record_of(q),
    {
        let record = AuthRecord { provider, token, source, saved_at_unix };
        file.insert(record.clone());
        record
    }

    /// Records `token` from `source` for `provider`, stamped with the current
    /// time; an error when the clock cannot be read.
    pub fn save(&self, file: &mut AuthFile, provider: AuthProvider, token: String, source: String) -> (r: Result<AuthRecord, ClockError>)
        requires
            old(file).wf(),
        ensures
            final(file).wf(),
            r is Err ==> *final(file) == *old(file),
            r matches Ok(rec) ==> {
                &&& rec.provider == provider
                &&& rec.token == token
                &&& rec.source == source
                &&& final(file).record_of(provider) == Some(rec)
                &&& forall|q: AuthProvider| q != provider ==> #[trigger] final(file).record_of(q) == old(file).record_of(q)
            },
    {
        match unix_timestamp() {
            Ok(now) => Ok(self.save_at(file, provider, token, source, now)),
            Err(e) => Err(e),
        }
    }

    /// Drops the record of `provider`; whether there was one.
    pub fn delete(&self, file: &mut AuthFile, provider: AuthProvider) -> (r: bool)
        requires
            old(file).wf(),
        ensures
            final(file).wf(),
            r == old(file).record_of(provider) is Some,
            final(file).record_of(provider) is None,
            forall|q: AuthProvider| q != provider ==> #[trigger] final(file).record_of(q) == old(file).record_of(q),
    {
        let removed = file.remove(provider);
        removed.is_some()
    }
}

/// The first token under a `github.com` key: the `oauth_token` string of
/// the first field whose key contains `github.com` and whose token is not
/// blank.
pub open spec fn token_in_fields(fields: Seq<(String, JsonValue)>) -> Option<Seq<char>>
    decreases fields.len(),
{
    if fields.len() == 0 {
        None
    } else {
        match text_field(fields[0].1, "oauth_token"@) {
            Some(t) if has_substring(fields[0].0@, "github.com"@) && trim(t).len() > 0 => Some(t),
            _ => token_in_fields(fields.drop_first()),
        }
    }
}

/// The Copilot token an object of the `hosts.json` form holds.
pub open spec fn copilot_token(v: JsonValue) -> Option<Seq<char>> {
    match v {
        JsonValue::Object(fields) => token_in_fields(fields@),
        _ => None,
    }
}

/// The Copilot token a parsed `hosts.json` or `apps.json` holds.
pub fn copilot_token_of(v: &JsonValue) -> (r: Option<String>)
    ensures
        opt_view(r) == copilot_token(*v),
{
    match v {
        JsonValue::Object(fields) => {
            let mut i: usize = 0;
            assert(fields@.skip(0) =~= fields@);
            while i < fields.len()
                invariant
                    i <= fields@.len(),
                    copilot_token(*v) == token_in_fields(fields@),
                    token_in_fields(fields@) == token_in_fields(fields@.skip(i as int)),
                decreases fields.len() - i,
            {
                assert(fields@.skip(i as int).drop_first() =~= fields@.skip(i + 1));
                assert(fields@.skip(i as int)[0] == fields@[i as int]);
                if contains(fields[i].0.as_str(), "github.com") {
                    match fields[i].1.text_field("oauth_token") {
                        Some(t) => {
                            let trimmed = trim_str(t);
                            proof {
                                reveal_strlit("");
                                assert(trimmed@.len() == 0 ==> trimmed@ =~= ""@);
                            }
                            if !str_eq(trimmed.as_str(), "") {
                                return Some(owned(t));
                            }
                        },
                        None => {},
                    }
                }
                i += 1;
            }
            None
        },
        _ => None,
    }
}

/// The Copilot token in the text of a `hosts.json` or `apps.json` file:
/// `None` where the text is not JSON or holds no such token.
pub fn parse_github_copilot_token(content: &str) -> (r: Option<String>)
    ensures
        opt_view(r) == match json_parsed(content@) {
            Some(v) => copilot_token(v),
            None => None,
        },
{
    match parse_json(content) {
        Some(v) => copilot_token_of(&v),
        None => None,
    }
}

/// The environment variables the token search reads, as read by the caller.
pub struct TokenEnvironment {
    pub github_token: Option<String>,
    pub xdg_config_home: Option<String>,
    pub localappdata: Option<String>,
    pub userprofile: Option<String>,
    pub home: Option<String>,
}

pub enum DiscoveryError {
    NoLocalAppData,
    NoHome,
    NotFound,
}

impl DiscoveryError {
    pub fn message(&self) -> (r: String)
        ensures
            r@ == match self {
                DiscoveryError::NoLocalAppData => "unable to determine LOCALAPPDATA for Windows token discovery"@,
                DiscoveryError::NoHome => "unable to determine HOME for token discovery"@,
                DiscoveryError::NotFound => "GitHub token not found in standard locations"@,
            },
    {
        match self {
            DiscoveryError::NoLocalAppData => owned("unable to determine LOCALAPPDATA for Windows token discovery"),
            DiscoveryError::NoHome => owned("unable to determine HOME for token discovery"),
            DiscoveryError::NotFound => owned("GitHub token not found in standard locations"),
        }
    }
}

/// Where the token is looked for: the token in `GITHUB_TOKEN`, or the files
/// to read in order.
pub enum TokenSearch {
    Found(TokenDiscovery),
    Files(Vec<String>),
}

/// The directory the Copilot files are under: `XDG_CONFIG_HOME`; on Windows
/// `LOCALAPPDATA`, else `AppData/Local` under `USERPROFILE`; elsewhere
/// `.config` under `HOME`. `None` where the variable it needs is unset.
pub open spec fn config_dir_plan(env: TokenEnvironment, platform: DesktopPlatform) -> Option<(Seq<char>, Seq<Seq<char>>)> {
    match env.xdg_config_home {
        Some(x) => Some((x@, seq![])),
        None => if platform is Windows {
            match env.localappdata {
                Some(l) => Some((l@, seq![])),
                None => match env.userprofile {
                    Some(u) => Some((u@, seq!["AppData"@, "Local"@])),
                    None => None,
                },
            }
        } else {
            match env.home {
                Some(h) => Some((h@, seq![".config"@])),
                None => None,
            }
        },
    }
}

/// The token in `GITHUB_TOKEN`, trimmed, where it is not blank.
pub open spec fn env_token(env: TokenEnvironment) -> Option<Seq<char>> {
    match env.github_token {
        Some(t) => if trim(t@).len() > 0 { Some(trim(t@)) } else { None },
        None => None,
    }
}

fn join_onto(base: &str, parts: &Vec<&str>) -> (r: String)
    ensures
        chained(r@, base@, parts@.map_values(|s: &str| s@)),
{
    let ghost ps = parts@.map_values(|s: &str| s@);
    let mut r = owned(base);
    let mut i: usize = 0;
    proof {
        lemma_chained_none(base@);
        assert(ps.take(0) =~= seq![]);
    }
    while i < parts.len()
        invariant
            i <= parts@.len(),
            ps == parts@.map_values(|s: &str| s@),
            chained(r@, base@, ps.take(i as int)),
        decreases parts.len() - i,
    {
        let ghost mid = r@;
        r = path_join(r.as_str(), parts[i]);
        proof {
            lemma_chained_push(r@, mid, base@, ps.take(i as int), ps[i as int]);
            assert(ps.take(i as int).push(ps[i as int]) =~= ps.take(i + 1));
        }
        i += 1;
    }
    assert(ps.take(parts@.len() as int) =~= ps);
    r
}

/// Where to look for a GitHub token: `GITHUB_TOKEN` when it holds one;
/// otherwise `github-copilot/hosts.json` and then `github-copilot/apps.json`
/// under the configuration directory; an error when that directory cannot
/// be determined.
pub fn token_search(env: &TokenEnvironment, platform: &DesktopPlatform) -> (r: Result<TokenSearch, DiscoveryError>)
    ensures
        env_token(*env) matches Some(t) ==> (r matches Ok(TokenSearch::Found(d)) && d.token@ == t
            && d.source@ == "env:GITHUB_TOKEN"@),
        env_token(*env) is None ==> match config_dir_plan(*env, *platform) {
            None => r matches Err(e) && (if *platform is Windows {
                e is NoLocalAppData
            } else {
                e is NoHome
            }),
            Some(plan) => r matches Ok(TokenSearch::Files(files)) && files@.len() == 2
                && chained(files@[0]@, plan.0, plan.1 + seq!["github-copilot"@, "hosts.json"@])
                && chained(files@[1]@, plan.0, plan.1 + seq!["github-copilot"@, "apps.json"@]),
        },
{
    proof {
        reveal_strlit("");
    }
    match &env.github_token {
        Some(t) => {
            let token = trim_str(t.as_str());
            proof {
                assert(token@.len() == 0 ==> token@ =~= ""@);
            }
            if !str_eq(token.as_str(), "") {
                return Ok(TokenSearch::Found(TokenDiscovery { token, source: owned("env:GITHUB_TOKEN") }));
            }
        },
        None => {},
    }
    let mut prefix: Vec<&str> = Vec::new();
    let base: &str = match &env.xdg_config_home {
        Some(x) => x.as_str(),
        None => match platform {
            DesktopPlatform::Windows => match &env.localappdata {
                Some(l) => l.as_str(),
                None => match &env.userprofile {
                    Some(u) => {
                        prefix.push("AppData");
                        prefix.push("Local");
                        assert(prefix@.map_values(|s: &str| s@) =~= seq!["AppData"@, "Local"@]);
                        u.as_str()
                    },
                    None => return Err(DiscoveryError::NoLocalAppData),
                },
            },
            _ => match &env.home {
                Some(h) => {
                    prefix.push(".config");
                    assert(prefix@.map_values(|s: &str| s@) =~= seq![".config"@]);
                    h.as_str()
                },
                None => return Err(DiscoveryError::NoHome),
            },
        },
    };
    assert(config_dir_plan(*env, *platform) == Some((base@, prefix@.map_values(|s: &str| s@))));
    let hosts = with_tail(&prefix, "github-copilot", "hosts.json");
    let apps = with_tail(&prefix, "github-copilot", "apps.json");
    let mut files: Vec<String> = Vec::new();
    files.push(join_onto(base, &hosts));
    files.push(join_onto(base, &apps));
    Ok(TokenSearch::Files(files))
}

fn with_tail<'a>(prefix: &Vec<&'a str>, a: &'a str, b: &'a str) -> (r: Vec<&'a str>)
    ensures
        r@.map_values(|s: &str| s@) == prefix@.map_values(|s: &str| s@) + seq![a@, b@],
{
    let mut r: Vec<&'a str> = Vec::new();
    let mut i: usize = 0;
    while i < prefix.len()
        invariant
            i <= prefix@.len(),
            r@ == prefix@.take(i as int),
        decreases prefix.len() - i,
    {
        r.push(prefix[i]);
        assert(prefix@.take(i + 1) =~= prefix@.take(i as int).push(prefix@[i as int]));
        i += 1;
    }
    assert(prefix@.take(prefix@.len() as int) =~= prefix@);
    r.push(a);
    r.push(b);
    assert(r@.map_values(|s: &str| s@) =~= prefix@.map_values(|s: &str| s@) + seq![a@, b@]);
    r
}

/// The token in what reading a file gave: `None` where it could not be read,
/// is not JSON, or holds no token.
pub open spec fn token_of_content(content: Option<String>) -> Option<Seq<char>> {
    match content {
        Some(c) => match json_parsed(c@) {
            Some(v) => copilot_token(v),
            None => None,
        },
        None => None,
    }
}

/// The token found in the files of a search: `contents[i]` is what reading
/// `files[i]` gave (`None` where it could not be read); the first file that
/// holds a token gives it, with the file as its source; an error where none
/// does.
pub fn token_from_files(files: &Vec<String>, contents: &Vec<Option<String>>) -> (r: Result<TokenDiscovery, DiscoveryError>)
    requires
        files@.len() == contents@.len(),
    ensures
        r matches Ok(d) ==> exists|i: int|
            0 <= i < files@.len() && d.source@ == files@[i]@ && #[trigger] token_of_content(contents@[i]) == Some(d.token@)
                && forall|j: int| 0 <= j < i ==> #[trigger] token_of_content(contents@[j]) is None,
        r is Err ==> (r matches Err(DiscoveryError::NotFound) && forall|i: int|
            0 <= i < files@.len() ==> #[trigger] token_of_content(contents@[i]) is None),
{
    let mut i: usize = 0;
    while i < files.len()
        invariant
            i <= files@.len(),
            files@.len() == contents@.len(),
            forall|j: int| 0 <= j < i ==> #[trigger] token_of_content(contents@[j]) is None,
        decreases files.len() - i,
    {
        match &contents[i] {
            Some(c) => {
                match parse_github_copilot_token(c.as_str()) {
                    Some(token) => {
                        let d = TokenDiscovery { token, source: files[i].clone() };
                        assert(token_of_content(contents@[i as int]) == Some(d.token@));
                        return Ok(d);
                    },
                    None => {},
                }
            },
            None => {},
        }
        i += 1;
    }
    Err(DiscoveryError::NotFound)
}

} // verus!
