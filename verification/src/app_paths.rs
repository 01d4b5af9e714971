//! Where the application keeps its data, configuration and cache on each
//! desktop platform.
use vstd::prelude::*;

use crate::text::{owned, str_eq};

verus! {

/// A part that `Path::join` lets replace the base rather than append to it:
/// one that starts with a separator or holds a drive or scheme colon.
pub open spec fn rooted(part: Seq<char>) -> bool {
    ||| part.len() > 0 && (part[0] == '/' || part[0] == '\\')
    ||| part.contains(':')
}

/// A Windows verbatim base (`\\?\...`): joining onto it drops `.` and `..`
/// from the part.
pub open spec fn verbatim(base: Seq<char>) -> bool {
    base.len() >= 4 && base[0] == '\\' && base[1] == '\\' && base[2] == '?' && base[3] == '\\'
}

/// A base whose last character separates path components on one platform
/// and not on another (`\`), or that is a bare drive on Windows (`C:`):
/// whether a separator comes between it and the part depends on the platform.
pub open spec fn platform_end(base: Seq<char>) -> bool {
    ||| base.len() > 0 && base.last() == '\\'
    ||| base.len() == 2 && base[1] == ':'
}

/// `r` is `base` with `part` appended: nothing between them onto an empty
/// base or one that ends with `/`; one separator (`/` or `\`) onto any other
/// base, except a base of `platform_end`, onto which none or one comes.
pub open spec fn appended(r: Seq<char>, base: Seq<char>, part: Seq<char>) -> bool {
    if base.len() == 0 || base.last() == '/' {
        r == base + part
    } else if platform_end(base) {
        ||| r == base + part
        ||| r == base + seq!['/'] + part
        ||| r == base + seq!['\\'] + part
    } else {
        ||| r == base + seq!['/'] + part
        ||| r == base + seq!['\\'] + part
    }
}

/// What joining `part` onto `base` gives, on every platform: the part
/// appended to a base that is not verbatim, or, for a rooted part, a path
/// that ends with it (the part alone onto an empty base).
pub open spec fn join_step(r: Seq<char>, base: Seq<char>, part: Seq<char>) -> bool {
    &&& !verbatim(base) ==> part.is_suffix_of(r)
    &&& base.len() == 0 ==> r == part
    &&& !rooted(part) && !verbatim(base) ==> appended(r, base, part)
}

/// `steps` are the paths met on the way: `base`, then each part joined onto
/// the path before.
pub open spec fn steps_join(steps: Seq<Seq<char>>, base: Seq<char>, parts: Seq<Seq<char>>) -> bool {
    &&& steps.len() == parts.len() + 1
    &&& steps[0] == base
    &&& forall|i: int| #![trigger parts[i]] 0 <= i < parts.len() ==> join_step(steps[i + 1], steps[i], parts[i])
}

/// `r` is `base` with `parts` joined onto it in order.
pub open spec fn chained(r: Seq<char>, base: Seq<char>, parts: Seq<Seq<char>>) -> bool {
    exists|steps: Seq<Seq<char>>| #[trigger] steps_join(steps, base, parts) && steps.last() == r
}

/// A base with no parts joined is the base itself.
pub proof fn lemma_chained_none(base: Seq<char>)
    ensures
        chained(base, base, seq![]),
{
    assert(steps_join(seq![base], base, seq![]));
}

/// Joining one more part onto a chain extends the chain.
pub proof fn lemma_chained_push(r: Seq<char>, mid: Seq<char>, base: Seq<char>, parts: Seq<Seq<char>>, part: Seq<char>)
    requires
        chained(mid, base, parts),
        join_step(r, mid, part),
    ensures
        chained(r, base, parts.push(part)),
{
    let steps = choose|steps: Seq<Seq<char>>| steps_join(steps, base, parts) && steps.last() == mid;
    let s2 = steps.push(r);
    let p2 = parts.push(part);
    assert forall|i: int| #![trigger p2[i]] 0 <= i < p2.len() implies join_step(s2[i + 1], s2[i], p2[i]) by {
        if i < parts.len() {
            assert(p2[i] == parts[i]);
        }
    }
    assert(steps_join(s2, base, p2));
}

/// `Path::new(base).join(part)`, as text (`PathBuf::push`). The separator
/// and the parts that count as absolute depend on the platform, so the
/// result is not named; the contract claims what holds on every platform.
/// A part that is not rooted (no leading `/` or `\`, no `:`) is neither
/// absolute nor prefixed anywhere, so it is appended: `push` puts the
/// platform's separator before it exactly when the base is not empty and
/// does not end with a separator, except onto a bare Windows drive. A rooted
/// part replaces all or part of the base, so the result ends with it; onto
/// an empty base the result is the part. Onto a verbatim base Windows drops
/// `.` and `..` from the part, so nothing is claimed of such a base but the
/// empty-base case.
#[verifier::external_body]
pub(crate) fn path_join(base: &str, part: &str) -> (r: String)
    ensures
        join_step(r@, base@, part@),
{
    std::path::Path::new(base).join(part).display().to_string()
}

pub enum DesktopPlatform {
    MacOS,
    Windows,
    Linux,
    Unknown(String),
}

impl DesktopPlatform {
    /// The platform named by `std::env::consts::OS`.
    pub fn from_os_name(os: &str) -> (p: Self)
        ensures
            os@ == "macos"@ ==> p is MacOS,
            os@ == "windows"@ ==> p is Windows,
            os@ == "linux"@ ==> p is Linux,
            os@ != "macos"@ && os@ != "windows"@ && os@ != "linux"@ ==> (p matches DesktopPlatform::Unknown(n)
                && n@ == os@),
    {
        proof {
            reveal_strlit("macos");
            reveal_strlit("windows");
            reveal_strlit("linux");
            assert("macos"@.len() != "windows"@.len());
            assert("macos"@[0] != "linux"@[0]);
            assert("windows"@.len() != "linux"@.len());
        }
        if str_eq(os, "macos") {
            DesktopPlatform::MacOS
        } else if str_eq(os, "windows") {
            DesktopPlatform::Windows
        } else if str_eq(os, "linux") {
            DesktopPlatform::Linux
        } else {
            DesktopPlatform::Unknown(owned(os))
        }
    }

    /// The platform's name.
    pub fn as_str(&self) -> (r: &str)
        ensures
            r@ == platform_name(*self),
    {
        match self {
            DesktopPlatform::MacOS => "macos",
            DesktopPlatform::Windows => "windows",
            DesktopPlatform::Linux => "linux",
            DesktopPlatform::Unknown(value) => value.as_str(),
        }
    }
}

/// The platform's name.
pub open spec fn platform_name(p: DesktopPlatform) -> Seq<char> {
    match p {
        DesktopPlatform::MacOS => "macos"@,
        DesktopPlatform::Windows => "windows"@,
        DesktopPlatform::Linux => "linux"@,
        DesktopPlatform::Unknown(n) => n@,
    }
}

/// The environment variables the paths depend on, as read by the caller.
pub struct PathEnvironment {
    pub home: Option<String>,
    pub userprofile: Option<String>,
    pub appdata: Option<String>,
    pub localappdata: Option<String>,
    pub xdg_data_home: Option<String>,
    pub xdg_config_home: Option<String>,
    pub xdg_cache_home: Option<String>,
}

/// A path to build: a base directory and the parts to join onto it.
pub struct JoinPlan {
    pub base: String,
    pub parts: Vec<String>,
}

/// The directories to build, before joining.
pub struct PathPlan {
    pub home: String,
    pub data: JoinPlan,
    pub config: JoinPlan,
    pub cache: JoinPlan,
}

pub enum PathsError {
    NoHomeDirectory,
}

/// The text of an optional string.
pub open spec fn opt(o: Option<String>) -> Option<Seq<char>> {
    match o {
        Some(s) => Some(s@),
        None => None,
    }
}

/// The user's home: `HOME`, else `USERPROFILE`.
pub open spec fn home_of(env: PathEnvironment) -> Option<Seq<char>> {
    match env.home {
        Some(h) => Some(h@),
        None => opt(env.userprofile),
    }
}

/// The user's home directory: `HOME`, else `USERPROFILE`; an error when
/// neither is set.
pub fn home_dir(env: &PathEnvironment) -> (r: Result<String, PathsError>)
    ensures
        r is Err <==> home_of(*env) is None,
        r matches Ok(h) ==> Some(h@) == home_of(*env),
{
    match &env.home {
        Some(h) => Ok(h.clone()),
        None => match &env.userprofile {
            Some(h) => Ok(h.clone()),
            None => Err(PathsError::NoHomeDirectory),
        },
    }
}

/// A plan is a base and parts with these texts.
pub open spec fn plan_is(p: JoinPlan, plan: (Seq<char>, Seq<Seq<char>>)) -> bool {
    p.base@ == plan.0 && p.parts@.map_values(|s: String| s@) == plan.1
}

/// A variable's value as the base, else the home with `fallback` joined.
pub open spec fn base_or(var: Option<String>, home: Seq<char>, fallback: Seq<char>, tail: Seq<Seq<char>>) -> (Seq<char>, Seq<Seq<char>>) {
    match var {
        Some(v) => (v@, tail),
        None => (home, seq![fallback] + tail),
    }
}

/// Where the data directory is built: macOS under `Library`, Windows under
/// `%APPDATA%`, others under `$XDG_DATA_HOME`, each with a fallback under the
/// home.
pub open spec fn planned_data(app: Seq<char>, platform: DesktopPlatform, env: PathEnvironment) -> (Seq<char>, Seq<Seq<char>>) {
    let home = home_of(env)->0;
    match platform {
        DesktopPlatform::MacOS => (home, seq!["Library/Application Support"@, app]),
        DesktopPlatform::Windows => base_or(env.appdata, home, "AppData/Roaming"@, seq![app]),
        _ => base_or(env.xdg_data_home, home, ".local/share"@, seq![app]),
    }
}

/// Where the configuration directory is built: as the data directory, but
/// under `$XDG_CONFIG_HOME` on the XDG platforms.
pub open spec fn planned_config(app: Seq<char>, platform: DesktopPlatform, env: PathEnvironment) -> (Seq<char>, Seq<Seq<char>>) {
    let home = home_of(env)->0;
    match platform {
        DesktopPlatform::MacOS => (home, seq!["Library/Application Support"@, app]),
        DesktopPlatform::Windows => base_or(env.appdata, home, "AppData/Roaming"@, seq![app]),
        _ => base_or(env.xdg_config_home, home, ".config"@, seq![app]),
    }
}

/// Where the cache directory is built: `Library/Caches` on macOS, a `Cache`
/// folder under `%LOCALAPPDATA%` on Windows, `$XDG_CACHE_HOME` elsewhere.
pub open spec fn planned_cache(app: Seq<char>, platform: DesktopPlatform, env: PathEnvironment) -> (Seq<char>, Seq<Seq<char>>) {
    let home = home_of(env)->0;
    match platform {
        DesktopPlatform::MacOS => (home, seq!["Library/Caches"@, app]),
        DesktopPlatform::Windows => base_or(env.localappdata, home, "AppData/Local"@, seq![app, "Cache"@]),
        _ => base_or(env.xdg_cache_home, home, ".cache"@, seq![app]),
    }
}

/// On macOS and Windows the data and the configuration of an application
/// share one directory.
pub proof fn law_data_and_config_share_a_directory(app: Seq<char>, platform: DesktopPlatform, env: PathEnvironment)
    requires
        platform is MacOS || platform is Windows,
    ensures
        planned_data(app, platform, env) == planned_config(app, platform, env),
{
}

/// The plan follows the platform's conventions.
pub open spec fn plan_spec(app: Seq<char>, platform: DesktopPlatform, env: PathEnvironment, p: PathPlan) -> bool {
    &&& p.home@ == home_of(env)->0
    &&& plan_is(p.data, planned_data(app, platform, env))
    &&& plan_is(p.config, planned_config(app, platform, env))
    &&& plan_is(p.cache, planned_cache(app, platform, env))
}

fn parts1(a: &str) -> (r: Vec<String>)
    ensures
        r@.map_values(|s: String| s@) == seq![a@],
{
    let mut r: Vec<String> = Vec::new();
    r.push(owned(a));
    assert(r@.map_values(|s: String| s@) =~= seq![a@]);
    r
}

fn parts2(a: &str, b: &str) -> (r: Vec<String>)
    ensures
        r@.map_values(|s: String| s@) == seq![a@, b@],
{
    let mut r: Vec<String> = Vec::new();
    r.push(owned(a));
    r.push(owned(b));
    assert(r@.map_values(|s: String| s@) =~= seq![a@, b@]);
    r
}

fn parts3(a: &str, b: &str, c: &str) -> (r: Vec<String>)
    ensures
        r@.map_values(|s: String| s@) == seq![a@, b@, c@],
{
    let mut r: Vec<String> = Vec::new();
    r.push(owned(a));
    r.push(owned(b));
    r.push(owned(c));
    assert(r@.map_values(|s: String| s@) =~= seq![a@, b@, c@]);
    r
}

fn with_fallback1(var: &Option<String>, home: &str, fallback: &str, app: &str) -> (p: JoinPlan)
    ensures
        plan_is(p, base_or(*var, home@, fallback@, seq![app@])),
{
    match var {
        Some(v) => JoinPlan { base: v.clone(), parts: parts1(app) },
        None => {
            let r = JoinPlan { base: owned(home), parts: parts2(fallback, app) };
            assert(seq![fallback@] + seq![app@] =~= seq![fallback@, app@]);
            r
        },
    }
}

fn with_fallback2(var: &Option<String>, home: &str, fallback: &str, app: &str, last: &str) -> (p: JoinPlan)
    ensures
        plan_is(p, base_or(*var, home@, fallback@, seq![app@, last@])),
{
    match var {
        Some(v) => JoinPlan { base: v.clone(), parts: parts2(app, last) },
        None => {
            let r = JoinPlan { base: owned(home), parts: parts3(fallback, app, last) };
            assert(seq![fallback@] + seq![app@, last@] =~= seq![fallback@, app@, last@]);
            r
        },
    }
}

impl PathPlan {
    /// The directories of `app` on `platform`, before joining; an error when
    /// neither `HOME` nor `USERPROFILE` is set.
    pub fn new(app: &str, platform: &DesktopPlatform, env: &PathEnvironment) -> (r: Result<PathPlan, PathsError>)
        ensures
            r is Err <==> home_of(*env) is None,
            r matches Ok(p) ==> plan_spec(app@, *platform, *env, p),
    {
        let home = match home_dir(env) {
            Ok(h) => h,
            Err(e) => return Err(e),
        };
        let h = home.as_str();
        let plan = match platform {
            DesktopPlatform::MacOS => {
                let data = JoinPlan { base: owned(h), parts: parts2("Library/Application Support", app) };
                let config = JoinPlan { base: owned(h), parts: parts2("Library/Application Support", app) };
                let cache = JoinPlan { base: owned(h), parts: parts2("Library/Caches", app) };
                PathPlan { home: owned(h), data, config, cache }
            },
            DesktopPlatform::Windows => PathPlan {
                home: owned(h),
                data: with_fallback1(&env.appdata, h, "AppData/Roaming", app),
                config: with_fallback1(&env.appdata, h, "AppData/Roaming", app),
                cache: with_fallback2(&env.localappdata, h, "AppData/Local", app, "Cache"),
            },
            _ => PathPlan {
                home: owned(h),
                data: with_fallback1(&env.xdg_data_home, h, ".local/share", app),
                config: with_fallback1(&env.xdg_config_home, h, ".config", app),
                cache: with_fallback1(&env.xdg_cache_home, h, ".cache", app),
            },
        };
        Ok(plan)
    }
}

/// The plan's parts joined onto its base in order.
pub fn join_all(p: &JoinPlan) -> (r: String)
    ensures
        chained(r@, p.base@, p.parts@.map_values(|s: String| s@)),
{
    let ghost parts = p.parts@.map_values(|s: String| s@);
    let mut r = p.base.clone();
    let ghost mut steps: Seq<Seq<char>> = seq![p.base@];
    let mut i: usize = 0;
    while i < p.parts.len()
        invariant
            i <= p.parts@.len(),
            parts == p.parts@.map_values(|s: String| s@),
            steps_join(steps, p.base@, parts.take(i as int)),
            steps.last() == r@,
        decreases p.parts.len() - i,
    {
        let ghost mid = r@;
        r = path_join(r.as_str(), p.parts[i].as_str());
        proof {
            let old_steps = steps;
            steps = steps.push(r@);
            let t = parts.take(i + 1);
            assert forall|j: int| #![trigger t[j]] 0 <= j < t.len() implies join_step(steps[j + 1], steps[j], t[j]) by {
                if j < i {
                    assert(t[j] == parts.take(i as int)[j]);
                } else {
                    assert(t[j] == p.parts@[i as int]@);
                }
            }
        }
        i += 1;
    }
    assert(parts.take(p.parts@.len() as int) =~= parts);
    r
}

pub struct AppPaths {
    pub app_name: String,
    pub platform: DesktopPlatform,
    pub home_dir: String,
    pub data_dir: String,
    pub config_dir: String,
    pub cache_dir: String,
}

impl AppPaths {
    /// The directories of `app_name` on `platform`, each its planned base with
    /// its planned parts joined on; an error when neither `HOME` nor
    /// `USERPROFILE` is set.
    pub fn discover(app_name: &str, platform: DesktopPlatform, env: &PathEnvironment) -> (r: Result<AppPaths, PathsError>)
        ensures
            r is Err <==> home_of(*env) is None,
            r matches Ok(p) ==> {
                &&& p.app_name@ == app_name@
                &&& p.platform == platform
                &&& Some(p.home_dir@) == home_of(*env)
                &&& chained(p.data_dir@, planned_data(app_name@, platform, *env).0, planned_data(app_name@, platform, *env).1)
                &&& chained(p.config_dir@, planned_config(app_name@, platform, *env).0, planned_config(app_name@, platform, *env).1)
                &&& chained(p.cache_dir@, planned_cache(app_name@, platform, *env).0, planned_cache(app_name@, platform, *env).1)
            },
    {
        let plan = match PathPlan::new(app_name, &platform, env) {
            Ok(p) => p,
            Err(e) => return Err(e),
        };
        let data_dir = join_all(&plan.data);
        let config_dir = join_all(&plan.config);
        let cache_dir = join_all(&plan.cache);
        Ok(AppPaths { app_name: owned(app_name), platform, home_dir: plan.home, data_dir, config_dir, cache_dir })
    }

    /// The data directory.
    pub fn data_dir_path(&self) -> (r: &str)
        ensures
            r@ == self.data_dir@,
    {
        self.data_dir.as_str()
    }

    /// The configuration directory.
    pub fn config_dir_path(&self) -> (r: &str)
        ensures
            r@ == self.config_dir@,
    {
        self.config_dir.as_str()
    }

    /// The cache directory.
    pub fn cache_dir_path(&self) -> (r: &str)
        ensures
            r@ == self.cache_dir@,
    {
        self.cache_dir.as_str()
    }
}

} // verus!
