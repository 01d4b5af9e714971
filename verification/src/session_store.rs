//! Saved runs: where they are kept, what a saved run records, and the
//! summaries that list them.
use vstd::prelude::*;

use crate::app_paths::{
    chained, home_of, join_step, lemma_chained_none, lemma_chained_push, path_join, planned_data, AppPaths,
    DesktopPlatform, PathEnvironment, PathsError,
};
use crate::clock::{unix_timestamp, unix_timestamp_millis, ClockError};
use crate::context::Context;
use crate::message::clone_opt;
use crate::session::SessionRun;
use crate::sorting::{sort_by_key, sorted_by_key, SortKey};
use crate::text::{
    chars_of, concat2, decimal, decimal_string, join, lemma_seq_lt_irreflexive, lemma_seq_lt_total,
    lemma_seq_lt_transitive, push_char, seq_lt, str_eq, str_lt, string_of_range, words, words_of, join_strings,
};

verus! {

/// A run as it is saved: who ran it, where, and with what result.
pub struct StoredSession {
    pub id: String,
    pub created_at_unix: u64,
    pub cwd: String,
    pub repository_root: Option<String>,
    pub provider: String,
    pub model: String,
    pub agent: String,
    pub iterations: usize,
    pub final_message: String,
    pub run: SessionRun,
}

/// One line of the list of saved runs.
pub struct SessionSummary {
    pub id: String,
    pub created_at_unix: u64,
    pub cwd: String,
    pub repository_root: Option<String>,
    pub provider: String,
    pub model: String,
    pub agent: String,
    pub iterations: usize,
    pub final_message_preview: String,
}

/// A summary with its strings as text.
pub struct SummaryView {
    pub id: Seq<char>,
    pub created_at_unix: u64,
    pub cwd: Seq<char>,
    pub repository_root: Option<Seq<char>>,
    pub provider: Seq<char>,
    pub model: Seq<char>,
    pub agent: Seq<char>,
    pub iterations: usize,
    pub final_message_preview: Seq<char>,
}

impl View for SessionSummary {
    type V = SummaryView;

    open spec fn view(&self) -> SummaryView {
        SummaryView {
            id: self.id@,
            created_at_unix: self.created_at_unix,
            cwd: self.cwd@,
            repository_root: crate::message::opt_view(self.repository_root),
            provider: self.provider@,
            model: self.model@,
            agent: self.agent@,
            iterations: self.iterations,
            final_message_preview: self.final_message_preview@,
        }
    }
}

/// The longest a listed final message is shown.
pub const PREVIEW_CHARS: usize = 96;

/// `value` with its whitespace runs collapsed to single spaces and trimmed;
/// past `max_chars` characters, its first `max_chars - 1` characters and `…`.
pub open spec fn preview(value: Seq<char>, max_chars: nat) -> Seq<char> {
    let compact = join(words(value), " "@);
    if compact.len() <= max_chars {
        compact
    } else {
        compact.take(if max_chars == 0 { 0int } else { max_chars - 1 }) + seq!['\u{2026}']
    }
}

/// A preview never runs past its limit: with room for at least one
/// character it holds at most `max_chars` characters, and a text that fits is
/// shown whole, only its whitespace collapsed.
pub proof fn law_preview_fits(value: Seq<char>, max_chars: nat)
    requires
        max_chars >= 1,
    ensures
        preview(value, max_chars).len() <= max_chars,
        join(words(value), " "@).len() <= max_chars ==> preview(value, max_chars) == join(words(value), " "@),
{
}

/// A message shortened for a list (`preview`).
pub fn preview_text(value: &str, max_chars: usize) -> (r: String)
    ensures
        r@ == preview(value@, max_chars as nat),
{
    let parts = words_of(value);
    let compact = join_strings(&parts, " ");
    let chars = chars_of(compact.as_str());
    if chars.len() <= max_chars {
        return compact;
    }
    let keep: usize = if max_chars == 0 { 0 } else { max_chars - 1 };
    let mut r = string_of_range(&chars, 0, keep);
    push_char(&mut r, '\u{2026}');
    assert(r@ =~= compact@.take(keep as int) + seq!['\u{2026}']);
    r
}

/// The summary that lists a saved run.
pub open spec fn summary_view_of(s: StoredSession) -> SummaryView {
    SummaryView {
        id: s.id@,
        created_at_unix: s.created_at_unix,
        cwd: s.cwd@,
        repository_root: crate::message::opt_view(s.repository_root),
        provider: s.provider@,
        model: s.model@,
        agent: s.agent@,
        iterations: s.iterations,
        final_message_preview: preview(s.final_message@, PREVIEW_CHARS as nat),
    }
}

/// The summary of a saved run.
pub fn summarize(s: &StoredSession) -> (r: SessionSummary)
    ensures
        r@ == summary_view_of(*s),
{
    SessionSummary {
        id: s.id.clone(),
        created_at_unix: s.created_at_unix,
        cwd: s.cwd.clone(),
        repository_root: clone_opt(&s.repository_root),
        provider: s.provider.clone(),
        model: s.model.clone(),
        agent: s.agent.clone(),
        iterations: s.iterations,
        final_message_preview: preview_text(s.final_message.as_str(), PREVIEW_CHARS),
    }
}

/// Newer runs first; runs saved in the same second by id.
impl SortKey for StoredSession {
    open spec fn before(&self, other: &Self) -> bool {
        ||| self.created_at_unix > other.created_at_unix
        ||| self.created_at_unix == other.created_at_unix && seq_lt(self.id@, other.id@)
    }

    fn goes_before(&self, other: &Self) -> (r: bool) {
        if self.created_at_unix != other.created_at_unix {
            self.created_at_unix > other.created_at_unix
        } else {
            str_lt(self.id.as_str(), other.id.as_str())
        }
    }

    proof fn lemma_strict_weak_order(a: &Self, b: &Self, c: &Self) {
        lemma_seq_lt_irreflexive(a.id@);
        if seq_lt(a.id@, b.id@) && seq_lt(b.id@, c.id@) {
            lemma_seq_lt_transitive(a.id@, b.id@, c.id@);
        }
        lemma_seq_lt_total(a.id@, b.id@);
        lemma_seq_lt_total(b.id@, c.id@);
        lemma_seq_lt_total(a.id@, c.id@);
        if seq_lt(c.id@, b.id@) && seq_lt(b.id@, a.id@) {
            lemma_seq_lt_transitive(c.id@, b.id@, a.id@);
        }
        if seq_lt(a.id@, c.id@) && seq_lt(c.id@, a.id@) {
            lemma_seq_lt_transitive(a.id@, c.id@, a.id@);
        }
    }
}

/// The summaries of saved runs, newest first and, within a second, by id.
pub fn summaries(stored: Vec<StoredSession>) -> (r: Vec<SessionSummary>)
    ensures
        exists|order: Seq<StoredSession>|
            #![trigger order.to_multiset()]
            order.to_multiset() == stored@.to_multiset()
            && sorted_by_key(order)
            && r@.map_values(|x: SessionSummary| x@) == order.map_values(|s: StoredSession| summary_view_of(s)),
{
    let sorted = sort_by_key(stored);
    let mut r: Vec<SessionSummary> = Vec::new();
    let mut i: usize = 0;
    while i < sorted.len()
        invariant
            i <= sorted@.len(),
            r@.len() == i,
            forall|j: int| 0 <= j < i ==> (#[trigger] r@[j])@ == summary_view_of(sorted@[j]),
        decreases sorted.len() - i,
    {
        r.push(summarize(&sorted[i]));
        i += 1;
    }
    assert(r@.map_values(|x: SessionSummary| x@) =~= sorted@.map_values(|s: StoredSession| summary_view_of(s)));
    r
}

/// Whether a file name has the extension `json` as `Path::extension` reads
/// it: the text after the last dot, when that dot is not the name's first
/// character.
pub open spec fn json_file_name(name: Seq<char>) -> bool {
    &&& name.len() > 5
    &&& name.subrange(name.len() - 5, name.len() as int) == ".json"@
}

/// Whether a directory entry holds a saved run.
pub fn is_session_file(name: &str) -> (r: bool)
    ensures
        r == json_file_name(name@),
{
    proof {
        reveal_strlit(".json");
    }
    let chars = chars_of(name);
    let n = chars.len();
    if n <= 5 {
        return false;
    }
    let tail = string_of_range(&chars, n - 5, n);
    str_eq(tail.as_str(), ".json")
}

/// The id a run is saved under: its own, unless that is the placeholder
/// `session` or empty, in which case `session-` and the time in milliseconds.
pub open spec fn stored_id(session_id: Seq<char>, millis: nat) -> Seq<char> {
    if session_id == "session"@ || session_id.len() == 0 {
        "session-"@ + decimal(millis)
    } else {
        session_id
    }
}

/// The record saved for a run, made at `created_at_unix` seconds and
/// `millis` milliseconds since the epoch.
pub fn stored_session(run: SessionRun, created_at_unix: u64, millis: u128) -> (s: StoredSession)
    ensures
        s.id@ == stored_id(run.session.id@, millis as nat),
        s.created_at_unix == created_at_unix,
        s.cwd == run.session.cwd,
        s.repository_root == run.session.repository_root,
        s.provider == run.session.provider.provider_id,
        s.model == run.session.provider.model_id,
        s.agent == run.session.agent.name,
        s.iterations == run.iterations,
        s.final_message == run.final_message,
        s.run == run,
{
    proof {
        reveal_strlit("");
    }
    let id = if str_eq(run.session.id.as_str(), "session") || str_eq(run.session.id.as_str(), "") {
        let digits = decimal_string(millis);
        concat2("session-", digits.as_str())
    } else {
        assert(run.session.id@.len() == 0 ==> run.session.id@ =~= ""@);
        run.session.id.clone()
    };
    StoredSession {
        id,
        created_at_unix,
        cwd: run.session.cwd.clone(),
        repository_root: clone_opt(&run.session.repository_root),
        provider: run.session.provider.provider_id.clone(),
        model: run.session.provider.model_id.clone(),
        agent: run.session.agent.name.clone(),
        iterations: run.iterations,
        final_message: run.final_message.clone(),
        run,
    }
}

/// The record saved for a run made now: stamped with the clock's seconds
/// and, for a placeholder id, its milliseconds; an error when the clock
/// cannot be read.
pub fn record_run(run: SessionRun) -> (r: Result<StoredSession, ClockError>)
    ensures
        r matches Ok(s) ==> {
            &&& exists|millis: nat| #[trigger] stored_id(run.session.id@, millis) == s.id@
            &&& s.cwd == run.session.cwd
            &&& s.repository_root == run.session.repository_root
            &&& s.provider == run.session.provider.provider_id
            &&& s.model == run.session.provider.model_id
            &&& s.agent == run.session.agent.name
            &&& s.iterations == run.iterations
            &&& s.final_message == run.final_message
            &&& s.run == run
        },
{
    let created = match unix_timestamp() {
        Ok(t) => t,
        Err(e) => return Err(e),
    };
    let millis = match unix_timestamp_millis() {
        Ok(m) => m,
        Err(e) => return Err(e),
    };
    let s = stored_session(run, created, millis);
    assert(stored_id(run.session.id@, millis as nat) == s.id@);
    Ok(s)
}

/// Where saved runs are kept: a directory of `<id>.json` files.
pub struct SessionStore {
    root: String,
}

impl View for SessionStore {
    type V = Seq<char>;

    closed spec fn view(&self) -> Seq<char> {
        self.root@
    }
}

impl SessionStore {
    /// The store under `.rovdex/sessions` of the repository root, or of the
    /// working directory outside a repository.
    pub fn for_context(context: &Context) -> (s: Self)
        ensures
            chained(
                s@,
                match context.repository_root {
                    Some(root) => root@,
                    None => context.cwd@,
                },
                seq![".rovdex"@, "sessions"@],
            ),
    {
        let base = context.root_dir();
        let first = path_join(base.as_str(), ".rovdex");
        let root = path_join(first.as_str(), "sessions");
        proof {
            lemma_chained_none(base@);
            lemma_chained_push(first@, base@, base@, seq![], ".rovdex"@);
            lemma_chained_push(root@, first@, base@, seq![".rovdex"@], "sessions"@);
            assert(seq![".rovdex"@].push("sessions"@) =~= seq![".rovdex"@, "sessions"@]);
        }
        SessionStore { root }
    }

    /// The store under `sessions` in the application's data directory; an
    /// error when the home directory is unknown.
    pub fn for_app(app_name: &str, platform: DesktopPlatform, env: &PathEnvironment) -> (r: Result<Self, PathsError>)
        ensures
            r is Err <==> home_of(*env) is None,
            r matches Ok(s) ==> chained(
                s@,
                planned_data(app_name@, platform, *env).0,
                planned_data(app_name@, platform, *env).1.push("sessions"@),
            ),
    {
        let paths = match AppPaths::discover(app_name, platform, env) {
            Ok(p) => p,
            Err(e) => return Err(e),
        };
        let root = path_join(paths.data_dir_path(), "sessions");
        proof {
            lemma_chained_push(
                root@,
                paths.data_dir@,
                planned_data(app_name@, platform, *env).0,
                planned_data(app_name@, platform, *env).1,
                "sessions"@,
            );
        }
        Ok(SessionStore { root })
    }

    pub fn new(root: &str) -> (s: Self)
        ensures
            s@ == root@,
    {
        SessionStore { root: String::from_str(root) }
    }

    /// The directory the runs are kept in.
    pub fn root(&self) -> (r: &str)
        ensures
            r@ == self@,
    {
        self.root.as_str()
    }

    /// The file of the run `id`: `<id>.json` in the store's directory.
    pub fn path_for(&self, id: &str) -> (r: String)
        ensures
            join_step(r@, self@, id@ + ".json"@),
    {
        let name = concat2(id, ".json");
        path_join(self.root.as_str(), name.as_str())
    }
}

} // verus!
