//! The standard tools: their specifications, how they read their input, and
//! the results they build from what the file system and the shell give.
use vstd::prelude::*;

use crate::app_paths::{join_step, path_join, rooted};
use crate::context::Context;
use crate::json::{as_text, field, flag_field, text_field, JsonValue};
use crate::pattern::{compile_regex, regex_error, regex_is_match, regex_matches, CompiledRegex};
use crate::strmap::StrMap;
use crate::engine::spec_names;
use crate::tool::ToolSpec;
use crate::sorting::{sort_by_key, sorted_by_key, SortKey};
use crate::text::{
    chars_of, concat2, concat3, contains, count_matches, count_matches_exec, decimal, has_substring, join_strings,
    lemma_seq_lt_irreflexive, lemma_seq_lt_total, lemma_seq_lt_transitive, lines, lines_of, owned, replace_all,
    replace_all_exec, replace_first, replace_first_exec, seq_lt, str_lt, string_of_range, trim, trim_str, usize_string,
    views,
};

verus! {

// ---------------------------------------------------------------------------
// Errors
// ---------------------------------------------------------------------------

/// Why a tool could not run on its input.
pub enum ToolError {
    MissingField(String),
    UnknownTool(String),
    NotARepository,
    EditTargetNotFound(String),
    EditTargetNotUnique(String, usize),
    InvalidRegex(String),
}

impl ToolError {
    pub fn message(&self) -> (r: String)
        ensures
            r@ == match self {
                ToolError::MissingField(f) => "missing required string field: "@ + f@,
                ToolError::UnknownTool(n) => "unknown tool: "@ + n@,
                ToolError::NotARepository => "git_status requires a git repository"@,
                ToolError::EditTargetNotFound(p) => "edit target not found in "@ + p@,
                ToolError::EditTargetNotUnique(p, n) => "edit target must appear exactly once in "@ + p@ + " but found "@
                    + decimal(*n as nat) + " matches"@,
                ToolError::InvalidRegex(e) => e@,
            },
    {
        match self {
            ToolError::MissingField(f) => concat2("missing required string field: ", f.as_str()),
            ToolError::UnknownTool(n) => concat2("unknown tool: ", n.as_str()),
            ToolError::NotARepository => owned("git_status requires a git repository"),
            ToolError::EditTargetNotFound(p) => concat2("edit target not found in ", p.as_str()),
            ToolError::EditTargetNotUnique(p, n) => {
                let head = concat3("edit target must appear exactly once in ", p.as_str(), " but found ");
                let count = usize_string(*n);
                concat3(head.as_str(), count.as_str(), " matches")
            },
            ToolError::InvalidRegex(e) => e.clone(),
        }
    }
}

// ---------------------------------------------------------------------------
// Reading the input
// ---------------------------------------------------------------------------

/// The string field `name` of the input; an error where it is missing or not
/// a string.
pub fn required_string(input: &JsonValue, name: &str) -> (r: Result<String, ToolError>)
    ensures
        match r {
            Ok(s) => text_field(*input, name@) == Some(s@),
            Err(e) => text_field(*input, name@) is None && (e matches ToolError::MissingField(f) && f@ == name@),
        },
{
    match input.text_field(name) {
        Some(s) => Ok(owned(s)),
        None => Err(ToolError::MissingField(owned(name))),
    }
}

/// The boolean field `name` of the input, or `default` where it is missing or
/// not a boolean.
pub fn flag_or(input: &JsonValue, name: &str, default: bool) -> (r: bool)
    ensures
        r == match flag_field(*input, name@) {
            Some(b) => b,
            None => default,
        },
{
    match input.flag_field(name) {
        Some(b) => b,
        None => default,
    }
}

/// The text naming a path in a tool's input: the input itself when it is a
/// string, its `path` string field when it is an object, else nothing.
pub open spec fn raw_path(input: JsonValue) -> Seq<char> {
    match input {
        JsonValue::String(s) => s@,
        JsonValue::Object(_) => match text_field(input, "path"@) {
            Some(p) => p,
            None => seq![],
        },
        _ => seq![],
    }
}

/// `Path::is_absolute`. Which rooted paths are absolute depends on the
/// platform, so the result is not named; the contract claims what holds on
/// every platform: a path that starts with no separator and holds no colon is
/// relative.
#[verifier::external_body]
pub(crate) fn is_absolute(path: &str) -> (r: bool)
    ensures
        !rooted(path@) ==> !r,
{
    std::path::Path::new(path).is_absolute()
}

/// Where a path given as `raw` leads from `cwd`: the working directory for an
/// empty path, an absolute path as it is, any other joined onto `cwd`.
pub open spec fn resolved(r: Seq<char>, cwd: Seq<char>, raw: Seq<char>) -> bool {
    if raw.len() == 0 {
        r == cwd
    } else if rooted(raw) {
        r == raw || join_step(r, cwd, raw)
    } else {
        join_step(r, cwd, raw)
    }
}

fn resolve_text(context: &Context, raw: &str) -> (r: String)
    ensures
        resolved(r@, context.cwd@, raw@),
{
    proof {
        reveal_strlit("");
        assert(raw@.len() == 0 ==> raw@ =~= ""@);
    }
    if crate::text::str_eq(raw, "") {
        return context.cwd.clone();
    }
    if is_absolute(raw) {
        owned(raw)
    } else {
        path_join(context.cwd.as_str(), raw)
    }
}

/// The path a tool works on: the trimmed text of `raw_path`, resolved from the
/// working directory.
pub fn resolve_path(context: &Context, input: &JsonValue) -> (r: String)
    ensures
        resolved(r@, context.cwd@, trim(raw_path(*input))),
{
    let raw: String = match input {
        JsonValue::String(s) => s.clone(),
        JsonValue::Object(_) => match input.text_field("path") {
            Some(p) => owned(p),
            None => String::new(),
        },
        _ => String::new(),
    };
    let trimmed = trim_str(raw.as_str());
    resolve_text(context, trimmed.as_str())
}

/// The path a tool's `name` field gives (untrimmed), resolved from the
/// working directory; the working directory where the field is missing.
pub fn resolve_named_path(context: &Context, input: &JsonValue, name: &str) -> (r: String)
    ensures
        resolved(
            r@,
            context.cwd@,
            match text_field(*input, name@) {
                Some(t) => t,
                None => seq![],
            },
        ),
{
    match input.text_field(name) {
        Some(t) => resolve_text(context, t),
        None => {
            proof {
                reveal_strlit("");
            }
            resolve_text(context, "")
        },
    }
}

// ---------------------------------------------------------------------------
// Building JSON
// ---------------------------------------------------------------------------

fn text(s: &str) -> (v: JsonValue)
    ensures
        as_text(v) == Some(s@),
{
    JsonValue::String(owned(s))
}

/// An object whose fields have the given keys, in order.
pub open spec fn has_keys(v: JsonValue, keys: Seq<Seq<char>>) -> bool {
    match v {
        JsonValue::Object(f) => f@.len() == keys.len() && forall|i: int| 0 <= i < keys.len() ==> #[trigger] f@[i].0@ == keys[i],
        _ => false,
    }
}

/// The value of the `i`-th field of an object.
pub open spec fn field_at(v: JsonValue, i: int) -> JsonValue {
    match v {
        JsonValue::Object(f) => f@[i].1,
        _ => JsonValue::Null,
    }
}

/// A JSON string with this text.
pub open spec fn is_text(v: JsonValue, s: Seq<char>) -> bool {
    as_text(v) == Some(s)
}

/// A JSON number with this decimal text.
pub open spec fn is_number(v: JsonValue, n: nat) -> bool {
    v matches JsonValue::Number(t) && t@ == decimal(n)
}

/// A JSON array of strings with these texts.
pub open spec fn is_text_array(v: JsonValue, items: Seq<Seq<char>>) -> bool {
    match v {
        JsonValue::Array(a) => a@.len() == items.len() && forall|i: int| 0 <= i < items.len() ==> #[trigger] as_text(a@[i])
            == Some(items[i]),
        _ => false,
    }
}

fn text_array(items: &Vec<String>) -> (v: JsonValue)
    ensures
        is_text_array(v, views(items@)),
{
    let mut a: Vec<JsonValue> = Vec::new();
    let mut i: usize = 0;
    while i < items.len()
        invariant
            i <= items@.len(),
            a@.len() == i,
            forall|j: int| 0 <= j < i ==> #[trigger] as_text(a@[j]) == Some(items@[j]@),
        decreases items.len() - i,
    {
        a.push(JsonValue::String(items[i].clone()));
        i += 1;
    }
    JsonValue::Array(a)
}

fn object2(k0: &str, v0: JsonValue, k1: &str, v1: JsonValue) -> (v: JsonValue)
    ensures
        has_keys(v, seq![k0@, k1@]),
        field_at(v, 0) == v0,
        field_at(v, 1) == v1,
{
    let mut f: Vec<(String, JsonValue)> = Vec::new();
    f.push((owned(k0), v0));
    f.push((owned(k1), v1));
    JsonValue::Object(f)
}

fn object3(k0: &str, v0: JsonValue, k1: &str, v1: JsonValue, k2: &str, v2: JsonValue) -> (v: JsonValue)
    ensures
        has_keys(v, seq![k0@, k1@, k2@]),
        field_at(v, 0) == v0,
        field_at(v, 1) == v1,
        field_at(v, 2) == v2,
{
    let mut f: Vec<(String, JsonValue)> = Vec::new();
    f.push((owned(k0), v0));
    f.push((owned(k1), v1));
    f.push((owned(k2), v2));
    JsonValue::Object(f)
}

fn object4(k0: &str, v0: JsonValue, k1: &str, v1: JsonValue, k2: &str, v2: JsonValue, k3: &str, v3: JsonValue) -> (v: JsonValue)
    ensures
        has_keys(v, seq![k0@, k1@, k2@, k3@]),
        field_at(v, 0) == v0,
        field_at(v, 1) == v1,
        field_at(v, 2) == v2,
        field_at(v, 3) == v3,
{
    let mut f: Vec<(String, JsonValue)> = Vec::new();
    f.push((owned(k0), v0));
    f.push((owned(k1), v1));
    f.push((owned(k2), v2));
    f.push((owned(k3), v3));
    JsonValue::Object(f)
}

/// An input schema: an object that allows no other property, with the given
/// properties (name and JSON type, in key order) and required fields.
pub open spec fn is_object_schema(v: JsonValue, props: Seq<(Seq<char>, Seq<char>)>, required: Seq<Seq<char>>) -> bool {
    &&& has_keys(v, if required.len() == 0 {
        seq!["additionalProperties"@, "properties"@, "type"@]
    } else {
        seq!["additionalProperties"@, "properties"@, "required"@, "type"@]
    })
    &&& field_at(v, 0) == JsonValue::Bool(false)
    &&& has_keys(field_at(v, 1), props.map_values(|p: (Seq<char>, Seq<char>)| p.0))
    &&& forall|i: int|
        0 <= i < props.len() ==> {
            &&& has_keys(#[trigger] field_at(field_at(v, 1), i), seq!["type"@])
            &&& is_text(field_at(field_at(field_at(v, 1), i), 0), props[i].1)
        }
    &&& required.len() > 0 ==> is_text_array(field_at(v, 2), required)
    &&& is_text(field_at(v, if required.len() == 0 { 2int } else { 3int }), "object"@)
}

fn object_schema(props: &Vec<(&str, &str)>, required: &Vec<&str>) -> (v: JsonValue)
    ensures
        is_object_schema(
            v,
            props@.map_values(|p: (&str, &str)| (p.0@, p.1@)),
            required@.map_values(|s: &str| s@),
        ),
{
    let ghost pv = props@.map_values(|p: (&str, &str)| (p.0@, p.1@));
    let mut pf: Vec<(String, JsonValue)> = Vec::new();
    let mut i: usize = 0;
    while i < props.len()
        invariant
            i <= props@.len(),
            pv == props@.map_values(|p: (&str, &str)| (p.0@, p.1@)),
            pf@.len() == i,
            forall|j: int| 0 <= j < i ==> #[trigger] pf@[j].0@ == pv[j].0,
            forall|j: int|
                0 <= j < i ==> {
                    &&& has_keys(#[trigger] pf@[j].1, seq!["type"@])
                    &&& is_text(field_at(pf@[j].1, 0), pv[j].1)
                },
        decreases props.len() - i,
    {
        let mut t: Vec<(String, JsonValue)> = Vec::new();
        t.push((owned("type"), text(props[i].1)));
        pf.push((owned(props[i].0), JsonValue::Object(t)));
        i += 1;
    }
    let properties = JsonValue::Object(pf);
    let mut req: Vec<JsonValue> = Vec::new();
    let mut k: usize = 0;
    while k < required.len()
        invariant
            k <= required@.len(),
            req@.len() == k,
            forall|j: int| 0 <= j < k ==> #[trigger] as_text(req@[j]) == Some(required@[j]@),
        decreases required.len() - k,
    {
        req.push(text(required[k]));
        k += 1;
    }
    let v = if required.len() == 0 {
        object3("additionalProperties", JsonValue::Bool(false), "properties", properties, "type", text("object"))
    } else {
        object4(
            "additionalProperties",
            JsonValue::Bool(false),
            "properties",
            properties,
            "required",
            JsonValue::Array(req),
            "type",
            text("object"),
        )
    };
    proof {
        assert(has_keys(field_at(v, 1), pv.map_values(|p: (Seq<char>, Seq<char>)| p.0)));
    }
    v
}

// ---------------------------------------------------------------------------
// The tools
// ---------------------------------------------------------------------------

/// A tool's specification: its name, description and input schema.
pub open spec fn is_spec(t: ToolSpec, name: Seq<char>, description: Seq<char>, props: Seq<(Seq<char>, Seq<char>)>, required: Seq<Seq<char>>) -> bool {
    &&& t.name@ == name
    &&& t.description@ == description
    &&& is_object_schema(t.input_schema, props, required)
}

fn make_spec(name: &str, description: &str, props: Vec<(&str, &str)>, required: Vec<&str>) -> (t: ToolSpec)
    ensures
        is_spec(t, name@, description@, props@.map_values(|p: (&str, &str)| (p.0@, p.1@)), required@.map_values(|s: &str| s@)),
{
    ToolSpec::new(name, description).with_input_schema(object_schema(&props, &required))
}

/// Shows the working directory and the repository root.
pub struct CurrentDirectoryTool;

/// Lists a directory.
pub struct ListDirectoryTool;

/// Reads a text file.
pub struct ReadFileTool;

/// Shows `git status --short` of the repository.
pub struct GitStatusTool;

/// Matches files against a glob pattern.
pub struct GlobTool;

/// Searches text in the files under a directory.
pub struct GrepTool;

/// Writes a file.
pub struct WriteFileTool;

/// Replaces text in a file.
pub struct EditFileTool;

/// Runs a shell command.
pub struct BashTool;

impl CurrentDirectoryTool {
    pub fn spec(&self) -> (t: ToolSpec)
        ensures
            is_spec(t, "current_directory"@, "Show the working directory and repository root"@, seq![], seq![]),
    {
        let t = make_spec("current_directory", "Show the working directory and repository root", Vec::new(), Vec::new());
        proof {
            assert(Seq::<(&str, &str)>::empty().map_values(|p: (&str, &str)| (p.0@, p.1@)) =~= seq![]);
            assert(Seq::<&str>::empty().map_values(|s: &str| s@) =~= seq![]);
        }
        t
    }

    /// The output: the working directory, and the repository root or
    /// `<none>`.
    pub fn call(&self, context: &Context) -> (r: JsonValue)
        ensures
            has_keys(r, seq!["cwd"@, "repository_root"@]),
            is_text(field_at(r, 0), context.cwd@),
            is_text(field_at(r, 1), match context.repository_root {
                Some(root) => root@,
                None => "<none>"@,
            }),
    {
        let root = match &context.repository_root {
            Some(root) => root.clone(),
            None => owned("<none>"),
        };
        object2("cwd", JsonValue::String(context.cwd.clone()), "repository_root", JsonValue::String(root))
    }
}

/// A directory entry: its name and whether it is a directory.
pub struct DirEntry {
    pub name: String,
    pub is_dir: bool,
}

impl SortKey for DirEntry {
    open spec fn before(&self, other: &Self) -> bool {
        seq_lt(self.name@, other.name@)
    }

    fn goes_before(&self, other: &Self) -> (r: bool) {
        str_lt(self.name.as_str(), other.name.as_str())
    }

    proof fn lemma_strict_weak_order(a: &Self, b: &Self, c: &Self) {
        lemma_seq_lt_irreflexive(a.name@);
        if seq_lt(a.name@, b.name@) && seq_lt(b.name@, c.name@) {
            lemma_seq_lt_transitive(a.name@, b.name@, c.name@);
        }
        lemma_seq_lt_total(a.name@, b.name@);
        lemma_seq_lt_total(b.name@, c.name@);
        if seq_lt(a.name@, c.name@) && !seq_lt(a.name@, b.name@) && !seq_lt(b.name@, c.name@) {
            if a.name@ == b.name@ {
            } else if b.name@ == c.name@ {
            } else {
                lemma_seq_lt_transitive(c.name@, b.name@, a.name@);
                lemma_seq_lt_total(a.name@, c.name@);
            }
        }
    }
}

/// A listed entry: an object of `kind` (`directory` or `file`) and `name`.
pub open spec fn is_entry(v: JsonValue, e: DirEntry) -> bool {
    &&& has_keys(v, seq!["kind"@, "name"@])
    &&& is_text(field_at(v, 0), if e.is_dir { "directory"@ } else { "file"@ })
    &&& is_text(field_at(v, 1), e.name@)
}

impl ListDirectoryTool {
    pub fn spec(&self) -> (t: ToolSpec)
        ensures
            is_spec(t, "list_directory"@, "List files in a directory"@, seq![("path"@, "string"@)], seq![]),
    {
        let mut props: Vec<(&str, &str)> = Vec::new();
        props.push(("path", "string"));
        let t = make_spec("list_directory", "List files in a directory", props, Vec::new());
        proof {
            assert(props@.map_values(|p: (&str, &str)| (p.0@, p.1@)) =~= seq![("path"@, "string"@)]);
            assert(Seq::<&str>::empty().map_values(|s: &str| s@) =~= seq![]);
        }
        t
    }

    /// The output for the directory `path` holding `entries`: the path, and
    /// the entries ordered by name.
    pub fn call(&self, path: &str, entries: Vec<DirEntry>) -> (r: JsonValue)
        ensures
            has_keys(r, seq!["entries"@, "path"@]),
            is_text(field_at(r, 1), path@),
            field_at(r, 0) matches JsonValue::Array(items) && exists|order: Seq<DirEntry>|
                #![trigger order.to_multiset()]
                order.to_multiset() == entries@.to_multiset() && sorted_by_key(order) && items@.len() == order.len()
                    && forall|i: int| 0 <= i < order.len() ==> is_entry(#[trigger] items@[i], order[i]),
    {
        let sorted = sort_by_key(entries);
        let mut items: Vec<JsonValue> = Vec::new();
        let mut i: usize = 0;
        while i < sorted.len()
            invariant
                i <= sorted@.len(),
                items@.len() == i,
                forall|j: int| 0 <= j < i ==> is_entry(#[trigger] items@[j], sorted@[j]),
            decreases sorted.len() - i,
        {
            let kind = if sorted[i].is_dir { "directory" } else { "file" };
            items.push(object2("kind", text(kind), "name", JsonValue::String(sorted[i].name.clone())));
            i += 1;
        }
        object2("entries", JsonValue::Array(items), "path", text(path))
    }
}

impl ReadFileTool {
    pub fn spec(&self) -> (t: ToolSpec)
        ensures
            is_spec(t, "read_file"@, "Read a text file from the workspace"@, seq![("path"@, "string"@)], seq!["path"@]),
    {
        let mut props: Vec<(&str, &str)> = Vec::new();
        props.push(("path", "string"));
        let mut required: Vec<&str> = Vec::new();
        required.push("path");
        let t = make_spec("read_file", "Read a text file from the workspace", props, required);
        proof {
            assert(props@.map_values(|p: (&str, &str)| (p.0@, p.1@)) =~= seq![("path"@, "string"@)]);
            assert(required@.map_values(|s: &str| s@) =~= seq!["path"@]);
        }
        t
    }

    /// The output for the file `path` holding `content`.
    pub fn call(&self, path: &str, content: String) -> (r: JsonValue)
        ensures
            has_keys(r, seq!["content"@, "path"@]),
            is_text(field_at(r, 0), content@),
            is_text(field_at(r, 1), path@),
    {
        object2("content", JsonValue::String(content), "path", text(path))
    }
}

impl GitStatusTool {
    pub fn spec(&self) -> (t: ToolSpec)
        ensures
            is_spec(t, "git_status"@, "Show git status for the repository"@, seq![], seq![]),
    {
        let t = make_spec("git_status", "Show git status for the repository", Vec::new(), Vec::new());
        proof {
            assert(Seq::<(&str, &str)>::empty().map_values(|p: (&str, &str)| (p.0@, p.1@)) =~= seq![]);
            assert(Seq::<&str>::empty().map_values(|s: &str| s@) =~= seq![]);
        }
        t
    }

    /// The repository to run `git status` in; an error outside a repository.
    pub fn repository<'a>(&self, context: &'a Context) -> (r: Result<&'a String, ToolError>)
        ensures
            match (r, context.repository_root) {
                (Ok(root), Some(x)) => *root == x,
                (Err(e), None) => e is NotARepository,
                _ => false,
            },
    {
        match &context.repository_root {
            Some(root) => Ok(root),
            None => Err(ToolError::NotARepository),
        }
    }

    /// The output for the repository `root` whose `git status --short`
    /// printed `stdout`: its trimmed lines, and whether there are none.
    pub fn call(&self, root: &str, stdout: &str) -> (r: JsonValue)
        ensures
            has_keys(r, seq!["clean"@, "entries"@, "repository_root"@]),
            field_at(r, 0) == JsonValue::Bool(lines(trim(stdout@)).len() == 0),
            is_text_array(field_at(r, 1), lines(trim(stdout@))),
            is_text(field_at(r, 2), root@),
    {
        let trimmed = trim_str(stdout);
        let entries = lines_of(trimmed.as_str());
        let clean = entries.len() == 0;
        object3("clean", JsonValue::Bool(clean), "entries", text_array(&entries), "repository_root", text(root))
    }
}

/// A match of the glob tool.
pub struct GlobMatch {
    pub path: String,
}

impl SortKey for GlobMatch {
    open spec fn before(&self, other: &Self) -> bool {
        seq_lt(self.path@, other.path@)
    }

    fn goes_before(&self, other: &Self) -> (r: bool) {
        str_lt(self.path.as_str(), other.path.as_str())
    }

    proof fn lemma_strict_weak_order(a: &Self, b: &Self, c: &Self) {
        lemma_seq_lt_irreflexive(a.path@);
        if seq_lt(a.path@, b.path@) && seq_lt(b.path@, c.path@) {
            lemma_seq_lt_transitive(a.path@, b.path@, c.path@);
        }
        lemma_seq_lt_total(a.path@, b.path@);
        lemma_seq_lt_total(b.path@, c.path@);
        if seq_lt(a.path@, c.path@) && !seq_lt(a.path@, b.path@) && !seq_lt(b.path@, c.path@) {
            if a.path@ == b.path@ {
            } else if b.path@ == c.path@ {
            } else {
                lemma_seq_lt_transitive(c.path@, b.path@, a.path@);
                lemma_seq_lt_total(a.path@, c.path@);
            }
        }
    }
}

/// What the glob tool searches: the base directory and the full pattern.
pub struct GlobSearch {
    pub base: String,
    pub pattern: String,
}

impl GlobTool {
    pub fn spec(&self) -> (t: ToolSpec)
        ensures
            is_spec(t, "glob"@, "Match files using a glob pattern"@, seq![("base"@, "string"@), ("pattern"@, "string"@)], seq!["pattern"@]),
    {
        let mut props: Vec<(&str, &str)> = Vec::new();
        props.push(("base", "string"));
        props.push(("pattern", "string"));
        let mut required: Vec<&str> = Vec::new();
        required.push("pattern");
        let t = make_spec("glob", "Match files using a glob pattern", props, required);
        proof {
            assert(props@.map_values(|p: (&str, &str)| (p.0@, p.1@)) =~= seq![("base"@, "string"@), ("pattern"@, "string"@)]);
            assert(required@.map_values(|s: &str| s@) =~= seq!["pattern"@]);
        }
        t
    }

    /// The search an input asks for: the `base` field resolved from the
    /// working directory, and the `pattern` field, joined onto the base
    /// unless it is absolute; an error where `pattern` is missing.
    pub fn search(&self, context: &Context, input: &JsonValue) -> (r: Result<GlobSearch, ToolError>)
        ensures
            match r {
                Ok(s) => text_field(*input, "pattern"@) matches Some(p) && resolved(
                    s.base@,
                    context.cwd@,
                    match text_field(*input, "base"@) {
                        Some(t) => t,
                        None => seq![],
                    },
                ) && (if rooted(p) {
                    s.pattern@ == p || join_step(s.pattern@, s.base@, p)
                } else {
                    join_step(s.pattern@, s.base@, p)
                }),
                Err(e) => text_field(*input, "pattern"@) is None && (e matches ToolError::MissingField(f) && f@
                    == "pattern"@),
            },
    {
        let base = resolve_named_path(context, input, "base");
        let pattern = match required_string(input, "pattern") {
            Ok(p) => p,
            Err(e) => return Err(e),
        };
        let pattern = if is_absolute(pattern.as_str()) {
            pattern
        } else {
            path_join(base.as_str(), pattern.as_str())
        };
        Ok(GlobSearch { base, pattern })
    }

    /// The output for a search and the paths it matched, ordered.
    pub fn call(&self, search: &GlobSearch, matches: Vec<GlobMatch>) -> (r: JsonValue)
        ensures
            has_keys(r, seq!["base"@, "matches"@, "pattern"@]),
            is_text(field_at(r, 0), search.base@),
            is_text(field_at(r, 2), search.pattern@),
            exists|order: Seq<GlobMatch>|
                #![trigger order.to_multiset()]
                order.to_multiset() == matches@.to_multiset() && sorted_by_key(order) && is_text_array(
                    field_at(r, 1),
                    order.map_values(|m: GlobMatch| m.path@),
                ),
    {
        let sorted = sort_by_key(matches);
        let mut paths: Vec<String> = Vec::new();
        let mut i: usize = 0;
        while i < sorted.len()
            invariant
                i <= sorted@.len(),
                paths@.len() == i,
                forall|j: int| 0 <= j < i ==> #[trigger] paths@[j]@ == sorted@[j].path@,
            decreases sorted.len() - i,
        {
            paths.push(sorted[i].path.clone());
            i += 1;
        }
        assert(views(paths@) =~= sorted@.map_values(|m: GlobMatch| m.path@));
        object3("base", JsonValue::String(search.base.clone()), "matches", text_array(&paths), "pattern", JsonValue::String(search.pattern.clone()))
    }
}

// ---------------------------------------------------------------------------
// grep
// ---------------------------------------------------------------------------

/// Whether a line is a match: it holds the pattern, or, for a regular
/// expression, the expression matches in it.
pub open spec fn line_matches(pattern: Seq<char>, is_regex: bool, line: Seq<char>) -> bool {
    if is_regex {
        regex_is_match(pattern, line)
    } else {
        has_substring(line, pattern)
    }
}

/// The indices of the matching lines, in order.
pub open spec fn hits(ls: Seq<Seq<char>>, pattern: Seq<char>, is_regex: bool) -> Seq<int>
    decreases ls.len(),
{
    if ls.len() == 0 {
        seq![]
    } else if line_matches(pattern, is_regex, ls.last()) {
        hits(ls.drop_last(), pattern, is_regex).push(ls.len() - 1)
    } else {
        hits(ls.drop_last(), pattern, is_regex)
    }
}

/// A literal search matches a line exactly when the pattern occurs in it,
/// at any position.
pub proof fn law_literal_search_finds_pattern_anywhere(pattern: Seq<char>, line: Seq<char>)
    ensures
        line_matches(pattern, false, line) <==> exists|i: int|
            0 <= i && i + pattern.len() <= line.len() && #[trigger] line.subrange(i, i + pattern.len()) == pattern,
{
    if line_matches(pattern, false, line) {
        let i = choose|i: int| #[trigger] crate::text::occurs_at(line, pattern, i);
        assert(line.subrange(i, i + pattern.len()) == pattern);
    }
    if exists|i: int| 0 <= i && i + pattern.len() <= line.len() && #[trigger] line.subrange(i, i + pattern.len()) == pattern {
        let i = choose|i: int|
            0 <= i && i + pattern.len() <= line.len() && #[trigger] line.subrange(i, i + pattern.len()) == pattern;
        assert(crate::text::occurs_at(line, pattern, i));
    }
}

/// A literal grep of a text reports, in order, exactly the lines in which
/// the pattern occurs: an index is among the hits if and only if its line
/// contains the pattern.
pub proof fn law_literal_grep_reports_containing_lines(ls: Seq<Seq<char>>, pattern: Seq<char>)
    ensures
        forall|k: int|
            0 <= k < ls.len() ==> (hits(ls, pattern, false).contains(k) <==> exists|i: int|
                0 <= i && i + pattern.len() <= ls[k].len() && #[trigger] ls[k].subrange(i, i + pattern.len())
                    == pattern),
        forall|a: int, b: int|
            0 <= a < b < hits(ls, pattern, false).len() ==> hits(ls, pattern, false)[a] < hits(ls, pattern, false)[b],
        forall|a: int| 0 <= a < hits(ls, pattern, false).len() ==> 0 <= #[trigger] hits(ls, pattern, false)[a] < ls.len(),
    decreases ls.len(),
{
    if ls.len() > 0 {
        let prev = ls.drop_last();
        law_literal_grep_reports_containing_lines(prev, pattern);
        let hp = hits(prev, pattern, false);
        let h = hits(ls, pattern, false);
        assert forall|k: int| 0 <= k < ls.len() implies (h.contains(k) <==> exists|i: int|
            0 <= i && i + pattern.len() <= ls[k].len() && #[trigger] ls[k].subrange(i, i + pattern.len()) == pattern) by {
            law_literal_search_finds_pattern_anywhere(pattern, ls[k]);
            if k < ls.len() - 1 {
                assert(prev[k] == ls[k]);
                if h.contains(k) {
                    let j = choose|j: int| 0 <= j < h.len() && h[j] == k;
                    if j < hp.len() {
                        assert(h[j] == hp[j]);
                    }
                }
                if hp.contains(k) {
                    let j = choose|j: int| 0 <= j < hp.len() && hp[j] == k;
                    assert(h[j] == hp[j]);
                }
            } else {
                if h.contains(k) {
                    let j = choose|j: int| 0 <= j < h.len() && h[j] == k;
                    if j < hp.len() {
                        assert(h[j] == hp[j]);
                    }
                }
                if line_matches(pattern, false, ls.last()) {
                    assert(h[hp.len() as int] == k);
                }
            }
        }
    }
}

/// A reported match: the line, its number (from 1), and the file.
pub open spec fn is_grep_match(v: JsonValue, path: Seq<char>, line: Seq<char>, number: nat) -> bool {
    &&& has_keys(v, seq!["line"@, "line_number"@, "path"@])
    &&& is_text(field_at(v, 0), line)
    &&& is_number(field_at(v, 1), number)
    &&& is_text(field_at(v, 2), path)
}

/// `out` reports the lines at the indices `hs` of `ls`, in order.
pub open spec fn grep_reported(out: Seq<JsonValue>, hs: Seq<int>, path: Seq<char>, ls: Seq<Seq<char>>) -> bool {
    &&& out.len() == hs.len()
    &&& forall|k: int| 0 <= k < out.len() ==> is_grep_match(#[trigger] out[k], path, ls[hs[k]], (hs[k] + 1) as nat)
}

/// What the grep tool searches: under `base`, for `pattern`.
pub struct GrepSearch {
    pub base: String,
    pub pattern: String,
    pub is_regex: bool,
    pub regex: Option<CompiledRegex>,
}

impl GrepSearch {
    /// A literal search holds no regex; a regex search holds the compiled
    /// pattern.
    pub closed spec fn wf(&self) -> bool {
        if self.is_regex {
            self.regex matches Some(c) && c.source() == self.pattern@
        } else {
            self.regex is None
        }
    }
}

impl GrepTool {
    pub fn spec(&self) -> (t: ToolSpec)
        ensures
            is_spec(
                t,
                "grep"@,
                "Search text in files under a directory"@,
                seq![("is_regex"@, "boolean"@), ("path"@, "string"@), ("pattern"@, "string"@)],
                seq!["pattern"@],
            ),
    {
        let mut props: Vec<(&str, &str)> = Vec::new();
        props.push(("is_regex", "boolean"));
        props.push(("path", "string"));
        props.push(("pattern", "string"));
        let mut required: Vec<&str> = Vec::new();
        required.push("pattern");
        let t = make_spec("grep", "Search text in files under a directory", props, required);
        proof {
            assert(props@.map_values(|p: (&str, &str)| (p.0@, p.1@)) =~= seq![
                ("is_regex"@, "boolean"@),
                ("path"@, "string"@),
                ("pattern"@, "string"@),
            ]);
            assert(required@.map_values(|s: &str| s@) =~= seq!["pattern"@]);
        }
        t
    }

    /// The search an input asks for: under the input's path, for its
    /// `pattern`, a regular expression where `is_regex` says so; an error
    /// where `pattern` is missing or does not compile.
    pub fn search(&self, context: &Context, input: &JsonValue) -> (r: Result<GrepSearch, ToolError>)
        ensures
            match text_field(*input, "pattern"@) {
                None => r matches Err(ToolError::MissingField(f)) && f@ == "pattern"@,
                Some(p) => {
                    let is_regex = match flag_field(*input, "is_regex"@) {
                        Some(b) => b,
                        None => false,
                    };
                    match r {
                        Ok(s) => {
                            &&& s.wf()
                            &&& s.pattern@ == p
                            &&& s.is_regex == is_regex
                            &&& resolved(s.base@, context.cwd@, trim(raw_path(*input)))
                            &&& is_regex ==> regex_error(p) is None
                        },
                        Err(e) => is_regex && match (regex_error(p), e) {
                            (Some(t), ToolError::InvalidRegex(m)) => m@ == t,
                            _ => false,
                        },
                    }
                },
            },
    {
        let base = resolve_path(context, input);
        let pattern = match required_string(input, "pattern") {
            Ok(p) => p,
            Err(e) => return Err(e),
        };
        let is_regex = flag_or(input, "is_regex", false);
        let regex = if is_regex {
            match compile_regex(pattern.as_str()) {
                Ok(c) => Some(c),
                Err(e) => return Err(ToolError::InvalidRegex(e)),
            }
        } else {
            None
        };
        Ok(GrepSearch { base, pattern, is_regex, regex })
    }

    /// Whether `line` is a match of the search.
    pub fn matches_line(&self, search: &GrepSearch, line: &str) -> (r: bool)
        requires
            search.wf(),
        ensures
            r == line_matches(search.pattern@, search.is_regex, line@),
    {
        match &search.regex {
            Some(re) => regex_matches(re, line),
            None => contains(line, search.pattern.as_str()),
        }
    }

    /// The matches in the file `path` holding `content`, line by line.
    pub fn file_matches(&self, search: &GrepSearch, path: &str, content: &str) -> (r: Vec<JsonValue>)
        requires
            search.wf(),
        ensures
            grep_reported(r@, hits(lines(content@), search.pattern@, search.is_regex), path@, lines(content@)),
    {
        let ls = lines_of(content);
        let ghost lv = views(ls@);
        let mut out: Vec<JsonValue> = Vec::new();
        let mut i: usize = 0;
        while i < ls.len()
            invariant
                i <= ls@.len(),
                lv == views(ls@),
                lv == lines(content@),
                search.wf(),
                grep_reported(out@, hits(lv.take(i as int), search.pattern@, search.is_regex), path@, lv),
                forall|k: int| 0 <= k < out@.len() ==> #[trigger] hits(lv.take(i as int), search.pattern@, search.is_regex)[k] < i,
            decreases ls.len() - i,
        {
            let ghost before = hits(lv.take(i as int), search.pattern@, search.is_regex);
            let ghost old_out = out@;
            assert(lv.take(i + 1).drop_last() =~= lv.take(i as int));
            assert(lv.take(i + 1).last() == ls@[i as int]@);
            assert(lv[i as int] == ls@[i as int]@);
            if self.matches_line(search, ls[i].as_str()) {
                let number = usize_string(i + 1);
                let item = object3("line", JsonValue::String(ls[i].clone()), "line_number", JsonValue::Number(number), "path", text(path));
                assert(is_grep_match(item, path@, lv[i as int], (i + 1) as nat));
                out.push(item);
                proof {
                    let after = hits(lv.take(i + 1), search.pattern@, search.is_regex);
                    assert(after == before.push(i as int));
                    assert forall|k: int| 0 <= k < out@.len() implies is_grep_match(#[trigger] out@[k], path@, lv[after[k]], (after[k] + 1) as nat) by {
                        if k < before.len() {
                            assert(after[k] == before[k]);
                            assert(out@[k] == old_out[k]);
                        } else {
                            assert(after[k] == i as int);
                            assert(out@[k] == item);
                        }
                    }
                    assert forall|k: int| 0 <= k < out@.len() implies #[trigger] after[k] < i + 1 by {
                        if k < before.len() {
                            assert(after[k] == before[k]);
                        }
                    }
                    assert(grep_reported(out@, after, path@, lv));
                }
            } else {
                proof {
                    let after = hits(lv.take(i + 1), search.pattern@, search.is_regex);
                    assert(after == before);
                }
            }
            i += 1;
        }
        assert(lv.take(ls@.len() as int) =~= lv);
        out
    }

    /// The output of a search, with its matches in the order found.
    pub fn call(&self, search: &GrepSearch, matches: Vec<JsonValue>) -> (r: JsonValue)
        ensures
            has_keys(r, seq!["is_regex"@, "matches"@, "path"@, "pattern"@]),
            field_at(r, 0) == JsonValue::Bool(search.is_regex),
            field_at(r, 1) == JsonValue::Array(matches),
            is_text(field_at(r, 2), search.base@),
            is_text(field_at(r, 3), search.pattern@),
    {
        object4(
            "is_regex",
            JsonValue::Bool(search.is_regex),
            "matches",
            JsonValue::Array(matches),
            "path",
            JsonValue::String(search.base.clone()),
            "pattern",
            JsonValue::String(search.pattern.clone()),
        )
    }
}

// ---------------------------------------------------------------------------
// write
// ---------------------------------------------------------------------------

/// `str::len`: the length of the text's UTF-8 encoding.
#[verifier::external_body]
fn byte_len(s: &str) -> (r: usize)
    ensures
        r == vstd::utf8::encode_utf8(s@).len(),
{
    s.len()
}

/// What the write tool writes: `content` to `path`, creating the missing
/// parent directories first where `create_parents` says so.
pub struct WritePlan {
    pub path: String,
    pub content: String,
    pub create_parents: bool,
}

impl WriteFileTool {
    pub fn spec(&self) -> (t: ToolSpec)
        ensures
            is_spec(
                t,
                "write"@,
                "Write content to a file in the workspace"@,
                seq![("content"@, "string"@), ("create_parents"@, "boolean"@), ("path"@, "string"@)],
                seq!["path"@, "content"@],
            ),
    {
        let mut props: Vec<(&str, &str)> = Vec::new();
        props.push(("content", "string"));
        props.push(("create_parents", "boolean"));
        props.push(("path", "string"));
        let mut required: Vec<&str> = Vec::new();
        required.push("path");
        required.push("content");
        let t = make_spec("write", "Write content to a file in the workspace", props, required);
        proof {
            assert(props@.map_values(|p: (&str, &str)| (p.0@, p.1@)) =~= seq![
                ("content"@, "string"@),
                ("create_parents"@, "boolean"@),
                ("path"@, "string"@),
            ]);
            assert(required@.map_values(|s: &str| s@) =~= seq!["path"@, "content"@]);
        }
        t
    }

    /// What an input asks to write: its `content` to its path, creating
    /// parents unless `create_parents` is false; an error where `content` is
    /// missing.
    pub fn plan(&self, context: &Context, input: &JsonValue) -> (r: Result<WritePlan, ToolError>)
        ensures
            match text_field(*input, "content"@) {
                None => r matches Err(ToolError::MissingField(f)) && f@ == "content"@,
                Some(c) => r matches Ok(w) && w.content@ == c && resolved(w.path@, context.cwd@, trim(raw_path(*input)))
                    && w.create_parents == match flag_field(*input, "create_parents"@) {
                    Some(b) => b,
                    None => true,
                },
            },
    {
        let path = resolve_path(context, input);
        let content = match required_string(input, "content") {
            Ok(c) => c,
            Err(e) => return Err(e),
        };
        let create_parents = flag_or(input, "create_parents", true);
        Ok(WritePlan { path, content, create_parents })
    }

    /// The output once the plan was carried out: the path and the number of
    /// bytes written.
    pub fn call(&self, plan: &WritePlan) -> (r: JsonValue)
        ensures
            has_keys(r, seq!["bytes_written"@, "path"@]),
            is_number(field_at(r, 0), vstd::utf8::encode_utf8(plan.content@).len()),
            is_text(field_at(r, 1), plan.path@),
    {
        let n = byte_len(plan.content.as_str());
        object2("bytes_written", JsonValue::Number(usize_string(n)), "path", JsonValue::String(plan.path.clone()))
    }
}

// ---------------------------------------------------------------------------
// edit
// ---------------------------------------------------------------------------

/// What the edit tool changes: `old_text` into `new_text` in the file at
/// `path`, at every occurrence or at the only one.
pub struct EditPlan {
    pub path: String,
    pub old_text: String,
    pub new_text: String,
    pub replace_all: bool,
}

/// The text after an edit: every occurrence replaced, or the first.
pub open spec fn edited(content: Seq<char>, old_text: Seq<char>, new_text: Seq<char>, all: bool) -> Seq<char> {
    if all {
        replace_all(content, old_text, new_text)
    } else {
        replace_first(content, old_text, new_text)
    }
}

impl EditFileTool {
    pub fn spec(&self) -> (t: ToolSpec)
        ensures
            is_spec(
                t,
                "edit"@,
                "Replace text in an existing file"@,
                seq![("new_text"@, "string"@), ("old_text"@, "string"@), ("path"@, "string"@), ("replace_all"@, "boolean"@)],
                seq!["path"@, "old_text"@, "new_text"@],
            ),
    {
        let mut props: Vec<(&str, &str)> = Vec::new();
        props.push(("new_text", "string"));
        props.push(("old_text", "string"));
        props.push(("path", "string"));
        props.push(("replace_all", "boolean"));
        let mut required: Vec<&str> = Vec::new();
        required.push("path");
        required.push("old_text");
        required.push("new_text");
        let t = make_spec("edit", "Replace text in an existing file", props, required);
        proof {
            assert(props@.map_values(|p: (&str, &str)| (p.0@, p.1@)) =~= seq![
                ("new_text"@, "string"@),
                ("old_text"@, "string"@),
                ("path"@, "string"@),
                ("replace_all"@, "boolean"@),
            ]);
            assert(required@.map_values(|s: &str| s@) =~= seq!["path"@, "old_text"@, "new_text"@]);
        }
        t
    }

    /// What an input asks to change; an error where `old_text` or then
    /// `new_text` is missing.
    pub fn plan(&self, context: &Context, input: &JsonValue) -> (r: Result<EditPlan, ToolError>)
        ensures
            match (text_field(*input, "old_text"@), text_field(*input, "new_text"@)) {
                (None, _) => r matches Err(ToolError::MissingField(f)) && f@ == "old_text"@,
                (Some(_), None) => r matches Err(ToolError::MissingField(f)) && f@ == "new_text"@,
                (Some(o), Some(n)) => r matches Ok(e) && e.old_text@ == o && e.new_text@ == n
                    && resolved(e.path@, context.cwd@, trim(raw_path(*input)))
                    && e.replace_all == match flag_field(*input, "replace_all"@) {
                    Some(b) => b,
                    None => false,
                },
            },
    {
        let path = resolve_path(context, input);
        let old_text = match required_string(input, "old_text") {
            Ok(t) => t,
            Err(e) => return Err(e),
        };
        let new_text = match required_string(input, "new_text") {
            Ok(t) => t,
            Err(e) => return Err(e),
        };
        let replace_all = flag_or(input, "replace_all", false);
        Ok(EditPlan { path, old_text, new_text, replace_all })
    }

    /// The edit of `content`: the new text and the output; an error where the
    /// old text does not occur, or occurs more than once and not every
    /// occurrence is to be replaced.
    pub fn apply(&self, plan: &EditPlan, content: &str) -> (r: Result<(String, JsonValue), ToolError>)
        ensures
            ({
                let n = count_matches(content@, plan.old_text@);
                match r {
                    Ok((next, out)) => {
                        &&& n > 0
                        &&& plan.replace_all || n == 1
                        &&& next@ == edited(content@, plan.old_text@, plan.new_text@, plan.replace_all)
                        &&& has_keys(out, seq!["occurrences"@, "path"@, "replace_all"@])
                        &&& is_number(field_at(out, 0), n)
                        &&& is_text(field_at(out, 1), plan.path@)
                        &&& field_at(out, 2) == JsonValue::Bool(plan.replace_all)
                    },
                    Err(e) => if n == 0 {
                        e matches ToolError::EditTargetNotFound(p) && p@ == plan.path@
                    } else {
                        !plan.replace_all && n != 1 && match e {
                            ToolError::EditTargetNotUnique(p, k) => p@ == plan.path@ && k == n,
                            _ => false,
                        }
                    },
                }
            }),
    {
        let text_chars = chars_of(content);
        let old_chars = chars_of(plan.old_text.as_str());
        let new_chars = chars_of(plan.new_text.as_str());
        let n = count_matches_exec(&text_chars, &old_chars);
        if n == 0 {
            return Err(ToolError::EditTargetNotFound(plan.path.clone()));
        }
        if !plan.replace_all && n != 1 {
            return Err(ToolError::EditTargetNotUnique(plan.path.clone(), n));
        }
        let next_chars = if plan.replace_all {
            replace_all_exec(&text_chars, &old_chars, &new_chars)
        } else {
            replace_first_exec(&text_chars, &old_chars, &new_chars)
        };
        let next = string_of_range(&next_chars, 0, next_chars.len());
        assert(next_chars@.subrange(0, next_chars@.len() as int) =~= next_chars@);
        let out = object3(
            "occurrences",
            JsonValue::Number(usize_string(n)),
            "path",
            JsonValue::String(plan.path.clone()),
            "replace_all",
            JsonValue::Bool(plan.replace_all),
        );
        Ok((next, out))
    }
}

// ---------------------------------------------------------------------------
// bash
// ---------------------------------------------------------------------------

/// Decimal text of a signed integer.
pub open spec fn signed_decimal(n: int) -> Seq<char> {
    if n < 0 {
        seq!['-'] + decimal((-n) as nat)
    } else {
        decimal(n as nat)
    }
}

fn i32_string(n: i32) -> (r: String)
    ensures
        r@ == signed_decimal(n as int),
{
    if n < 0 {
        proof {
            reveal_strlit("-");
        }
        let w: i64 = 0i64 - n as i64;
        assert(w == -(n as int));
        let m: u128 = w as u128;
        assert(m == -(n as int));
        let digits = crate::text::decimal_string(m);
        concat2("-", digits.as_str())
    } else {
        crate::text::decimal_string(n as u128)
    }
}

/// What the bash tool runs: `command` in the directory `cwd`.
pub struct BashPlan {
    pub command: String,
    pub cwd: String,
}

impl BashTool {
    pub fn spec(&self) -> (t: ToolSpec)
        ensures
            is_spec(t, "bash"@, "Run a shell command in the workspace"@, seq![("command"@, "string"@), ("cwd"@, "string"@)], seq!["command"@]),
    {
        let mut props: Vec<(&str, &str)> = Vec::new();
        props.push(("command", "string"));
        props.push(("cwd", "string"));
        let mut required: Vec<&str> = Vec::new();
        required.push("command");
        let t = make_spec("bash", "Run a shell command in the workspace", props, required);
        proof {
            assert(props@.map_values(|p: (&str, &str)| (p.0@, p.1@)) =~= seq![("command"@, "string"@), ("cwd"@, "string"@)]);
            assert(required@.map_values(|s: &str| s@) =~= seq!["command"@]);
        }
        t
    }

    /// What an input asks to run: its `command`, in its `cwd` resolved from
    /// the working directory; an error where `command` is missing.
    pub fn plan(&self, context: &Context, input: &JsonValue) -> (r: Result<BashPlan, ToolError>)
        ensures
            match text_field(*input, "command"@) {
                None => r matches Err(ToolError::MissingField(f)) && f@ == "command"@,
                Some(c) => r matches Ok(b) && b.command@ == c && resolved(
                    b.cwd@,
                    context.cwd@,
                    match text_field(*input, "cwd"@) {
                        Some(t) => t,
                        None => seq![],
                    },
                ),
            },
    {
        let command = match required_string(input, "command") {
            Ok(c) => c,
            Err(e) => return Err(e),
        };
        let cwd = resolve_named_path(context, input, "cwd");
        Ok(BashPlan { command, cwd })
    }

    /// The output once the command ran: its exit code (where it has one),
    /// whether it succeeded, and what it printed, trimmed.
    pub fn call(&self, plan: &BashPlan, status: Option<i32>, success: bool, stdout: &str, stderr: &str) -> (r: JsonValue)
        ensures
            has_keys(r, seq!["command"@, "cwd"@, "status"@, "stderr"@, "stdout"@, "success"@]),
            is_text(field_at(r, 0), plan.command@),
            is_text(field_at(r, 1), plan.cwd@),
            match status {
                Some(code) => field_at(r, 2) matches JsonValue::Number(t) && t@ == signed_decimal(code as int),
                None => field_at(r, 2) == JsonValue::Null,
            },
            is_text(field_at(r, 3), trim(stderr@)),
            is_text(field_at(r, 4), trim(stdout@)),
            field_at(r, 5) == JsonValue::Bool(success),
    {
        let code = match status {
            Some(c) => JsonValue::Number(i32_string(c)),
            None => JsonValue::Null,
        };
        let mut f: Vec<(String, JsonValue)> = Vec::new();
        f.push((owned("command"), JsonValue::String(plan.command.clone())));
        f.push((owned("cwd"), JsonValue::String(plan.cwd.clone())));
        f.push((owned("status"), code));
        f.push((owned("stderr"), JsonValue::String(trim_str(stderr))));
        f.push((owned("stdout"), JsonValue::String(trim_str(stdout))));
        f.push((owned("success"), JsonValue::Bool(success)));
        JsonValue::Object(f)
    }
}

// ---------------------------------------------------------------------------
// The registry
// ---------------------------------------------------------------------------

/// The registered tools' specifications, by name.
pub struct ToolRegistry {
    pub tools: StrMap<ToolSpec>,
}

impl ToolRegistry {
    /// Each tool is registered under its own name.
    pub open spec fn wf(&self) -> bool {
        &&& self.tools.wf()
        &&& forall|i: int| 0 <= i < self.tools.size() ==> (#[trigger] self.tools.value(i)).name@ == self.tools.key(i)
    }

    pub fn new() -> (r: Self)
        ensures
            r.wf(),
            forall|k: Seq<char>| !#[trigger] r.tools.has_key(k),
    {
        ToolRegistry { tools: StrMap::new() }
    }

    /// Registers a tool under its name, in place of any tool of that name.
    pub fn register(&mut self, spec: ToolSpec)
        requires
            old(self).wf(),
        ensures
            final(self).wf(),
            final(self).tools.get_spec(spec.name@) == Some(spec),
            forall|k: Seq<char>| k != spec.name@ ==> #[trigger] final(self).tools.get_spec(k) == old(self).tools.get_spec(k),
            forall|k: Seq<char>| #[trigger] final(self).tools.has_key(k) <==> (old(self).tools.has_key(k) || k == spec.name@),
    {
        let ghost before = self.tools;
        let ghost key = spec.name@;
        let name = spec.name.clone();
        self.tools.insert(name, spec);
        proof {
            assert forall|i: int| 0 <= i < self.tools.size() implies (#[trigger] self.tools.value(i)).name@ == self.tools.key(i) by {
                self.tools.lemma_get_at(i);
                let k = self.tools.key(i);
                if k != key {
                    assert(before.has_key(k));
                    let j = before.index_of(k);
                    before.lemma_get_at(j);
                }
            }
        }
    }

    /// Whether a tool of that name is registered.
    pub fn contains(&self, name: &str) -> (r: bool)
        requires
            self.wf(),
        ensures
            r == self.tools.has_key(name@),
    {
        self.tools.contains_key(name)
    }

    /// The tool of that name; an error where there is none.
    pub fn lookup(&self, name: &str) -> (r: Result<&ToolSpec, ToolError>)
        requires
            self.wf(),
        ensures
            match r {
                Ok(t) => self.tools.get_spec(name@) == Some(*t),
                Err(e) => !self.tools.has_key(name@) && (e matches ToolError::UnknownTool(n) && n@ == name@),
            },
    {
        match self.tools.get(name) {
            Some(t) => Ok(t),
            None => Err(ToolError::UnknownTool(owned(name))),
        }
    }

    /// The specifications, ordered by name.
    pub fn specs(&self) -> (r: Vec<ToolSpec>)
        requires
            self.wf(),
        ensures
            r@.len() == self.tools.size(),
            forall|i: int| 0 <= i < r@.len() ==> (#[trigger] r@[i]).name@ == self.tools.key(i)
                && r@[i].description == self.tools.value(i).description,
    {
        let mut r: Vec<ToolSpec> = Vec::new();
        let mut i: usize = 0;
        while i < self.tools.entries.len()
            invariant
                i <= self.tools.entries@.len(),
                self.wf(),
                r@.len() == i,
                forall|j: int| 0 <= j < i ==> (#[trigger] r@[j]).name@ == self.tools.key(j)
                    && r@[j].description == self.tools.value(j).description,
            decreases self.tools.entries.len() - i,
        {
            let t = self.tools.entries[i].1.clone_spec();
            assert(self.tools.value(i as int).name@ == self.tools.key(i as int));
            r.push(t);
            i += 1;
        }
        r
    }
}

/// The names of the standard tools, in the order they are registered.
pub open spec fn standard_names() -> Seq<Seq<char>> {
    seq![
        "bash"@,
        "current_directory"@,
        "edit"@,
        "list_directory"@,
        "glob"@,
        "grep"@,
        "read_file"@,
        "write"@,
        "git_status"@,
    ]
}

/// The standard tools' specifications.
pub fn standard_tool_specs() -> (r: Vec<ToolSpec>)
    ensures
        spec_names(r@) == standard_names(),
{
    let mut r: Vec<ToolSpec> = Vec::new();
    r.push(BashTool.spec());
    r.push(CurrentDirectoryTool.spec());
    r.push(EditFileTool.spec());
    r.push(ListDirectoryTool.spec());
    r.push(GlobTool.spec());
    r.push(GrepTool.spec());
    r.push(ReadFileTool.spec());
    r.push(WriteFileTool.spec());
    r.push(GitStatusTool.spec());
    assert(spec_names(r@) =~= standard_names());
    r
}

/// A registry of the standard tools.
pub fn standard_tool_registry() -> (r: ToolRegistry)
    ensures
        r.wf(),
        forall|k: Seq<char>| #[trigger] r.tools.has_key(k) <==> standard_names().contains(k),
{
    let mut specs = standard_tool_specs();
    let ghost all = spec_names(specs@);
    let mut r = ToolRegistry::new();
    while specs.len() > 0
        invariant
            r.wf(),
            specs@.len() <= all.len(),
            spec_names(specs@) == all.take(specs@.len() as int),
            forall|k: Seq<char>| #[trigger] r.tools.has_key(k) <==> all.skip(specs@.len() as int).contains(k),
        decreases specs.len(),
    {
        let ghost n = specs@.len();
        let ghost old_specs = specs@;
        let t = specs.pop().unwrap();
        proof {
            assert(old_specs == specs@.push(t));
            assert(spec_names(old_specs)[n - 1] == t.name@);
            assert(all.take(n as int)[n - 1] == all[n - 1]);
            assert(t.name@ == all[n - 1]);
            assert(spec_names(specs@) =~= all.take(n - 1));
        }
        let ghost before = r.tools;
        r.register(t);
        proof {
            assert forall|k: Seq<char>| #[trigger] r.tools.has_key(k) <==> all.skip(n - 1).contains(k) by {
                assert(all.skip(n - 1) =~= seq![all[n - 1]] + all.skip(n as int));
                if all.skip(n as int).contains(k) {
                    let idx = choose|idx: int| 0 <= idx < all.skip(n as int).len() && #[trigger] all.skip(n as int)[idx] == k;
                    assert(all.skip(n - 1)[idx + 1] == k);
                }
                if all.skip(n - 1).contains(k) && k != all[n - 1] {
                    let idx = choose|idx: int| 0 <= idx < all.skip(n - 1).len() && #[trigger] all.skip(n - 1)[idx] == k;
                    assert(idx > 0);
                    assert(all.skip(n as int)[idx - 1] == k);
                }
                if k == all[n - 1] {
                    assert(all.skip(n - 1)[0] == k);
                }
            }
        }
    }
    assert(all.skip(0) =~= all);
    r
}

} // verus!
