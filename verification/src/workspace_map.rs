//! A summary of a repository for the model: languages, busiest directories,
//! and key files with the names they declare.
use vstd::prelude::*;

use crate::sorting::{sort_by_key, sorted_by_key, SortKey};
use crate::strmap::{count_total, lemma_count_total_insert, lemma_count_total_update, StrMap};
use crate::symbols::{extract, SymbolPatterns};
use crate::text::{
    ascii_lower_seq, ascii_lowercase, backslash_to_slash, concat2, decimal, ends_with, first_occurrence_from, join,
    join_strings, lemma_seq_lt_irreflexive, lemma_seq_lt_total, lemma_seq_lt_transitive, lines, lines_of, owned, seq_lt,
    str_eq, str_lt, usize_string, views, with_forward_slashes,
};

verus! {

#[derive(Clone, Copy)]
pub struct WorkspaceMapOptions {
    pub max_files: usize,
    pub max_file_bytes: u64,
    pub max_symbols_per_file: usize,
}

impl Default for WorkspaceMapOptions {
    /// At most 250 files of at most 256 KiB, 8 names per file.
    fn default() -> (o: Self)
        ensures
            o.max_files == 250,
            o.max_file_bytes == 262144,
            o.max_symbols_per_file == 8,
    {
        WorkspaceMapOptions { max_files: 250, max_file_bytes: 256 * 1024, max_symbols_per_file: 8 }
    }
}

pub struct DirectorySummary {
    pub path: String,
    pub file_count: usize,
}

pub struct FileSummary {
    pub path: String,
    pub language: String,
    pub lines: usize,
    pub symbols: Vec<String>,
}

pub struct WorkspaceMap {
    pub root: String,
    pub scanned_files: usize,
    pub total_lines: usize,
    pub languages: StrMap<usize>,
    pub directories: Vec<DirectorySummary>,
    pub key_files: Vec<FileSummary>,
}

// ---------------------------------------------------------------------------
// Classifying files
// ---------------------------------------------------------------------------

/// The language of a file by its extension, lower-cased.
pub open spec fn language_of_extension(e: Seq<char>) -> Option<Seq<char>> {
    if e == "rs"@ {
        Some("rust"@)
    } else if e == "ts"@ || e == "tsx"@ {
        Some("typescript"@)
    } else if e == "js"@ || e == "jsx"@ || e == "mjs"@ || e == "cjs"@ {
        Some("javascript"@)
    } else if e == "go"@ {
        Some("go"@)
    } else if e == "py"@ {
        Some("python"@)
    } else if e == "java"@ {
        Some("java"@)
    } else if e == "kt"@ {
        Some("kotlin"@)
    } else if e == "swift"@ {
        Some("swift"@)
    } else if e == "toml"@ {
        Some("toml"@)
    } else if e == "json"@ {
        Some("json"@)
    } else if e == "yml"@ || e == "yaml"@ {
        Some("yaml"@)
    } else if e == "md"@ {
        Some("markdown"@)
    } else if e == "sql"@ {
        Some("sql"@)
    } else if e == "sh"@ {
        Some("shell"@)
    } else if e == "php"@ {
        Some("php"@)
    } else {
        None
    }
}

/// The languages the map knows, extension by extension: each (lower-case)
/// extension below gives its language, and no other extension gives one.
pub proof fn law_extension_table()
    ensures
        language_of_extension("rs"@) == Some("rust"@),
        language_of_extension("ts"@) == Some("typescript"@),
        language_of_extension("tsx"@) == Some("typescript"@),
        language_of_extension("js"@) == Some("javascript"@),
        language_of_extension("jsx"@) == Some("javascript"@),
        language_of_extension("mjs"@) == Some("javascript"@),
        language_of_extension("cjs"@) == Some("javascript"@),
        language_of_extension("go"@) == Some("go"@),
        language_of_extension("py"@) == Some("python"@),
        language_of_extension("java"@) == Some("java"@),
        language_of_extension("kt"@) == Some("kotlin"@),
        language_of_extension("swift"@) == Some("swift"@),
        language_of_extension("toml"@) == Some("toml"@),
        language_of_extension("json"@) == Some("json"@),
        language_of_extension("yml"@) == Some("yaml"@),
        language_of_extension("yaml"@) == Some("yaml"@),
        language_of_extension("md"@) == Some("markdown"@),
        language_of_extension("sql"@) == Some("sql"@),
        language_of_extension("sh"@) == Some("shell"@),
        language_of_extension("php"@) == Some("php"@),
        forall|e: Seq<char>|
            #![trigger language_of_extension(e)]
            !seq!["rs"@, "ts"@, "tsx"@, "js"@, "jsx"@, "mjs"@, "cjs"@, "go"@, "py"@, "java"@, "kt"@, "swift"@, "toml"@, "json"@, "yml"@, "yaml"@, "md"@, "sql"@, "sh"@, "php"@].contains(e) ==> language_of_extension(e) is None,
{
    reveal_strlit("cjs");
    reveal_strlit("go");
    reveal_strlit("java");
    reveal_strlit("javascript");
    reveal_strlit("js");
    reveal_strlit("json");
    reveal_strlit("jsx");
    reveal_strlit("kotlin");
    reveal_strlit("kt");
    reveal_strlit("markdown");
    reveal_strlit("md");
    reveal_strlit("mjs");
    reveal_strlit("php");
    reveal_strlit("py");
    reveal_strlit("python");
    reveal_strlit("rs");
    reveal_strlit("rust");
    reveal_strlit("sh");
    reveal_strlit("shell");
    reveal_strlit("sql");
    reveal_strlit("swift");
    reveal_strlit("toml");
    reveal_strlit("ts");
    reveal_strlit("tsx");
    reveal_strlit("typescript");
    reveal_strlit("yaml");
    reveal_strlit("yml");
    assert("ts"@[0] != "rs"@[0]);
    assert("tsx"@.len() != "rs"@.len());
    assert("tsx"@.len() != "ts"@.len());
    assert("js"@[0] != "rs"@[0]);
    assert("js"@[0] != "ts"@[0]);
    assert("js"@.len() != "tsx"@.len());
    assert("jsx"@.len() != "rs"@.len());
    assert("jsx"@.len() != "ts"@.len());
    assert("jsx"@[0] != "tsx"@[0]);
    assert("jsx"@.len() != "js"@.len());
    assert("mjs"@.len() != "rs"@.len());
    assert("mjs"@.len() != "ts"@.len());
    assert("mjs"@[0] != "tsx"@[0]);
    assert("mjs"@.len() != "js"@.len());
    assert("mjs"@[0] != "jsx"@[0]);
    assert("cjs"@.len() != "rs"@.len());
    assert("cjs"@.len() != "ts"@.len());
    assert("cjs"@[0] != "tsx"@[0]);
    assert("cjs"@.len() != "js"@.len());
    assert("cjs"@[0] != "jsx"@[0]);
    assert("cjs"@[0] != "mjs"@[0]);
    assert("go"@[0] != "rs"@[0]);
    assert("go"@[0] != "ts"@[0]);
    assert("go"@.len() != "tsx"@.len());
    assert("go"@[0] != "js"@[0]);
    assert("go"@.len() != "jsx"@.len());
    assert("go"@.len() != "mjs"@.len());
    assert("go"@.len() != "cjs"@.len());
    assert("py"@[0] != "rs"@[0]);
    assert("py"@[0] != "ts"@[0]);
    assert("py"@.len() != "tsx"@.len());
    assert("py"@[0] != "js"@[0]);
    assert("py"@.len() != "jsx"@.len());
    assert("py"@.len() != "mjs"@.len());
    assert("py"@.len() != "cjs"@.len());
    assert("py"@[0] != "go"@[0]);
    assert("java"@.len() != "rs"@.len());
    assert("java"@.len() != "ts"@.len());
    assert("java"@.len() != "tsx"@.len());
    assert("java"@.len() != "js"@.len());
    assert("java"@.len() != "jsx"@.len());
    assert("java"@.len() != "mjs"@.len());
    assert("java"@.len() != "cjs"@.len());
    assert("java"@.len() != "go"@.len());
    assert("java"@.len() != "py"@.len());
    assert("kt"@[0] != "rs"@[0]);
    assert("kt"@[0] != "ts"@[0]);
    assert("kt"@.len() != "tsx"@.len());
    assert("kt"@[0] != "js"@[0]);
    assert("kt"@.len() != "jsx"@.len());
    assert("kt"@.len() != "mjs"@.len());
    assert("kt"@.len() != "cjs"@.len());
    assert("kt"@[0] != "go"@[0]);
    assert("kt"@[0] != "py"@[0]);
    assert("kt"@.len() != "java"@.len());
    assert("swift"@.len() != "rs"@.len());
    assert("swift"@.len() != "ts"@.len());
    assert("swift"@.len() != "tsx"@.len());
    assert("swift"@.len() != "js"@.len());
    assert("swift"@.len() != "jsx"@.len());
    assert("swift"@.len() != "mjs"@.len());
    assert("swift"@.len() != "cjs"@.len());
    assert("swift"@.len() != "go"@.len());
    assert("swift"@.len() != "py"@.len());
    assert("swift"@.len() != "java"@.len());
    assert("swift"@.len() != "kt"@.len());
    assert("toml"@.len() != "rs"@.len());
    assert("toml"@.len() != "ts"@.len());
    assert("toml"@.len() != "tsx"@.len());
    assert("toml"@.len() != "js"@.len());
    assert("toml"@.len() != "jsx"@.len());
    assert("toml"@.len() != "mjs"@.len());
    assert("toml"@.len() != "cjs"@.len());
    assert("toml"@.len() != "go"@.len());
    assert("toml"@.len() != "py"@.len());
    assert("toml"@[0] != "java"@[0]);
    assert("toml"@.len() != "kt"@.len());
    assert("toml"@.len() != "swift"@.len());
    assert("json"@.len() != "rs"@.len());
    assert("json"@.len() != "ts"@.len());
    assert("json"@.len() != "tsx"@.len());
    assert("json"@.len() != "js"@.len());
    assert("json"@.len() != "jsx"@.len());
    assert("json"@.len() != "mjs"@.len());
    assert("json"@.len() != "cjs"@.len());
    assert("json"@.len() != "go"@.len());
    assert("json"@.len() != "py"@.len());
    assert("json"@[1] != "java"@[1]);
    assert("json"@.len() != "kt"@.len());
    assert("json"@.len() != "swift"@.len());
    assert("json"@[0] != "toml"@[0]);
    assert("yml"@.len() != "rs"@.len());
    assert("yml"@.len() != "ts"@.len());
    assert("yml"@[0] != "tsx"@[0]);
    assert("yml"@.len() != "js"@.len());
    assert("yml"@[0] != "jsx"@[0]);
    assert("yml"@[0] != "mjs"@[0]);
    assert("yml"@[0] != "cjs"@[0]);
    assert("yml"@.len() != "go"@.len());
    assert("yml"@.len() != "py"@.len());
    assert("yml"@.len() != "java"@.len());
    assert("yml"@.len() != "kt"@.len());
    assert("yml"@.len() != "swift"@.len());
    assert("yml"@.len() != "toml"@.len());
    assert("yml"@.len() != "json"@.len());
    assert("yaml"@.len() != "rs"@.len());
    assert("yaml"@.len() != "ts"@.len());
    assert("yaml"@.len() != "tsx"@.len());
    assert("yaml"@.len() != "js"@.len());
    assert("yaml"@.len() != "jsx"@.len());
    assert("yaml"@.len() != "mjs"@.len());
    assert("yaml"@.len() != "cjs"@.len());
    assert("yaml"@.len() != "go"@.len());
    assert("yaml"@.len() != "py"@.len());
    assert("yaml"@[0] != "java"@[0]);
    assert("yaml"@.len() != "kt"@.len());
    assert("yaml"@.len() != "swift"@.len());
    assert("yaml"@[0] != "toml"@[0]);
    assert("yaml"@[0] != "json"@[0]);
    assert("yaml"@.len() != "yml"@.len());
    assert("md"@[0] != "rs"@[0]);
    assert("md"@[0] != "ts"@[0]);
    assert("md"@.len() != "tsx"@.len());
    assert("md"@[0] != "js"@[0]);
    assert("md"@.len() != "jsx"@.len());
    assert("md"@.len() != "mjs"@.len());
    assert("md"@.len() != "cjs"@.len());
    assert("md"@[0] != "go"@[0]);
    assert("md"@[0] != "py"@[0]);
    assert("md"@.len() != "java"@.len());
    assert("md"@[0] != "kt"@[0]);
    assert("md"@.len() != "swift"@.len());
    assert("md"@.len() != "toml"@.len());
    assert("md"@.len() != "json"@.len());
    assert("md"@.len() != "yml"@.len());
    assert("md"@.len() != "yaml"@.len());
    assert("sql"@.len() != "rs"@.len());
    assert("sql"@.len() != "ts"@.len());
    assert("sql"@[0] != "tsx"@[0]);
    assert("sql"@.len() != "js"@.len());
    assert("sql"@[0] != "jsx"@[0]);
    assert("sql"@[0] != "mjs"@[0]);
    assert("sql"@[0] != "cjs"@[0]);
    assert("sql"@.len() != "go"@.len());
    assert("sql"@.len() != "py"@.len());
    assert("sql"@.len() != "java"@.len());
    assert("sql"@.len() != "kt"@.len());
    assert("sql"@.len() != "swift"@.len());
    assert("sql"@.len() != "toml"@.len());
    assert("sql"@.len() != "json"@.len());
    assert("sql"@[0] != "yml"@[0]);
    assert("sql"@.len() != "yaml"@.len());
    assert("sql"@.len() != "md"@.len());
    assert("sh"@[0] != "rs"@[0]);
    assert("sh"@[0] != "ts"@[0]);
    assert("sh"@.len() != "tsx"@.len());
    assert("sh"@[0] != "js"@[0]);
    assert("sh"@.len() != "jsx"@.len());
    assert("sh"@.len() != "mjs"@.len());
    assert("sh"@.len() != "cjs"@.len());
    assert("sh"@[0] != "go"@[0]);
    assert("sh"@[0] != "py"@[0]);
    assert("sh"@.len() != "java"@.len());
    assert("sh"@[0] != "kt"@[0]);
    assert("sh"@.len() != "swift"@.len());
    assert("sh"@.len() != "toml"@.len());
    assert("sh"@.len() != "json"@.len());
    assert("sh"@.len() != "yml"@.len());
    assert("sh"@.len() != "yaml"@.len());
    assert("sh"@[0] != "md"@[0]);
    assert("sh"@.len() != "sql"@.len());
    assert("php"@.len() != "rs"@.len());
    assert("php"@.len() != "ts"@.len());
    assert("php"@[0] != "tsx"@[0]);
    assert("php"@.len() != "js"@.len());
    assert("php"@[0] != "jsx"@[0]);
    assert("php"@[0] != "mjs"@[0]);
    assert("php"@[0] != "cjs"@[0]);
    assert("php"@.len() != "go"@.len());
    assert("php"@.len() != "py"@.len());
    assert("php"@.len() != "java"@.len());
    assert("php"@.len() != "kt"@.len());
    assert("php"@.len() != "swift"@.len());
    assert("php"@.len() != "toml"@.len());
    assert("php"@.len() != "json"@.len());
    assert("php"@[0] != "yml"@[0]);
    assert("php"@.len() != "yaml"@.len());
    assert("php"@.len() != "md"@.len());
    assert("php"@[0] != "sql"@[0]);
    assert("php"@.len() != "sh"@.len());
}

/// The language of a file from its name and extension: `Cargo.toml`,
/// `package.json` and any-case `readme.md` by name, other files by extension.
pub open spec fn language_of(file_name: Option<Seq<char>>, extension: Option<Seq<char>>) -> Option<Seq<char>> {
    match file_name {
        None => None,
        Some(n) => if n == "Cargo.toml"@ {
            Some("toml"@)
        } else if n == "package.json"@ {
            Some("json"@)
        } else if ascii_lower_seq(n) == "readme.md"@ {
            Some("markdown"@)
        } else {
            match extension {
                None => None,
                Some(e) => language_of_extension(ascii_lower_seq(e)),
            }
        },
    }
}

fn extension_language(e: &str) -> (r: Option<&'static str>)
    ensures
        r is Some <==> language_of_extension(e@) is Some,
        r matches Some(l) ==> language_of_extension(e@) == Some(l@),
{
    if str_eq(e, "rs") {
        Some("rust")
    } else if str_eq(e, "ts") || str_eq(e, "tsx") {
        Some("typescript")
    } else if str_eq(e, "js") || str_eq(e, "jsx") || str_eq(e, "mjs") || str_eq(e, "cjs") {
        Some("javascript")
    } else if str_eq(e, "go") {
        Some("go")
    } else if str_eq(e, "py") {
        Some("python")
    } else if str_eq(e, "java") {
        Some("java")
    } else if str_eq(e, "kt") {
        Some("kotlin")
    } else if str_eq(e, "swift") {
        Some("swift")
    } else if str_eq(e, "toml") {
        Some("toml")
    } else if str_eq(e, "json") {
        Some("json")
    } else if str_eq(e, "yml") || str_eq(e, "yaml") {
        Some("yaml")
    } else if str_eq(e, "md") {
        Some("markdown")
    } else if str_eq(e, "sql") {
        Some("sql")
    } else if str_eq(e, "sh") {
        Some("shell")
    } else if str_eq(e, "php") {
        Some("php")
    } else {
        None
    }
}

/// The language of a file from its name and extension.
pub fn detect_language(file_name: Option<&str>, extension: Option<&str>) -> (r: Option<String>)
    ensures
        r is Some <==> language_of(
            match file_name {
                Some(n) => Some(n@),
                None => None,
            },
            match extension {
                Some(e) => Some(e@),
                None => None,
            },
        ) is Some,
        r matches Some(l) ==> language_of(
            match file_name {
                Some(n) => Some(n@),
                None => None,
            },
            match extension {
                Some(e) => Some(e@),
                None => None,
            },
        ) == Some(l@),
{
    let name = match file_name {
        Some(n) => n,
        None => return None,
    };
    if str_eq(name, "Cargo.toml") {
        return Some(owned("toml"));
    }
    if str_eq(name, "package.json") {
        return Some(owned("json"));
    }
    if str_eq(ascii_lowercase(name).as_str(), "readme.md") {
        return Some(owned("markdown"));
    }
    let ext = match extension {
        Some(e) => e,
        None => return None,
    };
    match extension_language(ascii_lowercase(ext).as_str()) {
        Some(l) => Some(owned(l)),
        None => None,
    }
}

/// Files that the map always lists first.
pub open spec fn key_file(p: Seq<char>) -> bool {
    p == "Cargo.toml"@ || p == "Cargo.lock"@ || p == "package.json"@ || p == "README.md"@ || p
        == "src/main.rs"@ || p == "src/lib.rs"@ || "/Cargo.toml"@.is_suffix_of(p) || "/main.rs"@.is_suffix_of(p)
        || "/lib.rs"@.is_suffix_of(p) || "/mod.rs"@.is_suffix_of(p)
}

/// Whether a file is a key file.
pub fn is_key_file(path: &str) -> (r: bool)
    ensures
        r == key_file(path@),
{
    str_eq(path, "Cargo.toml") || str_eq(path, "Cargo.lock") || str_eq(path, "package.json") || str_eq(
        path,
        "README.md",
    ) || str_eq(path, "src/main.rs") || str_eq(path, "src/lib.rs") || ends_with(path, "/Cargo.toml")
        || ends_with(path, "/main.rs") || ends_with(path, "/lib.rs") || ends_with(path, "/mod.rs")
}

/// Directories that the scan does not enter.
pub open spec fn skipped_directory(name: Seq<char>) -> bool {
    name == ".git"@ || name == "target"@ || name == "node_modules"@ || name == "dist"@ || name == "build"@ || name
        == ".next"@ || name == ".turbo"@ || name == ".idea"@ || name == ".rovdex"@
}

/// Whether the scan visits an entry: the root always; a directory unless it
/// is one of the skipped ones; every file.
pub fn should_visit(depth: usize, is_dir: bool, name: &str) -> (r: bool)
    ensures
        r == (depth == 0 || !is_dir || !skipped_directory(name@)),
{
    if depth == 0 {
        return true;
    }
    if is_dir {
        return !(str_eq(name, ".git") || str_eq(name, "target") || str_eq(name, "node_modules") || str_eq(
            name,
            "dist",
        ) || str_eq(name, "build") || str_eq(name, ".next") || str_eq(name, ".turbo") || str_eq(name, ".idea")
            || str_eq(name, ".rovdex"));
    }
    true
}

/// A path relative to the root as the map shows it: with `/` separators.
pub fn relative_display_path(relative: &str) -> (r: String)
    ensures
        r@ == backslash_to_slash(relative@),
{
    with_forward_slashes(relative)
}

/// The directory of a relative path: the text before its last `/`, or `.`.
pub open spec fn directory_of(p: Seq<char>) -> Seq<char> {
    match last_slash(p) {
        Some(k) => p.take(k),
        None => "."@,
    }
}

/// Position of the last `/`.
pub open spec fn last_slash(p: Seq<char>) -> Option<int> {
    if exists|k: int| 0 <= k < p.len() && p[k] == '/' {
        Some(choose|k: int| 0 <= k < p.len() && p[k] == '/' && forall|m: int| k < m < p.len() ==> p[m] != '/')
    } else {
        None
    }
}

/// The directory of a relative path (`rsplit_once('/')`).
pub fn directory_of_path(p: &str) -> (r: String)
    ensures
        r@ == directory_of(p@),
{
    let v = crate::text::chars_of(p);
    let mut i = v.len();
    while i > 0 && v[i - 1] != '/'
        invariant
            i <= v.len(),
            v@ == p@,
            forall|m: int| i <= m < v.len() ==> v@[m] != '/',
        decreases i,
    {
        i -= 1;
    }
    if i == 0 {
        assert(!exists|k: int| 0 <= k < p@.len() && p@[k] == '/');
        owned(".")
    } else {
        let k = i - 1;
        assert(0 <= k < p@.len() && p@[k as int] == '/' && forall|m: int| k < m < p@.len() ==> p@[m] != '/');
        proof {
            let c = choose|c: int| 0 <= c < p@.len() && p@[c] == '/' && forall|m: int| c < m < p@.len() ==> p@[m] != '/';
            assert(c == k) by {
                if c < k {
                } else if c > k {
                }
            }
        }
        string_of_range_str(&v, k)
    }
}

fn string_of_range_str(v: &Vec<char>, k: usize) -> (r: String)
    requires
        k <= v.len(),
    ensures
        r@ == v@.take(k as int),
{
    let r = crate::text::string_of_range(v, 0, k);
    assert(v@.subrange(0, k as int) =~= v@.take(k as int));
    r
}

// ---------------------------------------------------------------------------
// Building the map
// ---------------------------------------------------------------------------

/// A map being built from the files of a walk, in walk order.
pub struct MapBuilder {
    pub root: String,
    pub options: WorkspaceMapOptions,
    pub scanned_files: usize,
    pub total_lines: usize,
    pub languages: StrMap<usize>,
    pub directories: StrMap<usize>,
    pub key_files: Vec<FileSummary>,
}

/// The summary of a file as text.
pub struct FileView {
    pub path: Seq<char>,
    pub language: Seq<char>,
    pub lines: usize,
    pub symbols: Seq<Seq<char>>,
}

impl View for FileSummary {
    type V = FileView;

    open spec fn view(&self) -> FileView {
        FileView { path: self.path@, language: self.language@, lines: self.lines, symbols: views(self.symbols@) }
    }
}

/// The views of a sequence of file summaries.
pub open spec fn file_views(v: Seq<FileSummary>) -> Seq<FileView> {
    v.map_values(|f: FileSummary| f@)
}

/// Adds one to the count under `k`.
fn bump(m: &mut StrMap<usize>, k: &str, bound: usize)
    requires
        old(m).wf(),
        forall|x: Seq<char>| old(m).has_key(x) ==> old(m).get_spec(x)->0 < bound,
    ensures
        final(m).wf(),
        final(m).get_spec(k@) == Some((match old(m).get_spec(k@) {
            Some(c) => c + 1,
            None => 1,
        }) as usize),
        forall|x: Seq<char>| #[trigger] final(m).has_key(x) <==> (old(m).has_key(x) || x == k@),
        forall|x: Seq<char>| x != k@ ==> #[trigger] final(m).get_spec(x) == old(m).get_spec(x),
        count_total(final(m).entries@) == count_total(old(m).entries@) + 1,
{
    let ghost before = m.entries@;
    let c = match m.get(k) {
        Some(c) => *c,
        None => 0,
    };
    let key = owned(k);
    let ghost entry = (key, (c + 1) as usize);
    m.insert(key, c + 1);
    proof {
        if old(m).has_key(k@) {
            let i = old(m).index_of(k@);
            old(m).lemma_get_at(i);
            lemma_count_total_update(before, i, entry);
        } else {
            let i = choose|i: int| 0 <= i <= before.len() && m.entries@ == #[trigger] before.insert(i, entry);
            lemma_count_total_insert(before, i, entry);
        }
    }
}

impl MapBuilder {
    /// Every scanned file counts once toward its language and once toward
    /// its directory: each set of counts sums to the number of files scanned.
    pub open spec fn wf(&self) -> bool {
        &&& count_total(self.languages.entries@) == self.scanned_files
        &&& count_total(self.directories.entries@) == self.scanned_files
        &&& self.languages.wf()
        &&& self.directories.wf()
        &&& self.scanned_files <= self.options.max_files
        &&& forall|x: Seq<char>| self.languages.has_key(x) ==> self.languages.get_spec(x)->0 <= self.scanned_files
        &&& forall|x: Seq<char>| self.directories.has_key(x) ==> self.directories.get_spec(x)->0 <= self.scanned_files
    }

    /// An empty map of `root`.
    pub fn new(root: String, options: WorkspaceMapOptions) -> (b: Self)
        ensures
            b.wf(),
            b.root == root,
            b.options == options,
            b.scanned_files == 0,
            b.total_lines == 0,
            b.languages.size() == 0,
            b.directories.size() == 0,
            b.key_files@.len() == 0,
    {
        MapBuilder {
            root,
            options,
            scanned_files: 0,
            total_lines: 0,
            languages: StrMap::new(),
            directories: StrMap::new(),
            key_files: Vec::new(),
        }
    }

    /// Whether a file of the walk is to be read, and as what language: only
    /// while fewer than `max_files` files are scanned, only with a path
    /// relative to the root, a known language, known size, and at most
    /// `max_file_bytes` bytes.
    pub fn accept_file(
        &self,
        relative_path: Option<&str>,
        file_name: Option<&str>,
        extension: Option<&str>,
        size: Option<u64>,
    ) -> (r: Option<String>)
        ensures
            ({
                let language = language_of(
                    match file_name {
                        Some(n) => Some(n@),
                        None => None,
                    },
                    match extension {
                        Some(e) => Some(e@),
                        None => None,
                    },
                );
                &&& r is Some <==> (self.scanned_files < self.options.max_files && relative_path is Some
                    && language is Some && size is Some && size->0 <= self.options.max_file_bytes)
                &&& r matches Some(l) ==> language == Some(l@)
            }),
    {
        if self.scanned_files >= self.options.max_files || relative_path.is_none() {
            return None;
        }
        let language = match detect_language(file_name, extension) {
            Some(l) => l,
            None => return None,
        };
        match size {
            Some(n) => if n > self.options.max_file_bytes {
                None
            } else {
                Some(language)
            },
            None => None,
        }
    }

    /// Adds an admitted file that could be read: it counts toward its
    /// language and its directory, and it is listed when it is a key file or
    /// fewer than 16 files are listed.
    pub fn add_file(&mut self, patterns: &SymbolPatterns, relative_path: &str, language: &str, content: &str)
        requires
            old(self).wf(),
            patterns.wf(),
            old(self).scanned_files < old(self).options.max_files,
        ensures
            final(self).wf(),
            final(self).root == old(self).root,
            final(self).options == old(self).options,
            final(self).scanned_files == old(self).scanned_files + 1,
            final(self).total_lines == if old(self).total_lines + lines(content@).len() <= usize::MAX {
                old(self).total_lines + lines(content@).len()
            } else {
                usize::MAX as int
            },
            final(self).languages.get_spec(language@) == Some((match old(self).languages.get_spec(language@) {
                Some(c) => c + 1,
                None => 1,
            }) as usize),
            forall|x: Seq<char>| x != language@ ==> #[trigger] final(self).languages.get_spec(x) == old(self).languages.get_spec(x),
            final(self).directories.get_spec(directory_of(relative_path@)) == Some((match old(self).directories.get_spec(
                directory_of(relative_path@),
            ) {
                Some(c) => c + 1,
                None => 1,
            }) as usize),
            forall|x: Seq<char>| x != directory_of(relative_path@) ==> #[trigger] final(self).directories.get_spec(x) == old(
                self,
            ).directories.get_spec(x),
            file_views(final(self).key_files@) == file_views(old(self).key_files@) + if key_file(relative_path@)
                || old(self).key_files@.len() < 16 {
                seq![
                    FileView {
                        path: relative_path@,
                        language: language@,
                        lines: lines(content@).len() as usize,
                        symbols: extract(content@, old(self).options.max_symbols_per_file as nat),
                    },
                ]
            } else {
                seq![]
            },
    {
        let ls = lines_of(content);
        let n = ls.len();
        self.total_lines = if self.total_lines <= usize::MAX - n {
            self.total_lines + n
        } else {
            usize::MAX
        };
        let bound = self.scanned_files + 1;
        bump(&mut self.languages, language, bound);
        let dir = directory_of_path(relative_path);
        bump(&mut self.directories, dir.as_str(), bound);
        self.scanned_files = self.scanned_files + 1;
        if is_key_file(relative_path) || self.key_files.len() < 16 {
            let summary = FileSummary {
                path: owned(relative_path),
                language: owned(language),
                lines: n,
                symbols: patterns.extract(content, self.options.max_symbols_per_file),
            };
            let ghost before = self.key_files@;
            self.key_files.push(summary);
            assert(file_views(self.key_files@) =~= file_views(before).push(summary@));
        } else {
            assert(file_views(self.key_files@) =~= file_views(self.key_files@) + Seq::<FileView>::empty());
        }
        proof {
            assert forall|x: Seq<char>| self.languages.has_key(x) implies self.languages.get_spec(x)->0
                <= self.scanned_files by {}
            assert forall|x: Seq<char>| self.directories.has_key(x) implies self.directories.get_spec(x)->0
                <= self.scanned_files by {}
        }
    }

    /// The finished map: key files first, then by path, at most 16; the
    /// directories with the most files first, then by path, at most 8.
    pub fn finish(self) -> (m: WorkspaceMap)
        requires
            self.wf(),
        ensures
            m.root == self.root,
            m.scanned_files == self.scanned_files,
            m.total_lines == self.total_lines,
            m.languages == self.languages,
            count_total(m.languages.entries@) == m.scanned_files,
            m.key_files@.len() == if self.key_files@.len() <= 16 {
                self.key_files@.len() as int
            } else {
                16
            },
            m.directories@.len() == if self.directories.size() <= 8 {
                self.directories.size() as int
            } else {
                8
            },
            exists|all: Seq<FileSummary>|
                all.to_multiset() == self.key_files@.to_multiset() && sorted_by_key(all) && m.key_files@ == all.take(
                    m.key_files@.len() as int,
                ),
            exists|all: Seq<DirectorySummary>|
                all.len() == self.directories.size() && (forall|i: int|
                    0 <= i < all.len() ==> self.directories.get_spec(#[trigger] all[i].path@) == Some(all[i].file_count))
                    && (forall|x: Seq<char>| self.directories.has_key(x) ==> exists|i: int| 0 <= i < all.len() && #[trigger] all[i].path@ == x)
                    && sorted_by_key(all) && m.directories@ == all.take(m.directories@.len() as int),
    {
        let ghost original = self.key_files@;
        let mut key_files = sort_by_key(self.key_files);
        let ghost all_files = key_files@;
        proof {
            broadcast use vstd::seq_lib::group_to_multiset_ensures;
            assert(all_files.to_multiset().len() == original.to_multiset().len());
        }
        key_files.truncate(16);
        let mut dirs: Vec<DirectorySummary> = Vec::new();
        let mut i: usize = 0;
        while i < self.directories.entries.len()
            invariant
                self.directories.wf(),
                i <= self.directories.size(),
                dirs@.len() == i,
                forall|k: int| 0 <= k < i ==> (#[trigger] dirs@[k]).path@ == self.directories.key(k)
                    && dirs@[k].file_count == self.directories.value(k),
            decreases self.directories.size() - i,
        {
            dirs.push(DirectorySummary {
                path: self.directories.entries[i].0.clone(),
                file_count: self.directories.entries[i].1,
            });
            i += 1;
        }
        let ghost unsorted = dirs@;
        let sorted = sort_by_key(dirs);
        let ghost all_dirs = sorted@;
        proof {
            broadcast use vstd::seq_lib::group_to_multiset_ensures;
            assert(all_dirs.to_multiset().len() == unsorted.to_multiset().len());
            assert forall|k: int| 0 <= k < all_dirs.len() implies self.directories.get_spec(#[trigger] all_dirs[k].path@)
                == Some(all_dirs[k].file_count) by {
                assert(all_dirs.to_multiset().count(all_dirs[k]) > 0);
                assert(unsorted.contains(all_dirs[k]));
                let j = choose|j: int| 0 <= j < unsorted.len() && unsorted[j] == all_dirs[k];
                self.directories.lemma_get_at(j);
            }
            assert forall|x: Seq<char>| self.directories.has_key(x) implies exists|k: int|
                0 <= k < all_dirs.len() && #[trigger] all_dirs[k].path@ == x by {
                let j = choose|j: int| 0 <= j < self.directories.size() && #[trigger] self.directories.key(j) == x;
                assert(unsorted[j].path@ == x);
                assert(unsorted.to_multiset().count(unsorted[j]) > 0);
                assert(all_dirs.contains(unsorted[j]));
            }
        }
        let mut directories = sorted;
        directories.truncate(8);
        WorkspaceMap {
            root: self.root,
            scanned_files: self.scanned_files,
            total_lines: self.total_lines,
            languages: self.languages,
            directories,
            key_files,
        }
    }
}

impl SortKey for FileSummary {
    /// Key files before others; then by path.
    open spec fn before(&self, other: &Self) -> bool {
        (key_file(self.path@) && !key_file(other.path@)) || (key_file(self.path@) == key_file(other.path@)
            && seq_lt(self.path@, other.path@))
    }

    fn goes_before(&self, other: &Self) -> (r: bool) {
        let a = is_key_file(self.path.as_str());
        let b = is_key_file(other.path.as_str());
        (a && !b) || (a == b && str_lt(self.path.as_str(), other.path.as_str()))
    }

    proof fn lemma_strict_weak_order(a: &Self, b: &Self, c: &Self) {
        lemma_seq_lt_irreflexive(a.path@);
        lemma_seq_lt_total(a.path@, b.path@);
        lemma_seq_lt_total(b.path@, c.path@);
        lemma_seq_lt_total(a.path@, c.path@);
        if seq_lt(a.path@, b.path@) && seq_lt(b.path@, c.path@) {
            lemma_seq_lt_transitive(a.path@, b.path@, c.path@);
        }
        if seq_lt(c.path@, b.path@) && seq_lt(b.path@, a.path@) {
            lemma_seq_lt_transitive(c.path@, b.path@, a.path@);
        }
    }
}

impl SortKey for DirectorySummary {
    /// More files first; then by path.
    open spec fn before(&self, other: &Self) -> bool {
        self.file_count > other.file_count || (self.file_count == other.file_count && seq_lt(self.path@, other.path@))
    }

    fn goes_before(&self, other: &Self) -> (r: bool) {
        self.file_count > other.file_count || (self.file_count == other.file_count && str_lt(
            self.path.as_str(),
            other.path.as_str(),
        ))
    }

    proof fn lemma_strict_weak_order(a: &Self, b: &Self, c: &Self) {
        lemma_seq_lt_irreflexive(a.path@);
        lemma_seq_lt_total(a.path@, b.path@);
        lemma_seq_lt_total(b.path@, c.path@);
        lemma_seq_lt_total(a.path@, c.path@);
        if seq_lt(a.path@, b.path@) && seq_lt(b.path@, c.path@) {
            lemma_seq_lt_transitive(a.path@, b.path@, c.path@);
        }
        if seq_lt(c.path@, b.path@) && seq_lt(b.path@, a.path@) {
            lemma_seq_lt_transitive(c.path@, b.path@, a.path@);
        }
    }
}

// ---------------------------------------------------------------------------
// Rendering
// ---------------------------------------------------------------------------

/// `language(count)`.
pub open spec fn language_item(m: StrMap<usize>, i: int) -> Seq<char> {
    m.key(i) + "("@ + decimal(m.value(i) as nat) + ")"@
}

/// `  - path (count)` and a line break.
pub open spec fn directory_line(d: DirectorySummary) -> Seq<char> {
    "  - "@ + d.path@ + " ("@ + decimal(d.file_count as nat) + ")\n"@
}

/// `  - path [language] lines=N`, the declared names when there are any, and a line break.
pub open spec fn file_line(f: FileView) -> Seq<char> {
    "  - "@ + f.path + " ["@ + f.language + "] lines="@ + decimal(f.lines as nat) + (if f.symbols.len() > 0 {
        " symbols="@ + join(f.symbols, ", "@)
    } else {
        seq![]
    }) + "\n"@
}

/// `- languages: ...` and a line break, when there are languages.
pub open spec fn languages_section(m: StrMap<usize>) -> Seq<char> {
    if m.size() > 0 {
        "- languages: "@ + join(Seq::new(m.size(), |i: int| language_item(m, i)), ", "@) + "\n"@
    } else {
        seq![]
    }
}

/// `- top_directories:` and a line per directory, when there are any.
pub open spec fn directories_section(ds: Seq<DirectorySummary>) -> Seq<char> {
    if ds.len() > 0 {
        "- top_directories:\n"@ + join(ds.map_values(|d: DirectorySummary| directory_line(d)), Seq::empty())
    } else {
        seq![]
    }
}

/// `- key_files:` and a line per file, when there are any.
pub open spec fn key_files_section(fs: Seq<FileSummary>) -> Seq<char> {
    if fs.len() > 0 {
        "- key_files:\n"@ + join(fs.map_values(|f: FileSummary| file_line(f@)), Seq::empty())
    } else {
        seq![]
    }
}

/// The map as Markdown: the root and counts, then the languages, the top
/// directories and the key files, each section only when it is not empty.
pub open spec fn markdown(m: WorkspaceMap) -> Seq<char> {
    let head = "Workspace map:\n"@ + "- root: "@ + m.root@ + "\n- scanned_files: "@ + decimal(m.scanned_files as nat)
        + "\n- total_lines: "@ + decimal(m.total_lines as nat) + "\n"@;
    head + languages_section(m.languages) + directories_section(m.directories@) + key_files_section(m.key_files@)
}

fn render_languages(m: &StrMap<usize>) -> (r: String)
    ensures
        r@ == languages_section(*m),
{
    if m.entries.len() == 0 {
        return String::new();
    }
    let mut items: Vec<String> = Vec::new();
    let mut i: usize = 0;
    while i < m.entries.len()
        invariant
            i <= m.size(),
            views(items@) == Seq::new(i as nat, |k: int| language_item(*m, k)),
        decreases m.size() - i,
    {
        let mut item = m.entries[i].0.clone();
        item.append("(");
        item.append(usize_string(m.entries[i].1).as_str());
        item.append(")");
        let ghost before = items@;
        assert(item@ == language_item(*m, i as int));
        let ghost iv = item@;
        items.push(item);
        assert(views(items@) =~= views(before).push(iv));
        assert(views(items@) =~= Seq::new((i + 1) as nat, |k: int| language_item(*m, k)));
        i += 1;
    }
    let mut out = owned("- languages: ");
    out.append(join_strings(&items, ", ").as_str());
    out.append("\n");
    out
}

fn render_directories(ds: &Vec<DirectorySummary>) -> (r: String)
    ensures
        r@ == directories_section(ds@),
{
    if ds.len() == 0 {
        return String::new();
    }
    let mut out = owned("- top_directories:\n");
    let ghost start = out@;
    let mut i: usize = 0;
    while i < ds.len()
        invariant
            i <= ds@.len(),
            out@ == start + join(ds@.take(i as int).map_values(|d: DirectorySummary| directory_line(d)), Seq::empty()),
        decreases ds.len() - i,
    {
        let d = &ds[i];
        let ghost before = out@;
        out.append("  - ");
        out.append(d.path.as_str());
        out.append(" (");
        out.append(usize_string(d.file_count).as_str());
        out.append(")\n");
        proof {
            let pre = ds@.take(i as int).map_values(|d: DirectorySummary| directory_line(d));
            let nxt = ds@.take(i + 1).map_values(|d: DirectorySummary| directory_line(d));
            assert(nxt.drop_last() =~= pre);
            assert(nxt.last() == directory_line(*d));
            assert(out@ =~= before + directory_line(*d));
            if i == 0 {
                assert(nxt =~= seq![directory_line(*d)]);
                assert(join(pre, Seq::empty()) =~= Seq::<char>::empty());
            } else {
                assert(join(nxt, Seq::empty()) =~= join(pre, Seq::empty()) + directory_line(*d));
            }
        }
        i += 1;
    }
    assert(ds@.take(i as int) =~= ds@);
    out
}

fn render_key_files(fs: &Vec<FileSummary>) -> (r: String)
    ensures
        r@ == key_files_section(fs@),
{
    if fs.len() == 0 {
        return String::new();
    }
    let mut out = owned("- key_files:\n");
    let ghost start = out@;
    let mut i: usize = 0;
    while i < fs.len()
        invariant
            i <= fs@.len(),
            out@ == start + join(fs@.take(i as int).map_values(|f: FileSummary| file_line(f@)), Seq::empty()),
        decreases fs.len() - i,
    {
        let f = &fs[i];
        let ghost before = out@;
        out.append("  - ");
        out.append(f.path.as_str());
        out.append(" [");
        out.append(f.language.as_str());
        out.append("] lines=");
        out.append(usize_string(f.lines).as_str());
        if f.symbols.len() > 0 {
            out.append(" symbols=");
            out.append(join_strings(&f.symbols, ", ").as_str());
        }
        out.append("\n");
        proof {
            let pre = fs@.take(i as int).map_values(|f: FileSummary| file_line(f@));
            let nxt = fs@.take(i + 1).map_values(|f: FileSummary| file_line(f@));
            assert(nxt.drop_last() =~= pre);
            assert(nxt.last() == file_line(f@));
            assert(out@ =~= before + file_line(f@));
            if i == 0 {
                assert(nxt =~= seq![file_line(f@)]);
                assert(join(pre, Seq::empty()) =~= Seq::<char>::empty());
            } else {
                assert(join(nxt, Seq::empty()) =~= join(pre, Seq::empty()) + file_line(f@));
            }
        }
        i += 1;
    }
    assert(fs@.take(i as int) =~= fs@);
    out
}

impl WorkspaceMap {
    /// The map as Markdown, for the system prompt.
    pub fn render_markdown(&self) -> (r: String)
        requires
            self.languages.wf(),
        ensures
            r@ == markdown(*self),
    {
        let mut out = owned("Workspace map:\n");
        out.append("- root: ");
        out.append(self.root.as_str());
        out.append("\n- scanned_files: ");
        out.append(usize_string(self.scanned_files).as_str());
        out.append("\n- total_lines: ");
        out.append(usize_string(self.total_lines).as_str());
        out.append("\n");
        out.append(render_languages(&self.languages).as_str());
        out.append(render_directories(&self.directories).as_str());
        out.append(render_key_files(&self.key_files).as_str());
        out
    }
}

} // verus!
