use rovdex::context::Context;
use rovdex::json::JsonValue;
use rovdex::tool::{sort_specs, ToolResult, ToolSpec};
use rovdex::tools::{
    required_string, resolve_path, standard_tool_registry, standard_tool_specs, BashTool, CurrentDirectoryTool, DirEntry,
    EditFileTool, GitStatusTool, GlobMatch, GlobTool, GrepTool, ListDirectoryTool, ReadFileTool, ToolError,
    WriteFileTool,
};

fn context() -> Context {
    Context::from_path(String::from("/work"), &vec![String::from("/work")], &vec![false])
}

fn object(fields: Vec<(&str, JsonValue)>) -> JsonValue {
    JsonValue::Object(fields.into_iter().map(|(k, v)| (String::from(k), v)).collect())
}

fn s(v: &str) -> JsonValue {
    JsonValue::String(String::from(v))
}

fn text(v: Option<&JsonValue>) -> Option<&str> {
    match v {
        Some(x) => x.as_str(),
        None => None,
    }
}

#[test]
fn write_and_edit_file_tools_round_trip() {
    let ctx = context();
    let write = WriteFileTool
        .plan(&ctx, &object(vec![("path", s("note.txt")), ("content", s("hello world"))]))
        .ok()
        .expect("write");
    assert_eq!(write.path, "/work/note.txt");
    let mut file = write.content.clone();

    let edit = EditFileTool
        .plan(&ctx, &object(vec![("path", s("note.txt")), ("old_text", s("world")), ("new_text", s("rovdex"))]))
        .ok()
        .expect("edit");
    let (next, _) = EditFileTool.apply(&edit, &file).ok().expect("edit");
    file = next;

    assert_eq!(file, "hello rovdex");
}

#[test]
fn grep_tool_finds_matches() {
    let ctx = context();
    let search = GrepTool.search(&ctx, &object(vec![("path", s(".")), ("pattern", s("alpha"))])).ok().expect("grep");
    let matches = GrepTool.file_matches(&search, "/work/./app.txt", "alpha\nbeta\nalpha beta\n");
    let result = GrepTool.call(&search, matches);

    match result.get("matches") {
        Some(JsonValue::Array(items)) => assert_eq!(items.len(), 2),
        _ => panic!("matches"),
    }
}

#[test]
fn grep_reports_line_numbers_and_regexes() {
    let ctx = context();
    let search = GrepTool
        .search(&ctx, &object(vec![("pattern", s("^b.t")), ("is_regex", JsonValue::Bool(true))]))
        .ok()
        .expect("grep");
    let matches = GrepTool.file_matches(&search, "f.txt", "alpha\nbeta\nbetter\nabet\n");
    assert_eq!(matches.len(), 2);
    assert!(matches!(matches[0].get("line_number"), Some(JsonValue::Number(n)) if n == "2"));
    assert_eq!(text(matches[1].get("line")), Some("better"));
    let bad = GrepTool.search(&ctx, &object(vec![("pattern", s("(")), ("is_regex", JsonValue::Bool(true))]));
    assert!(matches!(bad, Err(ToolError::InvalidRegex(_))));
    let missing = GrepTool.search(&ctx, &object(vec![]));
    match missing {
        Err(e) => assert_eq!(e.message(), "missing required string field: pattern"),
        Ok(_) => panic!("expected an error"),
    }
}

#[test]
fn edit_refuses_missing_and_ambiguous_targets() {
    let ctx = context();
    let edit = EditFileTool
        .plan(&ctx, &object(vec![("path", s("a.txt")), ("old_text", s("x")), ("new_text", s("y"))]))
        .ok()
        .expect("edit");
    match EditFileTool.apply(&edit, "abc") {
        Err(e) => assert_eq!(e.message(), "edit target not found in /work/a.txt"),
        Ok(_) => panic!("expected an error"),
    }
    match EditFileTool.apply(&edit, "x x") {
        Err(e) => assert_eq!(e.message(), "edit target must appear exactly once in /work/a.txt but found 2 matches"),
        Ok(_) => panic!("expected an error"),
    }
    let all = EditFileTool
        .plan(
            &ctx,
            &object(vec![("path", s("a.txt")), ("old_text", s("x")), ("new_text", s("y")), ("replace_all", JsonValue::Bool(true))]),
        )
        .ok()
        .expect("edit");
    let (next, out) = EditFileTool.apply(&all, "x x").ok().expect("edit");
    assert_eq!(next, "y y");
    assert!(matches!(out.get("occurrences"), Some(JsonValue::Number(n)) if n == "2"));
    assert!(matches!(EditFileTool.plan(&ctx, &object(vec![("path", s("a"))])), Err(ToolError::MissingField(f)) if f == "old_text"));
}

#[test]
fn paths_resolve_from_the_working_directory() {
    let ctx = context();
    assert_eq!(resolve_path(&ctx, &JsonValue::Null), "/work");
    assert_eq!(resolve_path(&ctx, &s("  src/main.rs ")), "/work/src/main.rs");
    assert_eq!(resolve_path(&ctx, &object(vec![("path", s("/etc/hosts"))])), "/etc/hosts");
    assert_eq!(resolve_path(&ctx, &JsonValue::Bool(true)), "/work");
    assert!(matches!(required_string(&s("x"), "path"), Err(ToolError::MissingField(_))));
}

#[test]
fn write_reports_bytes_written() {
    let ctx = context();
    let plan = WriteFileTool.plan(&ctx, &object(vec![("path", s("n.txt")), ("content", s("h\u{e9}llo"))])).ok().expect("write");
    assert!(plan.create_parents);
    let out = WriteFileTool.call(&plan);
    assert!(matches!(out.get("bytes_written"), Some(JsonValue::Number(n)) if n == "6"));
    assert!(matches!(WriteFileTool.plan(&ctx, &object(vec![("path", s("n"))])), Err(ToolError::MissingField(_))));
}

#[test]
fn directory_listing_is_sorted_by_name() {
    let out = ListDirectoryTool.call(
        "/work",
        vec![
            DirEntry { name: String::from("src"), is_dir: true },
            DirEntry { name: String::from("Cargo.toml"), is_dir: false },
            DirEntry { name: String::from("README.md"), is_dir: false },
        ],
    );
    match out.get("entries") {
        Some(JsonValue::Array(items)) => {
            let names: Vec<&str> = items.iter().map(|e| text(e.get("name")).unwrap_or("")).collect();
            assert_eq!(names, vec!["Cargo.toml", "README.md", "src"]);
            assert_eq!(text(items[2].get("kind")), Some("directory"));
        }
        _ => panic!("entries"),
    }
    assert_eq!(text(ReadFileTool.call("/work/a", String::from("body")).get("content")), Some("body"));
}

#[test]
fn git_status_lists_trimmed_lines() {
    let out = GitStatusTool.call("/repo", "\n M src/lib.rs\n?? new.txt\n\n");
    assert!(matches!(out.get("clean"), Some(JsonValue::Bool(false))));
    match out.get("entries") {
        Some(JsonValue::Array(items)) => {
            assert_eq!(items.len(), 2);
            assert_eq!(items[0].as_str(), Some("M src/lib.rs"));
        }
        _ => panic!("entries"),
    }
    assert!(matches!(GitStatusTool.call("/repo", "  \n").get("clean"), Some(JsonValue::Bool(true))));
    assert!(matches!(GitStatusTool.repository(&context()), Err(ToolError::NotARepository)));
}

#[test]
fn glob_joins_relative_patterns_and_sorts_matches() {
    let ctx = context();
    let search = GlobTool.search(&ctx, &object(vec![("pattern", s("*.rs"))])).ok().expect("glob");
    assert_eq!(search.base, "/work");
    assert_eq!(search.pattern, "/work/*.rs");
    let out = GlobTool.call(
        &search,
        vec![GlobMatch { path: String::from("/work/b.rs") }, GlobMatch { path: String::from("/work/a.rs") }],
    );
    match out.get("matches") {
        Some(JsonValue::Array(items)) => assert_eq!(items[0].as_str(), Some("/work/a.rs")),
        _ => panic!("matches"),
    }
}

#[test]
fn bash_output_trims_streams() {
    let ctx = context();
    let plan = BashTool.plan(&ctx, &object(vec![("command", s("pwd")), ("cwd", s("sub"))])).ok().expect("bash");
    assert_eq!(plan.cwd, "/work/sub");
    let out = BashTool.call(&plan, Some(-1), false, " /work/sub \n", "");
    assert_eq!(text(out.get("stdout")), Some("/work/sub"));
    assert!(matches!(out.get("status"), Some(JsonValue::Number(n)) if n == "-1"));
    let none = BashTool.call(&plan, None, true, "", "");
    assert!(matches!(none.get("status"), Some(JsonValue::Null)));
}

#[test]
fn current_directory_reports_missing_repository() {
    let out = CurrentDirectoryTool.call(&context());
    assert_eq!(text(out.get("cwd")), Some("/work"));
    assert_eq!(text(out.get("repository_root")), Some("<none>"));
}

#[test]
fn standard_registry_holds_every_tool() {
    let registry = standard_tool_registry();
    let names: Vec<String> = registry.specs().into_iter().map(|t| t.name).collect();
    assert_eq!(
        names,
        vec!["bash", "current_directory", "edit", "git_status", "glob", "grep", "list_directory", "read_file", "write"]
    );
    assert!(registry.contains("grep"));
    match registry.lookup("nope") {
        Err(e) => assert_eq!(e.message(), "unknown tool: nope"),
        Ok(_) => panic!("expected an error"),
    }
    assert_eq!(standard_tool_specs().len(), 9);
    let edit = registry.lookup("edit").ok().expect("edit");
    assert_eq!(text(edit.input_schema.get("type")), Some("object"));
}

#[test]
fn structured_results_render_as_pretty_json() {
    let result = ToolResult::new(object(vec![("a", s("b")), ("n", JsonValue::Number(String::from("2")))]));
    assert_eq!(result.render(), "{\n  \"a\": \"b\",\n  \"n\": 2\n}");
    assert_eq!(ToolResult::text("plain").render(), "plain");
}

#[test]
fn specs_sort_by_name_and_keep_the_order_of_equal_names() {
    let specs = vec![
        ToolSpec::new("write", "first write"),
        ToolSpec::new("bash", "shell"),
        ToolSpec::new("write", "second write"),
        ToolSpec::new("edit", "edit"),
    ];
    let sorted = sort_specs(specs);
    let shown: Vec<(&str, &str)> = sorted.iter().map(|s| (s.name.as_str(), s.description.as_str())).collect();
    assert_eq!(
        shown,
        vec![("bash", "shell"), ("edit", "edit"), ("write", "first write"), ("write", "second write")]
    );
}
