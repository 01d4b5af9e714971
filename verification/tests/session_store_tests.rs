use rovdex::agent::{Agent, AgentMode};
use rovdex::context::Context;
use rovdex::provider::ProviderSelection;
use rovdex::session::{Session, SessionRun};
use rovdex::session_store::{is_session_file, preview_text, stored_session, summaries, SessionStore, StoredSession};

fn context(cwd: &str, git: bool) -> Context {
    Context::from_path(String::from(cwd), &vec![String::from(cwd)], &vec![git])
}

fn run(id: &str, final_message: &str) -> SessionRun {
    let session = Session::new(
        id,
        &context("/work/project", true),
        Agent::new("build", "Build agent", AgentMode::Primary),
        ProviderSelection::new("local", "echo"),
    );
    SessionRun { session, events: Vec::new(), final_message: String::from(final_message), iterations: 1 }
}

#[test]
fn saves_and_loads_sessions() {
    let store = SessionStore::new("/work/project/.rovdex/sessions");
    let stored = stored_session(run("session", "done"), 1_700_000_000, 1_700_000_000_123);
    let path = store.path_for(&stored.id);
    let list = summaries(vec![stored_session(run("session", "done"), 1_700_000_000, 1_700_000_000_123)]);

    assert_eq!(stored.id, "session-1700000000123");
    assert_eq!(path, "/work/project/.rovdex/sessions/session-1700000000123.json");
    assert_eq!(list.len(), 1);
    assert_eq!(stored.final_message, "done");
}

#[test]
fn named_sessions_keep_their_id() {
    let stored = stored_session(run("task-7", "ok"), 5, 6);
    assert_eq!(stored.id, "task-7");
    assert_eq!(stored.provider, "local");
    assert_eq!(stored.model, "echo");
    assert_eq!(stored.agent, "build");
    assert_eq!(stored.cwd, "/work/project");
    assert_eq!(stored.repository_root, Some(String::from("/work/project")));
    assert_eq!(stored_session(run("", "ok"), 5, 6).id, "session-6");
}

#[test]
fn summaries_list_newest_first_then_by_id() {
    let all: Vec<StoredSession> = vec![
        stored_session(run("b", "one"), 10, 0),
        stored_session(run("c", "two"), 20, 0),
        stored_session(run("a", "three"), 10, 0),
    ];
    let list = summaries(all);
    let ids: Vec<&str> = list.iter().map(|s| s.id.as_str()).collect();
    assert_eq!(ids, vec!["c", "a", "b"]);
    assert_eq!(list[0].final_message_preview, "two");
}

#[test]
fn previews_collapse_whitespace_and_truncate() {
    assert_eq!(preview_text("  hello \n\t world  ", 96), "hello world");
    assert_eq!(preview_text("abcdef", 4), "abc\u{2026}");
    assert_eq!(preview_text("abcd", 4), "abcd");
    assert_eq!(preview_text("abc", 0), "\u{2026}");
    let long = "word ".repeat(40);
    assert_eq!(preview_text(&long, 96).chars().count(), 96);
}

#[test]
fn stores_follow_the_repository_root() {
    let in_repo = SessionStore::for_context(&context("/work/project", true));
    assert_eq!(in_repo.root(), "/work/project/.rovdex/sessions");
    let outside = SessionStore::for_context(&context("/tmp/scratch", false));
    assert_eq!(outside.root(), "/tmp/scratch/.rovdex/sessions");
}

#[test]
fn only_json_files_hold_sessions() {
    assert!(is_session_file("session-1.json"));
    assert!(!is_session_file(".json"));
    assert!(!is_session_file("notes.txt"));
    assert!(!is_session_file("json"));
}
