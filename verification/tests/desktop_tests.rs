use rovdex::agent::{Agent, AgentMode, PermissionAction, PermissionRequest, PermissionRule, PermissionScope};
use rovdex::auth::{AuthFile, AuthProvider, AuthStore};
use rovdex::config::WorkspaceConfig;
use rovdex::context::Context;
use rovdex::desktop::{
    build_timeline, detect_language, diff_report, is_hidden_tree_entry, provider_authenticated, render_session_message,
    render_simple_diff, resolve_agent_for_request, task_id, ApprovalMode, DesktopSettings,
};
use rovdex::desktop_state::{
    apply_stored_keys, build_state, pending_call_input, permission_requests, preview_file, render_pending_preview, DesktopAuthState,
    PendingPermission,
};
use rovdex::json::JsonValue;
use rovdex::strmap::StrMap;
use rovdex::message::Role;
use rovdex::session::{MessagePart, SessionEvent, SessionMessage};

fn context() -> Context {
    Context::from_path(String::from("/work"), &vec![String::from("/work")], &vec![true])
}

fn object(fields: Vec<(&str, &str)>) -> JsonValue {
    JsonValue::Object(fields.into_iter().map(|(k, v)| (String::from(k), JsonValue::String(String::from(v)))).collect())
}

#[test]
fn diff_shows_changed_lines() {
    assert_eq!(
        render_simple_diff("a.txt", "one\ntwo\n", "one\nthree\nfour\n"),
        "--- a/a.txt\n+++ b/a.txt\n@@ line 2 @@\n-two\n+three\n@@ line 3 @@\n+four"
    );
    assert_eq!(render_simple_diff("a.txt", "same", "same"), "--- a/a.txt\n+++ b/a.txt\n(no content change)");
}

#[test]
fn manual_mode_asks_before_writing_and_auto_mode_allows_shell() {
    let config = WorkspaceConfig::default();
    let manual = resolve_agent_for_request(&config, Some("build"), ApprovalMode::Manual);
    for rule in &manual.permissions {
        if matches!(rule.scope, PermissionScope::Write | PermissionScope::Bash) {
            assert!(rule.action != PermissionAction::Allow);
        }
    }
    let auto = resolve_agent_for_request(&config, None, ApprovalMode::Auto);
    for rule in &auto.permissions {
        if matches!(rule.scope, PermissionScope::Write | PermissionScope::Bash) {
            assert!(rule.action != PermissionAction::Ask);
        }
    }
    assert_eq!(auto.name, "build");
}

#[test]
fn timeline_describes_each_event() {
    let events = vec![
        SessionEvent::SessionStarted {
            session_id: String::from("s"),
            agent: String::from("build"),
            provider: String::from("local"),
            model: String::from("echo"),
        },
        SessionEvent::PermissionRequired {
            session_id: String::from("s"),
            message_id: String::from("s-tool-1"),
            tool: String::from("bash"),
            scope: String::from("bash"),
            target: String::from("pwd"),
        },
        SessionEvent::SessionFinished { session_id: String::from("s"), iterations: 2 },
    ];
    let t = build_timeline(&events);
    assert_eq!(t.len(), 3);
    assert_eq!(t[0].id, "s-started");
    assert_eq!(t[0].detail, "agent: build \u{b7} provider: local/echo");
    assert_eq!(t[1].title, "Approval required: bash");
    assert_eq!(t[1].status, "waiting");
    assert_eq!(t[2].detail, "iterations: 2");
}

#[test]
fn session_messages_render_their_text() {
    let m = SessionMessage::from_text("m1", Role::Assistant, "hello");
    let ui = render_session_message(&m).expect("ui message");
    assert_eq!(ui.role, "assistant");
    assert_eq!(ui.content, "hello");
    assert!(render_session_message(&SessionMessage::from_text("m2", Role::User, "   ")).is_none());
}

#[test]
fn small_desktop_helpers() {
    assert_eq!(detect_language("rs"), "rust");
    assert_eq!(detect_language("tsx"), "typescript");
    assert_eq!(detect_language("exe"), "plaintext");
    assert_eq!(task_id(42), "desktop-42");
    assert!(is_hidden_tree_entry("node_modules"));
    assert!(!is_hidden_tree_entry("src"));
    let config = WorkspaceConfig::default();
    let openai = config.provider("openai").expect("openai");
    assert!(!provider_authenticated(openai, None));
    assert!(!provider_authenticated(openai, Some("  ")));
    assert!(provider_authenticated(openai, Some("sk-1")));
    assert!(provider_authenticated(config.provider("local").expect("local"), None));
}

#[test]
fn stored_keys_apply_to_configured_providers() {
    let mut settings = DesktopSettings::default();
    settings.set_provider_api_key("openai", "  sk-stored  ");
    settings.set_provider_api_key("other", "sk-x");
    let config = apply_stored_keys(WorkspaceConfig::default(), &settings);
    assert_eq!(config.provider("openai").expect("openai").api_key, Some(String::from("sk-stored")));
    assert!(config.provider("other").is_none());
    settings.set_provider_api_key("openai", "   ");
    assert!(settings.provider_api_keys.get("openai").is_none());
}

#[test]
fn desktop_state_lists_agents_providers_and_sessions() {
    let mut settings = DesktopSettings::default();
    settings.set_provider_api_key("openai", "sk");
    settings.set_provider_selection(String::from("openai"), String::from("gpt-4.1"));
    let config = apply_stored_keys(WorkspaceConfig::default(), &settings);
    let store = AuthStore::new("/cfg/auth.json");
    let status = store.status(&AuthFile::default(), AuthProvider::GitHubCopilot);
    let state = build_state(&config, &settings, &context(), Vec::new(), &StrMap::new(), DesktopAuthState::from_status(status))
        .ok()
        .expect("state");
    assert_eq!(state.app_name, "Rovdex");
    assert_eq!(state.selected_agent, "build");
    assert_eq!(state.selected_provider, "openai");
    assert_eq!(state.selected_model, "gpt-4.1");
    assert_eq!(state.agents.len(), 2);
    assert_eq!(state.providers.len(), 2);
    assert_eq!(state.providers[1].kind, "RemoteOpenAiCompatible");
    assert!(state.providers[1].authenticated);
    assert!(state.providers[1].uses_stored_key);
    assert_eq!(state.providers[0].models.len(), 2);
    assert_eq!(state.copilot_auth.provider, "github-copilot");
    assert!(!state.copilot_auth.stored);

    settings.set_provider_selection(String::from("openai"), String::from("nope"));
    assert!(build_state(&config, &settings, &context(), Vec::new(), &StrMap::new(), DesktopAuthState::from_status(
        store.status(&AuthFile::default(), AuthProvider::GitHubCopilot)
    ))
    .is_err());
}

#[test]
fn pending_approvals_preview_their_effect() {
    let ctx = context();
    let mut message = SessionMessage::from_text("s-tool-1", Role::Assistant, "");
    message.parts.push(MessagePart::ToolCall {
        tool: String::from("edit"),
        input: object(vec![("path", "a.txt"), ("old_text", "two"), ("new_text", "2")]),
    });
    let messages = vec![message];
    let input = pending_call_input(&messages, "s-tool-1").expect("input");
    assert!(pending_call_input(&messages, "other").is_none());
    let file = preview_file(&ctx, "edit", &input).expect("file");
    assert_eq!(file, "/work/a.txt");
    let preview = render_pending_preview("edit", &input, "a.txt", &file, "one\ntwo\n");
    assert_eq!(preview, "--- a//work/a.txt\n+++ b//work/a.txt\n@@ line 2 @@\n-two\n+2");
    let bash = object(vec![("command", "ls")]);
    assert!(preview_file(&ctx, "bash", &bash).is_none());
    assert_eq!(render_pending_preview("bash", &bash, "ls", "", ""), "bash\n\nls");
    let p = PendingPermission::new(
        String::from("m"),
        String::from("bash"),
        String::from("bash"),
        String::from("ls"),
        None,
        None,
    );
    assert!(matches!(p.input, JsonValue::Null));
    assert_eq!(p.preview, "ls");
}

#[test]
fn wildcard_rules_match_through_glob_patterns() {
    let mut agent = Agent::new("custom", "Custom agent", AgentMode::Primary);
    agent.permissions.push(PermissionRule::ask(PermissionScope::Write, "*"));
    agent.permissions.push(PermissionRule::allow(PermissionScope::Write, "src/*"));
    agent.permissions.push(PermissionRule::deny(PermissionScope::Write, "src/secret.rs"));
    let decide = |target: &str| agent.evaluate_permission(&PermissionRequest { scope: PermissionScope::Write, target: String::from(target) });
    assert!(decide("src/main.rs") == PermissionAction::Allow);
    assert!(decide("docs/guide.md") == PermissionAction::Ask);
    assert!(decide("src/secret.rs") == PermissionAction::Deny);
    let read = agent.evaluate_permission(&PermissionRequest { scope: PermissionScope::Read, target: String::from("src/main.rs") });
    assert!(read == PermissionAction::Ask);
}

#[test]
fn diff_report_reads_git_output() {
    let (lines, changed) = diff_report(" M src/a.rs\r\n?? b.txt\n", "");
    assert_eq!(lines, vec![String::from(" M src/a.rs"), String::from("?? b.txt")]);
    assert!(changed);
    let (lines, changed) = diff_report("", "  \n\t");
    assert!(lines.is_empty());
    assert!(!changed);
    let (lines, changed) = diff_report("", "@@ -1 +1 @@\n-a\n+b\n");
    assert!(lines.is_empty());
    assert!(changed);
}

#[test]
fn permission_requests_keep_the_order_of_the_run() {
    let s = || String::from("s1");
    let events = vec![
        SessionEvent::ToolCalled { session_id: s(), message_id: String::from("m1"), tool: String::from("write") },
        SessionEvent::PermissionRequired {
            session_id: s(),
            message_id: String::from("m1"),
            tool: String::from("write"),
            scope: String::from("write"),
            target: String::from("a.txt"),
        },
        SessionEvent::ToolDenied {
            session_id: s(),
            message_id: String::from("m2"),
            tool: String::from("bash"),
            scope: String::from("bash"),
            target: String::from("rm"),
        },
        SessionEvent::PermissionRequired {
            session_id: s(),
            message_id: String::from("m3"),
            tool: String::from("bash"),
            scope: String::from("bash"),
            target: String::from("ls"),
        },
    ];
    let asks = permission_requests(&events);
    assert_eq!(asks.len(), 2);
    assert_eq!(asks[0].message_id, "m1");
    assert_eq!(asks[0].tool, "write");
    assert_eq!(asks[0].target, "a.txt");
    assert_eq!(asks[1].message_id, "m3");
    assert_eq!(asks[1].scope, "bash");
    assert_eq!(asks[1].target, "ls");
}

#[test]
fn remote_provider_counts_as_signed_in_with_its_key_variable() {
    let settings = DesktopSettings::default();
    let config = WorkspaceConfig::default();
    let store = AuthStore::new("/cfg/auth.json");
    let status = || DesktopAuthState::from_status(store.status(&AuthFile::default(), AuthProvider::GitHubCopilot));
    let mut env = StrMap::new();
    let state = build_state(&config, &settings, &context(), Vec::new(), &env, status()).ok().expect("state");
    assert!(state.providers[0].authenticated);
    assert!(!state.providers[1].authenticated);
    env.insert(String::from("OPENAI_API_KEY"), String::from("sk-env"));
    env.insert(String::from("UNRELATED"), String::from("x"));
    let state = build_state(&config, &settings, &context(), Vec::new(), &env, status()).ok().expect("state");
    assert!(state.providers[1].authenticated);
    assert!(!state.providers[1].uses_stored_key);
}
