use rovdex::agent::{Agent, PermissionRule, PermissionScope};
use rovdex::context::Context;
use rovdex::engine::{run_result, Engine, Step};
use rovdex::json::JsonValue;
use rovdex::message::Role;
use rovdex::provider::{ProviderResponse, ProviderSelection, ScriptedProvider, ToolCall};
use rovdex::session::{MessagePart, SessionEvent, SessionRun};
use rovdex::task::Task;
use rovdex::tools::CurrentDirectoryTool;

fn context() -> Context {
    Context::from_path(
        String::from("/work/project/sub"),
        &vec![String::from("/work/project/sub"), String::from("/work/project"), String::from("/work")],
        &vec![false, true, false],
    )
}

fn object(fields: Vec<(&str, &str)>) -> JsonValue {
    JsonValue::Object(fields.into_iter().map(|(k, v)| (String::from(k), JsonValue::String(String::from(v)))).collect())
}

/// Drives a run to its end, answering from the script and running the
/// tools the run calls.
fn drive(
    agent: Option<&str>,
    provider_name: Option<&str>,
    model: Option<&str>,
    task: Task,
    mut provider: ScriptedProvider,
) -> Result<SessionRun, String> {
    let engine = Engine::with_standard_tools();
    let (agent, selection) = match engine.select(agent, provider_name, model) {
        Ok(x) => x,
        Err(e) => return Err(e.message()),
    };
    let ctx = context();
    let (mut state, mut step) = engine.start_run(ctx.clone(), task, agent, selection, "");
    loop {
        step = match step {
            Step::CallProvider => {
                let _request = state.request();
                match provider.complete() {
                    Ok(response) => state.on_response(response),
                    Err(e) => return Err(e.message()),
                }
            }
            Step::CallTool => {
                let name = state.running.as_ref().expect("running call").call.name.clone();
                let output = if name == "current_directory" {
                    CurrentDirectoryTool.call(&ctx)
                } else {
                    JsonValue::String(String::from("unexpected tool"))
                };
                state.on_tool_output(output)
            }
            Step::Continue => state.advance(),
            Step::Finished => return Ok(state.finish()),
            Step::Failed(e) => return Err(e.message()),
        }
    }
}

#[test]
fn runs_tool_loop_and_finishes() {
    let provider = ScriptedProvider::new(vec![
        ProviderResponse::with_tool_calls(
            "Inspecting workspace",
            vec![ToolCall::new("current_directory", JsonValue::String(String::new()))],
        ),
        ProviderResponse::final_message("done"),
    ]);

    let run = drive(None, None, None, Task::new("task-1", "Check the workspace"), provider).expect("run result");
    let result = run_result(run);

    assert_eq!(result.final_message, "done");
    assert_eq!(result.iterations, 2);
    assert!(result
        .messages
        .iter()
        .any(|message| message.role == Role::Tool && message.name.as_deref() == Some("current_directory")));
}

#[test]
fn session_run_records_structured_tool_output() {
    let provider = ScriptedProvider::new(vec![
        ProviderResponse::with_tool_calls(
            "Inspecting workspace",
            vec![ToolCall::new("current_directory", JsonValue::Object(Vec::new()))],
        ),
        ProviderResponse::final_message("done"),
    ]);

    let result = drive(Some("build"), Some("local"), Some("echo"), Task::new("task-2", "Check the workspace"), provider)
        .expect("session run");

    let tool_message = result
        .session
        .messages
        .iter()
        .find(|message| message.role == Role::Tool)
        .expect("tool message");

    assert!(tool_message.parts.iter().any(|part| match part {
        MessagePart::ToolResult { tool, output } =>
            tool == "current_directory" && output.get("cwd").is_some() && output.get("repository_root").is_some(),
        _ => false,
    }));
    assert_eq!(result.session.provider.provider_id, "local");
    assert_eq!(result.session.provider.model_id, "echo");
}

#[test]
fn plan_agent_denies_write_tool_calls() {
    let provider = ScriptedProvider::new(vec![
        ProviderResponse::with_tool_calls(
            "Trying write",
            vec![ToolCall::new("write", object(vec![("path", "note.txt"), ("content", "hello")]))],
        ),
        ProviderResponse::final_message("done"),
    ]);

    let result = drive(Some("plan"), Some("local"), Some("planner"), Task::new("task-3", "Try writing"), provider)
        .expect("session run");

    assert!(result.events.iter().any(|event| matches!(
        event,
        SessionEvent::ToolDenied { tool, .. } if tool == "write"
    )));

    let tool_message = result
        .session
        .messages
        .iter()
        .find(|message| message.role == Role::Tool)
        .expect("tool message");

    assert!(tool_message.parts.iter().any(|part| match part {
        MessagePart::ToolResult { output, .. } =>
            matches!(output.get("status"), Some(JsonValue::String(s)) if s == "permission_denied"),
        _ => false,
    }));
}

#[test]
fn build_agent_requires_approval_for_bash_tool_calls() {
    let provider = ScriptedProvider::new(vec![
        ProviderResponse::with_tool_calls("Trying bash", vec![ToolCall::new("bash", object(vec![("command", "pwd")]))]),
        ProviderResponse::final_message("done"),
    ]);

    let result = drive(Some("build"), Some("local"), Some("echo"), Task::new("task-4", "Try bash"), provider)
        .expect("session run");

    assert!(result.events.iter().any(|event| matches!(
        event,
        SessionEvent::PermissionRequired { tool, .. } if tool == "bash"
    )));
}

#[test]
fn run_without_final_answer_fails() {
    let mut script = Vec::new();
    for _ in 0..8 {
        script.push(ProviderResponse::with_tool_calls(
            "again",
            vec![ToolCall::new("current_directory", JsonValue::Object(Vec::new()))],
        ));
    }
    let r = drive(None, None, None, Task::new("task-5", "loop"), ScriptedProvider::new(script));
    assert_eq!(r.err(), Some(String::from("provider did not finish within 8 iterations")));
}

#[test]
fn unknown_agent_falls_back_to_the_default() {
    let engine = Engine::with_standard_tools();
    let (agent, selection) = match engine.select(Some("nobody"), None, None) {
        Ok(x) => x,
        Err(e) => panic!("{}", e.message()),
    };
    assert_eq!(agent.name, "build");
    assert_eq!(selection.provider_id, "local");
    assert_eq!(selection.model_id, "echo");
    assert_eq!(engine.tools.len(), 9);
}

#[test]
fn glob_rules_decide_which_calls_run_in_the_session_loop() {
    let engine = Engine::with_standard_tools();
    let mut agent = Agent::build();
    agent.permissions.push(PermissionRule::deny(PermissionScope::Write, "*.txt"));
    let ctx = context();
    let (mut state, mut step) =
        engine.start_run(ctx, Task::new("task-g", "write"), agent, ProviderSelection::new("local", "echo"), "");
    let mut responses = vec![
        ProviderResponse::with_tool_calls(
            "Writing",
            vec![
                ToolCall::new("write", object(vec![("path", "note.txt"), ("content", "x")])),
                ToolCall::new("write", object(vec![("path", "main.rs"), ("content", "y")])),
            ],
        ),
        ProviderResponse::final_message("done"),
    ]
    .into_iter();
    let mut ran = Vec::new();
    loop {
        step = match step {
            Step::CallProvider => state.on_response(responses.next().expect("scripted answer")),
            Step::CallTool => {
                let call = &state.running.as_ref().expect("running call").call;
                ran.push(call.input.text_field("path").unwrap_or("").to_string());
                state.on_tool_output(JsonValue::Null)
            }
            Step::Continue => state.advance(),
            Step::Finished => break,
            Step::Failed(e) => panic!("run failed: {}", e.message()),
        }
    }
    assert_eq!(ran, vec![String::from("main.rs")]);
    let run = state.finish();
    assert!(run.events.iter().any(|e| matches!(e,
        SessionEvent::ToolDenied { target, .. } if target == "note.txt")));
}
