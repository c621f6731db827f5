use agent_hook::{hook_reply, read_json_or, respond, rewrite_response, shell_command, HookFormat, Json};

/// A JSON text as the library reads it.
fn parse(text: &str) -> Json {
    read_json_or(Some(text), Json::Null).expect("json")
}

fn at<'a>(j: &'a Json, path: &[&str]) -> &'a Json {
    let mut node = j;
    for k in path {
        node = node.get(k).expect("key");
    }
    node
}

fn text<'a>(j: &'a Json, path: &[&str]) -> &'a str {
    at(j, path).as_str().expect("string")
}

/// Stands in for the command registry: known tools are prefixed, commands that
/// already go through contextzip come back as they are, anything else is left alone.
fn real_rewrite(cmd: &str) -> Option<String> {
    if cmd.starts_with("contextzip ") {
        return Some(cmd.to_string());
    }
    let first = cmd.split_whitespace().next().unwrap_or("");
    if ["git", "cargo", "npm", "ls", "grep"].contains(&first) {
        Some(format!("contextzip {}", cmd))
    } else {
        None
    }
}

// Payloads below mirror the documented / observed stdin of each app.

#[test]
fn cursor_rewrites_shell_and_keeps_other_fields() {
    let input = parse(
        r#"{"tool_name": "Shell", "tool_input": {"command": "git status", "working_directory": "/proj"}, "cwd": "/proj"}"#,
    );
    let out = respond(HookFormat::Cursor, &input, &real_rewrite).expect("rewrite");
    assert_eq!(text(&out, &["permission"]), "allow");
    assert_eq!(text(&out, &["updated_input", "command"]), "contextzip git status");
    assert_eq!(text(&out, &["updated_input", "working_directory"]), "/proj");
}

#[test]
fn gemini_rewrites_run_shell_command() {
    let input = parse(
        r#"{"hook_event_name": "BeforeTool", "tool_name": "run_shell_command", "tool_input": {"command": "cargo test", "description": "run tests"}}"#,
    );
    let out = respond(HookFormat::Gemini, &input, &real_rewrite).expect("rewrite");
    assert_eq!(text(&out, &["hookSpecificOutput", "hookEventName"]), "BeforeTool");
    assert_eq!(
        text(&out, &["hookSpecificOutput", "tool_input", "command"]),
        "contextzip cargo test"
    );
    assert!(out.get("decision").is_none(), "must not bypass Gemini approval");
}

#[test]
fn copilot_rewrites_run_in_terminal_with_full_schema() {
    let input = parse(
        r#"{"tool_name": "run_in_terminal", "tool_input": {"command": "git status", "explanation": "Check current git status", "mode": "sync", "timeout": 60000}}"#,
    );
    let out = respond(HookFormat::Copilot, &input, &real_rewrite).expect("rewrite");
    let hso = at(&out, &["hookSpecificOutput"]);
    assert_eq!(text(hso, &["permissionDecision"]), "allow");
    assert_eq!(text(hso, &["updatedInput", "command"]), "contextzip git status");
    assert_eq!(text(hso, &["updatedInput", "explanation"]), "Check current git status");
    assert_eq!(text(hso, &["updatedInput", "mode"]), "sync");
    assert_eq!(at(hso, &["updatedInput", "timeout"]), &Json::Number("60000".to_string()));
}

#[test]
fn unsupported_command_passes_through() {
    let input = parse(r#"{"tool_name": "Shell", "tool_input": {"command": "rm -rf build"}}"#);
    assert!(respond(HookFormat::Cursor, &input, &real_rewrite).is_none());
}

#[test]
fn already_prefixed_command_passes_through() {
    let input = parse(
        r#"{"tool_name": "run_shell_command", "tool_input": {"command": "contextzip git status"}}"#,
    );
    assert!(respond(HookFormat::Gemini, &input, &real_rewrite).is_none());
}

#[test]
fn non_shell_tool_passes_through() {
    let input = parse(r#"{"tool_name": "Read", "tool_input": {"command": "git status"}}"#);
    assert!(respond(HookFormat::Cursor, &input, &real_rewrite).is_none());
    let input = parse(r#"{"tool_name": "Shell", "tool_input": {"command": "git status"}}"#);
    assert!(respond(HookFormat::Gemini, &input, &real_rewrite).is_none());
}

#[test]
fn malformed_payload_passes_through() {
    for input in [
        parse(r#"{}"#),
        parse(r#"{"tool_name": "Shell"}"#),
        parse(r#"{"tool_name": "Shell", "tool_input": "git status"}"#),
        parse(r#"{"tool_name": "Shell", "tool_input": {"command": 42}}"#),
    ] {
        assert!(respond(HookFormat::Cursor, &input, &real_rewrite).is_none());
    }
}

#[test]
fn copilot_accepts_both_terminal_tool_names() {
    let input = parse(r#"{"tool_name": "runTerminalCommand", "tool_input": {"command": "ls"}}"#);
    assert_eq!(shell_command(HookFormat::Copilot, &input), Some("ls"));
    let input = parse(r#"{"tool_name": "run_in_terminal", "tool_input": {"command": "ls"}}"#);
    assert_eq!(shell_command(HookFormat::Copilot, &input), Some("ls"));
    assert_eq!(shell_command(HookFormat::Cursor, &input), None);
}

#[test]
fn non_object_payload_passes_through() {
    assert_eq!(shell_command(HookFormat::Cursor, &parse("[1, 2]")), None);
    assert_eq!(shell_command(HookFormat::Cursor, &Json::Str("Shell".to_string())), None);
}

#[test]
fn response_replaces_command_only() {
    let input = parse(
        r#"{"tool_name": "Shell", "tool_input": {"command": "git log", "extra": [1, {"a": null}]}}"#,
    );
    let out = rewrite_response(HookFormat::Cursor, &input, Some("contextzip git log".to_string()))
        .expect("reply");
    let expected = parse(
        r#"{"permission": "allow", "updated_input": {"command": "contextzip git log", "extra": [1, {"a": null}]}}"#,
    );
    assert_eq!(at(&out, &["updated_input", "extra"]), at(&expected, &["updated_input", "extra"]));
    assert_eq!(out.get("updated_input").unwrap().get("command"), expected.get("updated_input").unwrap().get("command"));
}

#[test]
fn no_rewrite_or_same_command_passes_through() {
    let input = parse(r#"{"tool_name": "Shell", "tool_input": {"command": "git log"}}"#);
    assert!(rewrite_response(HookFormat::Cursor, &input, None).is_none());
    assert!(rewrite_response(HookFormat::Cursor, &input, Some("git log".to_string())).is_none());
}

#[test]
fn gemini_reply_holds_only_the_command() {
    let input = parse(
        r#"{"tool_name": "run_shell_command", "tool_input": {"command": "git diff", "description": "d"}}"#,
    );
    let out = rewrite_response(HookFormat::Gemini, &input, Some("contextzip git diff".to_string()))
        .expect("reply");
    let ti = at(&out, &["hookSpecificOutput", "tool_input"]);
    assert_eq!(text(ti, &["command"]), "contextzip git diff");
    assert!(ti.get("description").is_none());
}

#[test]
fn copilot_reply_carries_reason() {
    let input = parse(r#"{"tool_name": "run_in_terminal", "tool_input": {"command": "git status"}}"#);
    let out = respond(HookFormat::Copilot, &input, &real_rewrite).expect("rewrite");
    assert_eq!(
        text(&out, &["hookSpecificOutput", "permissionDecisionReason"]),
        "ContextZip auto-rewrite"
    );
    assert_eq!(text(&out, &["hookSpecificOutput", "hookEventName"]), "PreToolUse");
}

#[test]
fn hook_reply_prints_compact_json() {
    let stdin = r#"{"tool_name": "Shell", "tool_input": {"command": "git status", "cwd": "/p"}}"#;
    assert_eq!(
        hook_reply(HookFormat::Cursor, stdin, &real_rewrite).as_deref(),
        Some(r#"{"permission":"allow","updated_input":{"command":"contextzip git status","cwd":"/p"}}"#)
    );
}

#[test]
fn hook_reply_is_silent_on_bad_or_unrewritten_input() {
    assert_eq!(hook_reply(HookFormat::Cursor, "not json", &real_rewrite), None);
    assert_eq!(hook_reply(HookFormat::Cursor, "", &real_rewrite), None);
    let stdin = r#"{"tool_name": "Shell", "tool_input": {"command": "rm -rf x"}}"#;
    assert_eq!(hook_reply(HookFormat::Cursor, stdin, &real_rewrite), None);
}
