use agent_hook::{
    antigravity_rule_path, config_path, config_text, copilot_hooks, entry_command_matches,
    group_has_our_hook, install_agent, install_default, install_file, install_line,
    json_array_at, parsed_config, put_array_at, read_json_or, uninstall_file, uninstall_hooks,
    uninstall_line, Agent, AgentFile, ConfigError, Json, ANTIGRAVITY_RULE,
};
use serde_json::Value;

/// A JSON text as the library reads it.
fn parse(text: &str) -> Json {
    read_json_or(Some(text), Json::Null).expect("json")
}

/// The config an agent would find in a file holding `text` (`None`: no file).
fn load(text: Option<&str>, default: Json) -> Result<Json, ConfigError> {
    read_json_or(text, default)
}

/// The JSON config that installing writes for `agent`.
fn installed(agent: Agent, root: Json, exe: &str) -> Result<Json, ConfigError> {
    match install_agent(agent, root, exe)? {
        AgentFile::Json(j) => Ok(j),
        AgentFile::Rule(_) => panic!("a rule file where a JSON config was expected"),
    }
}

fn at<'a>(j: &'a Json, path: &[&str]) -> &'a Json {
    let mut node = j;
    for k in path {
        node = node.get(k).expect("key");
    }
    node
}

fn text<'a>(j: &'a Json, path: &[&str]) -> &'a str {
    at(j, path).as_str().expect("string")
}

fn list<'a>(j: &'a Json, path: &[&str]) -> &'a Vec<Json> {
    at(j, path).as_array().expect("array")
}

#[test]
fn expand_all_lists_each_agent_once() {
    let agents = Agent::expand(&[Agent::Cursor, Agent::All]);
    assert_eq!(
        agents,
        vec![Agent::Cursor, Agent::Gemini, Agent::Copilot, Agent::Antigravity]
    );
}

#[test]
fn expand_keeps_first_request_order() {
    assert_eq!(
        Agent::expand(&[Agent::Copilot, Agent::Cursor, Agent::Copilot]),
        vec![Agent::Copilot, Agent::Cursor]
    );
    assert_eq!(
        Agent::expand(&[Agent::Antigravity, Agent::All, Agent::All]),
        vec![Agent::Antigravity, Agent::Cursor, Agent::Gemini, Agent::Copilot]
    );
    assert!(Agent::expand(&[]).is_empty());
    let once = Agent::expand(&[Agent::Gemini, Agent::All, Agent::Cursor]);
    assert_eq!(Agent::expand(&once), once);
}

#[test]
fn labels() {
    assert_eq!(Agent::Cursor.label(), "Cursor");
    assert_eq!(Agent::Gemini.label(), "Gemini CLI");
    assert_eq!(Agent::Copilot.label(), "VS Code Copilot");
    assert_eq!(Agent::Antigravity.label(), "Antigravity");
    assert_eq!(Agent::All.label(), "all");
}

#[test]
fn cursor_install_preserves_existing_hooks_and_is_idempotent() {
    let seed = r#"{"version":1,"hooks":{"preToolUse":[{"command":"./audit.sh"}],"stop":[{"command":"./s.sh"}]}}"#;
    let root = load(Some(seed), install_default(Agent::Cursor)).expect("read");
    let once = installed(Agent::Cursor, root, "/bin/contextzip").expect("install 1");
    let twice = installed(Agent::Cursor, once.deep_clone(), "/bin/contextzip").expect("install 2");
    assert_eq!(twice, once);

    let l = list(&twice, &["hooks", "preToolUse"]);
    assert_eq!(l.len(), 2, "user hook kept, ours added once");
    assert_eq!(text(&l[0], &["command"]), "./audit.sh");
    assert_eq!(text(&l[1], &["command"]), "\"/bin/contextzip\" hook cursor");
    assert_eq!(text(&l[1], &["matcher"]), "Shell");
    assert_eq!(text(&list(&twice, &["hooks", "stop"])[0], &["command"]), "./s.sh");

    let mut root = twice;
    assert!(uninstall_hooks(Agent::Cursor, &mut root), "one file changed");
    assert_eq!(list(&root, &["hooks", "preToolUse"]).len(), 1);
}

#[test]
fn gemini_install_keeps_other_settings() {
    let seed = r#"{"theme":"Dracula","hooks":{"AfterTool":[]}}"#;
    let root = load(Some(seed), install_default(Agent::Gemini)).expect("read");
    let once = installed(Agent::Gemini, root, "/bin/contextzip").expect("install");
    let root = installed(Agent::Gemini, once, "/bin/contextzip").expect("reinstall");

    assert_eq!(text(&root, &["theme"]), "Dracula");
    assert!(at(&root, &["hooks", "AfterTool"]).as_array().is_some());
    let groups = list(&root, &["hooks", "BeforeTool"]);
    assert_eq!(groups.len(), 1);
    assert_eq!(text(&groups[0], &["matcher"]), "run_shell_command");
    assert_eq!(
        text(&list(&groups[0], &["hooks"])[0], &["command"]),
        "\"/bin/contextzip\" hook gemini"
    );

    let mut root = root;
    assert!(uninstall_hooks(Agent::Gemini, &mut root));
    assert_eq!(text(&root, &["theme"]), "Dracula");
    assert!(list(&root, &["hooks", "BeforeTool"]).is_empty());
}

#[test]
fn unparseable_config_is_left_untouched() {
    let original = "{ // comment\n \"theme\": \"x\" }";
    let err = install_file(Agent::Gemini, Some(original), "/bin/contextzip").unwrap_err();
    assert!(matches!(err, ConfigError::NotPlainJson(_)));
    assert!(err.message().starts_with("is not plain JSON (comments?); left it untouched"));
    assert!(matches!(uninstall_file(Agent::Gemini, Some(original)), Err(ConfigError::NotPlainJson(_))));
}

#[test]
fn install_file_round_trips_through_text() {
    let seed = r#"{"version":1,"hooks":{"preToolUse":[{"command":"./audit.sh"}],"stop":[{"command":"./s.sh"}]}}"#;
    let once = install_file(Agent::Cursor, Some(seed), "/bin/contextzip").expect("install 1");
    let twice = install_file(Agent::Cursor, Some(&once), "/bin/contextzip").expect("install 2");
    assert_eq!(once, twice);
    assert!(once.ends_with("}\n"));
    let root: Value = serde_json::from_str(&once).expect("json");
    assert_eq!(root["hooks"]["preToolUse"][1]["command"], "\"/bin/contextzip\" hook cursor");
    assert_eq!(root["hooks"]["stop"][0]["command"], "./s.sh");

    let removed = uninstall_file(Agent::Cursor, Some(&once)).expect("uninstall").expect("changed");
    let root: Value = serde_json::from_str(&removed).expect("json");
    assert_eq!(root["hooks"]["preToolUse"].as_array().expect("array").len(), 1);
    assert_eq!(uninstall_file(Agent::Cursor, Some(&removed)), Ok(None));
    assert_eq!(uninstall_file(Agent::Cursor, None), Ok(None));
}

#[test]
fn install_file_for_missing_file_uses_default() {
    let text = install_file(Agent::Cursor, None, "/bin/contextzip").expect("install");
    let root: Value = serde_json::from_str(&text).expect("json");
    assert_eq!(root["version"], 1);
    assert_eq!(root["hooks"]["preToolUse"][0]["matcher"], "Shell");
    let rule = install_file(Agent::Antigravity, Some("old text"), "/bin/contextzip").expect("rule");
    assert_eq!(rule, ANTIGRAVITY_RULE);
    let copilot = install_file(Agent::Copilot, Some("{ not json"), "/bin/contextzip").expect("copilot");
    let root: Value = serde_json::from_str(&copilot).expect("json");
    assert_eq!(root["hooks"]["PreToolUse"][0]["timeout"], 10);
}

#[test]
fn config_text_is_indented_json_with_a_newline() {
    let root = parse(r#"{"b": [1, "x"], "a": null}"#);
    assert_eq!(config_text(&root), "{\n  \"a\": null,\n  \"b\": [\n    1,\n    \"x\"\n  ]\n}\n");
    assert_eq!(config_text(&Json::new_object()), "{}\n");
}

#[test]
fn parsed_config_refuses_parse_errors() {
    assert_eq!(parsed_config(Ok(Json::Null)), Ok(Json::Null));
    assert_eq!(
        parsed_config(Err("bad".to_string())),
        Err(ConfigError::NotPlainJson("bad".to_string()))
    );
}

#[test]
fn copilot_and_antigravity_files_round_trip() {
    let root = copilot_hooks("/bin/contextzip");
    assert_eq!(
        text(&list(&root, &["hooks", "PreToolUse"])[0], &["command"]),
        "\"/bin/contextzip\" hook copilot"
    );
    assert!(ANTIGRAVITY_RULE.starts_with("---\ntrigger: always_on\n---"));
    let rule = install_agent(Agent::Antigravity, Json::Null, "/bin/contextzip").expect("rule");
    assert_eq!(rule, AgentFile::Rule(ANTIGRAVITY_RULE));
    assert_eq!(
        antigravity_rule_path("/home/u"),
        vec!["/home/u", ".gemini", "config", "rules", "contextzip.md"]
    );
}

#[test]
fn copilot_install_ignores_current_file() {
    let root = installed(Agent::Copilot, parse(r#"{"x": 1}"#), "/bin/contextzip").expect("install");
    let hook = &list(&root, &["hooks", "PreToolUse"])[0];
    assert_eq!(text(hook, &["type"]), "command");
    assert_eq!(at(hook, &["timeout"]), &Json::Number("10".to_string()));
    assert!(root.get("x").is_none());
}

#[test]
fn gemini_hook_entry_shape() {
    let root = installed(Agent::Gemini, Json::new_object(), "/opt/contextzip").expect("install");
    let hook = &list(&list(&root, &["hooks", "BeforeTool"])[0], &["hooks"])[0];
    assert_eq!(text(hook, &["name"]), "contextzip");
    assert_eq!(text(hook, &["type"]), "command");
    assert_eq!(at(hook, &["timeout"]), &Json::Number("5000".to_string()));
}

#[test]
fn missing_or_blank_file_gives_default() {
    let root = load(None, install_default(Agent::Cursor)).expect("default");
    assert_eq!(at(&root, &["version"]), &Json::Number("1".to_string()));
    assert_eq!(at(&root, &["hooks"]), &Json::new_object());
    assert_eq!(load(Some(" \n\t "), Json::new_object()), Ok(Json::new_object()));
    assert_eq!(load(Some("{\"a\": true}"), Json::new_object()), Ok(parse(r#"{"a": true}"#)));
    assert_eq!(load(Some("{}"), Json::Null), Ok(Json::new_object()));
    assert!(matches!(load(Some("{,}"), Json::Null), Err(ConfigError::NotPlainJson(_))));
}

#[test]
fn install_refuses_config_of_the_wrong_shape() {
    let err = installed(Agent::Cursor, parse("[]"), "/bin/contextzip").unwrap_err();
    assert_eq!(err, ConfigError::NotAnObject("hooks".to_string()));
    assert_eq!(err.message(), "expected an object above `hooks`");
    let err = installed(Agent::Cursor, parse(r#"{"hooks": 3}"#), "/bin/contextzip").unwrap_err();
    assert_eq!(err, ConfigError::NotAnObject("preToolUse".to_string()));
    let err =
        installed(Agent::Gemini, parse(r#"{"hooks": {"BeforeTool": {}}}"#), "/bin/contextzip")
            .unwrap_err();
    assert_eq!(err, ConfigError::NotAList("BeforeTool".to_string()));
    assert_eq!(err.message(), "`BeforeTool` is not a list");
    assert_eq!(ConfigError::EmptyKeyPath.message(), "empty key path");
    assert_eq!(
        ConfigError::NotPlainJson("expected value at line 1 column 3".to_string()).message(),
        "is not plain JSON (comments?); left it untouched — add the hook manually: expected value at line 1 column 3"
    );
}

#[test]
fn array_at_creates_the_path_and_leaves_the_list() {
    let mut root = Json::new_object();
    let found = json_array_at(&mut root, &["a", "b", "c"]).expect("path");
    assert!(found.is_empty());
    assert!(list(&root, &["a", "b", "c"]).is_empty());

    let mut root = parse(r#"{"a": {"b": [1, 2]}, "z": 0}"#);
    let found = json_array_at(&mut root, &["a", "b"]).expect("path");
    assert_eq!(found, vec![Json::Number("1".into()), Json::Number("2".into())]);
    assert_eq!(root, parse(r#"{"a": {"b": [1, 2]}, "z": 0}"#));

    let mut root = parse(r#"{"a": [null]}"#);
    let found = json_array_at(&mut root, &["a"]).expect("path");
    assert_eq!(found, vec![Json::Null]);
    assert_eq!(root, parse(r#"{"a": [null]}"#));
    put_array_at(&mut root, &["a"], vec![]);
    assert_eq!(root, parse(r#"{"a": []}"#));

    let mut root = parse(r#"{"a": 1}"#);
    assert_eq!(json_array_at(&mut root, &[]), Err(ConfigError::EmptyKeyPath));
    assert_eq!(json_array_at(&mut root, &["a", "b"]), Err(ConfigError::NotAnObject("b".into())));
    assert_eq!(root, parse(r#"{"a": 1}"#));
}

#[test]
fn uninstall_without_our_hooks_changes_nothing() {
    let mut root = parse(r#"{"hooks": {"preToolUse": [{"command": "./audit.sh"}]}}"#);
    assert!(!uninstall_hooks(Agent::Cursor, &mut root));
    assert_eq!(root, parse(r#"{"hooks": {"preToolUse": [{"command": "./audit.sh"}]}}"#));
    let mut root = Json::new_object();
    assert!(!uninstall_hooks(Agent::Gemini, &mut root));
    assert_eq!(root, Json::new_object());
}

#[test]
fn uninstall_twice_removes_nothing_the_second_time() {
    let mut root = installed(Agent::Cursor, Json::new_object(), "/bin/contextzip").expect("install");
    assert!(uninstall_hooks(Agent::Cursor, &mut root));
    assert!(!uninstall_hooks(Agent::Cursor, &mut root));
}

#[test]
fn hook_binary_without_contextzip_in_its_path_is_not_recognised() {
    let once = installed(Agent::Cursor, Json::new_object(), "/usr/bin/cz").expect("install");
    let twice = installed(Agent::Cursor, once, "/usr/bin/cz").expect("install");
    assert_eq!(list(&twice, &["hooks", "preToolUse"]).len(), 2);
}

#[test]
fn our_entries_are_recognised() {
    let e = parse(r#"{"command": "\"/x/contextzip\" hook cursor  "}"#);
    assert!(entry_command_matches(&e, "cursor"));
    assert!(!entry_command_matches(&e, "gemini"));
    assert!(!entry_command_matches(&parse(r#"{"command": 1}"#), "cursor"));
    let g = parse(r#"{"hooks": [{"command": "x"}, {"command": "contextzip hook gemini"}]}"#);
    assert!(group_has_our_hook(&g, "gemini"));
    assert!(!group_has_our_hook(&parse(r#"{"hooks": {}}"#), "gemini"));
}

#[test]
fn paths_and_report_lines() {
    assert_eq!(config_path(Agent::Cursor, "/h"), vec!["/h", ".cursor", "hooks.json"]);
    assert_eq!(config_path(Agent::Gemini, "/h"), vec!["/h", ".gemini", "settings.json"]);
    assert_eq!(
        config_path(Agent::Copilot, "/h"),
        vec!["/h", ".copilot", "hooks", "contextzip.json"]
    );
    assert_eq!(config_path(Agent::Antigravity, "/h"), antigravity_rule_path("/h"));
    assert_eq!(install_line(Agent::Gemini, "/h/.gemini/settings.json"), "Gemini CLI: /h/.gemini/settings.json");
    assert_eq!(uninstall_line(Agent::Cursor, &[]), "Cursor: nothing to remove");
    assert_eq!(
        uninstall_line(Agent::Copilot, &["/a".to_string(), "/b".to_string()]),
        "VS Code Copilot: removed /a, /b"
    );
}
