use vstd::prelude::*;

use crate::agent::{label_spec, Agent};
use crate::command::{join_paths, seq_join, strings_view};
use crate::codec::{json_parse, json_pretty_text, parse_json, parse_result_view, pretty_text};
use crate::config::{
    copilot_config, has_shared_config, install_agent, install_spec, uninstall_hooks,
    uninstall_spec, AgentFile,
};
use crate::json::{opt_str_view, Json, JsonView};
use crate::text::{is_whitespace, is_ws};
use crate::tree::{ConfigError, ConfigErrorView};

verus! {

/// The always-on rule that asks Antigravity's agent to prefix commands.
pub const ANTIGRAVITY_RULE: &'static str = "---
trigger: always_on
---

# ContextZip

`contextzip` is installed. It runs a command and returns a compact version of its
output (errors, failures, and results kept; noise removed), saving context.

When running shell commands, prefix these with `contextzip`:
git, gh, cargo, npm, pnpm, npx, pytest, go, tsc, eslint, docker, kubectl, ls, find,
grep, rg, diff, curl, pip, ruff, mypy. Example: `contextzip git status`.

Chained commands: prefix each part (`contextzip cargo test && contextzip git status`).
Need the full raw output? Use `contextzip proxy <command>`.
";

/// Text made of whitespace alone (or nothing).
pub open spec fn is_blank(s: Seq<char>) -> bool {
    forall|i: int| 0 <= i < s.len() ==> is_ws(#[trigger] s[i])
}

/// A parse outcome as the config to work on: a value, or the refusal of text that is not
/// plain JSON.
pub open spec fn parsed_config_spec(parsed: Result<JsonView, Seq<char>>) -> Result<
    JsonView,
    ConfigErrorView,
> {
    match parsed {
        Ok(v) => Ok(v),
        Err(d) => Err(ConfigErrorView::NotPlainJson(d)),
    }
}

/// The config to work on, given the file's text (`None` when there is no file).
pub open spec fn read_json_or_spec(content: Option<Seq<char>>, default: JsonView) -> Result<
    JsonView,
    ConfigErrorView,
> {
    match content {
        None => Ok(default),
        Some(t) => if is_blank(t) {
            Ok(default)
        } else {
            parsed_config_spec(json_parse(t))
        },
    }
}

/// The config that Cursor or Gemini starts from when it has none.
pub open spec fn install_default_spec(agent: Agent) -> JsonView {
    if agent == Agent::Cursor {
        JsonView::Object(
            Map::empty().insert("version"@, JsonView::Number("1"@)).insert(
                "hooks"@,
                JsonView::Object(Map::empty()),
            ),
        )
    } else {
        JsonView::Object(Map::empty())
    }
}

/// The path of Antigravity's rule file, as its components.
pub open spec fn antigravity_rule_path_spec(home: Seq<char>) -> Seq<Seq<char>> {
    seq![home, ".gemini"@, "config"@, "rules"@, "contextzip.md"@]
}

/// The path of an agent's config file, as its components.
pub open spec fn config_path_spec(agent: Agent, home: Seq<char>) -> Seq<Seq<char>> {
    match agent {
        Agent::Cursor => seq![home, ".cursor"@, "hooks.json"@],
        Agent::Gemini => seq![home, ".gemini"@, "settings.json"@],
        Agent::Copilot => seq![home, ".copilot"@, "hooks"@, "contextzip.json"@],
        _ => antigravity_rule_path_spec(home),
    }
}

/// The text that explains a config error.
pub open spec fn message_spec(e: ConfigErrorView) -> Seq<char> {
    match e {
        ConfigErrorView::EmptyKeyPath => "empty key path"@,
        ConfigErrorView::NotAnObject(k) => "expected an object above `"@ + k + "`"@,
        ConfigErrorView::NotAList(k) => "`"@ + k + "` is not a list"@,
        ConfigErrorView::NotPlainJson(d) => "is not plain JSON (comments?); left it untouched — add the hook manually: "@ + d,
    }
}

/// Whether `s` holds whitespace alone.
pub fn is_blank_str(s: &str) -> (r: bool)
    ensures
        r == is_blank(s@),
{
    let n = s.unicode_len();
    let mut i: usize = 0;
    while i < n
        invariant
            n == s@.len(),
            i <= n,
            forall|k: int| 0 <= k < i ==> is_ws(#[trigger] s@[k]),
        decreases n - i,
    {
        if !is_whitespace(s.get_char(i)) {
            return false;
        }
        i = i + 1;
    }
    true
}

/// What parsing the config text gave, as the config to work on or its refusal.
pub fn parsed_config(parsed: Result<Json, String>) -> (r: Result<Json, ConfigError>)
    ensures
        match parsed_config_spec(parse_result_view(parsed)) {
            Ok(v) => r matches Ok(j) && j@ == v,
            Err(e) => r matches Err(x) && x@ == e,
        },
{
    match parsed {
        Ok(v) => Ok(v),
        Err(d) => Err(ConfigError::NotPlainJson(d)),
    }
}

/// Reads a JSON config, or returns `default` if the file is missing or empty.
/// Refuses text that is not plain JSON, so user config is never clobbered.
pub fn read_json_or(content: Option<&str>, default: Json) -> (r: Result<Json, ConfigError>)
    ensures
        match read_json_or_spec(opt_str_view(content), default@) {
            Ok(v) => r matches Ok(j) && j@ == v,
            Err(e) => r matches Err(x) && x@ == e,
        },
{
    match content {
        None => Ok(default),
        Some(t) => {
            if is_blank_str(t) {
                Ok(default)
            } else {
                parsed_config(parse_json(t))
            }
        },
    }
}

/// A config as the text of its file: indented JSON and a final newline.
pub fn config_text(j: &Json) -> (r: String)
    ensures
        r@ == json_pretty_text(j@) + "\n"@,
{
    let mut r = pretty_text(j);
    r.append("\n");
    r
}

/// The config that Cursor or Gemini starts from when it has none.
pub fn install_default(agent: Agent) -> (r: Json)
    ensures
        r@ == install_default_spec(agent),
{
    let mut root = Json::new_object();
    if agent == Agent::Cursor {
        root.insert("version", Json::number("1"));
        root.insert("hooks", Json::new_object());
    }
    root
}

/// The path of Antigravity's rule file, as its components.
pub fn antigravity_rule_path(home: &str) -> (r: Vec<String>)
    ensures
        strings_view(r@) == antigravity_rule_path_spec(home@),
{
    let r = vec![
        String::from_str(home),
        String::from_str(".gemini"),
        String::from_str("config"),
        String::from_str("rules"),
        String::from_str("contextzip.md"),
    ];
    assert(strings_view(r@) =~= antigravity_rule_path_spec(home@));
    r
}

/// The path of an agent's config file, as its components.
pub fn config_path(agent: Agent, home: &str) -> (r: Vec<String>)
    requires
        agent != Agent::All,
    ensures
        strings_view(r@) == config_path_spec(agent, home@),
{
    let r = match agent {
        Agent::Cursor => vec![
            String::from_str(home),
            String::from_str(".cursor"),
            String::from_str("hooks.json"),
        ],
        Agent::Gemini => vec![
            String::from_str(home),
            String::from_str(".gemini"),
            String::from_str("settings.json"),
        ],
        Agent::Copilot => vec![
            String::from_str(home),
            String::from_str(".copilot"),
            String::from_str("hooks"),
            String::from_str("contextzip.json"),
        ],
        _ => return antigravity_rule_path(home),
    };
    assert(strings_view(r@) =~= config_path_spec(agent, home@));
    r
}

impl ConfigError {
    /// The text that explains the error.
    pub fn message(&self) -> (r: String)
        ensures
            r@ == message_spec(self@),
    {
        match self {
            ConfigError::EmptyKeyPath => String::from_str("empty key path"),
            ConfigError::NotAnObject(k) => {
                let mut r = String::from_str("expected an object above `");
                r.append(k.as_str());
                r.append("`");
                r
            },
            ConfigError::NotAList(k) => {
                let mut r = String::from_str("`");
                r.append(k.as_str());
                r.append("` is not a list");
                r
            },
            ConfigError::NotPlainJson(d) => {
                let mut r = String::from_str(
                    "is not plain JSON (comments?); left it untouched — add the hook manually: ",
                );
                r.append(d.as_str());
                r
            },
        }
    }
}

/// The line reported after installing into an agent.
pub fn install_line(agent: Agent, path: &str) -> (r: String)
    ensures
        r@ == label_spec(agent) + ": "@ + path@,
{
    let mut r = String::from_str(agent.label());
    r.append(": ");
    r.append(path);
    r
}

/// The line reported after removing from an agent the files in `removed`.
pub fn uninstall_line(agent: Agent, removed: &[String]) -> (r: String)
    ensures
        removed@.len() == 0 ==> r@ == label_spec(agent) + ": nothing to remove"@,
        removed@.len() > 0 ==> r@ == label_spec(agent) + ": removed "@ + seq_join(
            strings_view(removed@),
            ", "@,
        ),
{
    let mut r = String::from_str(agent.label());
    if removed.len() == 0 {
        r.append(": nothing to remove");
    } else {
        r.append(": removed ");
        let joined = join_paths(removed);
        r.append(joined.as_str());
    }
    r
}

/// The text of the file that installing into `agent` writes, given the file's current
/// text (`None` when there is none).
pub open spec fn install_file_spec(agent: Agent, current: Option<Seq<char>>, exe: Seq<char>) -> Result<
    Seq<char>,
    ConfigErrorView,
> {
    if agent == Agent::Antigravity {
        Ok(ANTIGRAVITY_RULE@)
    } else if has_shared_config(agent) {
        match read_json_or_spec(current, install_default_spec(agent)) {
            Ok(root) => match install_spec(agent, root, exe) {
                Ok(v) => Ok(json_pretty_text(v) + "\n"@),
                Err(e) => Err(e),
            },
            Err(e) => Err(e),
        }
    } else {
        Ok(json_pretty_text(copilot_config(exe)) + "\n"@)
    }
}

/// The new text of Cursor's or Gemini's config file once our hooks are removed from
/// it, or `None` when it holds none of ours and is left as it is.
pub open spec fn uninstall_file_spec(agent: Agent, current: Option<Seq<char>>) -> Result<
    Option<Seq<char>>,
    ConfigErrorView,
> {
    match read_json_or_spec(current, JsonView::Object(Map::empty())) {
        Ok(root) => match uninstall_spec(agent, root) {
            Some(v) => Ok(Some(json_pretty_text(v) + "\n"@)),
            None => Ok(None),
        },
        Err(e) => Err(e),
    }
}

/// The text to write when installing into `agent`, given the current text of its file
/// (`None` when there is no file). A file that is not plain JSON is refused, so it is
/// never clobbered; Copilot's and Antigravity's files are ours alone and are rewritten.
pub fn install_file(agent: Agent, current: Option<&str>, exe: &str) -> (r: Result<
    String,
    ConfigError,
>)
    requires
        agent != Agent::All,
    ensures
        match install_file_spec(agent, opt_str_view(current), exe@) {
            Ok(t) => r matches Ok(s) && s@ == t,
            Err(e) => r matches Err(x) && x@ == e,
        },
{
    let root = if has_shared(agent) {
        match read_json_or(current, install_default(agent)) {
            Ok(j) => j,
            Err(e) => return Err(e),
        }
    } else {
        Json::new_object()
    };
    match install_agent(agent, root, exe) {
        Ok(AgentFile::Json(j)) => Ok(config_text(&j)),
        Ok(AgentFile::Rule(t)) => Ok(String::from_str(t)),
        Err(e) => Err(e),
    }
}

/// The new text of Cursor's or Gemini's config file once our hooks are removed, or
/// `None` when it holds none of ours and is left as it is.
pub fn uninstall_file(agent: Agent, current: Option<&str>) -> (r: Result<
    Option<String>,
    ConfigError,
>)
    requires
        has_shared_config(agent),
    ensures
        match uninstall_file_spec(agent, opt_str_view(current)) {
            Ok(Some(t)) => r matches Ok(Some(s)) && s@ == t,
            Ok(None) => r matches Ok(None),
            Err(e) => r matches Err(x) && x@ == e,
        },
{
    let mut root = match read_json_or(current, Json::new_object()) {
        Ok(j) => j,
        Err(e) => return Err(e),
    };
    if uninstall_hooks(agent, &mut root) {
        Ok(Some(config_text(&root)))
    } else {
        Ok(None)
    }
}

/// Whether an agent keeps its hooks in a JSON file beside the user's own settings.
fn has_shared(agent: Agent) -> (r: bool)
    ensures
        r == has_shared_config(agent),
{
    agent == Agent::Cursor || agent == Agent::Gemini
}

} // verus!
