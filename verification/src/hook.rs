use vstd::prelude::*;

use crate::agent::HookFormat;
use crate::codec::{compact_text, json_compact_text, json_parse, parse_json};
use crate::json::{obj_get, opt_json_view, opt_str_view, opt_string_view, Json, JsonView};

verus! {

/// The tool names under which an agent app runs a shell command.
pub open spec fn is_shell_tool(format: HookFormat, tool: Seq<char>) -> bool {
    match format {
        HookFormat::Cursor => tool == "Shell"@,
        HookFormat::Gemini => tool == "run_shell_command"@,
        HookFormat::Copilot => tool == "run_in_terminal"@ || tool == "runTerminalCommand"@,
    }
}

/// The tool name, the tool input and its command of a well-shaped payload.
pub open spec fn tool_call(input: JsonView) -> Option<(Seq<char>, Map<Seq<char>, JsonView>, Seq<char>)> {
    if let Some(JsonView::Str(tool)) = obj_get(input, "tool_name"@) {
        if let Some(JsonView::Object(ti)) = obj_get(input, "tool_input"@) {
            if let Some(JsonView::Str(cmd)) = obj_get(JsonView::Object(ti), "command"@) {
                Some((tool, ti, cmd))
            } else {
                None
            }
        } else {
            None
        }
    } else {
        None
    }
}

/// The shell command of a payload, when the tool it calls is the shell tool of `format`.
pub open spec fn shell_command_spec(format: HookFormat, input: JsonView) -> Option<Seq<char>> {
    match tool_call(input) {
        Some((tool, _ti, cmd)) => if is_shell_tool(format, tool) {
            Some(cmd)
        } else {
            None
        },
        None => None,
    }
}

/// The tool input with its command replaced by `rewritten`.
pub open spec fn updated_input(ti: Map<Seq<char>, JsonView>, rewritten: Seq<char>) -> Map<
    Seq<char>,
    JsonView,
> {
    ti.insert("command"@, JsonView::Str(rewritten))
}

/// The reply that makes the agent app run `rewritten` in place of the original command.
pub open spec fn response_spec(
    format: HookFormat,
    ti: Map<Seq<char>, JsonView>,
    rewritten: Seq<char>,
) -> JsonView {
    match format {
        HookFormat::Cursor => JsonView::Object(
            Map::empty().insert("permission"@, JsonView::Str("allow"@)).insert(
                "updated_input"@,
                JsonView::Object(updated_input(ti, rewritten)),
            ),
        ),
        HookFormat::Gemini => JsonView::Object(
            Map::empty().insert(
                "hookSpecificOutput"@,
                JsonView::Object(
                    Map::empty().insert("hookEventName"@, JsonView::Str("BeforeTool"@)).insert(
                        "tool_input"@,
                        JsonView::Object(
                            Map::empty().insert("command"@, JsonView::Str(rewritten)),
                        ),
                    ),
                ),
            ),
        ),
        HookFormat::Copilot => JsonView::Object(
            Map::empty().insert(
                "hookSpecificOutput"@,
                JsonView::Object(
                    Map::empty().insert("hookEventName"@, JsonView::Str("PreToolUse"@)).insert(
                        "permissionDecision"@,
                        JsonView::Str("allow"@),
                    ).insert(
                        "permissionDecisionReason"@,
                        JsonView::Str("ContextZip auto-rewrite"@),
                    ).insert("updatedInput"@, JsonView::Object(updated_input(ti, rewritten))),
                ),
            ),
        ),
    }
}

/// The reply to a payload given what the rewrite gave for its command: a reply only
/// for a shell command of `format` that the rewrite changed, `None` to let it run as is.
pub open spec fn respond_spec(
    format: HookFormat,
    input: JsonView,
    rewritten: Option<Seq<char>>,
) -> Option<JsonView> {
    match tool_call(input) {
        Some((tool, ti, cmd)) => {
            if is_shell_tool(format, tool) && rewritten is Some && rewritten.unwrap() != cmd {
                Some(response_spec(format, ti, rewritten.unwrap()))
            } else {
                None
            }
        },
        None => None,
    }
}

/// Whether `tool` is a shell tool of `format`.
fn shell_tool(format: HookFormat, tool: &str) -> (r: bool)
    ensures
        r == is_shell_tool(format, tool@),
{
    let t = String::from_str(tool);
    match format {
        HookFormat::Cursor => t == String::from_str("Shell"),
        HookFormat::Gemini => t == String::from_str("run_shell_command"),
        HookFormat::Copilot => t == String::from_str("run_in_terminal") || t == String::from_str(
            "runTerminalCommand",
        ),
    }
}

/// The shell command in a payload, or `None` when the payload calls another tool or
/// is not shaped as expected.
pub fn shell_command(format: HookFormat, input: &Json) -> (r: Option<&str>)
    ensures
        opt_str_view(r) == shell_command_spec(format, input@),
{
    let tool = match input.get("tool_name") {
        Some(t) => match t.as_str() {
            Some(s) => s,
            None => return None,
        },
        None => return None,
    };
    let tool_input = match input.get("tool_input") {
        Some(t) => t,
        None => return None,
    };
    let cmd = match tool_input.get("command") {
        Some(c) => match c.as_str() {
            Some(s) => s,
            None => return None,
        },
        None => return None,
    };
    if !shell_tool(format, tool) {
        return None;
    }
    Some(cmd)
}

/// Builds the reply to a payload from what the rewrite gave for its command.
pub fn rewrite_response(format: HookFormat, input: &Json, rewritten: Option<String>) -> (r: Option<
    Json,
>)
    ensures
        opt_json_view(r) == respond_spec(format, input@, opt_string_view(rewritten)),
{
    let cmd = match shell_command(format, input) {
        Some(c) => c,
        None => return None,
    };
    let rewritten = match rewritten {
        Some(s) => s,
        None => return None,
    };
    if rewritten == String::from_str(cmd) {
        return None;
    }
    let mut updated = match input.get("tool_input") {
        Some(t) => t.deep_clone(),
        None => return None,
    };
    updated.insert("command", Json::Str(rewritten.clone()));
    let mut reply = Json::new_object();
    match format {
        HookFormat::Cursor => {
            reply.insert("permission", Json::string("allow"));
            reply.insert("updated_input", updated);
        },
        HookFormat::Gemini => {
            let mut ti = Json::new_object();
            ti.insert("command", Json::Str(rewritten));
            let mut out = Json::new_object();
            out.insert("hookEventName", Json::string("BeforeTool"));
            out.insert("tool_input", ti);
            reply.insert("hookSpecificOutput", out);
        },
        HookFormat::Copilot => {
            let mut out = Json::new_object();
            out.insert("hookEventName", Json::string("PreToolUse"));
            out.insert("permissionDecision", Json::string("allow"));
            out.insert("permissionDecisionReason", Json::string("ContextZip auto-rewrite"));
            out.insert("updatedInput", updated);
            reply.insert("hookSpecificOutput", out);
        },
    }
    Some(reply)
}

/// The agent-specific reply to a hook payload, or `None` when the command should pass
/// through unchanged. `rewrite` decides what a shell command becomes.
pub fn respond<F: Fn(&str) -> Option<String>>(format: HookFormat, input: &Json, rewrite: &F) -> (r:
    Option<Json>)
    requires
        forall|c: &str| #[trigger] rewrite.requires((c,)),
    ensures
        shell_command_spec(format, input@) is None ==> r is None,
        shell_command_spec(format, input@) matches Some(cmd) ==> exists|c: &str, out: Option<String>|
            c@ == cmd && #[trigger] rewrite.ensures((c,), out) && opt_json_view(r) == respond_spec(
                format,
                input@,
                opt_string_view(out),
            ),
{
    match shell_command(format, input) {
        None => {
            assert(respond_spec(format, input@, None) is None);
            None
        },
        Some(cmd) => {
            let out = rewrite(cmd);
            let r = rewrite_response(format, input, out);
            assert(rewrite.ensures((cmd,), out));
            r
        },
    }
}

/// The line printed in reply to a payload: its compact JSON text, or nothing.
pub open spec fn reply_text(reply: Option<JsonView>) -> Option<Seq<char>> {
    match reply {
        Some(v) => Some(json_compact_text(v)),
        None => None,
    }
}

/// The hook's answer to the text an agent app wrote on stdin: the compact JSON reply to
/// print, or `None` to print nothing and let the command run unchanged. Text that is not
/// JSON gets no reply; nothing here can fail.
pub fn hook_reply<F: Fn(&str) -> Option<String>>(format: HookFormat, stdin: &str, rewrite: &F) -> (r:
    Option<String>)
    requires
        forall|c: &str| #[trigger] rewrite.requires((c,)),
    ensures
        json_parse(stdin@) is Err ==> r is None,
        json_parse(stdin@) matches Ok(v) ==> {
            &&& shell_command_spec(format, v) is None ==> r is None
            &&& shell_command_spec(format, v) matches Some(cmd) ==> exists|
                c: &str,
                out: Option<String>,
            |
                c@ == cmd && #[trigger] rewrite.ensures((c,), out) && opt_string_view(r)
                    == reply_text(respond_spec(format, v, opt_string_view(out)))
        },
{
    let input = match parse_json(stdin) {
        Ok(j) => j,
        Err(_) => return None,
    };
    match shell_command(format, &input) {
        None => None,
        Some(cmd) => {
            let out = rewrite(cmd);
            let reply = rewrite_response(format, &input, out);
            assert(rewrite.ensures((cmd,), out));
            match reply {
                Some(j) => Some(compact_text(&j)),
                None => None,
            }
        },
    }
}

} // verus!
