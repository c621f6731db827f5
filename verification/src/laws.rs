use vstd::prelude::*;

use crate::agent::{Agent, HookFormat};
use crate::codec::json_parse;
use crate::files::{install_file_spec, is_blank, read_json_or_spec, uninstall_file_spec};
use crate::hook::{respond_spec, shell_command_spec, tool_call};
use crate::command::{hook_command_spec, is_our_command_spec};
use crate::config::{
    entry_is_ours, group_is_ours, has_json_config, has_shared_config, hook_list_keys,
    install_spec, is_ours, others, our_entry, uninstall_spec,
};
use crate::json::{obj_get, JsonView};
use crate::text::{contains, ends_with, is_ws, occurs_at, trim_end};
use crate::tree::{
    array_at, existing_array, ConfigErrorView, lemma_array_at_with_array, lemma_existing_array,
    lemma_with_array_twice, with_array,
};

verus! {

/// A hook command that this module writes is recognised as ours, whatever the binary's
/// path, so long as the path names `contextzip` and the format does not end in
/// whitespace.
pub proof fn hook_command_is_ours(exe: Seq<char>, format: Seq<char>)
    requires
        contains(exe, "contextzip"@),
        format.len() > 0,
        !is_ws(format.last()),
    ensures
        is_our_command_spec(hook_command_spec(exe, format), format),
{
    reveal_strlit("\"");
    reveal_strlit("\" hook ");
    reveal_strlit("hook ");
    let cmd = hook_command_spec(exe, format);
    let t = "contextzip"@;
    let i = choose|i: int| occurs_at(exe, t, i);
    assert(cmd.subrange(i + 1, i + 1 + t.len()) =~= exe.subrange(i, i + t.len()));
    assert(occurs_at(cmd, t, i + 1));
    assert(cmd.last() == format.last());
    assert(trim_end(cmd) == cmd);
    let suffix = "hook "@ + format;
    assert(cmd.subrange(cmd.len() - suffix.len(), cmd.len() as int) =~= suffix);
    assert(ends_with(trim_end(cmd), suffix));
}

/// The hook item that this module adds is one that it recognises as its own.
pub proof fn our_entry_is_ours(agent: Agent, exe: Seq<char>)
    requires
        has_shared_config(agent),
        contains(exe, "contextzip"@),
    ensures
        is_ours(agent, our_entry(agent, exe)),
{
    reveal_strlit("command");
    reveal_strlit("matcher");
    reveal_strlit("hooks");
    reveal_strlit("timeout");
    reveal_strlit("cursor");
    reveal_strlit("gemini");
    assert("command"@[0] != "matcher"@[0]);
    assert("command"@ != "matcher"@);
    assert("command"@[0] != "timeout"@[0]);
    assert("command"@ != "timeout"@);
    assert("hooks"@ != "matcher"@);
    if agent == Agent::Gemini {
        hook_command_is_ours(exe, "gemini"@);
        let g = our_entry(agent, exe);
        let hs = obj_get(g, "hooks"@).unwrap()->Array_0;
        assert(entry_is_ours(hs[0], "gemini"@));
        assert(group_is_ours(g, "gemini"@));
    } else {
        hook_command_is_ours(exe, "cursor"@);
    }
}

/// Filtering out our items from a list that ends with one of ours drops that item.
pub proof fn lemma_others_push_ours(agent: Agent, s: Seq<JsonView>, x: JsonView)
    requires
        is_ours(agent, x),
    ensures
        others(agent, s.push(x)) == others(agent, s),
{
    assert(s.push(x).drop_last() =~= s);
}

/// Filtering out our items twice is filtering them out once.
pub proof fn lemma_others_twice(agent: Agent, s: Seq<JsonView>)
    ensures
        others(agent, others(agent, s)) == others(agent, s),
    decreases s.len(),
{
    if s.len() > 0 {
        lemma_others_twice(agent, s.drop_last());
        let o = others(agent, s.drop_last());
        if !is_ours(agent, s.last()) {
            assert(o.push(s.last()).drop_last() =~= o);
        }
    }
}

/// Installing twice leaves the config as installing once does (the test
/// "is_idempotent"): our earlier entry is recognised and replaced, not doubled.
pub proof fn install_is_idempotent(agent: Agent, root: JsonView, exe: Seq<char>)
    requires
        has_json_config(agent),
        contains(exe, "contextzip"@),
        install_spec(agent, root, exe) is Ok,
    ensures
        install_spec(agent, install_spec(agent, root, exe)->Ok_0, exe) == install_spec(
            agent,
            root,
            exe,
        ),
{
    if has_shared_config(agent) {
        let ks = hook_list_keys(agent);
        let a = array_at(root, ks)->Ok_0;
        let e = our_entry(agent, exe);
        let x = others(agent, a).push(e);
        lemma_array_at_with_array(root, ks, x);
        our_entry_is_ours(agent, exe);
        lemma_others_push_ours(agent, others(agent, a), e);
        lemma_others_twice(agent, a);
        lemma_with_array_twice(root, ks, x, x);
    }
}

/// Installing keeps every setting beside the hooks, and the hook list keeps the
/// user's own entries in order, followed by ours.
pub proof fn install_keeps_other_settings(agent: Agent, root: JsonView, exe: Seq<char>, key: Seq<char>)
    requires
        has_shared_config(agent),
        install_spec(agent, root, exe) is Ok,
        key != "hooks"@,
    ensures
        obj_get(install_spec(agent, root, exe)->Ok_0, key) == obj_get(root, key),
        existing_array(install_spec(agent, root, exe)->Ok_0, hook_list_keys(agent)) == Some(
            others(agent, array_at(root, hook_list_keys(agent))->Ok_0).push(
                our_entry(agent, exe),
            ),
        ),
{
    let ks = hook_list_keys(agent);
    let a = array_at(root, ks)->Ok_0;
    lemma_array_at_with_array(root, ks, others(agent, a).push(our_entry(agent, exe)));
}

/// Removing after installing takes out exactly what the install added, along with
/// any earlier entry of ours, and keeps everything else.
pub proof fn uninstall_undoes_install(agent: Agent, root: JsonView, exe: Seq<char>)
    requires
        has_shared_config(agent),
        contains(exe, "contextzip"@),
        install_spec(agent, root, exe) is Ok,
    ensures
        uninstall_spec(agent, install_spec(agent, root, exe)->Ok_0) == Some(
            with_array(root, hook_list_keys(agent), others(agent, array_at(root, hook_list_keys(agent))->Ok_0)),
        ),
{
    let ks = hook_list_keys(agent);
    let a = array_at(root, ks)->Ok_0;
    let e = our_entry(agent, exe);
    let x = others(agent, a).push(e);
    lemma_array_at_with_array(root, ks, x);
    our_entry_is_ours(agent, exe);
    lemma_others_push_ours(agent, others(agent, a), e);
    lemma_others_twice(agent, a);
    lemma_with_array_twice(root, ks, x, others(agent, a));
}

/// A second removal finds nothing of ours to remove.
pub proof fn uninstall_twice_removes_nothing(agent: Agent, root: JsonView)
    requires
        has_shared_config(agent),
        uninstall_spec(agent, root) is Some,
    ensures
        uninstall_spec(agent, uninstall_spec(agent, root).unwrap()) is None,
{
    let ks = hook_list_keys(agent);
    lemma_existing_array(root, ks);
    let a = existing_array(root, ks).unwrap();
    lemma_array_at_with_array(root, ks, others(agent, a));
    lemma_others_twice(agent, a);
}

/// A reply is sent only for a shell command of the app's format that the rewrite
/// changed; any other payload lets the command run as it is.
pub proof fn reply_only_for_changed_shell_command(
    format: HookFormat,
    input: JsonView,
    rewritten: Option<Seq<char>>,
)
    ensures
        respond_spec(format, input, rewritten) is Some <==> (shell_command_spec(format, input) is Some
            && rewritten is Some && rewritten.unwrap() != shell_command_spec(format, input).unwrap()),
{
}

/// The Gemini reply carries no decision, so Gemini's own approval flow still applies.
pub proof fn gemini_reply_sends_no_decision(input: JsonView, rewritten: Option<Seq<char>>)
    ensures
        respond_spec(HookFormat::Gemini, input, rewritten) matches Some(v) ==> obj_get(
            v,
            "decision"@,
        ) is None,
{
    reveal_strlit("decision");
    reveal_strlit("hookSpecificOutput");
    assert("decision"@[0] != "hookSpecificOutput"@[0]);
}

/// The tool input that a Cursor or VS Code reply hands back.
pub open spec fn replied_input(format: HookFormat, reply: JsonView) -> Option<JsonView> {
    if format == HookFormat::Cursor {
        obj_get(reply, "updated_input"@)
    } else {
        match obj_get(reply, "hookSpecificOutput"@) {
            Some(o) => obj_get(o, "updatedInput"@),
            None => None,
        }
    }
}

/// Cursor and VS Code replace the whole tool input, so their reply carries every other
/// field of the tool input over unchanged, with only the command rewritten.
pub proof fn reply_keeps_other_input_fields(
    format: HookFormat,
    input: JsonView,
    rewritten: Seq<char>,
    key: Seq<char>,
)
    requires
        format != HookFormat::Gemini,
        respond_spec(format, input, Some(rewritten)) is Some,
    ensures
        obj_get(replied_input(format, respond_spec(format, input, Some(rewritten)).unwrap()).unwrap(), "command"@)
            == Some(JsonView::Str(rewritten)),
        key != "command"@ ==> obj_get(
            replied_input(format, respond_spec(format, input, Some(rewritten)).unwrap()).unwrap(),
            key,
        ) == obj_get(obj_get(input, "tool_input"@).unwrap(), key),
{
    reveal_strlit("permission");
    reveal_strlit("updated_input");
    reveal_strlit("hookEventName");
    reveal_strlit("permissionDecision");
    reveal_strlit("permissionDecisionReason");
    reveal_strlit("updatedInput");
    assert("permission"@.len() != "updated_input"@.len());
    assert("hookEventName"@[0] != "updatedInput"@[0]);
    assert("permissionDecision"@[0] != "updatedInput"@[0]);
    assert("permissionDecisionReason"@[0] != "updatedInput"@[0]);
    assert("permissionDecision"@ != "updatedInput"@);
    assert("permissionDecisionReason"@ != "updatedInput"@);
    assert("hookEventName"@ != "updatedInput"@);
}

/// A config file holding text that is not plain JSON is never rewritten: installing
/// into it and removing from it are both refused with the parser's message.
pub proof fn unparseable_config_is_refused(agent: Agent, current: Seq<char>, exe: Seq<char>)
    requires
        has_shared_config(agent),
        !is_blank(current),
        json_parse(current) is Err,
    ensures
        install_file_spec(agent, Some(current), exe) == Err::<Seq<char>, ConfigErrorView>(
            ConfigErrorView::NotPlainJson(json_parse(current)->Err_0),
        ),
        uninstall_file_spec(agent, Some(current)) == Err::<Option<Seq<char>>, ConfigErrorView>(
            ConfigErrorView::NotPlainJson(json_parse(current)->Err_0),
        ),
{
}

/// The items of a hook list that are not ours.
pub open spec fn user_items(agent: Agent, s: Seq<JsonView>) -> Seq<JsonView> {
    s.filter(|e: JsonView| !is_ours(agent, e))
}

/// The kept hook list is exactly the input list with our items filtered out: every
/// user item stays, in order, whatever items of ours come before or after it.
pub proof fn others_is_the_user_items(agent: Agent, s: Seq<JsonView>)
    ensures
        others(agent, s) == user_items(agent, s),
    decreases s.len(),
{
    reveal(Seq::filter);
    if s.len() > 0 {
        others_is_the_user_items(agent, s.drop_last());
    }
}

/// A list holds an item of ours exactly when filtering out our items shortens it.
pub proof fn user_items_shorter_iff_some_ours(agent: Agent, s: Seq<JsonView>)
    ensures
        user_items(agent, s).len() != s.len() <==> exists|i: int|
            0 <= i < s.len() && is_ours(agent, #[trigger] s[i]),
    decreases s.len(),
{
    reveal(Seq::filter);
    let pred = |e: JsonView| !is_ours(agent, e);
    s.lemma_filter_len(pred);
    if s.len() > 0 {
        let l = s.drop_last();
        user_items_shorter_iff_some_ours(agent, l);
        l.lemma_filter_len(pred);
        if exists|i: int| 0 <= i < l.len() && is_ours(agent, #[trigger] l[i]) {
            let i = choose|i: int| 0 <= i < l.len() && is_ours(agent, #[trigger] l[i]);
            assert(s[i] == l[i]);
        }
        if exists|i: int| 0 <= i < s.len() && is_ours(agent, #[trigger] s[i]) {
            let i = choose|i: int| 0 <= i < s.len() && is_ours(agent, #[trigger] s[i]);
            if i < s.len() - 1 {
                assert(l[i] == s[i]);
            }
        }
    }
}

/// Installing into Cursor or Gemini leaves the hook list as the user's items of the
/// old list, in order, followed by our one entry.
pub proof fn install_keeps_every_user_hook(agent: Agent, root: JsonView, exe: Seq<char>)
    requires
        has_shared_config(agent),
        install_spec(agent, root, exe) is Ok,
    ensures
        existing_array(install_spec(agent, root, exe)->Ok_0, hook_list_keys(agent)) == Some(
            user_items(agent, array_at(root, hook_list_keys(agent))->Ok_0).push(our_entry(agent, exe)),
        ),
        forall|i: int|
            0 <= i < array_at(root, hook_list_keys(agent))->Ok_0.len() && !is_ours(
                agent,
                #[trigger] array_at(root, hook_list_keys(agent))->Ok_0[i],
            ) ==> existing_array(install_spec(agent, root, exe)->Ok_0, hook_list_keys(agent))->Some_0.contains(
                array_at(root, hook_list_keys(agent))->Ok_0[i],
            ),
{
    let ks = hook_list_keys(agent);
    let a = array_at(root, ks)->Ok_0;
    others_is_the_user_items(agent, a);
    lemma_array_at_with_array(root, ks, others(agent, a).push(our_entry(agent, exe)));
    let pred = |e: JsonView| !is_ours(agent, e);
    let u = user_items(agent, a);
    assert forall|i: int| 0 <= i < a.len() && !is_ours(agent, #[trigger] a[i]) implies u.push(
        our_entry(agent, exe),
    ).contains(a[i]) by {
        a.lemma_filter_contains(pred, i);
        let k = choose|k: int| 0 <= k < u.len() && u[k] == a[i];
        assert(u.push(our_entry(agent, exe))[k] == a[i]);
    }
}

/// Removing from Cursor or Gemini takes out every item of ours and keeps the user's
/// items in order, reporting a change, as soon as the list holds any item of ours; a
/// config without any is left alone.
pub proof fn uninstall_removes_every_item_of_ours(agent: Agent, root: JsonView)
    requires
        has_shared_config(agent),
    ensures
        ({
            let found = existing_array(root, hook_list_keys(agent));
            let a = found->Some_0;
            &&& found is Some && (exists|i: int| 0 <= i < a.len() && is_ours(agent, #[trigger] a[i]))
                ==> uninstall_spec(agent, root) == Some(
                with_array(root, hook_list_keys(agent), user_items(agent, a)),
            )
            &&& found is Some && (forall|i: int| 0 <= i < a.len() ==> !is_ours(agent, #[trigger] a[i]))
                ==> uninstall_spec(agent, root) is None
        }),
        existing_array(root, hook_list_keys(agent)) is None ==> uninstall_spec(agent, root) is None,
{
    if let Some(a) = existing_array(root, hook_list_keys(agent)) {
        others_is_the_user_items(agent, a);
        user_items_shorter_iff_some_ours(agent, a);
    }
}

/// A hook entry is ours exactly when its `command` is a string that is one of our
/// hook commands; a group is ours exactly when some item of its `hooks` list is,
/// wherever that item stands in the list.
pub proof fn ours_means_some_hook_is_ours(e: JsonView, g: JsonView, format: Seq<char>)
    ensures
        entry_is_ours(e, format) <==> (obj_get(e, "command"@) matches Some(JsonView::Str(c))
            && is_our_command_spec(c, format)),
        obj_get(g, "hooks"@) matches Some(JsonView::Array(hs)) ==> (group_is_ours(g, format) <==> exists|
            i: int,
        | 0 <= i < hs.len() && entry_is_ours(#[trigger] hs[i], format)),
        !(obj_get(g, "hooks"@) matches Some(JsonView::Array(_))) ==> !group_is_ours(g, format),
{
}

/// Text is blank exactly when every character of it is whitespace: text with any other
/// character is parsed, and the config read from it is what JSON parsing gives or a
/// refusal; only a missing file or whitespace-only text gives the default.
pub proof fn only_whitespace_is_blank(t: Seq<char>, default: JsonView)
    ensures
        is_blank(t) <==> forall|i: int| 0 <= i < t.len() ==> is_ws(#[trigger] t[i]),
        (exists|i: int| 0 <= i < t.len() && !is_ws(#[trigger] t[i])) ==> read_json_or_spec(
            Some(t),
            default,
        ) == match json_parse(t) {
            Ok(v) => Ok::<JsonView, ConfigErrorView>(v),
            Err(m) => Err(ConfigErrorView::NotPlainJson(m)),
        },
        (forall|i: int| 0 <= i < t.len() ==> is_ws(#[trigger] t[i])) ==> read_json_or_spec(
            Some(t),
            default,
        ) == Ok::<JsonView, ConfigErrorView>(default),
        read_json_or_spec(None, default) == Ok::<JsonView, ConfigErrorView>(default),
{
}

/// The reply names the same answer whichever shell tool name the app used: two
/// payloads that call a shell tool of the format with the same tool input and command
/// get the same reply.
pub proof fn reply_does_not_depend_on_tool_name(
    format: HookFormat,
    a: JsonView,
    b: JsonView,
    rewritten: Option<Seq<char>>,
)
    requires
        shell_command_spec(format, a) is Some,
        shell_command_spec(format, b) is Some,
        obj_get(a, "tool_input"@) == obj_get(b, "tool_input"@),
    ensures
        respond_spec(format, a, rewritten) == respond_spec(format, b, rewritten),
{
}

/// What each app is told: Cursor and VS Code Copilot allow the rewritten command (an
/// "ask" loops forever in VS Code) and get the whole tool input back with only the
/// command replaced; Gemini gets the new command alone under its event name.
pub proof fn reply_fields(format: HookFormat, input: JsonView, rewritten: Seq<char>)
    requires
        respond_spec(format, input, Some(rewritten)) is Some,
    ensures
        ({
            let v = respond_spec(format, input, Some(rewritten))->Some_0;
            let ti = obj_get(input, "tool_input"@)->Some_0->Object_0;
            &&& format == HookFormat::Cursor ==> {
                &&& obj_get(v, "permission"@) == Some(JsonView::Str("allow"@))
                &&& obj_get(v, "updated_input"@) == Some(
                    JsonView::Object(ti.insert("command"@, JsonView::Str(rewritten))),
                )
            }
            &&& format == HookFormat::Copilot ==> {
                let h = obj_get(v, "hookSpecificOutput"@)->Some_0;
                &&& obj_get(v, "hookSpecificOutput"@) is Some
                &&& obj_get(h, "hookEventName"@) == Some(JsonView::Str("PreToolUse"@))
                &&& obj_get(h, "permissionDecision"@) == Some(JsonView::Str("allow"@))
                &&& obj_get(h, "permissionDecisionReason"@) == Some(
                    JsonView::Str("ContextZip auto-rewrite"@),
                )
                &&& obj_get(h, "updatedInput"@) == Some(
                    JsonView::Object(ti.insert("command"@, JsonView::Str(rewritten))),
                )
            }
            &&& format == HookFormat::Gemini ==> {
                let h = obj_get(v, "hookSpecificOutput"@)->Some_0;
                &&& obj_get(v, "hookSpecificOutput"@) is Some
                &&& obj_get(h, "hookEventName"@) == Some(JsonView::Str("BeforeTool"@))
                &&& obj_get(h, "tool_input"@) == Some(
                    JsonView::Object(Map::empty().insert("command"@, JsonView::Str(rewritten))),
                )
            }
        }),
{
    reveal_strlit("permission");
    reveal_strlit("updated_input");
    reveal_strlit("hookEventName");
    reveal_strlit("permissionDecision");
    reveal_strlit("permissionDecisionReason");
    reveal_strlit("updatedInput");
    reveal_strlit("tool_input");
    assert("permission"@.len() != "updated_input"@.len());
    assert("hookEventName"@[0] != "updatedInput"@[0]);
    assert("hookEventName"@[0] != "permissionDecision"@[0]);
    assert("hookEventName"@[0] != "permissionDecisionReason"@[0]);
    assert("hookEventName"@[0] != "tool_input"@[0]);
    assert("permissionDecision"@.len() != "permissionDecisionReason"@.len());
    assert("permissionDecision"@[0] != "updatedInput"@[0]);
    assert("permissionDecisionReason"@[0] != "updatedInput"@[0]);
    assert("hookEventName"@ != "updatedInput"@);
    assert("hookEventName"@ != "permissionDecision"@);
    assert("hookEventName"@ != "permissionDecisionReason"@);
    assert("hookEventName"@ != "tool_input"@);
    assert("permissionDecision"@ != "permissionDecisionReason"@);
    assert("permissionDecision"@ != "updatedInput"@);
    assert("permissionDecisionReason"@ != "updatedInput"@);
}

/// Cutting trailing whitespace keeps a prefix of the text, ends on a character that is
/// not whitespace (or leaves nothing), and cuts whitespace only.
pub proof fn trim_end_cuts_trailing_whitespace_only(s: Seq<char>)
    ensures
        trim_end(s).len() <= s.len(),
        trim_end(s) == s.subrange(0, trim_end(s).len() as int),
        trim_end(s).len() > 0 ==> !is_ws(trim_end(s).last()),
        forall|i: int| trim_end(s).len() <= i < s.len() ==> is_ws(#[trigger] s[i]),
    decreases s.len(),
{
    if s.len() > 0 && is_ws(s.last()) {
        trim_end_cuts_trailing_whitespace_only(s.drop_last());
        assert forall|i: int| trim_end(s).len() <= i < s.len() implies is_ws(#[trigger] s[i]) by {
            if i < s.len() - 1 {
                assert(s.drop_last()[i] == s[i]);
            }
        }
    } else {
        assert(s.subrange(0, s.len() as int) =~= s);
    }
}

/// A command is ours only if it names `contextzip` and, trailing whitespace aside, ends
/// with `hook <format>`; trailing whitespace never changes the answer.
pub proof fn our_command_ignores_trailing_whitespace(cmd: Seq<char>, format: Seq<char>, c: char)
    requires
        is_ws(c),
    ensures
        is_our_command_spec(cmd, format) ==> contains(cmd, "contextzip"@),
        is_our_command_spec(cmd, format) ==> ends_with(trim_end(cmd), "hook "@ + format),
        trim_end(cmd.push(c)) == trim_end(cmd),
{
    assert(cmd.push(c).drop_last() =~= cmd);
}

/// The entry that Cursor gets runs our hook command on the `Shell` tool and holds
/// nothing else; the group that Gemini gets matches `run_shell_command` and holds one
/// named command hook with a 5000 ms timeout.
pub proof fn our_entry_fields(exe: Seq<char>)
    ensures
        ({
            let e = our_entry(Agent::Cursor, exe);
            &&& obj_get(e, "command"@) == Some(JsonView::Str(hook_command_spec(exe, "cursor"@)))
            &&& obj_get(e, "matcher"@) == Some(JsonView::Str("Shell"@))
            &&& e->Object_0.dom() =~= set!["command"@, "matcher"@]
        }),
        ({
            let g = our_entry(Agent::Gemini, exe);
            let hs = obj_get(g, "hooks"@)->Some_0->Array_0;
            &&& obj_get(g, "matcher"@) == Some(JsonView::Str("run_shell_command"@))
            &&& obj_get(g, "hooks"@) is Some
            &&& obj_get(g, "hooks"@)->Some_0 is Array
            &&& hs.len() == 1
            &&& obj_get(hs[0], "name"@) == Some(JsonView::Str("contextzip"@))
            &&& obj_get(hs[0], "type"@) == Some(JsonView::Str("command"@))
            &&& obj_get(hs[0], "command"@) == Some(
                JsonView::Str(hook_command_spec(exe, "gemini"@)),
            )
            &&& obj_get(hs[0], "timeout"@) == Some(JsonView::Number("5000"@))
        }),
{
    reveal_strlit("command");
    reveal_strlit("matcher");
    reveal_strlit("hooks");
    reveal_strlit("name");
    reveal_strlit("type");
    reveal_strlit("timeout");
    assert("command"@[0] != "matcher"@[0]);
    assert("command"@ != "matcher"@);
    assert("hooks"@ != "matcher"@);
    assert("name"@[0] != "type"@[0]);
    assert("name"@ != "type"@);
    assert("name"@ != "command"@);
    assert("name"@ != "timeout"@);
    assert("type"@ != "command"@);
    assert("type"@.len() != "timeout"@.len());
    assert("type"@ != "timeout"@);
    assert("command"@[0] != "timeout"@[0]);
    assert("command"@ != "timeout"@);
}

} // verus!
