use vstd::prelude::*;

use crate::agent::Agent;
use crate::command::{hook_command, hook_command_spec, is_our_command, is_our_command_spec};
use crate::files::ANTIGRAVITY_RULE;
use crate::json::{items_view, lemma_items_view, lemma_items_view_push, obj_get, Json, JsonView};
use crate::tree::{
    array_at, existing_array, has_array_at, keys_view, take_array_at, lemma_array_at_with_array,
    lemma_existing_array, lemma_with_array_twice, put_array_at, with_array, ConfigError,
    ConfigErrorView,
};

verus! {

/// The agents whose hooks live in a JSON file that may hold the user's own settings.
pub open spec fn has_shared_config(agent: Agent) -> bool {
    agent == Agent::Cursor || agent == Agent::Gemini
}

/// The agents configured through a JSON file.
pub open spec fn has_json_config(agent: Agent) -> bool {
    agent == Agent::Cursor || agent == Agent::Gemini || agent == Agent::Copilot
}

/// An entry whose `command` is one of our hook commands for `format`.
pub open spec fn entry_is_ours(e: JsonView, format: Seq<char>) -> bool {
    match obj_get(e, "command"@) {
        Some(JsonView::Str(c)) => is_our_command_spec(c, format),
        _ => false,
    }
}

/// A group whose `hooks` list holds one of our hook entries for `format`.
pub open spec fn group_is_ours(g: JsonView, format: Seq<char>) -> bool {
    match obj_get(g, "hooks"@) {
        Some(JsonView::Array(hs)) => exists|i: int| 0 <= i < hs.len() && entry_is_ours(#[trigger] hs[i], format),
        _ => false,
    }
}

/// A list item of an agent's hook list that this module wrote.
pub open spec fn is_ours(agent: Agent, e: JsonView) -> bool {
    if agent == Agent::Gemini {
        group_is_ours(e, "gemini"@)
    } else {
        entry_is_ours(e, "cursor"@)
    }
}

/// The items of `s` that this module did not write, in order.
pub open spec fn others(agent: Agent, s: Seq<JsonView>) -> Seq<JsonView>
    decreases s.len(),
{
    if s.len() == 0 {
        Seq::empty()
    } else {
        let o = others(agent, s.drop_last());
        if is_ours(agent, s.last()) {
            o
        } else {
            o.push(s.last())
        }
    }
}

/// Where an agent keeps its list of hooks in its config.
pub open spec fn hook_list_keys(agent: Agent) -> Seq<Seq<char>> {
    if agent == Agent::Gemini {
        seq!["hooks"@, "BeforeTool"@]
    } else {
        seq!["hooks"@, "preToolUse"@]
    }
}

/// The hook item that this module adds to an agent's hook list.
pub open spec fn our_entry(agent: Agent, exe: Seq<char>) -> JsonView {
    if agent == Agent::Gemini {
        JsonView::Object(
            Map::empty().insert("matcher"@, JsonView::Str("run_shell_command"@)).insert(
                "hooks"@,
                JsonView::Array(
                    seq![
                        JsonView::Object(
                            Map::empty().insert("name"@, JsonView::Str("contextzip"@)).insert(
                                "type"@,
                                JsonView::Str("command"@),
                            ).insert(
                                "command"@,
                                JsonView::Str(hook_command_spec(exe, "gemini"@)),
                            ).insert("timeout"@, JsonView::Number("5000"@)),
                        ),
                    ],
                ),
            ),
        )
    } else {
        JsonView::Object(
            Map::empty().insert(
                "command"@,
                JsonView::Str(hook_command_spec(exe, "cursor"@)),
            ).insert("matcher"@, JsonView::Str("Shell"@)),
        )
    }
}

/// The whole hook file written for VS Code Copilot.
pub open spec fn copilot_config(exe: Seq<char>) -> JsonView {
    JsonView::Object(
        Map::empty().insert(
            "hooks"@,
            JsonView::Object(
                Map::empty().insert(
                    "PreToolUse"@,
                    JsonView::Array(
                        seq![
                            JsonView::Object(
                                Map::empty().insert("type"@, JsonView::Str("command"@)).insert(
                                    "command"@,
                                    JsonView::Str(hook_command_spec(exe, "copilot"@)),
                                ).insert("timeout"@, JsonView::Number("10"@)),
                            ),
                        ],
                    ),
                ),
            ),
        ),
    )
}

/// The config after installing: for Cursor and Gemini, the hook list keeps the other
/// items in order and ends with ours; Copilot's file is ours alone.
pub open spec fn install_spec(agent: Agent, root: JsonView, exe: Seq<char>) -> Result<
    JsonView,
    ConfigErrorView,
> {
    if has_shared_config(agent) {
        match array_at(root, hook_list_keys(agent)) {
            Ok(a) => Ok(
                with_array(root, hook_list_keys(agent), others(agent, a).push(our_entry(agent, exe))),
            ),
            Err(e) => Err(e),
        }
    } else {
        Ok(copilot_config(exe))
    }
}

/// What installing writes into an agent's config file.
#[derive(Debug, PartialEq, Eq)]
pub enum AgentFile {
    /// A JSON config.
    Json(Json),
    /// A rule file's text.
    Rule(&'static str),
}

/// Whether a hook entry runs one of our hook commands for `format`.
pub fn entry_command_matches(entry: &Json, format: &str) -> (r: bool)
    ensures
        r == entry_is_ours(entry@, format@),
{
    match entry.get("command") {
        Some(c) => match c.as_str() {
            Some(cmd) => is_our_command(cmd, format),
            None => false,
        },
        None => false,
    }
}

/// Whether a hook group holds one of our hook entries for `format`.
pub fn group_has_our_hook(group: &Json, format: &str) -> (r: bool)
    ensures
        r == group_is_ours(group@, format@),
{
    let hooks = match group.get("hooks") {
        Some(h) => match h.as_array() {
            Some(v) => v,
            None => return false,
        },
        None => return false,
    };
    proof {
        lemma_items_view(hooks@);
    }
    let ghost hs = items_view(hooks@);
    let mut i: usize = 0;
    while i < hooks.len()
        invariant
            i <= hooks.len(),
            hs == items_view(hooks@),
            obj_get(group@, "hooks"@) == Some(JsonView::Array(hs)),
            hs.len() == hooks@.len(),
            forall|k: int| 0 <= k < hooks@.len() ==> #[trigger] hs[k] == hooks@[k]@,
            forall|k: int| 0 <= k < i ==> !entry_is_ours(#[trigger] hs[k], format@),
        decreases hooks.len() - i,
    {
        if entry_command_matches(&hooks[i], format) {
            let ghost gh = obj_get(group@, "hooks"@).unwrap()->Array_0;
            assert(gh == hs);
            assert(entry_is_ours(gh[i as int], format@));
            return true;
        }
        i = i + 1;
    }
    false
}

/// Whether a hook list item was written by this module for `agent`.
fn item_is_ours(agent: Agent, item: &Json) -> (r: bool)
    ensures
        r == is_ours(agent, item@),
{
    if agent == Agent::Gemini {
        group_has_our_hook(item, "gemini")
    } else {
        entry_command_matches(item, "cursor")
    }
}

/// The items of `list` that this module did not write, in order.
fn keep_others(agent: Agent, list: Vec<Json>) -> (r: Vec<Json>)
    ensures
        items_view(r@) == others(agent, items_view(list@)),
{
    let ghost orig = list@;
    let mut list = list;
    let mut out: Vec<Json> = Vec::new();
    let mut i: usize = 0;
    let n = list.len();
    assert(orig.len() == n);
    while list.len() > 0
        invariant
            i + list@.len() == orig.len(),
            orig.len() <= usize::MAX,
            list@ == orig.skip(i as int),
            items_view(out@) == others(agent, items_view(orig.take(i as int))),
        decreases list.len(),
    {
        let x = list.remove(0);
        proof {
            assert(x == orig[i as int]);
            assert(orig.take(i + 1) =~= orig.take(i as int).push(x));
            lemma_items_view_push(orig.take(i as int), x);
            assert(items_view(orig.take(i as int)).push(x@).drop_last() =~= items_view(
                orig.take(i as int),
            ));
            assert(list@ =~= orig.skip(i + 1));
        }
        if !item_is_ours(agent, &x) {
            proof {
                lemma_items_view_push(out@, x);
            }
            out.push(x);
        }
        i = i + 1;
    }
    assert(orig.take(i as int) =~= orig);
    out
}

/// The keys of an agent's hook list.
fn hook_keys(agent: Agent) -> (r: Vec<&'static str>)
    ensures
        keys_view(r@) == hook_list_keys(agent),
{
    let r = if agent == Agent::Gemini {
        vec!["hooks", "BeforeTool"]
    } else {
        vec!["hooks", "preToolUse"]
    };
    assert(keys_view(r@) =~= hook_list_keys(agent));
    r
}

/// The hook item that this module adds for `agent`.
fn new_entry(agent: Agent, exe: &str) -> (r: Json)
    ensures
        r@ == our_entry(agent, exe@),
{
    if agent == Agent::Gemini {
        let mut hook = Json::new_object();
        hook.insert("name", Json::string("contextzip"));
        hook.insert("type", Json::string("command"));
        hook.insert("command", Json::Str(hook_command(exe, "gemini")));
        hook.insert("timeout", Json::number("5000"));
        let mut hooks: Vec<Json> = Vec::new();
        proof {
            lemma_items_view_push(hooks@, hook);
        }
        hooks.push(hook);
        assert(items_view(hooks@) =~= seq![hook@]);
        let mut group = Json::new_object();
        group.insert("matcher", Json::string("run_shell_command"));
        group.insert("hooks", Json::Array(hooks));
        group
    } else {
        let mut e = Json::new_object();
        e.insert("command", Json::Str(hook_command(exe, "cursor")));
        e.insert("matcher", Json::string("Shell"));
        e
    }
}

/// The hook file written for VS Code Copilot.
pub fn copilot_hooks(exe: &str) -> (r: Json)
    ensures
        r@ == copilot_config(exe@),
{
    let mut hook = Json::new_object();
    hook.insert("type", Json::string("command"));
    hook.insert("command", Json::Str(hook_command(exe, "copilot")));
    hook.insert("timeout", Json::number("10"));
    let mut list: Vec<Json> = Vec::new();
    proof {
        lemma_items_view_push(list@, hook);
    }
    list.push(hook);
    assert(items_view(list@) =~= seq![hook@]);
    let mut inner = Json::new_object();
    inner.insert("PreToolUse", Json::Array(list));
    let mut root = Json::new_object();
    root.insert("hooks", inner);
    root
}

/// Registers the hook of an agent: `root` is its current config (or the default one;
/// agents whose file is ours alone ignore it) and the result is the file to write.
/// Our earlier entries are replaced, every other entry and setting is kept.
pub fn install_agent(agent: Agent, root: Json, exe: &str) -> (r: Result<AgentFile, ConfigError>)
    requires
        agent != Agent::All,
    ensures
        agent == Agent::Antigravity ==> r == Ok::<AgentFile, ConfigError>(
            AgentFile::Rule(ANTIGRAVITY_RULE),
        ),
        has_json_config(agent) ==> match install_spec(agent, root@, exe@) {
            Ok(v) => r matches Ok(AgentFile::Json(j)) && j@ == v,
            Err(e) => r matches Err(x) && x@ == e,
        },
{
    if agent == Agent::Antigravity {
        return Ok(AgentFile::Rule(ANTIGRAVITY_RULE));
    }
    if agent == Agent::Copilot {
        return Ok(AgentFile::Json(copilot_hooks(exe)));
    }
    let keys = hook_keys(agent);
    let mut root = root;
    let ghost r0 = root@;
    let list = match take_array_at(&mut root, keys.as_slice()) {
        Ok(l) => l,
        Err(e) => return Err(e),
    };
    let mut kept = keep_others(agent, list);
    let entry = new_entry(agent, exe);
    proof {
        lemma_items_view_push(kept@, entry);
    }
    kept.push(entry);
    let ghost a = items_view(kept@);
    put_array_at(&mut root, keys.as_slice(), kept);
    proof {
        lemma_with_array_twice(r0, hook_list_keys(agent), Seq::empty(), a);
    }
    Ok(AgentFile::Json(root))
}

/// The config after removing our hooks, when it held any.
pub open spec fn uninstall_spec(agent: Agent, root: JsonView) -> Option<JsonView> {
    match existing_array(root, hook_list_keys(agent)) {
        Some(a) => if others(agent, a).len() != a.len() {
            Some(with_array(root, hook_list_keys(agent), others(agent, a)))
        } else {
            None
        },
        None => None,
    }
}

/// Filtering never lengthens a list, and a filter that removes nothing returns the list.
pub proof fn lemma_others_len(agent: Agent, s: Seq<JsonView>)
    ensures
        others(agent, s).len() <= s.len(),
        others(agent, s).len() == s.len() ==> others(agent, s) == s,
    decreases s.len(),
{
    if s.len() > 0 {
        lemma_others_len(agent, s.drop_last());
        if others(agent, s).len() == s.len() {
            assert(s.drop_last().push(s.last()) =~= s);
        }
    }
}

/// Removes our hooks from the hook list of Cursor's or Gemini's config, which
/// holds user settings beside them. Returns whether anything was removed; the
/// config is left as it was when nothing was.
pub fn uninstall_hooks(agent: Agent, root: &mut Json) -> (changed: bool)
    requires
        has_shared_config(agent),
    ensures
        match uninstall_spec(agent, old(root)@) {
            Some(n) => changed && final(root)@ == n,
            None => !changed && final(root)@ == old(root)@,
        },
{
    let keys = hook_keys(agent);
    if !has_array_at(root, keys.as_slice()) {
        return false;
    }
    let ghost r0 = root@;
    let ghost ks = hook_list_keys(agent);
    proof {
        lemma_existing_array(r0, ks);
    }
    let list = match take_array_at(root, keys.as_slice()) {
        Ok(l) => l,
        Err(_) => return false,
    };
    let before = list.len();
    proof {
        lemma_items_view(list@);
    }
    let kept = keep_others(agent, list);
    let ghost a = existing_array(r0, ks).unwrap();
    proof {
        lemma_items_view(kept@);
        lemma_others_len(agent, a);
        lemma_with_array_twice(r0, ks, Seq::empty(), items_view(kept@));
    }
    let changed = kept.len() != before;
    put_array_at(root, keys.as_slice(), kept);
    changed
}

} // verus!
