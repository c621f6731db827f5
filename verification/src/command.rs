use vstd::prelude::*;

use crate::text::{contains, contains_str, ends_with, trim_end, trimmed_ends_with};

verus! {

/// The command line that runs the hook of `format` through the binary at `exe`.
pub open spec fn hook_command_spec(exe: Seq<char>, format: Seq<char>) -> Seq<char> {
    "\""@ + exe + "\" hook "@ + format
}

/// A command line is one of ours: it names `contextzip` and, trailing whitespace
/// aside, ends with `hook <format>`.
pub open spec fn is_our_command_spec(cmd: Seq<char>, format: Seq<char>) -> bool {
    contains(cmd, "contextzip"@) && ends_with(trim_end(cmd), "hook "@ + format)
}

/// `list` joined with `sep` between consecutive items.
pub open spec fn seq_join(list: Seq<Seq<char>>, sep: Seq<char>) -> Seq<char>
    decreases list.len(),
{
    if list.len() == 0 {
        Seq::empty()
    } else if list.len() == 1 {
        list[0]
    } else {
        seq_join(list.drop_last(), sep) + sep + list.last()
    }
}

/// The views of a list of strings.
pub open spec fn strings_view(list: Seq<String>) -> Seq<Seq<char>> {
    list.map_values(|s: String| s@)
}

/// The hook command line written into an agent's config: the quoted binary path,
/// then `hook` and the wire format.
pub fn hook_command(exe: &str, format: &str) -> (r: String)
    ensures
        r@ == hook_command_spec(exe@, format@),
{
    let mut r = String::from_str("\"");
    r.append(exe);
    r.append("\" hook ");
    r.append(format);
    r
}

/// True for any hook command this module wrote, whatever binary path it used
/// (so long as that path names `contextzip`).
pub fn is_our_command(cmd: &str, format: &str) -> (r: bool)
    ensures
        r == is_our_command_spec(cmd@, format@),
{
    if !contains_str(cmd, "contextzip") {
        return false;
    }
    let mut suffix = String::from_str("hook ");
    suffix.append(format);
    trimmed_ends_with(cmd, suffix.as_str())
}

/// The displayed paths, separated by `, `.
pub fn join_paths(paths: &[String]) -> (r: String)
    ensures
        r@ == seq_join(strings_view(paths@), ", "@),
{
    let ghost list = strings_view(paths@);
    let mut r = String::new();
    let mut i: usize = 0;
    while i < paths.len()
        invariant
            i <= paths.len(),
            list == strings_view(paths@),
            r@ == seq_join(list.take(i as int), ", "@),
        decreases paths.len() - i,
    {
        assert(list.take(i + 1).drop_last() =~= list.take(i as int));
        if i != 0 {
            r.append(", ");
        } else {
            assert(list.take(1) =~= seq![list[0]]);
        }
        r.append(paths[i].as_str());
        i = i + 1;
    }
    assert(list.take(paths.len() as int) =~= list);
    r
}

} // verus!
