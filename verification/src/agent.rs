use vstd::prelude::*;

verus! {

/// Wire format spoken by the hook entry point.
#[derive(Clone, Copy, Debug, PartialEq, Eq, Structural)]
pub enum HookFormat {
    /// Cursor preToolUse (tool_name "Shell", replies with updated_input)
    Cursor,
    /// Gemini CLI BeforeTool (tool_name "run_shell_command", replies with tool_input)
    Gemini,
    /// VS Code Copilot Chat PreToolUse (tool_name "run_in_terminal", replies with updatedInput)
    Copilot,
}

/// Agent app to install into or remove from.
#[derive(Clone, Copy, Debug, PartialEq, Eq, Structural)]
pub enum Agent {
    Cursor,
    Gemini,
    Copilot,
    Antigravity,
    /// Every agent above
    All,
}

/// The agents that one requested agent stands for.
pub open spec fn members(a: Agent) -> Seq<Agent> {
    if a == Agent::All {
        seq![Agent::Cursor, Agent::Gemini, Agent::Copilot, Agent::Antigravity]
    } else {
        seq![a]
    }
}

/// `out` followed by each agent of `list` that is not already there.
pub open spec fn add_new(out: Seq<Agent>, list: Seq<Agent>) -> Seq<Agent>
    decreases list.len(),
{
    if list.len() == 0 {
        out
    } else {
        let o = add_new(out, list.drop_last());
        if o.contains(list.last()) {
            o
        } else {
            o.push(list.last())
        }
    }
}

/// The requested agents, `All` spelled out, each kept at its first appearance.
pub open spec fn expand_spec(agents: Seq<Agent>) -> Seq<Agent>
    decreases agents.len(),
{
    if agents.len() == 0 {
        Seq::empty()
    } else {
        add_new(expand_spec(agents.drop_last()), members(agents.last()))
    }
}

/// `s` holds no agent twice.
pub open spec fn no_repeats(s: Seq<Agent>) -> bool {
    forall|i: int, j: int| 0 <= i < j < s.len() ==> s[i] != s[j]
}

/// The display name of an agent.
pub open spec fn label_spec(a: Agent) -> Seq<char> {
    match a {
        Agent::Cursor => "Cursor"@,
        Agent::Gemini => "Gemini CLI"@,
        Agent::Copilot => "VS Code Copilot"@,
        Agent::Antigravity => "Antigravity"@,
        Agent::All => "all"@,
    }
}

proof fn lemma_add_new(out: Seq<Agent>, list: Seq<Agent>)
    requires
        no_repeats(out),
    ensures
        no_repeats(add_new(out, list)),
        add_new(out, list).take(out.len() as int) == out,
        out.len() <= add_new(out, list).len(),
        forall|x: Agent|
            add_new(out, list).contains(x) <==> (out.contains(x) || list.contains(x)),
    decreases list.len(),
{
    if list.len() > 0 {
        let l = list.drop_last();
        lemma_add_new(out, l);
        let o = add_new(out, l);
        assert forall|x: Agent| list.contains(x) <==> (l.contains(x) || x == list.last()) by {
            if list.contains(x) {
                let k = choose|k: int| 0 <= k < list.len() && list[k] == x;
                if k < list.len() - 1 {
                    assert(l[k] == x);
                }
            }
            if l.contains(x) {
                let k = choose|k: int| 0 <= k < l.len() && l[k] == x;
                assert(list[k] == x);
            }
            if x == list.last() {
                assert(list[list.len() - 1] == x);
            }
        }
        if !o.contains(list.last()) {
            let p = o.push(list.last());
            assert(p.take(out.len() as int) =~= o.take(out.len() as int));
            assert forall|x: Agent| p.contains(x) <==> (o.contains(x) || x == list.last()) by {
                if p.contains(x) {
                    let k = choose|k: int| 0 <= k < p.len() && p[k] == x;
                    if k < o.len() {
                        assert(o[k] == x);
                    }
                }
                if o.contains(x) {
                    let k = choose|k: int| 0 <= k < o.len() && o[k] == x;
                    assert(p[k] == x);
                }
                if x == list.last() {
                    assert(p[o.len() as int] == x);
                }
            }
            assert forall|i: int, j: int| 0 <= i < j < p.len() implies p[i] != p[j] by {
                if j == o.len() {
                    assert(o[i] == p[i]);
                }
            }
        }
    }
}

/// What `expand` promises of every input: each agent at most once, never `All`,
/// and exactly the agents asked for, directly or through `All`.
pub proof fn lemma_expand(agents: Seq<Agent>)
    ensures
        no_repeats(expand_spec(agents)),
        !expand_spec(agents).contains(Agent::All),
        forall|x: Agent|
            x != Agent::All ==> (expand_spec(agents).contains(x) <==> (agents.contains(x)
                || agents.contains(Agent::All))),
    decreases agents.len(),
{
    if agents.len() > 0 {
        let l = agents.drop_last();
        lemma_expand(l);
        lemma_add_new(expand_spec(l), members(agents.last()));
        let m = members(agents.last());
        assert(!m.contains(Agent::All)) by {
            if m.contains(Agent::All) {
                let k = choose|k: int| 0 <= k < m.len() && m[k] == Agent::All;
            }
        }
        assert forall|x: Agent| x != Agent::All implies (expand_spec(agents).contains(x) <==> (
        agents.contains(x) || agents.contains(Agent::All))) by {
            assert(agents.contains(x) <==> (l.contains(x) || x == agents.last())) by {
                if agents.contains(x) {
                    let k = choose|k: int| 0 <= k < agents.len() && agents[k] == x;
                    if k < agents.len() - 1 {
                        assert(l[k] == x);
                    }
                }
                if l.contains(x) {
                    let k = choose|k: int| 0 <= k < l.len() && l[k] == x;
                    assert(agents[k] == x);
                }
                if x == agents.last() {
                    assert(agents[agents.len() - 1] == x);
                }
            }
            assert(agents.contains(Agent::All) <==> (l.contains(Agent::All) || Agent::All
                == agents.last())) by {
                if agents.contains(Agent::All) {
                    let k = choose|k: int| 0 <= k < agents.len() && agents[k] == Agent::All;
                    if k < agents.len() - 1 {
                        assert(l[k] == Agent::All);
                    }
                }
                if l.contains(Agent::All) {
                    let k = choose|k: int| 0 <= k < l.len() && l[k] == Agent::All;
                    assert(agents[k] == Agent::All);
                }
                if Agent::All == agents.last() {
                    assert(agents[agents.len() - 1] == Agent::All);
                }
            }
            assert(m.contains(x) <==> (x == agents.last() || agents.last() == Agent::All)) by {
                if agents.last() == Agent::All {
                    match x {
                        Agent::Cursor => assert(m[0] == x),
                        Agent::Gemini => assert(m[1] == x),
                        Agent::Copilot => assert(m[2] == x),
                        Agent::Antigravity => assert(m[3] == x),
                        Agent::All => {},
                    }
                } else {
                    if x == agents.last() {
                        assert(m[0] == x);
                    }
                }
            }
        }
    }
}

/// A list with no repeats and no `All` is its own expansion.
proof fn lemma_expand_fixed(s: Seq<Agent>)
    requires
        no_repeats(s),
        !s.contains(Agent::All),
    ensures
        expand_spec(s) == s,
    decreases s.len(),
{
    if s.len() > 0 {
        let l = s.drop_last();
        let x = s.last();
        assert(!l.contains(Agent::All)) by {
            if l.contains(Agent::All) {
                let k = choose|k: int| 0 <= k < l.len() && l[k] == Agent::All;
                assert(s[k] == Agent::All);
            }
        }
        lemma_expand_fixed(l);
        assert(x != Agent::All) by {
            assert(s[s.len() - 1] == x);
        }
        assert(!l.contains(x)) by {
            if l.contains(x) {
                let k = choose|k: int| 0 <= k < l.len() && l[k] == x;
                assert(s[k] == s[s.len() - 1]);
            }
        }
        assert(members(x) =~= seq![x]);
        assert(seq![x].drop_last() =~= Seq::<Agent>::empty());
        assert(add_new(l, Seq::<Agent>::empty()) == l);
        assert(members(x).last() == x);
        assert(add_new(l, members(x)) == l.push(x));
        assert(l.push(x) =~= s);
        assert(expand_spec(s) == add_new(expand_spec(l), members(x)));
    }
}

/// Expanding an already expanded list changes nothing: expanding twice is expanding once.
pub proof fn expand_is_idempotent(agents: Seq<Agent>)
    ensures
        expand_spec(expand_spec(agents)) == expand_spec(agents),
{
    lemma_expand(agents);
    lemma_expand_fixed(expand_spec(agents));
}

fn contains_agent(v: &Vec<Agent>, x: Agent) -> (r: bool)
    ensures
        r == v@.contains(x),
{
    let mut i: usize = 0;
    while i < v.len()
        invariant
            i <= v.len(),
            forall|k: int| 0 <= k < i ==> v@[k] != x,
        decreases v.len() - i,
    {
        if v[i] == x {
            return true;
        }
        i = i + 1;
    }
    false
}

impl Agent {
    /// The requested agents with `All` spelled out, each listed once, in the order of
    /// first request.
    pub fn expand(agents: &[Agent]) -> (r: Vec<Agent>)
        ensures
            r@ == expand_spec(agents@),
            no_repeats(r@),
            !r@.contains(Agent::All),
            forall|x: Agent|
                x != Agent::All ==> (r@.contains(x) <==> (agents@.contains(x) || agents@.contains(
                    Agent::All,
                ))),
    {
        let mut out: Vec<Agent> = Vec::new();
        let mut i: usize = 0;
        while i < agents.len()
            invariant
                i <= agents.len(),
                out@ == expand_spec(agents@.take(i as int)),
            decreases agents.len() - i,
        {
            let a = agents[i];
            let list: Vec<Agent> = if a == Agent::All {
                vec![Agent::Cursor, Agent::Gemini, Agent::Copilot, Agent::Antigravity]
            } else {
                vec![a]
            };
            assert(list@ =~= members(a));
            let ghost out0 = out@;
            let mut j: usize = 0;
            while j < list.len()
                invariant
                    j <= list.len(),
                    out@ == add_new(out0, list@.take(j as int)),
                decreases list.len() - j,
            {
                let x = list[j];
                assert(list@.take(j + 1).drop_last() =~= list@.take(j as int));
                if !contains_agent(&out, x) {
                    out.push(x);
                }
                j = j + 1;
            }
            assert(list@.take(j as int) =~= list@);
            assert(agents@.take(i + 1).drop_last() =~= agents@.take(i as int));
            i = i + 1;
        }
        assert(agents@.take(agents.len() as int) =~= agents@);
        proof {
            lemma_expand(agents@);
        }
        out
    }

    /// The name shown to the user.
    pub fn label(self) -> (r: &'static str)
        ensures
            r@ == label_spec(self),
    {
        match self {
            Agent::Cursor => "Cursor",
            Agent::Gemini => "Gemini CLI",
            Agent::Copilot => "VS Code Copilot",
            Agent::Antigravity => "Antigravity",
            Agent::All => "all",
        }
    }
}

} // verus!
