//! Prompts: templates with slots, and the texts that fill them.

use crate::agent::models;
use crate::agent::models::OpenCodeModelLimits;
use crate::config::{AgentKind, AgentLabel};
use crate::text;
use vstd::prelude::*;
use vstd::string::*;

verus! {

/// The slot of that name in a template.
pub open spec fn slot(name: Seq<char>) -> Seq<char> {
    "{"@ + name + "}"@
}

pub open spec fn fill_views(v: Seq<(&'static str, String)>) -> Seq<(Seq<char>, Seq<char>)> {
    v.map_values(|p: (&'static str, String)| (p.0@, p.1@))
}

/// The template with its slots filled, one name after the other.
pub open spec fn filled(template: Seq<char>, fills: Seq<(Seq<char>, Seq<char>)>) -> Seq<char>
    decreases fills.len(),
{
    if fills.len() == 0 {
        template
    } else {
        text::replace_of(filled(template, fills.drop_last()), slot(fills.last().0), fills.last().1)
    }
}

/// Fills one slot wherever it stands.
pub fn fill_slot(template: &str, name: &str, value: &str) -> (r: String)
    ensures
        r@ == text::replace_of(template@, slot(name@), value@),
{
    let mut p = "{".to_owned();
    p.append(name);
    p.append("}");
    proof {
        reveal_strlit("{");
    }
    text::replace(template, p.as_str(), value)
}

/// Fills the slots of a template, one name after the other.
pub fn fill(template: &str, fills: &Vec<(&'static str, String)>) -> (r: String)
    ensures
        r@ == filled(template@, fill_views(fills@)),
{
    let ghost all = fill_views(fills@);
    let mut s = template.to_owned();
    let mut i: usize = 0;
    assert(all.take(0) =~= seq![]);
    while i < fills.len()
        invariant
            i <= fills@.len(),
            all == fill_views(fills@),
            s@ == filled(template@, all.take(i as int)),
        decreases fills@.len() - i,
    {
        assert(all.take(i + 1).drop_last() =~= all.take(i as int));
        assert(all.take(i + 1).last() == (fills@[i as int].0@, fills@[i as int].1@));
        s = fill_slot(s.as_str(), fills[i].0, fills[i].1.as_str());
        i = i + 1;
    }
    assert(all.take(i as int) =~= all);
    s
}

/// The hint that asks an agent that has one to use its multi-agent workflow.
pub open spec fn workflow_hint_of(workflow: bool, agent: AgentKind) -> Seq<char> {
    if workflow && agent == AgentKind::Claude {
        "You must use a workflow.\n\n"@
    } else {
        ""@
    }
}

pub fn workflow_hint(workflow: bool, agent: AgentKind) -> (r: String)
    ensures
        r@ == workflow_hint_of(workflow, agent),
{
    if workflow && agent == AgentKind::Claude {
        "You must use a workflow.\n\n".to_owned()
    } else {
        "".to_owned()
    }
}

/// Whether the prompt tells the limits of the model.
pub open spec fn tells_limits(agent: AgentKind, has_model: bool) -> bool {
    agent == AgentKind::OpenCode && has_model
}

/// The block that tells the limits of the model.
pub open spec fn limits_text_of(
    agent: AgentKind,
    has_model: bool,
    limits: Option<OpenCodeModelLimits>,
) -> Seq<char> {
    if tells_limits(agent, has_model) {
        match limits {
            Some(l) => models::limits_block(l),
            None => ""@,
        }
    } else {
        ""@
    }
}

/// Whether the limits of the model have to be looked up for the prompt.
pub fn needs_limits(agent: AgentKind, model: &Option<String>) -> (r: bool)
    ensures
        r == tells_limits(agent, model is Some),
{
    agent == AgentKind::OpenCode && model.is_some()
}

pub fn limits_text(
    agent: AgentKind,
    model: &Option<String>,
    limits: &Option<OpenCodeModelLimits>,
) -> (r: String)
    ensures
        r@ == limits_text_of(agent, model is Some, *limits),
{
    if needs_limits(agent, model) {
        match limits {
            Some(l) => models::render_model_limits_block(l),
            None => "".to_owned(),
        }
    } else {
        "".to_owned()
    }
}

/// The section on pre-installed tools, between a head and a tail.
pub open spec fn tools_section_of(
    head: Seq<char>,
    tail: Seq<char>,
    dir: Seq<char>,
    docs: Option<Seq<char>>,
) -> Seq<char> {
    match docs {
        None => ""@,
        Some(d) => head + "The following tools are pre-installed in `"@ + dir
            + "/`. Use them when you\nneed a precise answer about C behavior rather than reasoning from first principles.\n\n"@
            + text::replace_of(d, "{AGENT_TOOLS_DIR}"@, dir) + tail,
    }
}

/// The section on pre-installed tools. Without them the section is absent from
/// the prompt.
pub fn tools_section(head: &str, tail: &str, dir: &str, docs: &Option<String>) -> (r: String)
    ensures
        r@ == tools_section_of(head@, tail@, dir@, text::opt_text(*docs)),
{
    match docs {
        None => "".to_owned(),
        Some(d) => {
            proof {
                reveal_strlit("{AGENT_TOOLS_DIR}");
            }
            let shown = text::replace(d.as_str(), "{AGENT_TOOLS_DIR}", dir);
            let mut s = head.to_owned();
            s.append("The following tools are pre-installed in `");
            s.append(dir);
            s.append(
                "/`. Use them when you\nneed a precise answer about C behavior rather than reasoning from first principles.\n\n",
            );
            s.append(shown.as_str());
            s.append(tail);
            s
        },
    }
}

/// What is known when a prompt is built.
#[derive(Debug)]
pub struct PromptFacts {
    /// The working directory that holds the translated project.
    pub translated: String,
    /// The documentation of the pre-installed tools, if they are provided.
    pub tool_docs: Option<String>,
    /// The Rust version of the toolchain contract.
    pub required_version: String,
    /// The prompt block on the toolchain contract.
    pub toolchain_block: String,
    /// The limits of the model, where they were looked up.
    pub limits: Option<OpenCodeModelLimits>,
    /// How [`AgentKind`]'s second agent is called on this machine.
    pub claude: AgentLabel,
}

/// Where a template comes from.
#[derive(Debug)]
pub enum PromptSource<T> {
    /// A file that the configuration names.
    File(String),
    /// One that is shipped.
    Builtin(T),
}

/// Both prompt ablations cannot be in force at once.
pub fn check_plan_modes(tool: &str, no_plan: bool, no_plan_file: bool) -> (r: Result<(), String>)
    ensures
        (match r {
            Ok(_) => !(no_plan && no_plan_file),
            Err(e) => no_plan && no_plan_file && e@ == "tools."@ + tool@
                + ": no_plan and no_plan_file are mutually exclusive"@,
        }),
{
    if no_plan && no_plan_file {
        let mut e = "tools.".to_owned();
        e.append(tool);
        e.append(": no_plan and no_plan_file are mutually exclusive");
        Err(e)
    } else {
        Ok(())
    }
}

// ── Laws ─────────────────────────────────────────────────────────────────

/// Whether a text can name a slot: it holds no bracket.
pub open spec fn names_slot(name: Seq<char>) -> bool {
    text::lacks(name, '{') && text::lacks(name, '}')
}

proof fn slot_starts(name: Seq<char>)
    ensures
        slot(name).len() == name.len() + 2,
        slot(name)[0] == '{',
        slot(name)[name.len() as int + 1] == '}',
        forall|i: int| 0 <= i < name.len() ==> #[trigger] slot(name)[i + 1] == name[i],
{
    reveal_strlit("{");
    reveal_strlit("}");
}

/// A slot of another name is passed over.
proof fn other_slots_stay(
    a: Seq<char>,
    name: Seq<char>,
    b: Seq<char>,
    other: Seq<char>,
    w: Seq<char>,
)
    requires
        names_slot(name),
        names_slot(other),
        name != other,
        text::lacks(a, '{'),
        text::lacks(b, '{'),
    ensures
        text::replace_of(a + slot(name) + b, slot(other), w) == a + slot(name) + b,
    decreases a.len(),
{
    let s = a + slot(name) + b;
    let p = slot(other);
    slot_starts(name);
    slot_starts(other);
    if a.len() > 0 {
        let t = a.skip(1);
        assert forall|i: int| 0 <= i < t.len() implies (#[trigger] t[i]) != '{' by {
            assert(a[i + 1] != '{');
        }
        other_slots_stay(t, name, b, other, w);
        assert(s.skip(1) =~= t + slot(name) + b);
        assert(s[0] == a[0]);
        if text::has_prefix(s, p) {
            assert(s.subrange(0, p.len() as int)[0] == p[0]);
        }
        assert(seq![a[0]] + (t + slot(name) + b) =~= s);
    } else {
        assert(s =~= slot(name) + b);
        if text::has_prefix(s, p) {
            let q = s.subrange(0, p.len() as int);
            assert(q == p);
            assert forall|i: int| 0 <= i < p.len() implies #[trigger] s[i] == p[i] by {
                assert(q[i] == p[i]);
            }
            if other.len() > name.len() {
                assert(s[name.len() as int + 1] == '}');
                assert(p[name.len() as int + 1] == other[name.len() as int]);
                assert(false);
            } else if other.len() < name.len() {
                assert(p[other.len() as int + 1] == '}');
                assert(s[other.len() as int + 1] == name[other.len() as int]);
                assert(false);
            } else {
                assert forall|i: int| 0 <= i < name.len() implies name[i] == other[i] by {
                    assert(s[i + 1] == slot(name)[i + 1]);
                    assert(p[i + 1] == other[i]);
                }
                assert(name =~= other);
            }
        }
        let t = s.skip(1);
        assert forall|i: int| 0 <= i < t.len() implies (#[trigger] t[i]) != '{' by {
            assert(t[i] == s[i + 1]);
            if i < name.len() {
                assert(s[i + 1] == name[i]);
            } else if i > name.len() {
                assert(s[i + 1] == b[i - name.len() - 1]);
            }
        }
        text::nothing_to_replace(t, p, w);
        assert(seq![s[0]] + t =~= s);
    }
}

/// Whether the names of the fills are names of slots, with `k` the only one of its name.
pub open spec fn only_one_fills(fills: Seq<(Seq<char>, Seq<char>)>, k: int) -> bool {
    &&& 0 <= k < fills.len()
    &&& forall|i: int| 0 <= i < fills.len() ==> names_slot((#[trigger] fills[i]).0)
    &&& forall|i: int| 0 <= i < fills.len() && i != k ==> (#[trigger] fills[i]).0 != fills[k].0
}

proof fn filling_passes_by(
    a: Seq<char>,
    name: Seq<char>,
    b: Seq<char>,
    fills: Seq<(Seq<char>, Seq<char>)>,
)
    requires
        names_slot(name),
        text::lacks(a, '{'),
        text::lacks(b, '{'),
        forall|i: int|
            0 <= i < fills.len() ==> names_slot((#[trigger] fills[i]).0) && fills[i].0 != name,
    ensures
        filled(a + slot(name) + b, fills) == a + slot(name) + b,
    decreases fills.len(),
{
    if fills.len() > 0 {
        let front = fills.drop_last();
        assert forall|i: int| 0 <= i < front.len() implies names_slot((#[trigger] front[i]).0)
            && front[i].0 != name by {
            assert(front[i] == fills[i]);
        }
        filling_passes_by(a, name, b, front);
        other_slots_stay(a, name, b, fills.last().0, fills.last().1);
    }
}

/// The slot of a template is filled with the text of its name, whatever else is
/// filled, and what stands around it stays as it is.
pub proof fn slots_are_filled(
    a: Seq<char>,
    b: Seq<char>,
    fills: Seq<(Seq<char>, Seq<char>)>,
    k: int,
)
    requires
        only_one_fills(fills, k),
        text::lacks(a, '{'),
        text::lacks(b, '{'),
        text::lacks(fills[k].1, '{'),
    ensures
        filled(a + slot(fills[k].0) + b, fills) == a + fills[k].1 + b,
    decreases fills.len(),
{
    let front = fills.drop_last();
    let last = fills.last();
    let name = fills[k].0;
    let v = fills[k].1;
    assert forall|i: int| 0 <= i < front.len() implies names_slot((#[trigger] front[i]).0) by {
        assert(front[i] == fills[i]);
    }
    slot_starts(last.0);
    if k == front.len() {
        assert forall|i: int| 0 <= i < front.len() implies names_slot((#[trigger] front[i]).0)
            && front[i].0 != name by {
            assert(front[i] == fills[i]);
        }
        filling_passes_by(a, name, b, front);
        text::occurrences_are_replaced(a, slot(name), b, v);
        text::nothing_to_replace(b, slot(name), v);
    } else {
        assert(front[k] == fills[k]);
        assert forall|i: int| 0 <= i < front.len() && i != k implies (#[trigger] front[i]).0
            != front[k].0 by {
            assert(front[i] == fills[i]);
        }
        slots_are_filled(a, b, front, k);
        let s = a + v + b;
        assert forall|i: int| 0 <= i < s.len() implies (#[trigger] s[i]) != '{' by {
            if i < a.len() {
                assert(s[i] == a[i]);
            } else if i < a.len() + v.len() {
                assert(s[i] == v[i - a.len()]);
            } else {
                assert(s[i] == b[i - a.len() - v.len()]);
            }
        }
        text::nothing_to_replace(s, slot(last.0), last.1);
    }
}

/// A template is filled slot by slot: the one slot of a template gives way to the text
/// that is to fill it.
pub proof fn templates_are_filled(
    template: &str,
    fills: &Vec<(&'static str, String)>,
    r: String,
    a: Seq<char>,
    b: Seq<char>,
    k: int,
)
    requires
        call_ensures(fill, (template, fills), r),
        0 <= k < fills@.len(),
        template@ == a + "{"@ + fills@[k].0@ + "}"@ + b,
        text::lacks(a, '{'),
        text::lacks(b, '{'),
        text::lacks(fills@[k].1@, '{'),
        forall|i: int| 0 <= i < fills@.len() ==> names_slot((#[trigger] fills@[i]).0@),
        forall|i: int|
            0 <= i < fills@.len() && i != k ==> (#[trigger] fills@[i]).0@ != fills@[k].0@,
    ensures
        r@ == a + fills@[k].1@ + b,
{
    let all = fill_views(fills@);
    assert forall|i: int| 0 <= i < all.len() implies names_slot((#[trigger] all[i]).0) by {
        assert(all[i] == (fills@[i].0@, fills@[i].1@));
    }
    assert forall|i: int| 0 <= i < all.len() && i != k implies (#[trigger] all[i]).0
        != all[k].0 by {
        assert(all[i] == (fills@[i].0@, fills@[i].1@));
    }
    slots_are_filled(a, b, all, k);
    assert(template@ =~= a + slot(fills@[k].0@) + b);
}

/// The hint is given to the one agent that has workflows, if it is asked for.
pub proof fn hints_are_given_on_request(workflow: bool, agent: AgentKind, r: String)
    requires
        call_ensures(workflow_hint, (workflow, agent), r),
    ensures
        r@.len() > 0 <==> workflow && agent == AgentKind::Claude,
{
    reveal_strlit("You must use a workflow.\n\n");
    reveal_strlit("");
}

/// The limits of a model are told to the one agent that does not know them, where a
/// model is set and its limits were found.
pub proof fn limits_are_told_where_they_are_known(
    agent: AgentKind,
    model: &Option<String>,
    limits: &Option<OpenCodeModelLimits>,
    r: String,
)
    requires
        call_ensures(limits_text, (agent, model, limits), r),
    ensures
        agent != AgentKind::OpenCode || *model is None || *limits is None ==> r@.len() == 0,
        agent == AgentKind::OpenCode && *model is Some ==> (*limits matches Some(l) ==> r@
            == models::limits_block(l)),
{
    reveal_strlit("");
}

/// The section on tools tells where they are, and is absent without them.
pub proof fn tools_are_told_of(
    head: &str,
    tail: &str,
    dir: &str,
    docs: &Option<String>,
    r: String,
)
    requires
        call_ensures(tools_section, (head, tail, dir, docs), r),
    ensures
        *docs is None ==> r@.len() == 0,
        *docs is Some ==> text::has_prefix(r@, head@) && text::contains_text(r@, dir@)
            && text::has_suffix(r@, tail@),
{
    reveal_strlit("");
    if let Some(d) = *docs {
        let a = head@ + "The following tools are pre-installed in `"@;
        let n = a.len() as int;
        assert(r@.subrange(0, head@.len() as int) =~= head@);
        assert(r@.subrange(n, n + dir@.len()) =~= dir@);
        assert(text::occurs_at(r@, dir@, n));
        assert(r@.subrange(r@.len() - tail@.len(), r@.len() as int) =~= tail@);
    }
}

} // verus!
