//! What holds of an agent's invocation as a whole.

use crate::agent::invoke;
use crate::agent::invoke::{agent_environment, agent_script, resume_script, Assignments};
use crate::agent::outcome;
use crate::agent::outcome::{
    assess_opencode_run, resume_step, OpenCodeOutcome, OutcomeView, ResumeStep, RunState,
};
use crate::agent::phase::AgentInvocation;
use crate::config::AgentKind;
use crate::json;
use crate::json::JsonView;
use crate::path;
use crate::text;
use crate::text_map;
use vstd::prelude::*;

verus! {

// ── Scripts ──────────────────────────────────────────────────────────────

proof fn lacks_concat(a: Seq<char>, b: Seq<char>, c: char)
    requires
        text::lacks(a, c),
        text::lacks(b, c),
    ensures
        text::lacks(a + b, c),
{
    assert forall|i: int| 0 <= i < (a + b).len() implies (#[trigger] (a + b)[i]) != c by {
        if i < a.len() {
            assert((a + b)[i] == a[i]);
        } else {
            assert((a + b)[i] == b[i - a.len()]);
        }
    }
}

/// A text that lacks a character of `p` does not hold `p`.
proof fn lacking_is_not_holding(s: Seq<char>, p: Seq<char>, k: int)
    requires
        0 <= k < p.len(),
        text::lacks(s, p[k]),
    ensures
        !text::contains_text(s, p),
{
    if text::contains_text(s, p) {
        let i = choose|i: int| text::occurs_at(s, p, i);
        assert(s.subrange(i, i + p.len())[k] == s[i + k]);
    }
}

proof fn digits_lack(n: nat, c: char)
    requires
        !text::is_ascii_digit(c),
    ensures
        text::lacks(text::decimal_of(n), c),
{
    text::decimals_read_back(n);
}

/// The name under which OpenCode knows a phase has no capital letter.
proof fn phase_names_lack(invocation: AgentInvocation, c: char)
    requires
        65 <= c as int <= 90,
    ensures
        text::lacks(invocation.phase.opencode_name(), c),
{
    reveal_strlit("harvest-translate");
    reveal_strlit("harvest-verify");
    reveal_strlit("harvest-conform");
}

/// The parts of a first script that no agent's name is in lack this letter.
proof fn start_lacks(c: char)
    requires
        c == 'U',
    ensures
        text::lacks("set -o pipefail; timeout "@, c),
        text::lacks(" "@, c),
        text::lacks(""@, c),
        text::lacks("--model \"$MODEL\" "@, c),
        text::lacks("--append-system-prompt \"$APPEND_SYS\" "@, c),
        text::lacks("\"$PROMPT\" < /dev/null 2>&1 | tee \"$LOG\""@, c),
{
    reveal_strlit("set -o pipefail; timeout ");
    reveal_strlit(" ");
    reveal_strlit("");
    reveal_strlit("--model \"$MODEL\" ");
    reveal_strlit("--append-system-prompt \"$APPEND_SYS\" ");
    reveal_strlit("\"$PROMPT\" < /dev/null 2>&1 | tee \"$LOG\"");
}

proof fn kiro_lacks(c: char)
    requires
        c == 'U',
    ensures
        text::lacks(
            " kiro-cli chat --no-interactive --trust-all-tools \"$PROMPT\" < /dev/null 2>&1 | tee \"$LOG\""@,
            c,
        ),
{
    reveal_strlit(
        " kiro-cli chat --no-interactive --trust-all-tools \"$PROMPT\" < /dev/null 2>&1 | tee \"$LOG\"",
    );
}

proof fn opencode_lacks(c: char)
    requires
        c == 'U' || c == 'D',
    ensures
        text::lacks(
            " opencode run --format json --thinking --dangerously-skip-permissions --agent "@,
            c,
        ),
{
    reveal_strlit(
        " opencode run --format json --thinking --dangerously-skip-permissions --agent ",
    );
}

proof fn named_agent_lacks(c: char)
    requires
        c == 'U',
    ensures
        text::lacks(" -p \"$PROMPT\" "@, c),
        text::lacks("--allowed-tools 'Bash(*)' 'Write' 'Edit' --dangerously-skip-permissions "@, c),
        text::lacks(
            "--max-turns 1000 --output-format stream-json --verbose < /dev/null 2>&1 | tee \"$LOG\""@,
            c,
        ),
{
    reveal_strlit(" -p \"$PROMPT\" ");
    reveal_strlit("--allowed-tools 'Bash(*)' 'Write' 'Edit' --dangerously-skip-permissions ");
    reveal_strlit(
        "--max-turns 1000 --output-format stream-json --verbose < /dev/null 2>&1 | tee \"$LOG\"",
    );
}

proof fn scripts_lack_the_resume_prompt(invocation: AgentInvocation)
    requires
        invocation.agent == AgentKind::Claude ==> text::lacks(invocation.claude.name@, 'U'),
    ensures
        text::lacks(invoke::script_of(invocation), 'U'),
{
    let c = 'U';
    start_lacks(c);
    digits_lack(invocation.timeout_secs as nat, c);
    let start = "set -o pipefail; timeout "@ + text::decimal_of(invocation.timeout_secs as nat);
    lacks_concat("set -o pipefail; timeout "@, text::decimal_of(invocation.timeout_secs as nat), c);
    let model = invoke::model_flag_of(invocation);
    let append = invoke::append_flag_of(invocation);
    match invocation.agent {
        AgentKind::Kiro => {
            kiro_lacks(c);
            lacks_concat(
                start,
                " kiro-cli chat --no-interactive --trust-all-tools \"$PROMPT\" < /dev/null 2>&1 | tee \"$LOG\""@,
                c,
            );
        },
        AgentKind::Claude => {
            named_agent_lacks(c);
            let a = start + " "@;
            lacks_concat(start, " "@, c);
            let b = a + invocation.claude.name@;
            lacks_concat(a, invocation.claude.name@, c);
            let d = b + " -p \"$PROMPT\" "@;
            lacks_concat(b, " -p \"$PROMPT\" "@, c);
            let e = d + model;
            lacks_concat(d, model, c);
            let f = e
                + "--allowed-tools 'Bash(*)' 'Write' 'Edit' --dangerously-skip-permissions "@;
            lacks_concat(
                e,
                "--allowed-tools 'Bash(*)' 'Write' 'Edit' --dangerously-skip-permissions "@,
                c,
            );
            let g = f + append;
            lacks_concat(f, append, c);
            lacks_concat(
                g,
                "--max-turns 1000 --output-format stream-json --verbose < /dev/null 2>&1 | tee \"$LOG\""@,
                c,
            );
        },
        AgentKind::OpenCode => {
            opencode_lacks(c);
            phase_names_lack(invocation, c);
            let name = invocation.phase.opencode_name();
            let a = start
                + " opencode run --format json --thinking --dangerously-skip-permissions --agent "@;
            lacks_concat(
                start,
                " opencode run --format json --thinking --dangerously-skip-permissions --agent "@,
                c,
            );
            let b = a + name;
            lacks_concat(a, name, c);
            let d = b + " "@;
            lacks_concat(b, " "@, c);
            let e = d + model;
            lacks_concat(d, model, c);
            lacks_concat(e, "\"$PROMPT\" < /dev/null 2>&1 | tee \"$LOG\""@, c);
        },
    }
}

/// The first script of an invocation hands the agent the prompt, and not the text
/// that resumes a session: it passes the variable that holds the one, and does not
/// mention the variable that holds the other. (The name that an agent has on a
/// machine is taken not to hold the letter that tells the two apart.)
pub proof fn first_scripts_tell_the_prompt(invocation: &AgentInvocation, r: String)
    requires
        call_ensures(agent_script, (invocation,), r),
        invocation.agent == AgentKind::Claude ==> text::lacks(invocation.claude.name@, 'U'),
    ensures
        text::contains_text(r@, "\"$PROMPT\""@),
        !text::contains_text(r@, "RESUME_PROMPT"@),
{
    scripts_lack_the_resume_prompt(*invocation);
    reveal_strlit("RESUME_PROMPT");
    assert("RESUME_PROMPT"@[3] == 'U');
    lacking_is_not_holding(r@, "RESUME_PROMPT"@, 3);
    first_scripts_pass_the_prompt(*invocation);
}

proof fn first_scripts_pass_the_prompt(invocation: AgentInvocation)
    ensures
        text::contains_text(invoke::script_of(invocation), "\"$PROMPT\""@),
{
    let start = "set -o pipefail; timeout "@ + text::decimal_of(invocation.timeout_secs as nat);
    let model = invoke::model_flag_of(invocation);
    let append = invoke::append_flag_of(invocation);
    reveal_strlit("\"$PROMPT\"");
    let p = "\"$PROMPT\""@;
    match invocation.agent {
        AgentKind::Kiro => {
            reveal_strlit(
                " kiro-cli chat --no-interactive --trust-all-tools \"$PROMPT\" < /dev/null 2>&1 | tee \"$LOG\"",
            );
            let t =
                " kiro-cli chat --no-interactive --trust-all-tools \"$PROMPT\" < /dev/null 2>&1 | tee \"$LOG\""@;
            assert(t.subrange(50, 59) =~= p);
            assert(text::occurs_at(t, p, 50));
            text::held_in_more(start, t, seq![], p);
        },
        AgentKind::Claude => {
            reveal_strlit(" -p \"$PROMPT\" ");
            let t = " -p \"$PROMPT\" "@;
            assert(t.subrange(4, 13) =~= p);
            assert(text::occurs_at(t, p, 4));
            let a = start + " "@ + invocation.claude.name@;
            text::held_in_more(a, t, seq![], p);
            text::held_in_more(seq![], a + t, model, p);
            let b = a + t + model;
            let u = "--allowed-tools 'Bash(*)' 'Write' 'Edit' --dangerously-skip-permissions "@;
            text::held_in_more(seq![], b, u, p);
            text::held_in_more(seq![], b + u, append, p);
            text::held_in_more(
                seq![],
                b + u + append,
                "--max-turns 1000 --output-format stream-json --verbose < /dev/null 2>&1 | tee \"$LOG\""@,
                p,
            );
        },
        AgentKind::OpenCode => {
            reveal_strlit("\"$PROMPT\" < /dev/null 2>&1 | tee \"$LOG\"");
            let t = "\"$PROMPT\" < /dev/null 2>&1 | tee \"$LOG\""@;
            assert(t.subrange(0, 9) =~= p);
            assert(text::occurs_at(t, p, 0));
            let a = start
                + " opencode run --format json --thinking --dangerously-skip-permissions --agent "@
                + invocation.phase.opencode_name() + " "@ + model;
            text::held_in_more(a, t, seq![], p);
        },
    }
}

/// The script that resumes a session names that session, and hands the agent the text
/// that resumes one.
pub proof fn resuming_scripts_tell_the_resume_prompt(
    invocation: &AgentInvocation,
    session_id: &str,
    r: String,
)
    requires
        call_ensures(resume_script, (invocation, session_id), r),
    ensures
        text::contains_text(r@, "\"$RESUME_PROMPT\""@),
        text::contains_text(r@, " --session "@ + session_id@ + " "@),
{
    let start = "set -o pipefail; timeout "@ + text::decimal_of(invocation.timeout_secs as nat)
        + " opencode run --format json --thinking --dangerously-skip-permissions --agent "@
        + invocation.phase.opencode_name();
    let model = invoke::model_flag_of(*invocation);
    let t = "\"$RESUME_PROMPT\" < /dev/null 2>&1 | tee -a \"$LOG\""@;
    reveal_strlit("\"$RESUME_PROMPT\" < /dev/null 2>&1 | tee -a \"$LOG\"");
    reveal_strlit("\"$RESUME_PROMPT\"");
    let p = "\"$RESUME_PROMPT\""@;
    assert(t.subrange(0, 16) =~= p);
    assert(text::occurs_at(t, p, 0));
    let id = " --session "@ + session_id@ + " "@;
    text::held_in_more(start + " --session "@ + session_id@ + " "@ + model, t, seq![], p);
    text::part_is_held(start, id, model + t);
    assert(start + id + (model + t) =~= start + " --session "@ + session_id@ + " "@ + model + t);
}

/// Every script runs the agent for no longer than the time it is given, and the
/// scripts of two invocations that differ in that time differ.
pub proof fn scripts_are_timed(invocation: &AgentInvocation, r: String)
    requires
        call_ensures(agent_script, (invocation,), r),
    ensures
        text::has_prefix(
            r@,
            "set -o pipefail; timeout "@ + text::decimal_of(invocation.timeout_secs as nat) + " "@,
        ),
{
    let start = "set -o pipefail; timeout "@ + text::decimal_of(invocation.timeout_secs as nat);
    let p = start + " "@;
    reveal_strlit(" ");
    reveal_strlit(
        " kiro-cli chat --no-interactive --trust-all-tools \"$PROMPT\" < /dev/null 2>&1 | tee \"$LOG\"",
    );
    reveal_strlit(
        " opencode run --format json --thinking --dangerously-skip-permissions --agent ",
    );
    assert(r@.len() >= p.len());
    assert(r@.subrange(0, p.len() as int) =~= p);
}

proof fn opencode_without_model_lacks(invocation: AgentInvocation)
    requires
        invocation.agent == AgentKind::OpenCode,
        invocation.model is None,
    ensures
        text::lacks(invoke::script_of(invocation), 'D'),
{
    let c = 'D';
    reveal_strlit("set -o pipefail; timeout ");
    reveal_strlit(" ");
    reveal_strlit("");
    reveal_strlit("\"$PROMPT\" < /dev/null 2>&1 | tee \"$LOG\"");
    digits_lack(invocation.timeout_secs as nat, c);
    let start = "set -o pipefail; timeout "@ + text::decimal_of(invocation.timeout_secs as nat);
    lacks_concat("set -o pipefail; timeout "@, text::decimal_of(invocation.timeout_secs as nat), c);
    opencode_lacks(c);
    phase_names_lack(invocation, c);
    let name = invocation.phase.opencode_name();
    let a = start
        + " opencode run --format json --thinking --dangerously-skip-permissions --agent "@;
    lacks_concat(
        start,
        " opencode run --format json --thinking --dangerously-skip-permissions --agent "@,
        c,
    );
    lacks_concat(a, name, c);
    lacks_concat(a + name, " "@, c);
    lacks_concat(a + name + " "@, invoke::model_flag_of(invocation), c);
    lacks_concat(
        a + name + " "@ + invoke::model_flag_of(invocation),
        "\"$PROMPT\" < /dev/null 2>&1 | tee \"$LOG\""@,
        c,
    );
}

/// A script asks for the model exactly if one is set; it names the phase's own agent
/// to OpenCode.
pub proof fn scripts_ask_for_the_model(invocation: &AgentInvocation, r: String)
    requires
        call_ensures(agent_script, (invocation,), r),
    ensures
        invocation.model is Some && invocation.agent != AgentKind::Kiro ==> text::contains_text(
            r@,
            "--model \"$MODEL\" "@,
        ),
        invocation.model is None && invocation.agent == AgentKind::OpenCode
            ==> !text::contains_text(r@, "MODEL"@),
        invocation.agent == AgentKind::OpenCode ==> text::contains_text(
            r@,
            " --agent "@ + invocation.phase.opencode_name() + " "@,
        ),
{
    let start = "set -o pipefail; timeout "@ + text::decimal_of(invocation.timeout_secs as nat);
    let p = "--model \"$MODEL\" "@;
    let name = invocation.phase.opencode_name();
    let run = " opencode run --format json --thinking --dangerously-skip-permissions --agent "@;
    let tail = "\"$PROMPT\" < /dev/null 2>&1 | tee \"$LOG\""@;
    if invocation.agent == AgentKind::OpenCode {
        if invocation.model is Some {
            text::part_is_held(start + run + name + " "@, p, tail);
        } else {
            opencode_without_model_lacks(*invocation);
            reveal_strlit("MODEL");
            lacking_is_not_holding(r@, "MODEL"@, 2);
        }
        reveal_strlit(" --agent ");
        reveal_strlit(
            " opencode run --format json --thinking --dangerously-skip-permissions --agent ",
        );
        let k = run.len() - 9;
        let before = run.take(k);
        assert(run.skip(k) =~= " --agent "@);
        assert(run =~= before + " --agent "@);
        let rest = invoke::model_flag_of(*invocation) + tail;
        text::part_is_held(start + before, " --agent "@ + name + " "@, rest);
        assert(start + before + (" --agent "@ + name + " "@) + rest =~= r@);
    }
    if invocation.agent == AgentKind::Claude && invocation.model is Some {
        let a = start + " "@ + invocation.claude.name@ + " -p \"$PROMPT\" "@;
        let u = "--allowed-tools 'Bash(*)' 'Write' 'Edit' --dangerously-skip-permissions "@;
        let append = invoke::append_flag_of(*invocation);
        text::part_is_held(a, p, seq![]);
        assert(a + p + seq![] =~= a + p);
        text::held_in_more(seq![], a + p, u, p);
        text::held_in_more(seq![], a + p + u, append, p);
        text::held_in_more(
            seq![],
            a + p + u + append,
            "--max-turns 1000 --output-format stream-json --verbose < /dev/null 2>&1 | tee \"$LOG\""@,
            p,
        );
    }
}

// ── Environment ──────────────────────────────────────────────────────────

/// Whether some assignment sets the variable.
pub open spec fn sets(env: Assignments, key: Seq<char>) -> bool {
    exists|i: int| 0 <= i < env.len() && (#[trigger] env[i]).0 == key
}

proof fn unset_has_no_value(env: Assignments, key: Seq<char>)
    ensures
        invoke::value_after(env, key) is Some <==> sets(env, key),
    decreases env.len(),
{
    if env.len() > 0 {
        let front = env.drop_last();
        unset_has_no_value(front, key);
        if sets(env, key) && env.last().0 != key {
            let i = choose|i: int| 0 <= i < env.len() && (#[trigger] env[i]).0 == key;
            assert(front[i].0 == key);
        }
        if sets(front, key) {
            let i = choose|i: int| 0 <= i < front.len() && (#[trigger] front[i]).0 == key;
            assert(env[i].0 == key);
        }
        if env.last().0 == key {
            assert(env[env.len() - 1].0 == key);
        }
    }
}

/// An assignment that no later one of the same variable follows decides its value.
proof fn last_assignment_counts(env: Assignments, key: Seq<char>, value: Seq<char>, i: int)
    requires
        0 <= i < env.len(),
        env[i] == (key, value),
        forall|j: int| i < j < env.len() ==> (#[trigger] env[j]).0 != key,
    ensures
        invoke::value_after(env, key) == Some(value),
    decreases env.len(),
{
    if i < env.len() - 1 {
        assert(env[env.len() - 1].0 != key);
        let front = env.drop_last();
        assert(front[i] == env[i]);
        assert forall|j: int| i < j < front.len() implies (#[trigger] front[j]).0 != key by {
            assert(env[j].0 != key);
        }
        last_assignment_counts(front, key, value, i);
    }
}

proof fn variable_names_differ()
    ensures
        "PROMPT"@[0] == 'P' && "PROMPT"@.len() == 6,
        "RESUME_PROMPT"@[0] == 'R' && "RESUME_PROMPT"@[1] == 'E' && "RESUME_PROMPT"@.len() == 13,
        "LOG"@[0] == 'L' && "LOG"@.len() == 3,
        "OPENSSL_DIR"@[0] == 'O' && "OPENSSL_DIR"@[4] == 'S' && "OPENSSL_DIR"@.len() == 11,
        "APPEND_SYS"@[0] == 'A' && "APPEND_SYS"@[1] == 'P' && "APPEND_SYS"@.len() == 10,
        "MODEL"@[0] == 'M' && "MODEL"@.len() == 5,
        "RUSTUP_TOOLCHAIN"@[0] == 'R' && "RUSTUP_TOOLCHAIN"@[1] == 'U',
        "XDG_CONFIG_HOME"@[0] == 'X',
        "OPENCODE_EXPERIMENTAL_OUTPUT_TOKEN_MAX"@[0] == 'O',
        "OPENCODE_EXPERIMENTAL_OUTPUT_TOKEN_MAX"@[4] == 'C',
        "ANTHROPIC_BASE_URL"@[0] == 'A' && "ANTHROPIC_BASE_URL"@[1] == 'N',
{
    reveal_strlit("PROMPT");
    reveal_strlit("RESUME_PROMPT");
    reveal_strlit("LOG");
    reveal_strlit("OPENSSL_DIR");
    reveal_strlit("APPEND_SYS");
    reveal_strlit("MODEL");
    reveal_strlit("RUSTUP_TOOLCHAIN");
    reveal_strlit("XDG_CONFIG_HOME");
    reveal_strlit("OPENCODE_EXPERIMENTAL_OUTPUT_TOKEN_MAX");
    reveal_strlit("ANTHROPIC_BASE_URL");
}

#[verifier::spinoff_prover]
proof fn own_variables(
    invocation: AgentInvocation,
    log_path: Seq<char>,
    openssl_dir: Option<Seq<char>>,
    output_limit: Option<u64>,
)
    ensures
        ({
            let env = invoke::own_assignments(invocation, log_path, openssl_dir, output_limit);
            &&& invoke::value_after(env, "PROMPT"@) == Some(invocation.prompt@)
            &&& invoke::value_after(env, "RESUME_PROMPT"@) == Some(invoke::OPENCODE_RESUME_PROMPT@)
            &&& invoke::value_after(env, "LOG"@) == Some(log_path)
            &&& invoke::value_after(env, "MODEL"@) == text::opt_text(invocation.model)
            &&& invoke::value_after(env, "RUSTUP_TOOLCHAIN"@) == text::opt_text(
                invocation.rust_toolchain,
            )
            &&& invoke::value_after(env, "OPENSSL_DIR"@) == Some(
                match openssl_dir {
                    Some(d) => d,
                    None => "/usr"@,
                },
            )
        }),
{
    let env = invoke::own_assignments(invocation, log_path, openssl_dir, output_limit);
    variable_names_differ();
    assert(env[0] == ("PROMPT"@, invocation.prompt@));
    assert(env[1] == ("RESUME_PROMPT"@, invoke::OPENCODE_RESUME_PROMPT@));
    assert(env[2] == ("LOG"@, log_path));
    assert forall|j: int| 4 <= j < env.len() implies {
        let k = (#[trigger] env[j]).0;
        ||| k == "APPEND_SYS"@
        ||| k == "MODEL"@
        ||| k == "RUSTUP_TOOLCHAIN"@
        ||| k == "XDG_CONFIG_HOME"@
        ||| k == "OPENCODE_EXPERIMENTAL_OUTPUT_TOKEN_MAX"@
    } by {}
    last_assignment_counts(env, "PROMPT"@, invocation.prompt@, 0);
    last_assignment_counts(env, "RESUME_PROMPT"@, invoke::OPENCODE_RESUME_PROMPT@, 1);
    last_assignment_counts(env, "LOG"@, log_path, 2);
    last_assignment_counts(env, "OPENSSL_DIR"@, env[3].1, 3);
    let told = invocation.agent == AgentKind::Claude && invocation.has_plan_files();
    let m: int = if told {
        5
    } else {
        4
    };
    let t: int = if invocation.model is Some {
        m + 1
    } else {
        m
    };
    unset_has_no_value(env, "MODEL"@);
    unset_has_no_value(env, "RUSTUP_TOOLCHAIN"@);
    if let Some(v) = invocation.model {
        assert(env[m] == ("MODEL"@, v@));
        assert forall|j: int| m < j < env.len() implies (#[trigger] env[j]).0 != "MODEL"@ by {}
        last_assignment_counts(env, "MODEL"@, v@, m);
    }
    if let Some(v) = invocation.rust_toolchain {
        assert(env[t] == ("RUSTUP_TOOLCHAIN"@, v@));
        assert forall|j: int| t < j < env.len() implies (#[trigger] env[j]).0
            != "RUSTUP_TOOLCHAIN"@ by {}
        last_assignment_counts(env, "RUSTUP_TOOLCHAIN"@, v@, t);
    }
}

/// A variable other than the router's address that the configuration does not set has
/// the value that the runner gives it.
proof fn unconfigured_values_stay(
    invocation: AgentInvocation,
    log_path: Seq<char>,
    openssl_dir: Option<Seq<char>>,
    output_limit: Option<u64>,
    key: Seq<char>,
)
    requires
        key != "ANTHROPIC_BASE_URL"@,
        !sets(text_map::pair_views(invocation.extra_env@), key),
    ensures
        invoke::value_after(
            invoke::assignments_of(invocation, log_path, openssl_dir, output_limit),
            key,
        ) == invoke::value_after(
            invoke::own_assignments(invocation, log_path, openssl_dir, output_limit),
            key,
        ),
{
    let own = invoke::own_assignments(invocation, log_path, openssl_dir, output_limit);
    let extra = text_map::pair_views(invocation.extra_env@);
    let last = invoke::when(
        invocation.agent == AgentKind::Claude && invoke::uses_router(
            text::opt_text(invocation.model),
        ),
        "ANTHROPIC_BASE_URL"@,
        "http://127.0.0.1:3456"@,
    );
    invoke::value_after_concat(own + extra, last, key);
    invoke::value_after_concat(own, extra, key);
    unset_has_no_value(extra, key);
    unset_has_no_value(last, key);
}

/// Where the run's configuration does not set them itself, the variables that the
/// scripts name hold what the invocation says: the prompt, the text that resumes a
/// session, the log, the model, and the toolchain. The last two are set only if the
/// invocation has them.
pub proof fn variables_hold_the_invocation(
    invocation: &AgentInvocation,
    log_path: &str,
    openssl_dir: Option<&str>,
    output_limit: Option<u64>,
    r: Vec<(String, String)>,
)
    requires
        call_ensures(agent_environment, (invocation, log_path, openssl_dir, output_limit), r),
    ensures
        ({
            let env = text_map::pair_views(r@);
            let extra = text_map::pair_views(invocation.extra_env@);
            &&& !sets(extra, "PROMPT"@) ==> invoke::value_after(env, "PROMPT"@) == Some(
                invocation.prompt@,
            )
            &&& !sets(extra, "RESUME_PROMPT"@) ==> invoke::value_after(env, "RESUME_PROMPT"@)
                == Some(invoke::OPENCODE_RESUME_PROMPT@)
            &&& !sets(extra, "LOG"@) ==> invoke::value_after(env, "LOG"@) == Some(log_path@)
            &&& !sets(extra, "MODEL"@) ==> invoke::value_after(env, "MODEL"@) == text::opt_text(
                invocation.model,
            )
            &&& !sets(extra, "RUSTUP_TOOLCHAIN"@) ==> invoke::value_after(env, "RUSTUP_TOOLCHAIN"@)
                == text::opt_text(invocation.rust_toolchain)
            &&& !sets(extra, "OPENSSL_DIR"@) ==> invoke::value_after(env, "OPENSSL_DIR"@) == Some(
                match openssl_dir {
                    Some(d) => d@,
                    None => "/usr"@,
                },
            )
        }),
{
    let extra = text_map::pair_views(invocation.extra_env@);
    let dir = text::opt_str(openssl_dir);
    variable_names_differ();
    own_variables(*invocation, log_path@, dir, output_limit);
    let keys = seq![
        "PROMPT"@,
        "RESUME_PROMPT"@,
        "LOG"@,
        "MODEL"@,
        "RUSTUP_TOOLCHAIN"@,
        "OPENSSL_DIR"@,
    ];
    assert forall|key: Seq<char>|
        key != "ANTHROPIC_BASE_URL"@ && !sets(extra, key) implies #[trigger] invoke::value_after(
        invoke::assignments_of(*invocation, log_path@, dir, output_limit),
        key,
    ) == invoke::value_after(
        invoke::own_assignments(*invocation, log_path@, dir, output_limit),
        key,
    ) by {
        unconfigured_values_stay(*invocation, log_path@, dir, output_limit, key);
    }
    assert(forall|k: int| 0 <= k < keys.len() ==> #[trigger] keys[k] != "ANTHROPIC_BASE_URL"@);
    assert(keys[0] == "PROMPT"@ && keys[1] == "RESUME_PROMPT"@ && keys[2] == "LOG"@);
    assert(keys[3] == "MODEL"@ && keys[4] == "RUSTUP_TOOLCHAIN"@ && keys[5] == "OPENSSL_DIR"@);
}

/// A variable for one kind of agent is set for that kind only, unless the run's
/// configuration sets it: the appended system prompt with plan files on, the run's own
/// configuration directory and the raised limit for OpenCode, and the router's address
/// for a model that the router takes.
#[verifier::spinoff_prover]
pub proof fn variables_fit_the_agent(
    invocation: &AgentInvocation,
    log_path: &str,
    openssl_dir: Option<&str>,
    output_limit: Option<u64>,
    r: Vec<(String, String)>,
)
    requires
        call_ensures(agent_environment, (invocation, log_path, openssl_dir, output_limit), r),
    ensures
        ({
            let env = text_map::pair_views(r@);
            let extra = text_map::pair_views(invocation.extra_env@);
            &&& sets(env, "APPEND_SYS"@) <==> sets(extra, "APPEND_SYS"@) || invocation.agent
                == AgentKind::Claude && !invocation.no_plan && !invocation.no_plan_file
            &&& sets(env, "XDG_CONFIG_HOME"@) <==> sets(extra, "XDG_CONFIG_HOME"@)
                || invocation.agent == AgentKind::OpenCode
            &&& sets(env, "OPENCODE_EXPERIMENTAL_OUTPUT_TOKEN_MAX"@) <==> sets(
                extra,
                "OPENCODE_EXPERIMENTAL_OUTPUT_TOKEN_MAX"@,
            ) || invocation.agent == AgentKind::OpenCode && invocation.model is Some
                && output_limit is Some
            &&& sets(env, "ANTHROPIC_BASE_URL"@) <==> sets(extra, "ANTHROPIC_BASE_URL"@)
                || invocation.agent == AgentKind::Claude && invocation.model is Some
                && invocation.model->0@.contains(',')
        }),
{
    let dir = text::opt_str(openssl_dir);
    let own = invoke::own_assignments(*invocation, log_path@, dir, output_limit);
    let extra = text_map::pair_views(invocation.extra_env@);
    let last = invoke::when(
        invocation.agent == AgentKind::Claude && invoke::uses_router(
            text::opt_text(invocation.model),
        ),
        "ANTHROPIC_BASE_URL"@,
        "http://127.0.0.1:3456"@,
    );
    own_variables_fit(*invocation, log_path@, dir, output_limit);
    assert forall|key: Seq<char>| #[trigger] sets(own + extra + last, key) <==> sets(own, key)
        || sets(extra, key) || sets(last, key) by {
        sets_concat(own + extra, last, key);
        sets_concat(own, extra, key);
    }
    variable_names_differ();
    if last.len() > 0 {
        assert(last[0].0 == "ANTHROPIC_BASE_URL"@);
    }
}

proof fn sets_concat(a: Assignments, b: Assignments, key: Seq<char>)
    ensures
        sets(a + b, key) <==> sets(a, key) || sets(b, key),
{
    if sets(a, key) {
        let i = choose|i: int| 0 <= i < a.len() && (#[trigger] a[i]).0 == key;
        assert((a + b)[i].0 == key);
    }
    if sets(b, key) {
        let i = choose|i: int| 0 <= i < b.len() && (#[trigger] b[i]).0 == key;
        assert((a + b)[a.len() + i].0 == key);
    }
    if sets(a + b, key) {
        let i = choose|i: int| 0 <= i < (a + b).len() && (#[trigger] (a + b)[i]).0 == key;
        if i < a.len() {
            assert(a[i].0 == key);
        } else {
            assert(b[i - a.len()].0 == key);
        }
    }
}

#[verifier::spinoff_prover]
proof fn own_variables_fit(
    invocation: AgentInvocation,
    log_path: Seq<char>,
    openssl_dir: Option<Seq<char>>,
    output_limit: Option<u64>,
)
    ensures
        ({
            let env = invoke::own_assignments(invocation, log_path, openssl_dir, output_limit);
            &&& sets(env, "APPEND_SYS"@) <==> invocation.agent == AgentKind::Claude
                && !invocation.no_plan && !invocation.no_plan_file
            &&& sets(env, "XDG_CONFIG_HOME"@) <==> invocation.agent == AgentKind::OpenCode
            &&& sets(env, "OPENCODE_EXPERIMENTAL_OUTPUT_TOKEN_MAX"@) <==> invocation.agent
                == AgentKind::OpenCode && invocation.model is Some && output_limit is Some
            &&& !sets(env, "ANTHROPIC_BASE_URL"@)
        }),
{
    let env = invoke::own_assignments(invocation, log_path, openssl_dir, output_limit);
    variable_names_differ();
    let told = invocation.agent == AgentKind::Claude && invocation.has_plan_files();
    let m: int = if told {
        5
    } else {
        4
    };
    let t: int = if invocation.model is Some {
        m + 1
    } else {
        m
    };
    let x: int = if invocation.rust_toolchain is Some {
        t + 1
    } else {
        t
    };
    if told {
        assert(env[4].0 == "APPEND_SYS"@);
    }
    if invocation.agent == AgentKind::OpenCode {
        assert(env[x].0 == "XDG_CONFIG_HOME"@);
        if invocation.model is Some && output_limit is Some {
            assert(env[x + 1].0 == "OPENCODE_EXPERIMENTAL_OUTPUT_TOKEN_MAX"@);
        }
    }
}

// ── Outcomes ─────────────────────────────────────────────────────────────

/// The event on a line of a log, if there is one.
pub open spec fn event_on(line: Seq<char>) -> Option<JsonView> {
    let t = text::trim_of(line);
    if t.len() > 0 && t[0] == '{' && t.last() == '}' {
        json::document_in(t)
    } else {
        None
    }
}

pub open spec fn is_event_of(line: Seq<char>, kind: Seq<char>) -> bool {
    event_on(line) matches Some(e) && json::get_str_of(e, "type"@) == Some(kind)
}

/// Whether a line tells of an error that no retry fixes.
pub open spec fn is_fatal_line(line: Seq<char>) -> bool {
    is_event_of(line, "error"@) && outcome::is_fatal_error(
        text::lowercase_of(outcome::error_text(event_on(line)->0)),
    )
}

proof fn event_lines_are_braced(line: Seq<char>)
    ensures
        outcome::is_event_line(line) <==> line.len() > 0 && line[0] == '{' && line.last() == '}',
{
    reveal_strlit("{");
    reveal_strlit("}");
    if line.len() > 0 {
        assert(line.subrange(0, 1) =~= seq![line[0]]);
        assert(line.subrange(line.len() - 1, line.len() as int) =~= seq![line.last()]);
        assert("{"@ =~= seq!['{']);
        assert("}"@ =~= seq!['}']);
        if line[0] == '{' {
            assert(line.subrange(0, 1) =~= "{"@);
        }
        if line.last() == '}' {
            assert(line.subrange(line.len() - 1, line.len() as int) =~= "}"@);
        }
        if outcome::is_event_line(line) {
            assert(line.subrange(0, 1)[0] == line[0]);
            assert(line.subrange(line.len() - 1, line.len() as int)[0] == line.last());
        }
    }
}

proof fn kinds_differ()
    ensures
        "error"@ != "step_finish"@,
{
    reveal_strlit("error");
    reveal_strlit("step_finish");
    assert("error"@.len() != "step_finish"@.len());
}

/// A fatal error anywhere in a log is found, and only such an error is.
proof fn fatal_lines_are_found(lines: Seq<Seq<char>>)
    ensures
        outcome::after_lines(lines).fatal is Some <==> exists|i: int|
            0 <= i < lines.len() && is_fatal_line(#[trigger] lines[i]),
    decreases lines.len(),
{
    if lines.len() > 0 {
        let front = lines.drop_last();
        fatal_lines_are_found(front);
        event_lines_are_braced(text::trim_of(lines.last()));
        kinds_differ();
        if exists|i: int| 0 <= i < lines.len() && is_fatal_line(#[trigger] lines[i]) {
            let i = choose|i: int| 0 <= i < lines.len() && is_fatal_line(#[trigger] lines[i]);
            if i < front.len() {
                assert(is_fatal_line(front[i]));
            }
        }
        if exists|i: int| 0 <= i < front.len() && is_fatal_line(#[trigger] front[i]) {
            let i = choose|i: int| 0 <= i < front.len() && is_fatal_line(#[trigger] front[i]);
            assert(is_fatal_line(lines[i]));
        }
        if is_fatal_line(lines.last()) {
            assert(is_fatal_line(lines[lines.len() - 1]));
        }
    }
}

/// A run fails for good exactly if its log tells of an error that no retry fixes,
/// whatever else it tells.
pub proof fn fatal_errors_decide(log: &str, r: OpenCodeOutcome)
    requires
        call_ensures(assess_opencode_run, (Some(log),), r),
    ensures
        r is Fatal <==> exists|i: int|
            0 <= i < text::lines_of(log@).len() && is_fatal_line(#[trigger] text::lines_of(log@)[i]),
{
    fatal_lines_are_found(text::lines_of(log@));
}

/// Why a finished step says it ended.
pub open spec fn stop_reason(line: Seq<char>) -> Option<Seq<char>> {
    match json::get_of(event_on(line)->0, "part"@) {
        Some(part) => json::get_str_of(part, "reason"@),
        None => None,
    }
}

proof fn last_finish_decides(lines: Seq<Seq<char>>, i: int)
    requires
        -1 <= i < lines.len(),
        i >= 0 ==> is_event_of(lines[i], "step_finish"@),
        forall|j: int| i < j < lines.len() ==> !is_event_of(#[trigger] lines[j], "step_finish"@),
    ensures
        i >= 0 ==> outcome::after_lines(lines).reason == stop_reason(lines[i]),
        i < 0 ==> outcome::after_lines(lines).reason is None,
    decreases lines.len(),
{
    if lines.len() > 0 {
        let front = lines.drop_last();
        event_lines_are_braced(text::trim_of(lines.last()));
        assert(lines[lines.len() - 1] == lines.last());
        if i < lines.len() - 1 {
            assert(!is_event_of(lines[lines.len() - 1], "step_finish"@));
            assert forall|j: int| i < j < front.len() implies !is_event_of(
                #[trigger] front[j],
                "step_finish"@,
            ) by {
                assert(!is_event_of(lines[j], "step_finish"@));
            }
            last_finish_decides(front, i);
        }
    }
}

/// A run whose last finished step says that it stopped of its own is healthy or failed
/// for good; it is never resumed. A run that is resumed is one whose last finished step
/// says something else, or nothing.
pub proof fn stopped_runs_are_not_resumed(log: &str, r: OpenCodeOutcome, i: int)
    requires
        call_ensures(assess_opencode_run, (Some(log),), r),
        -1 <= i < text::lines_of(log@).len(),
        i >= 0 ==> is_event_of(text::lines_of(log@)[i], "step_finish"@),
        forall|j: int|
            i < j < text::lines_of(log@).len() ==> !is_event_of(
                #[trigger] text::lines_of(log@)[j],
                "step_finish"@,
            ),
    ensures
        i >= 0 && stop_reason(text::lines_of(log@)[i]) == Some("stop"@) ==> !(r is Resumable),
        r matches OpenCodeOutcome::Resumable { reason, .. } ==> reason@ == (if i >= 0
            && stop_reason(text::lines_of(log@)[i]) is Some {
            stop_reason(text::lines_of(log@)[i])->0
        } else {
            "missing"@
        }),
{
    last_finish_decides(text::lines_of(log@), i);
}

pub open spec fn session_on(line: Seq<char>) -> Option<Seq<char>> {
    match event_on(line) {
        Some(e) => if json::get_str_of(e, "type"@) is Some {
            json::get_str_of(e, "sessionID"@)
        } else {
            None
        },
        None => None,
    }
}

proof fn last_session_counts(lines: Seq<Seq<char>>, i: int)
    requires
        -1 <= i < lines.len(),
        i >= 0 ==> session_on(lines[i]) is Some,
        forall|j: int| i < j < lines.len() ==> session_on(#[trigger] lines[j]) is None,
    ensures
        i >= 0 ==> outcome::after_lines(lines).session == session_on(lines[i]),
        i < 0 ==> outcome::after_lines(lines).session is None,
    decreases lines.len(),
{
    if lines.len() > 0 {
        let front = lines.drop_last();
        event_lines_are_braced(text::trim_of(lines.last()));
        assert(lines[lines.len() - 1] == lines.last());
        if i < lines.len() - 1 {
            assert(session_on(lines[lines.len() - 1]) is None);
            assert forall|j: int| i < j < front.len() implies session_on(
                #[trigger] front[j],
            ) is None by {
                assert(session_on(lines[j]) is None);
            }
            last_session_counts(front, i);
        }
    }
}

/// A run that broke off is resumed: if its log tells of no fatal error, its last
/// finished step does not say that it stopped, and its last session has an id that may
/// stand in a command, that session is resumed.
pub proof fn broken_runs_are_resumed(log: &str, r: OpenCodeOutcome, i: int, k: int)
    requires
        call_ensures(assess_opencode_run, (Some(log),), r),
        forall|j: int|
            0 <= j < text::lines_of(log@).len() ==> !is_fatal_line(
                #[trigger] text::lines_of(log@)[j],
            ),
        -1 <= i < text::lines_of(log@).len(),
        i >= 0 ==> is_event_of(text::lines_of(log@)[i], "step_finish"@) && stop_reason(
            text::lines_of(log@)[i],
        ) != Some("stop"@),
        forall|j: int|
            i < j < text::lines_of(log@).len() ==> !is_event_of(
                #[trigger] text::lines_of(log@)[j],
                "step_finish"@,
            ),
        0 <= k < text::lines_of(log@).len(),
        session_on(text::lines_of(log@)[k]) is Some,
        outcome::is_plain_id(session_on(text::lines_of(log@)[k])->0),
        forall|j: int|
            k < j < text::lines_of(log@).len() ==> session_on(
                #[trigger] text::lines_of(log@)[j],
            ) is None,
    ensures
        r matches OpenCodeOutcome::Resumable { session_id, .. } && session_id@ == session_on(
            text::lines_of(log@)[k],
        )->0,
{
    let lines = text::lines_of(log@);
    fatal_lines_are_found(lines);
    last_finish_decides(lines, i);
    last_session_counts(lines, k);
}

/// Whether these words stand in `s`.
proof fn words_are_found(a: Seq<char>, p: Seq<char>, b: Seq<char>)
    ensures
        text::contains_text(a + p + b, p),
{
    text::part_is_held(a, p, b);
}

/// An error that tells of the account's balance, quota, key, authorization or billing
/// is one that no retry fixes, whatever else it tells.
pub proof fn account_errors_are_fatal(a: Seq<char>, b: Seq<char>)
    ensures
        outcome::is_fatal_error(a + "insufficient balance"@ + b),
        outcome::is_fatal_error(a + "insufficient_quota"@ + b),
        outcome::is_fatal_error(a + "exceeded your current quota"@ + b),
        outcome::is_fatal_error(a + "invalid api key"@ + b),
        outcome::is_fatal_error(a + "invalid_api_key"@ + b),
        outcome::is_fatal_error(a + "authentication"@ + b),
        outcome::is_fatal_error(a + "unauthorized"@ + b),
        outcome::is_fatal_error(a + "payment required"@ + b),
        outcome::is_fatal_error(a + "billing"@ + b),
{
    words_are_found(a, "insufficient balance"@, b);
    words_are_found(a, "insufficient_quota"@, b);
    words_are_found(a, "exceeded your current quota"@, b);
    words_are_found(a, "invalid api key"@, b);
    words_are_found(a, "invalid_api_key"@, b);
    words_are_found(a, "authentication"@, b);
    words_are_found(a, "unauthorized"@, b);
    words_are_found(a, "payment required"@, b);
    words_are_found(a, "billing"@, b);
}

/// After a run: a healthy one is finished; one that failed for good fails, with what it
/// told; any other is resumed in its own session, three times at the most, and then
/// given up.
pub proof fn runs_are_resumed_three_times(
    outcome: &OpenCodeOutcome,
    resumes: u32,
    label: &str,
    r: ResumeStep,
)
    requires
        call_ensures(resume_step, (outcome, resumes, label), r),
    ensures
        *outcome is Healthy <==> r is Finish,
        *outcome is Fatal <==> r is Fail,
        *outcome matches OpenCodeOutcome::Fatal(e) ==> text::has_suffix(r->error@, e@),
        *outcome is Resumable && resumes < 3 <==> r is Resume,
        *outcome is Resumable && resumes >= 3 <==> r is GiveUp,
        r is Resume ==> r->session_id@ == outcome->session_id@,
{
    if let OpenCodeOutcome::Fatal(e) = *outcome {
        let a = "OpenCode "@ + label@ + " agent hit an unrecoverable provider error: "@;
        let s = a + e@;
        assert(r->error@ == s);
        assert(s.subrange(s.len() - e@.len(), s.len() as int) =~= e@);
    }
}

/// The note on a session that is resumed names it, tells why it ended and which attempt
/// follows; the note on one that is given up names it and tells why too.
pub proof fn resumes_are_numbered(
    outcome: &OpenCodeOutcome,
    resumes: u32,
    label: &str,
    r: ResumeStep,
    id: String,
    reason: String,
)
    requires
        call_ensures(resume_step, (outcome, resumes, label), r),
        outcome.view() == (OutcomeView::Resumable { session_id: id@, reason: reason@ }),
    ensures
        resumes < 3 ==> {
            r matches ResumeStep::Resume { session_id, note } && session_id@ == id@ && note@
                == "WARNING: "@ + label@ + " session "@ + id@ + " ended abnormally (reason: "@
                + reason@ + "); resuming (attempt "@ + text::decimal_of((resumes + 1) as nat) + "/"@
                + text::decimal_of(3) + ")"@
        },
        resumes >= 3 ==> {
            r matches ResumeStep::GiveUp { note } && note@ == "WARNING: "@ + label@
                + " session "@ + id@ + " still abnormal (reason: "@ + reason@ + ") after "@
                + text::decimal_of(3) + " resumes; output is incomplete"@
        },
{
}

} // verus!
