//! How an agent is started, and what the runner records of it.

use crate::agent::models;
use crate::agent::phase::AgentInvocation;
use crate::config::{AgentKind, AgentLabel};
use crate::path;
use crate::text;
use crate::text_map;
use vstd::prelude::*;
use vstd::string::*;

verus! {

/// Sent when resuming a session whose stream died. It names the failure so the
/// model does not mistake the gap for a compaction, and points it at the plan
/// file, which is the only state that survived intact.
pub const OPENCODE_RESUME_PROMPT: &'static str = "\
Your previous response was cut off by a provider failure, not by you finishing. \
Nothing after that point ran. \
Re-read your plan file to see where you were. \
Check the filesystem to see which files actually exist before you trust any \
earlier claim that one was written. \
Then continue the work from the first unfinished step.";

// ── Scripts ──────────────────────────────────────────────────────────────

pub open spec fn model_flag_of(invocation: AgentInvocation) -> Seq<char> {
    if invocation.model is Some {
        "--model \"$MODEL\" "@
    } else {
        ""@
    }
}

pub open spec fn append_flag_of(invocation: AgentInvocation) -> Seq<char> {
    if invocation.has_plan_files() {
        "--append-system-prompt \"$APPEND_SYS\" "@
    } else {
        ""@
    }
}

/// The script that runs the agent. Texts that could hold anything reach it
/// through the environment.
pub open spec fn script_of(invocation: AgentInvocation) -> Seq<char> {
    let start = "set -o pipefail; timeout "@ + text::decimal_of(invocation.timeout_secs as nat);
    match invocation.agent {
        AgentKind::Kiro => start
            + " kiro-cli chat --no-interactive --trust-all-tools \"$PROMPT\" < /dev/null 2>&1 | tee \"$LOG\""@,
        AgentKind::Claude => start + " "@ + invocation.claude.name@ + " -p \"$PROMPT\" "@
            + model_flag_of(invocation)
            + "--allowed-tools 'Bash(*)' 'Write' 'Edit' --dangerously-skip-permissions "@
            + append_flag_of(invocation)
            + "--max-turns 1000 --output-format stream-json --verbose < /dev/null 2>&1 | tee \"$LOG\""@,
        AgentKind::OpenCode => start
            + " opencode run --format json --thinking --dangerously-skip-permissions --agent "@
            + invocation.phase.opencode_name() + " "@ + model_flag_of(invocation)
            + "\"$PROMPT\" < /dev/null 2>&1 | tee \"$LOG\""@,
    }
}

/// The script that resumes a session. It extends the log, whose first part holds
/// everything the agent did before.
pub open spec fn resume_script_of(invocation: AgentInvocation, session_id: Seq<char>) -> Seq<char> {
    "set -o pipefail; timeout "@ + text::decimal_of(invocation.timeout_secs as nat)
        + " opencode run --format json --thinking --dangerously-skip-permissions --agent "@
        + invocation.phase.opencode_name() + " --session "@ + session_id + " "@ + model_flag_of(
        invocation,
    ) + "\"$RESUME_PROMPT\" < /dev/null 2>&1 | tee -a \"$LOG\""@
}

fn model_flag(invocation: &AgentInvocation) -> (r: &'static str)
    ensures
        r@ == model_flag_of(*invocation),
{
    if invocation.model.is_some() {
        "--model \"$MODEL\" "
    } else {
        ""
    }
}

/// The script that runs the agent.
pub fn agent_script(invocation: &AgentInvocation) -> (r: String)
    ensures
        r@ == script_of(*invocation),
{
    let mut s = "set -o pipefail; timeout ".to_owned();
    s.append(text::decimal(invocation.timeout_secs).as_str());
    match invocation.agent {
        AgentKind::Kiro => {
            s.append(
                " kiro-cli chat --no-interactive --trust-all-tools \"$PROMPT\" < /dev/null 2>&1 | tee \"$LOG\"",
            );
        },
        AgentKind::Claude => {
            s.append(" ");
            s.append(invocation.claude.name.as_str());
            s.append(" -p \"$PROMPT\" ");
            s.append(model_flag(invocation));
            s.append("--allowed-tools 'Bash(*)' 'Write' 'Edit' --dangerously-skip-permissions ");
            s.append(
                if invocation.plan_files_enabled() {
                    "--append-system-prompt \"$APPEND_SYS\" "
                } else {
                    ""
                },
            );
            s.append(
                "--max-turns 1000 --output-format stream-json --verbose < /dev/null 2>&1 | tee \"$LOG\"",
            );
        },
        AgentKind::OpenCode => {
            s.append(
                " opencode run --format json --thinking --dangerously-skip-permissions --agent ",
            );
            s.append(invocation.phase.opencode_agent_name());
            s.append(" ");
            s.append(model_flag(invocation));
            s.append("\"$PROMPT\" < /dev/null 2>&1 | tee \"$LOG\"");
        },
    }
    s
}

/// The script that resumes an OpenCode session.
pub fn resume_script(invocation: &AgentInvocation, session_id: &str) -> (r: String)
    ensures
        r@ == resume_script_of(*invocation, session_id@),
{
    let mut s = "set -o pipefail; timeout ".to_owned();
    s.append(text::decimal(invocation.timeout_secs).as_str());
    s.append(" opencode run --format json --thinking --dangerously-skip-permissions --agent ");
    s.append(invocation.phase.opencode_agent_name());
    s.append(" --session ");
    s.append(session_id);
    s.append(" ");
    s.append(model_flag(invocation));
    s.append("\"$RESUME_PROMPT\" < /dev/null 2>&1 | tee -a \"$LOG\"");
    s
}

// ── Environment ──────────────────────────────────────────────────────────

/// Environment assignments, in the order in which they are made.
pub type Assignments = Seq<(Seq<char>, Seq<char>)>;

pub open spec fn when(cond: bool, key: Seq<char>, value: Seq<char>) -> Assignments {
    if cond {
        seq![(key, value)]
    } else {
        seq![]
    }
}

pub open spec fn when_some(key: Seq<char>, value: Option<Seq<char>>) -> Assignments {
    match value {
        Some(v) => seq![(key, v)],
        None => seq![],
    }
}

/// Whether the model is reached through the router that takes models named with a
/// comma.
pub open spec fn uses_router(model: Option<Seq<char>>) -> bool {
    match model {
        Some(m) => m.contains(','),
        None => false,
    }
}

/// What is set before the variables of the run's configuration.
pub open spec fn own_assignments(
    invocation: AgentInvocation,
    log_path: Seq<char>,
    openssl_dir: Option<Seq<char>>,
    output_limit: Option<u64>,
) -> Assignments {
    seq![
        ("PROMPT"@, invocation.prompt@),
        ("RESUME_PROMPT"@, OPENCODE_RESUME_PROMPT@),
        ("LOG"@, log_path),
        (
            "OPENSSL_DIR"@,
            match openssl_dir {
                Some(d) => d,
                None => "/usr"@,
            },
        ),
    ] + when(
        invocation.agent == AgentKind::Claude && invocation.has_plan_files(),
        "APPEND_SYS"@,
        invocation.phase.append_text(),
    ) + when_some("MODEL"@, text::opt_text(invocation.model)) + when_some(
        "RUSTUP_TOOLCHAIN"@,
        text::opt_text(invocation.rust_toolchain),
    ) + when(
        invocation.agent == AgentKind::OpenCode,
        "XDG_CONFIG_HOME"@,
        path::joined(path::parent_or_self(invocation.work_dir@), "xdg-config"@),
    ) + if invocation.agent == AgentKind::OpenCode && invocation.model is Some {
        when_some(
            "OPENCODE_EXPERIMENTAL_OUTPUT_TOKEN_MAX"@,
            match output_limit {
                Some(n) => Some(text::decimal_of(n as nat)),
                None => None,
            },
        )
    } else {
        seq![]
    }
}

/// The whole environment of the agent.
pub open spec fn assignments_of(
    invocation: AgentInvocation,
    log_path: Seq<char>,
    openssl_dir: Option<Seq<char>>,
    output_limit: Option<u64>,
) -> Assignments {
    own_assignments(invocation, log_path, openssl_dir, output_limit) + text_map::pair_views(
        invocation.extra_env@,
    ) + when(
        invocation.agent == AgentKind::Claude && uses_router(text::opt_text(invocation.model)),
        "ANTHROPIC_BASE_URL"@,
        "http://127.0.0.1:3456"@,
    )
}

fn assign(env: &mut Vec<(String, String)>, key: &str, value: &str)
    ensures
        text_map::pair_views(final(env)@) == text_map::pair_views(old(env)@).push((key@, value@)),
{
    let ghost before = text_map::pair_views(env@);
    env.push((key.to_owned(), value.to_owned()));
    assert(text_map::pair_views(env@) =~= before.push((key@, value@)));
}

fn push_pairs(env: &mut Vec<(String, String)>, extra: &Vec<(String, String)>)
    ensures
        text_map::pair_views(final(env)@) == text_map::pair_views(old(env)@)
            + text_map::pair_views(extra@),
{
    let ghost before = text_map::pair_views(env@);
    let ghost all = text_map::pair_views(extra@);
    let mut i: usize = 0;
    assert(before + all.take(0) =~= before);
    while i < extra.len()
        invariant
            i <= extra@.len(),
            all == text_map::pair_views(extra@),
            text_map::pair_views(env@) == before + all.take(i as int),
        decreases extra@.len() - i,
    {
        assert(all[i as int] == (extra@[i as int].0@, extra@[i as int].1@));
        assign(env, extra[i].0.as_str(), extra[i].1.as_str());
        assert(before + all.take(i + 1) =~= (before + all.take(i as int)).push(all[i as int]));
        i = i + 1;
    }
    assert(all.take(i as int) =~= all);
}

fn own_environment(
    invocation: &AgentInvocation,
    log_path: &str,
    openssl_dir: Option<&str>,
    output_limit: Option<u64>,
) -> (r: Vec<(String, String)>)
    ensures
        text_map::pair_views(r@) == own_assignments(
            *invocation,
            log_path@,
            text::opt_str(openssl_dir),
            output_limit,
        ),
{
    let ghost want = own_assignments(
        *invocation,
        log_path@,
        text::opt_str(openssl_dir),
        output_limit,
    );
    let mut env: Vec<(String, String)> = Vec::new();
    assert(text_map::pair_views(env@) =~= seq![]);
    assign(&mut env, "PROMPT", invocation.prompt.as_str());
    assign(&mut env, "RESUME_PROMPT", OPENCODE_RESUME_PROMPT);
    assign(&mut env, "LOG", log_path);
    let openssl = match openssl_dir {
        Some(d) => d,
        None => "/usr",
    };
    assign(&mut env, "OPENSSL_DIR", openssl);
    if invocation.agent == AgentKind::Claude && invocation.plan_files_enabled() {
        assign(&mut env, "APPEND_SYS", invocation.phase.append_system_prompt());
    }
    if let Some(m) = &invocation.model {
        assign(&mut env, "MODEL", m.as_str());
    }
    if let Some(t) = &invocation.rust_toolchain {
        assign(&mut env, "RUSTUP_TOOLCHAIN", t.as_str());
    }
    if invocation.agent == AgentKind::OpenCode {
        let dir = path::parent_or(invocation.work_dir.as_str());
        let xdg = path::join(dir.as_str(), "xdg-config");
        assign(&mut env, "XDG_CONFIG_HOME", xdg.as_str());
        if invocation.model.is_some() {
            if let Some(n) = output_limit {
                let shown = text::decimal(n);
                assign(&mut env, "OPENCODE_EXPERIMENTAL_OUTPUT_TOKEN_MAX", shown.as_str());
            }
        }
    }
    assert(text_map::pair_views(env@) =~= want);
    env
}

/// The environment of the agent, in the order in which the variables are set. A
/// later assignment replaces an earlier one. A run-private configuration
/// directory hides the user-global OpenCode configuration; `output_limit` is the
/// model's registry output limit, with which the cap on each response is raised.
pub fn agent_environment(
    invocation: &AgentInvocation,
    log_path: &str,
    openssl_dir: Option<&str>,
    output_limit: Option<u64>,
) -> (r: Vec<(String, String)>)
    ensures
        text_map::pair_views(r@) == assignments_of(
            *invocation,
            log_path@,
            text::opt_str(openssl_dir),
            output_limit,
        ),
{
    let mut env = own_environment(invocation, log_path, openssl_dir, output_limit);
    push_pairs(&mut env, &invocation.extra_env);
    let model = match &invocation.model {
        Some(m) => Some(m.as_str()),
        None => None,
    };
    if invocation.agent == AgentKind::Claude && models::claude_uses_ccr(model) {
        assign(&mut env, "ANTHROPIC_BASE_URL", "http://127.0.0.1:3456");
    }
    assert(text_map::pair_views(env@) =~= assignments_of(
        *invocation,
        log_path@,
        text::opt_str(openssl_dir),
        output_limit,
    ));
    env
}

/// The value a variable has after some assignments.
pub open spec fn value_after(env: Assignments, key: Seq<char>) -> Option<Seq<char>>
    decreases env.len(),
{
    if env.len() == 0 {
        None
    } else if env.last().0 == key {
        Some(env.last().1)
    } else {
        value_after(env.drop_last(), key)
    }
}

/// What two lists of assignments come to: the second one counts where it sets a
/// variable.
pub proof fn value_after_concat(a: Assignments, b: Assignments, key: Seq<char>)
    ensures
        value_after(a + b, key) == match value_after(b, key) {
            Some(v) => Some(v),
            None => value_after(a, key),
        },
    decreases b.len(),
{
    if b.len() == 0 {
        assert(a + b =~= a);
    } else {
        assert((a + b).drop_last() =~= a + b.drop_last());
        value_after_concat(a, b.drop_last(), key);
    }
}

/// A variable of the run's configuration has the value it was given there,
/// whatever the runner itself sets, except for the router's address.
pub proof fn configured_values_win(
    invocation: AgentInvocation,
    log_path: Seq<char>,
    openssl_dir: Option<Seq<char>>,
    output_limit: Option<u64>,
    key: Seq<char>,
)
    requires
        value_after(text_map::pair_views(invocation.extra_env@), key) is Some,
        key != "ANTHROPIC_BASE_URL"@,
    ensures
        value_after(assignments_of(invocation, log_path, openssl_dir, output_limit), key)
            == value_after(text_map::pair_views(invocation.extra_env@), key),
{
    let own = own_assignments(invocation, log_path, openssl_dir, output_limit);
    let extra = text_map::pair_views(invocation.extra_env@);
    let last = when(
        invocation.agent == AgentKind::Claude && uses_router(text::opt_text(invocation.model)),
        "ANTHROPIC_BASE_URL"@,
        "http://127.0.0.1:3456"@,
    );
    value_after_concat(own + extra, last, key);
    value_after_concat(own, extra, key);
    assert(value_after(last, key) is None) by {
        if last.len() > 0 {
            assert(last.drop_last() =~= seq![]);
            assert(value_after(last.drop_last(), key) is None);
        }
    }
}

// ── Records ──────────────────────────────────────────────────────────────

/// The directory of the logs of a run.
pub fn logs_dir(work_dir: &str) -> (r: String)
    ensures
        r@ == path::joined(path::parent_or_self(work_dir@), "logs"@),
{
    let dir = path::parent_or(work_dir);
    path::join(dir.as_str(), "logs")
}

/// The log of an invocation.
pub fn log_path(invocation: &AgentInvocation) -> (r: String)
    ensures
        r@ == path::joined(
            path::joined(path::parent_or_self(invocation.work_dir@), "logs"@),
            invocation.phase.log_name(),
        ),
{
    let dir = logs_dir(invocation.work_dir.as_str());
    path::join(dir.as_str(), invocation.phase.log_file_name())
}

/// What is recorded of what an agent was told.
pub open spec fn prompt_records(invocation: AgentInvocation, dir: Seq<char>) -> Seq<
    (Seq<char>, Seq<char>),
> {
    seq![(path::joined(dir, invocation.phase.prompt_name()), invocation.prompt@)]
        + if invocation.agent == AgentKind::Claude && invocation.has_plan_files() {
        seq![(path::joined(dir, invocation.phase.append_name()), invocation.phase.append_text())]
    } else {
        seq![]
    }
}

/// The files that record what the agent was told: the prompt as it was sent, and
/// nothing else, so that it can be compared with a template or with another
/// run's. The appended system prompt is in effect for one agent only, and only with
/// plan files on; it stands in a file of its own.
pub fn record_prompt(invocation: &AgentInvocation, dir: &str) -> (r: Vec<(String, String)>)
    ensures
        text_map::pair_views(r@) == prompt_records(*invocation, dir@),
{
    let mut out: Vec<(String, String)> = vec![
        (path::join(dir, invocation.phase.prompt_file_name()), invocation.prompt.clone()),
    ];
    if invocation.agent == AgentKind::Claude && invocation.plan_files_enabled() {
        out.push(
            (
                path::join(dir, invocation.phase.append_system_prompt_file_name()),
                invocation.phase.append_system_prompt().to_owned(),
            ),
        );
    }
    assert(text_map::pair_views(out@) =~= prompt_records(*invocation, dir@));
    out
}

/// An appended system prompt is recorded exactly when the agent is told it: when
/// its script asks for it, the variable that holds it is set, and it is the agent
/// that takes one.
pub proof fn recorded_iff_told(
    invocation: AgentInvocation,
    dir: Seq<char>,
    log_path: Seq<char>,
    openssl_dir: Option<Seq<char>>,
    output_limit: Option<u64>,
)
    ensures
        prompt_records(invocation, dir).len() == 2 <==> own_assignments(
            invocation,
            log_path,
            openssl_dir,
            output_limit,
        ).contains(("APPEND_SYS"@, invocation.phase.append_text())),
{
    let own = own_assignments(invocation, log_path, openssl_dir, output_limit);
    if invocation.agent == AgentKind::Claude && invocation.has_plan_files() {
        assert(own[4] == ("APPEND_SYS"@, invocation.phase.append_text()));
    } else {
        reveal_strlit("APPEND_SYS");
        reveal_strlit("PROMPT");
        reveal_strlit("RESUME_PROMPT");
        reveal_strlit("LOG");
        reveal_strlit("OPENSSL_DIR");
        reveal_strlit("MODEL");
        reveal_strlit("RUSTUP_TOOLCHAIN");
        reveal_strlit("XDG_CONFIG_HOME");
        reveal_strlit("OPENCODE_EXPERIMENTAL_OUTPUT_TOKEN_MAX");
        assert("APPEND_SYS"@[0] == 'A');
        assert("PROMPT"@[0] == 'P');
        assert("RESUME_PROMPT"@[0] == 'R');
        assert("LOG"@[0] == 'L');
        assert("OPENSSL_DIR"@[0] == 'O');
        assert("MODEL"@[0] == 'M');
        assert("RUSTUP_TOOLCHAIN"@[0] == 'R');
        assert("XDG_CONFIG_HOME"@[0] == 'X');
        assert("OPENCODE_EXPERIMENTAL_OUTPUT_TOKEN_MAX"@[0] == 'O');
        assert forall|i: int| 0 <= i < own.len() implies (#[trigger] own[i]).0 != "APPEND_SYS"@ by {
            assert(own[i].0[0] != 'A');
        }
    }
}

// ── Marker lines ─────────────────────────────────────────────────────────

pub open spec fn display_name(agent: AgentKind, claude: AgentLabel) -> Seq<char> {
    match agent {
        AgentKind::Kiro => "Kiro"@,
        AgentKind::Claude => claude.title@,
        AgentKind::OpenCode => "OpenCode"@,
    }
}

/// The line that marks the start of an agent's process in the output log.
pub fn start_line(invocation: &AgentInvocation) -> (r: String)
    ensures
        r@ == "Invoking "@ + display_name(invocation.agent, invocation.claude) + " "@ + invocation.phase.label_of()
            + " agent (marker)"@,
{
    let mut s = "Invoking ".to_owned();
    s.append(
        match invocation.agent {
            AgentKind::Kiro => "Kiro",
            AgentKind::Claude => invocation.claude.title.as_str(),
            AgentKind::OpenCode => "OpenCode",
        },
    );
    s.append(" ");
    s.append(invocation.phase.label());
    s.append(" agent (marker)");
    s
}

pub open spec fn exit_lines_of(
    invocation: AgentInvocation,
    status: Seq<char>,
    success: bool,
) -> Seq<Seq<char>> {
    let label = invocation.phase.label_of();
    (if success {
        seq![]
    } else {
        seq!["WARNING: "@ + label + " agent exited with "@ + status]
    }) + (if invocation.agent == AgentKind::OpenCode {
        seq!["Exporting OpenCode sessions ("@ + label + " agent exited: "@ + status + ")"@]
    } else {
        seq![]
    })
}

/// The lines that mark the end of an agent's process: a warning if it failed,
/// and the start of the export if there are sessions to export.
pub fn exit_lines(invocation: &AgentInvocation, status: &str, success: bool) -> (r: Vec<String>)
    ensures
        text::texts(r@) == exit_lines_of(*invocation, status@, success),
{
    let mut out: Vec<String> = Vec::new();
    if !success {
        let mut s = "WARNING: ".to_owned();
        s.append(invocation.phase.label());
        s.append(" agent exited with ");
        s.append(status);
        out.push(s);
    }
    if invocation.agent == AgentKind::OpenCode {
        let mut s = "Exporting OpenCode sessions (".to_owned();
        s.append(invocation.phase.label());
        s.append(" agent exited: ");
        s.append(status);
        s.append(")");
        out.push(s);
    }
    assert(text::texts(out@) =~= exit_lines_of(*invocation, status@, success));
    out
}

/// The line that reports a failed export.
pub fn export_failure_line(error: &str) -> (r: String)
    ensures
        r@ == "WARNING: OpenCode session export failed (non-fatal): "@ + error@,
{
    let mut s = "WARNING: OpenCode session export failed (non-fatal): ".to_owned();
    s.append(error);
    s
}

/// The line that marks the end of a phase.
pub fn done_line(invocation: &AgentInvocation) -> (r: String)
    ensures
        r@ == "Appended agent trace ("@ + invocation.phase.label_of() + " phase done)"@,
{
    let mut s = "Appended agent trace (".to_owned();
    s.append(invocation.phase.label());
    s.append(" phase done)");
    s
}

} // verus!
