//! How an OpenCode run ended, judged from its own log, and what to do about it.

use crate::json;
use crate::json::{Json, JsonView};
use crate::text;
use vstd::prelude::*;
use vstd::string::*;

verus! {

/// How an OpenCode run ended.
#[derive(Debug, PartialEq, Eq)]
pub enum OpenCodeOutcome {
    /// The session reached a real end of turn.
    Healthy,
    /// The session stopped early in a way a `continue` can pick up.
    Resumable { session_id: String, reason: String },
    /// The provider refused in a way retrying cannot fix.
    Fatal(String),
}

pub enum OutcomeView {
    Healthy,
    Resumable { session_id: Seq<char>, reason: Seq<char> },
    Fatal(Seq<char>),
}

impl OpenCodeOutcome {
    pub open spec fn view(&self) -> OutcomeView {
        match *self {
            OpenCodeOutcome::Healthy => OutcomeView::Healthy,
            OpenCodeOutcome::Resumable { session_id, reason } => OutcomeView::Resumable {
                session_id: session_id@,
                reason: reason@,
            },
            OpenCodeOutcome::Fatal(e) => OutcomeView::Fatal(e@),
        }
    }
}

/// Maximum attempts to resume after one dead stream. A provider that keeps
/// dropping the stream must not spin.
pub const OPENCODE_MAX_RESUMES: u32 = 3;

/// Whether a lower-cased provider error is one that no amount of retrying fixes.
/// Anything else (dropped stream, timeout) is transient.
pub open spec fn is_fatal_error(lowered: Seq<char>) -> bool {
    ||| text::contains_text(lowered, "insufficient balance"@)
    ||| text::contains_text(lowered, "insufficient_quota"@)
    ||| text::contains_text(lowered, "exceeded your current quota"@)
    ||| text::contains_text(lowered, "invalid api key"@)
    ||| text::contains_text(lowered, "invalid_api_key"@)
    ||| text::contains_text(lowered, "authentication"@)
    ||| text::contains_text(lowered, "unauthorized"@)
    ||| text::contains_text(lowered, "payment required"@)
    ||| text::contains_text(lowered, "billing"@)
}

/// Whether a lower-cased provider error is fatal.
pub fn is_fatal(lowered: &str) -> (r: bool)
    ensures
        r == is_fatal_error(lowered@),
{
    text::contains(lowered, "insufficient balance") || text::contains(lowered, "insufficient_quota")
        || text::contains(lowered, "exceeded your current quota") || text::contains(
        lowered,
        "invalid api key",
    ) || text::contains(lowered, "invalid_api_key") || text::contains(lowered, "authentication")
        || text::contains(lowered, "unauthorized") || text::contains(lowered, "payment required")
        || text::contains(lowered, "billing")
}

/// What the events of a run so far have shown.
pub struct RunState {
    /// The reason of the last `step_finish`, if it had one.
    pub reason: Option<Seq<char>>,
    pub session: Option<Seq<char>>,
    pub fatal: Option<Seq<char>>,
}

pub open spec fn no_events() -> RunState {
    RunState { reason: None, session: None, fatal: None }
}

/// The text of an `error` event.
pub open spec fn error_text(event: JsonView) -> Seq<char> {
    match json::get_of(event, "error"@) {
        Some(e) => json::compact_json(e),
        None => seq![],
    }
}

/// The state after one more event.
pub open spec fn after_event(state: RunState, event: JsonView) -> RunState {
    match json::get_str_of(event, "type"@) {
        None => state,
        Some(kind) => {
            let session = match json::get_str_of(event, "sessionID"@) {
                Some(id) => Some(id),
                None => state.session,
            };
            let reason = if kind == "step_finish"@ {
                match json::get_of(event, "part"@) {
                    Some(part) => json::get_str_of(part, "reason"@),
                    None => None,
                }
            } else {
                state.reason
            };
            let fatal = if kind == "error"@ && kind != "step_finish"@ && is_fatal_error(
                text::lowercase_of(error_text(event)),
            ) {
                Some(error_text(event))
            } else {
                state.fatal
            };
            RunState { reason, session, fatal }
        },
    }
}

/// Whether a line of a log can be an event.
pub open spec fn is_event_line(line: Seq<char>) -> bool {
    text::has_prefix(line, "{"@) && text::has_suffix(line, "}"@)
}

/// The state after the lines of a log.
pub open spec fn after_lines(lines: Seq<Seq<char>>) -> RunState
    decreases lines.len(),
{
    if lines.len() == 0 {
        no_events()
    } else {
        let before = after_lines(lines.drop_last());
        let line = text::trim_of(lines.last());
        if !is_event_line(line) {
            before
        } else {
            match json::document_in(line) {
                Some(event) => after_event(before, event),
                None => before,
            }
        }
    }
}

/// Whether a session id has the shape that may be spliced into a command.
pub open spec fn is_plain_id(id: Seq<char>) -> bool {
    id.len() > 0 && forall|i: int|
        0 <= i < id.len() ==> text::is_ascii_alnum(#[trigger] id[i]) || id[i] == '_' || id[i] == '-'
}

/// The verdict on a run. The health test is a whitelist: a run is healthy only
/// when its last `step_finish` says `stop`. A run without a session is left to
/// its exit status.
pub open spec fn verdict(state: RunState) -> OutcomeView {
    match state.fatal {
        Some(e) => OutcomeView::Fatal(e),
        None => match state.session {
            None => OutcomeView::Healthy,
            Some(id) => if state.reason == Some("stop"@) || !is_plain_id(id) {
                OutcomeView::Healthy
            } else {
                OutcomeView::Resumable {
                    session_id: id,
                    reason: match state.reason {
                        Some(r) => r,
                        None => "missing"@,
                    },
                }
            },
        },
    }
}

/// What the events of a run so far have shown.
#[derive(Debug)]
pub struct RunEvents {
    pub reason: Option<String>,
    pub session: Option<String>,
    pub fatal: Option<String>,
}

impl RunEvents {
    pub open spec fn view(&self) -> RunState {
        RunState {
            reason: text::opt_text(self.reason),
            session: text::opt_text(self.session),
            fatal: text::opt_text(self.fatal),
        }
    }

    pub fn new() -> (r: RunEvents)
        ensures
            r.view() == no_events(),
    {
        RunEvents { reason: None, session: None, fatal: None }
    }

    /// Takes one more event into account.
    pub fn add_event(&mut self, event: &Json)
        ensures
            final(self).view() == after_event(old(self).view(), event.view()),
    {
        let kind = match event.get_str("type") {
            Some(k) => k,
            None => {
                return ;
            },
        };
        if let Some(id) = event.get_str("sessionID") {
            self.session = Some(id.to_owned());
        }
        if text::same(kind, "step_finish") {
            self.reason = match event.get("part") {
                Some(part) => match part.get_str("reason") {
                    Some(r) => Some(r.to_owned()),
                    None => None,
                },
                None => None,
            };
        } else if text::same(kind, "error") {
            let message = match event.get("error") {
                Some(e) => json::render_compact(e),
                None => String::new(),
            };
            let lowered = text::lowercase(message.as_str());
            if is_fatal(lowered.as_str()) {
                self.fatal = Some(message);
            }
        }
    }

    /// The verdict on the run.
    pub fn verdict(&self) -> (r: OpenCodeOutcome)
        ensures
            r.view() == verdict(self.view()),
    {
        if let Some(e) = &self.fatal {
            return OpenCodeOutcome::Fatal(e.clone());
        }
        let id = match &self.session {
            Some(id) => id,
            None => {
                return OpenCodeOutcome::Healthy;
            },
        };
        let reason = match &self.reason {
            Some(r) => {
                if text::same(r.as_str(), "stop") {
                    return OpenCodeOutcome::Healthy;
                }
                r.clone()
            },
            None => "missing".to_owned(),
        };
        if has_plain_shape(id.as_str()) {
            OpenCodeOutcome::Resumable { session_id: id.clone(), reason }
        } else {
            OpenCodeOutcome::Healthy
        }
    }
}

fn has_plain_shape(id: &str) -> (r: bool)
    ensures
        r == is_plain_id(id@),
{
    let v = text::chars_of(id);
    if v.len() == 0 {
        return false;
    }
    let mut i: usize = 0;
    while i < v.len()
        invariant
            i <= v@.len(),
            v@ == id@,
            forall|j: int|
                0 <= j < i ==> text::is_ascii_alnum(#[trigger] id@[j]) || id@[j] == '_' || id@[j]
                    == '-',
        decreases v@.len() - i,
    {
        let c = v[i];
        if !(text::ascii_alnum(c) || c == '_' || c == '-') {
            assert(!text::is_ascii_alnum(id@[i as int]));
            return false;
        }
        i = i + 1;
    }
    true
}

/// Judges how an OpenCode run ended from the text of its log. A log that cannot
/// be opened says nothing.
///
/// OpenCode reports every abnormal ending as a normal one, and spells those
/// endings differently each time. A blacklist of known-bad values misses the
/// next spelling; requiring the one known-good value does not.
pub fn assess_opencode_run(log: Option<&str>) -> (r: OpenCodeOutcome)
    ensures
        (match log {
            None => r.view() == OutcomeView::Healthy,
            Some(s) => r.view() == verdict(after_lines(text::lines_of(s@))),
        }),
{
    let lines = match log {
        None => {
            return OpenCodeOutcome::Healthy;
        },
        Some(s) => text::lines(s),
    };
    let ghost all = text::texts(lines@);
    let mut events = RunEvents::new();
    let mut i: usize = 0;
    assert(all.take(0) =~= seq![]);
    while i < lines.len()
        invariant
            i <= lines@.len(),
            all == text::texts(lines@),
            events.view() == after_lines(all.take(i as int)),
        decreases lines@.len() - i,
    {
        assert(all.take(i + 1).drop_last() =~= all.take(i as int));
        assert(all.take(i + 1).last() == lines@[i as int]@);
        let line = text::trim(lines[i].as_str());
        if text::starts_with(line.as_str(), "{") && text::ends_with(line.as_str(), "}") {
            if let Some(event) = json::parse_json(line.as_str()) {
                events.add_event(&event);
            }
        }
        i = i + 1;
    }
    assert(all.take(i as int) =~= all);
    events.verdict()
}

/// A run that is resumed has a session whose id may be spliced into a command,
/// and did not end with `stop`.
pub proof fn resumed_only_when_safe(state: RunState)
    requires
        verdict(state) is Resumable,
    ensures
        is_plain_id(verdict(state)->session_id),
        state.reason != Some("stop"@),
        state.fatal is None,
{
}

// ── Resuming ─────────────────────────────────────────────────────────────

/// What to do after an OpenCode process has ended.
#[derive(Debug, PartialEq, Eq)]
pub enum ResumeStep {
    /// The run is over.
    Finish,
    /// The run is over, and incomplete: note it in the log.
    GiveUp { note: String },
    /// The run failed: its output must not be graded.
    Fail { error: String },
    /// Note it in the log and resume the session.
    Resume { session_id: String, note: String },
}

pub enum ResumeView {
    Finish,
    GiveUp { note: Seq<char> },
    Fail { error: Seq<char> },
    Resume { session_id: Seq<char>, note: Seq<char> },
}

impl ResumeStep {
    pub open spec fn view(&self) -> ResumeView {
        match *self {
            ResumeStep::Finish => ResumeView::Finish,
            ResumeStep::GiveUp { note } => ResumeView::GiveUp { note: note@ },
            ResumeStep::Fail { error } => ResumeView::Fail { error: error@ },
            ResumeStep::Resume { session_id, note } => ResumeView::Resume {
                session_id: session_id@,
                note: note@,
            },
        }
    }
}

/// The number of resumes as it stands in notes.
pub open spec fn max_resumes_text() -> Seq<char> {
    text::decimal_of(OPENCODE_MAX_RESUMES as nat)
}

pub open spec fn give_up_note(label: Seq<char>, id: Seq<char>, reason: Seq<char>) -> Seq<char> {
    "WARNING: "@ + label + " session "@ + id + " still abnormal (reason: "@ + reason + ") after "@
        + max_resumes_text() + " resumes; output is incomplete"@
}

pub open spec fn resume_note(
    label: Seq<char>,
    id: Seq<char>,
    reason: Seq<char>,
    attempt: nat,
) -> Seq<char> {
    "WARNING: "@ + label + " session "@ + id + " ended abnormally (reason: "@ + reason
        + "); resuming (attempt "@ + text::decimal_of(attempt) + "/"@ + max_resumes_text() + ")"@
}

pub open spec fn fatal_message(label: Seq<char>, error: Seq<char>) -> Seq<char> {
    "OpenCode "@ + label + " agent hit an unrecoverable provider error: "@ + error
}

/// What follows an outcome after a number of resumes.
pub open spec fn resume_step_of(outcome: OutcomeView, resumes: nat, label: Seq<char>) -> ResumeView {
    match outcome {
        OutcomeView::Healthy => ResumeView::Finish,
        OutcomeView::Fatal(e) => ResumeView::Fail { error: fatal_message(label, e) },
        OutcomeView::Resumable { session_id, reason } => if resumes >= OPENCODE_MAX_RESUMES {
            ResumeView::GiveUp { note: give_up_note(label, session_id, reason) }
        } else {
            ResumeView::Resume {
                session_id,
                note: resume_note(label, session_id, reason, resumes + 1),
            }
        },
    }
}

/// Decides what to do after an OpenCode process has ended. OpenCode ends with
/// success when a provider stream dies mid-response, so half a translation would
/// be graded as if the agent had chosen to stop; the session is resumed instead.
/// A run that stays broken is reported rather than passed off as recovered.
pub fn resume_step(outcome: &OpenCodeOutcome, resumes: u32, label: &str) -> (r: ResumeStep)
    ensures
        r.view() == resume_step_of(outcome.view(), resumes as nat, label@),
{
    match outcome {
        OpenCodeOutcome::Healthy => ResumeStep::Finish,
        OpenCodeOutcome::Fatal(e) => {
            let mut error = "OpenCode ".to_owned();
            error.append(label);
            error.append(" agent hit an unrecoverable provider error: ");
            error.append(e.as_str());
            ResumeStep::Fail { error }
        },
        OpenCodeOutcome::Resumable { session_id, reason } => {
            let mut note = "WARNING: ".to_owned();
            note.append(label);
            note.append(" session ");
            note.append(session_id.as_str());
            let max = text::decimal(OPENCODE_MAX_RESUMES as u64);
            if resumes >= OPENCODE_MAX_RESUMES {
                note.append(" still abnormal (reason: ");
                note.append(reason.as_str());
                note.append(") after ");
                note.append(max.as_str());
                note.append(" resumes; output is incomplete");
                ResumeStep::GiveUp { note }
            } else {
                note.append(" ended abnormally (reason: ");
                note.append(reason.as_str());
                note.append("); resuming (attempt ");
                note.append(text::decimal((resumes + 1) as u64).as_str());
                note.append("/");
                note.append(max.as_str());
                note.append(")");
                ResumeStep::Resume { session_id: session_id.clone(), note }
            }
        },
    }
}

/// Resuming ends: after the maximum number of resumes no outcome leads to
/// another one.
pub proof fn resuming_ends(outcome: OutcomeView, resumes: nat, label: Seq<char>)
    requires
        resumes >= OPENCODE_MAX_RESUMES,
    ensures
        !(resume_step_of(outcome, resumes, label) is Resume),
{
}

/// A fatal provider error is never resumed, and never counted as a finished run.
pub proof fn fatal_runs_fail(error: Seq<char>, resumes: nat, label: Seq<char>)
    ensures
        resume_step_of(OutcomeView::Fatal(error), resumes, label) is Fail,
{
}

} // verus!
