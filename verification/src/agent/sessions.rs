//! The sessions of an OpenCode run: which there are, and in what order they are
//! exported.

use crate::json;
use crate::json::{Json, JsonView};
use crate::text;
use vstd::prelude::*;
use vstd::string::*;

verus! {

/// `ids` with `id` at the end, unless it is there already.
pub open spec fn with_id(ids: Seq<Seq<char>>, id: Seq<char>) -> Seq<Seq<char>> {
    if ids.contains(id) {
        ids
    } else {
        ids.push(id)
    }
}

/// The session id on a line of a log.
pub open spec fn id_on_line(line: Seq<char>) -> Option<Seq<char>> {
    let line = text::trim_of(line);
    if text::has_prefix(line, "{"@) {
        match json::document_in(line) {
            Some(v) => json::get_str_of(v, "sessionID"@),
            None => None,
        }
    } else {
        None
    }
}

/// The distinct session ids in the lines of a log, in order of appearance.
pub open spec fn ids_in_lines(lines: Seq<Seq<char>>) -> Seq<Seq<char>>
    decreases lines.len(),
{
    if lines.len() == 0 {
        seq![]
    } else {
        let before = ids_in_lines(lines.drop_last());
        match id_on_line(lines.last()) {
            Some(id) => with_id(before, id),
            None => before,
        }
    }
}

/// All distinct session ids in the text of an OpenCode log, in order of
/// appearance.
pub fn extract_session_ids_from_log(log: &str) -> (r: Vec<String>)
    ensures
        text::texts(r@) == ids_in_lines(text::lines_of(log@)),
{
    broadcast use text::group_texts;

    let lines = text::lines(log);
    let ghost all = text::texts(lines@);
    let mut ids: Vec<String> = Vec::new();
    let mut i: usize = 0;
    assert(all.take(0) =~= seq![]);
    assert(text::texts(ids@) =~= seq![]);
    while i < lines.len()
        invariant
            i <= lines@.len(),
            all == text::texts(lines@),
            text::texts(ids@) == ids_in_lines(all.take(i as int)),
        decreases lines@.len() - i,
    {
        assert(all.take(i + 1).drop_last() =~= all.take(i as int));
        assert(all.take(i + 1).last() == lines@[i as int]@);
        let line = text::trim(lines[i].as_str());
        if text::starts_with(line.as_str(), "{") {
            if let Some(v) = json::parse_json(line.as_str()) {
                if let Some(id) = v.get_str("sessionID") {
                    if !text::holds(&ids, id) {
                        ids.push(id.to_owned());
                    }
                }
            }
        }
        i = i + 1;
    }
    assert(all.take(i as int) =~= all);
    ids
}

/// No session id is listed twice.
pub proof fn ids_are_distinct(lines: Seq<Seq<char>>)
    ensures
        ids_in_lines(lines).no_duplicates(),
    decreases lines.len(),
{
    if lines.len() > 0 {
        ids_are_distinct(lines.drop_last());
    }
}

/// The value that three names in turn lead to.
pub open spec fn at_path(v: JsonView, a: Seq<char>, b: Seq<char>, c: Seq<char>) -> Option<JsonView> {
    match json::get_of(v, a) {
        None => None,
        Some(x) => match json::get_of(x, b) {
            None => None,
            Some(y) => json::get_of(y, c),
        },
    }
}

/// The child session that a part of a message started. Of the spellings of the
/// name, the first that is there counts.
pub open spec fn child_of(part: JsonView) -> Option<Seq<char>> {
    if json::get_str_of(part, "tool"@) != Some("task"@) {
        None
    } else {
        let found = match at_path(part, "state"@, "metadata"@, "sessionID"@) {
            Some(v) => Some(v),
            None => match at_path(part, "state"@, "metadata"@, "sessionId"@) {
                Some(v) => Some(v),
                None => at_path(part, "state"@, "metadata"@, "session_id"@),
            },
        };
        match found {
            Some(JsonView::Str(s)) => if s.len() > 0 {
                Some(s)
            } else {
                None
            },
            _ => None,
        }
    }
}

pub open spec fn children_in_parts(parts: Seq<JsonView>) -> Seq<Seq<char>>
    decreases parts.len(),
{
    if parts.len() == 0 {
        seq![]
    } else {
        let before = children_in_parts(parts.drop_last());
        match child_of(parts.last()) {
            Some(id) => before.push(id),
            None => before,
        }
    }
}

/// The members of an array member, or nothing.
pub open spec fn array_at(v: JsonView, key: Seq<char>) -> Seq<JsonView> {
    match json::get_of(v, key) {
        Some(JsonView::Array(a)) => a,
        _ => seq![],
    }
}

pub open spec fn children_in_messages(messages: Seq<JsonView>) -> Seq<Seq<char>>
    decreases messages.len(),
{
    if messages.len() == 0 {
        seq![]
    } else {
        children_in_messages(messages.drop_last()) + children_in_parts(
            array_at(messages.last(), "parts"@),
        )
    }
}

/// The child sessions of an exported session.
pub open spec fn children_of(export: JsonView) -> Seq<Seq<char>> {
    children_in_messages(array_at(export, "messages"@))
}

fn get_path<'a>(v: &'a Json, a: &str, b: &str, c: &str) -> (r: Option<&'a Json>)
    ensures
        json::opt_view(r) == at_path(v.view(), a@, b@, c@),
{
    match v.get(a) {
        None => None,
        Some(x) => match x.get(b) {
            None => None,
            Some(y) => y.get(c),
        },
    }
}

fn child_id(part: &Json) -> (r: Option<String>)
    ensures
        text::opt_text(r) == child_of(part.view()),
{
    match part.get_str("tool") {
        None => {
            return None;
        },
        Some(t) => {
            if !text::same(t, "task") {
                return None;
            }
        },
    }
    let found = match get_path(part, "state", "metadata", "sessionID") {
        Some(v) => Some(v),
        None => match get_path(part, "state", "metadata", "sessionId") {
            Some(v) => Some(v),
            None => get_path(part, "state", "metadata", "session_id"),
        },
    };
    match found {
        Some(Json::Str(s)) => {
            if s.as_str().is_empty() {
                None
            } else {
                Some(s.clone())
            }
        },
        _ => None,
    }
}

fn part_children(parts: &Vec<Json>, ids: &mut Vec<String>)
    ensures
        text::texts(final(ids)@) == text::texts(old(ids)@) + children_in_parts(
            json::json_views(parts@),
        ),
{
    broadcast use text::group_texts;

    let ghost all = json::json_views(parts@);
    let ghost before = text::texts(ids@);
    let mut i: usize = 0;
    assert(all.take(0) =~= seq![]);
    assert(before + children_in_parts(all.take(0)) =~= before);
    while i < parts.len()
        invariant
            i <= parts@.len(),
            all == json::json_views(parts@),
            text::texts(ids@) == before + children_in_parts(all.take(i as int)),
        decreases parts@.len() - i,
    {
        assert(all.take(i + 1).drop_last() =~= all.take(i as int));
        assert(all.take(i + 1).last() == parts@[i as int].view());
        if let Some(id) = child_id(&parts[i]) {
            let ghost so_far = children_in_parts(all.take(i as int));
            let ghost t = id@;
            ids.push(id);
            assert(before + so_far.push(t) =~= (before + so_far).push(t));
        }
        i = i + 1;
    }
    assert(all.take(i as int) =~= all);
}

/// The sub-agent sessions in an OpenCode export: the `task` tool uses whose
/// metadata points to a child session.
pub fn extract_sub_session_ids_from_export(export: &Json) -> (r: Vec<String>)
    ensures
        text::texts(r@) == children_of(export.view()),
{
    let mut ids: Vec<String> = Vec::new();
    assert(text::texts(ids@) =~= seq![]);
    if let Some(Json::Array(messages)) = export.get("messages") {
        proof {
            json::array_view(*messages);
        }
        let ghost all = json::json_views(messages@);
        let mut i: usize = 0;
        assert(all.take(0) =~= seq![]);
        while i < messages.len()
            invariant
                i <= messages@.len(),
                all == json::json_views(messages@),
                text::texts(ids@) == children_in_messages(all.take(i as int)),
            decreases messages@.len() - i,
        {
            assert(all.take(i + 1).drop_last() =~= all.take(i as int));
            assert(all.take(i + 1).last() == messages@[i as int].view());
            let ghost so_far = text::texts(ids@);
            match messages[i].get("parts") {
                Some(Json::Array(parts)) => {
                    proof {
                        json::array_view(*parts);
                    }
                    part_children(parts, &mut ids);
                },
                _ => {
                    assert(so_far + children_in_parts(seq![]) =~= so_far);
                },
            }
            i = i + 1;
        }
        assert(all.take(i as int) =~= all);
    }
    ids
}

// ── Exporting ────────────────────────────────────────────────────────────

/// The sessions that are still to be exported and those that were handed out.
#[derive(Debug)]
pub struct ExportQueue {
    pub queue: Vec<String>,
    pub exported: Vec<String>,
}

impl ExportQueue {
    /// No session was handed out twice.
    pub open spec fn wf(&self) -> bool {
        text::texts(self.exported@).no_duplicates()
    }

    pub fn new(ids: Vec<String>) -> (r: ExportQueue)
        ensures
            r.wf(),
            r.queue@ == ids@,
            r.exported@.len() == 0,
    {
        ExportQueue { queue: ids, exported: Vec::new() }
    }

    /// The next session to export: the last one in the queue that was not handed
    /// out yet.
    pub fn next_session(&mut self) -> (r: Option<String>)
        requires
            old(self).wf(),
        ensures
            final(self).wf(),
            (match r {
                Some(id) => {
                    &&& !text::texts(old(self).exported@).contains(id@)
                    &&& text::texts(final(self).exported@) == text::texts(
                        old(self).exported@,
                    ).push(id@)
                    &&& exists|n: int|
                        {
                            &&& 0 <= n < old(self).queue@.len()
                            &&& #[trigger] old(self).queue@[n]@ == id@
                            &&& final(self).queue@ == old(self).queue@.take(n)
                            &&& forall|k: int|
                                n < k < old(self).queue@.len() ==> text::texts(
                                    old(self).exported@,
                                ).contains(#[trigger] old(self).queue@[k]@)
                        }
                },
                None => {
                    &&& final(self).queue@.len() == 0
                    &&& final(self).exported@ == old(self).exported@
                    &&& forall|k: int|
                        0 <= k < old(self).queue@.len() ==> text::texts(
                            old(self).exported@,
                        ).contains(#[trigger] old(self).queue@[k]@)
                },
            }),
    {
        broadcast use text::group_texts;

        let ghost start = self.queue@;
        let ghost done = text::texts(self.exported@);
        let ghost done_exec = self.exported@;
        while self.queue.len() > 0
            invariant
                self.queue@.len() <= start.len(),
                self.queue@ == start.take(self.queue@.len() as int),
                self.exported@ == done_exec,
                done == text::texts(self.exported@),
                done.no_duplicates(),
                start == old(self).queue@,
                done == text::texts(old(self).exported@),
                done_exec == old(self).exported@,
                forall|k: int|
                    self.queue@.len() <= k < start.len() ==> done.contains(#[trigger] start[k]@),
            decreases self.queue@.len(),
        {
            let ghost n = self.queue@.len() - 1;
            let id = self.queue.pop().unwrap();
            assert(start[n] == id);
            assert(self.queue@ =~= start.take(n));
            if !text::holds(&self.exported, id.as_str()) {
                let copy = id.clone();
                self.exported.push(copy);
                assert(text::texts(self.exported@) =~= done.push(id@));
                assert(start[n]@ == id@);
                return Some(id);
            }
        }
        None
    }

    /// Queues the child sessions that an export named, unless they were handed
    /// out already.
    pub fn add_children(&mut self, children: &Vec<String>)
        requires
            old(self).wf(),
        ensures
            final(self).wf(),
            final(self).exported@ == old(self).exported@,
            text::texts(final(self).queue@) == text::texts(old(self).queue@) + text::texts(
                children@,
            ).filter(|id: Seq<char>| !text::texts(old(self).exported@).contains(id)),
    {
        broadcast use text::group_texts;

        let ghost before = text::texts(self.queue@);
        let ghost done = text::texts(self.exported@);
        let ghost fresh = |id: Seq<char>| !done.contains(id);
        let ghost all = text::texts(children@);
        let mut i: usize = 0;
        proof {
            reveal(Seq::filter);
            assert(all.take(0) =~= seq![]);
            assert(before + all.take(0).filter(fresh) =~= before);
        }
        while i < children.len()
            invariant
                i <= children@.len(),
                all == text::texts(children@),
                done == text::texts(self.exported@),
                done.no_duplicates(),
                self.exported@ == old(self).exported@,
                fresh == (|id: Seq<char>| !done.contains(id)),
                text::texts(self.queue@) == before + all.take(i as int).filter(fresh),
            decreases children@.len() - i,
        {
            proof {
                reveal(Seq::filter);
                assert(all.take(i + 1).drop_last() =~= all.take(i as int));
                assert(all.take(i + 1).last() == children@[i as int]@);
            }
            let ghost so_far = all.take(i as int).filter(fresh);
            if !text::holds(&self.exported, children[i].as_str()) {
                let copy = children[i].clone();
                let ghost t = copy@;
                self.queue.push(copy);
                assert(before + so_far.push(t) =~= (before + so_far).push(t));
            }
            i = i + 1;
        }
        assert(all.take(i as int) =~= all);
    }
}

/// The block that an export appends to the log.
pub fn export_block(session_id: &str, json: &str) -> (r: String)
    ensures
        r@ == "## opencode-export: "@ + session_id@ + "\n"@ + json@ + "\n"@,
{
    let mut s = "## opencode-export: ".to_owned();
    s.append(session_id);
    s.append("\n");
    s.append(json);
    s.append("\n");
    s
}

/// The JSON in the output of an export: everything from the first `{` on. It
/// must be valid.
pub fn exported_json(session_id: &str, stdout: &str) -> (r: Result<String, String>)
    ensures
        ({
            let n = text::index_of(stdout@, '{');
            if n == stdout@.len() {
                r matches Err(e) && e@ == "opencode export produced no JSON"@
            } else {
                match json::parsed_json(stdout@.skip(n)) {
                    Ok(_) => r matches Ok(s) && s@ == stdout@.skip(n),
                    Err(why) => r matches Err(e) && e@ == "opencode export "@ + session_id@
                        + " produced invalid JSON: "@ + why,
                }
            }
        }),
{
    let v = text::chars_of(stdout);
    let n = text::index_from(&v, '{', 0);
    assert(v@.skip(0) =~= stdout@);
    if n == v.len() {
        return Err("opencode export produced no JSON".to_owned());
    }
    let raw = text::string_of(&v, n, v.len());
    assert(raw@ =~= stdout@.skip(n as int));
    match json::read_json(raw.as_str()) {
        Ok(_) => Ok(raw),
        Err(why) => {
            let mut e = "opencode export ".to_owned();
            e.append(session_id);
            e.append(" produced invalid JSON: ");
            e.append(why.as_str());
            Err(e)
        },
    }
}

} // verus!
