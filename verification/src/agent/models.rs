//! Model names of the OpenCode backend, and the limits its registry lists.

use crate::json;
use crate::json::{Json, JsonView};
use crate::text;
use vstd::prelude::*;
use vstd::string::*;

verus! {

/// What the registry says of a model's windows, in tokens.
#[derive(Debug, Clone, Copy, PartialEq, Eq, Structural)]
pub struct OpenCodeModelLimits {
    pub context: u64,
    pub output: Option<u64>,
}

// ── Model names ──────────────────────────────────────────────────────────

/// The part of a text before the first `c`, or all of it.
pub open spec fn before_char(s: Seq<char>, c: char) -> Seq<char> {
    s.take(text::index_of(s, c))
}

/// The provider and the registry id of a model name `provider/id` or
/// `provider/id:suffix`. The suffix is a routing hint.
pub open spec fn model_parts(model: Seq<char>) -> Option<(Seq<char>, Seq<char>)> {
    let n = text::index_of(model, '/');
    if 0 < n < model.len() && n + 1 < model.len() {
        Some((model.take(n), before_char(model.skip(n + 1), ':')))
    } else {
        None
    }
}

pub open spec fn bad_model_message(model: Seq<char>) -> Seq<char> {
    "OpenCode model must be in provider/model format, got: "@ + model
}

/// The part of a text before the first `c`, or all of it.
pub fn cut_before(s: &str, c: char) -> (r: String)
    ensures
        r@ == before_char(s@, c),
{
    proof {
        text::index_of_bounds(s@, c);
    }
    match text::split_once(s, c) {
        Some((a, _)) => a,
        None => {
            assert(s@.take(text::index_of(s@, c)) =~= s@);
            s.to_owned()
        },
    }
}

/// Splits a model name into provider and registry id. The colon suffix (such as
/// `:floor`) is passed to OpenCode as it is, but is no part of the registry id.
pub fn parse_opencode_model(model: &str) -> (r: Result<(String, String), String>)
    ensures
        (match r {
            Ok((provider, id)) => model_parts(model@) == Some((provider@, id@)),
            Err(e) => model_parts(model@) is None && e@ == bad_model_message(model@),
        }),
{
    proof {
        text::index_of_bounds(model@, '/');
    }
    if let Some((provider, rest)) = text::split_once(model, '/') {
        if !provider.as_str().is_empty() && !rest.as_str().is_empty() {
            let id = cut_before(rest.as_str(), ':');
            return Ok((provider, id));
        }
    }
    let mut e = "OpenCode model must be in provider/model format, got: ".to_owned();
    e.append(model);
    Err(e)
}

// ── The registry listing ─────────────────────────────────────────────────

/// The text member `key`, or the empty text.
pub open spec fn text_or_empty(v: JsonView, key: Seq<char>) -> Seq<char> {
    match json::get_str_of(v, key) {
        Some(s) => s,
        None => seq![],
    }
}

/// The limits that a registry entry lists, if it is the entry of that model and
/// has a context limit.
pub open spec fn limits_of(entry: JsonView, provider: Seq<char>, id: Seq<char>) -> Option<
    OpenCodeModelLimits,
> {
    if text_or_empty(entry, "providerID"@) == provider && text_or_empty(entry, "id"@) == id {
        match json::get_of(entry, "limit"@) {
            None => None,
            Some(limit) => match json::get_u64_of(limit, "context"@) {
                None => None,
                Some(context) => Some(
                    OpenCodeModelLimits {
                        context,
                        output: json::get_u64_of(limit, "output"@),
                    },
                ),
            },
        }
    } else {
        None
    }
}

/// The limits in a text, if it is the registry entry of that model.
pub open spec fn limits_in_text(s: Seq<char>, provider: Seq<char>, id: Seq<char>) -> Option<
    OpenCodeModelLimits,
> {
    match json::document_in(s) {
        Some(v) => limits_of(v, provider, id),
        None => None,
    }
}

/// How many more braces a text opens than it closes.
pub open spec fn brace_balance(s: Seq<char>) -> int {
    text::count_of(s, '{') - text::count_of(s, '}')
}

/// The limits of the model in what is left of a listing. `open` holds the lines
/// of an entry that has not ended; its braces are out of balance by `depth`. An
/// entry starts on a line that starts with `{` and ends on the line on which its
/// braces balance.
pub open spec fn limits_in_lines(
    lines: Seq<Seq<char>>,
    open: Seq<Seq<char>>,
    depth: int,
    provider: Seq<char>,
    id: Seq<char>,
) -> Option<OpenCodeModelLimits>
    decreases lines.len(),
{
    if lines.len() == 0 {
        None
    } else {
        let line = text::trim_of(lines[0]);
        let rest = lines.skip(1);
        if open.len() == 0 && !text::has_prefix(line, "{"@) {
            limits_in_lines(rest, seq![], 0, provider, id)
        } else {
            let now = open.push(line);
            let balance = depth + brace_balance(line);
            if balance > 0 {
                limits_in_lines(rest, now, balance, provider, id)
            } else {
                match limits_in_text(text::join_of(now, "\n"@), provider, id) {
                    Some(limits) => Some(limits),
                    None => limits_in_lines(rest, seq![], 0, provider, id),
                }
            }
        }
    }
}

/// The limits of the model in a verbose registry listing.
pub open spec fn limits_in_listing(output: Seq<char>, provider: Seq<char>, id: Seq<char>) -> Option<
    OpenCodeModelLimits,
> {
    limits_in_lines(text::lines_of(output), seq![], 0, provider, id)
}

fn has_text(entry: &Json, key: &str, want: &str) -> (r: bool)
    ensures
        r == (text_or_empty(entry.view(), key@) == want@),
{
    match entry.get_str(key) {
        Some(s) => text::same(s, want),
        None => {
            let empty = want.is_empty();
            assert(empty == (Seq::<char>::empty() =~= want@));
            empty
        },
    }
}

/// The limits that a registry entry lists, if it is the entry of that model.
pub fn limits_of_entry(entry: &Json, provider: &str, id: &str) -> (r: Option<OpenCodeModelLimits>)
    ensures
        r == limits_of(entry.view(), provider@, id@),
{
    if !has_text(entry, "providerID", provider) || !has_text(entry, "id", id) {
        return None;
    }
    match entry.get("limit") {
        None => None,
        Some(limit) => match limit.get_u64("context") {
            None => None,
            Some(context) => Some(
                OpenCodeModelLimits { context, output: limit.get_u64("output") },
            ),
        },
    }
}

fn limits_of_text(s: &str, provider: &str, id: &str) -> (r: Option<OpenCodeModelLimits>)
    ensures
        r == limits_in_text(s@, provider@, id@),
{
    match json::parse_json(s) {
        Some(v) => limits_of_entry(&v, provider, id),
        None => None,
    }
}

/// Finds the limits of a model in the output of a verbose model listing.
pub fn extract_model_limits_from_output(output: &str, provider: &str, id: &str) -> (r: Option<
    OpenCodeModelLimits,
>)
    ensures
        r == limits_in_listing(output@, provider@, id@),
{
    broadcast use text::group_texts;

    let lines = text::lines(output);
    let ghost all = text::texts(lines@);
    let mut open: Vec<String> = Vec::new();
    let mut opened: u128 = 0;
    let mut closed: u128 = 0;
    let mut i: usize = 0;
    assert(all.skip(0) =~= all);
    assert(text::texts(open@) =~= seq![]);
    while i < lines.len()
        invariant
            i <= lines@.len(),
            all == text::texts(lines@),
            all == text::lines_of(output@),
            opened <= i * usize::MAX,
            closed <= i * usize::MAX,
            open@.len() == 0 ==> opened == 0 && closed == 0,
            limits_in_lines(
                all.skip(i as int),
                text::texts(open@),
                opened - closed,
                provider@,
                id@,
            ) == limits_in_listing(output@, provider@, id@),
        decreases lines@.len() - i,
    {
        let line = text::trim(lines[i].as_str());
        let ghost before = text::texts(open@);
        assert(all.skip(i as int)[0] == lines@[i as int]@);
        assert(all.skip(i as int).skip(1) =~= all.skip(i + 1));
        assert((i + 1) * usize::MAX == i * usize::MAX + usize::MAX) by (nonlinear_arith);
        assert((i + 1) * usize::MAX <= 0xffff_ffff_ffff_ffff * 0xffff_ffff_ffff_ffff)
            by (nonlinear_arith)
            requires
                i < usize::MAX,
                usize::MAX <= 0xffff_ffff_ffff_ffff,
        ;
        if open.len() > 0 || text::starts_with(line.as_str(), "{") {
            let ups = text::count(line.as_str(), '{');
            let downs = text::count(line.as_str(), '}');
            opened = opened + ups as u128;
            closed = closed + downs as u128;
            open.push(line);
            assert(text::texts(open@) =~= before.push(text::trim_of(lines@[i as int]@)));
            if opened <= closed {
                let joined = text::join(&open, "\n");
                if let Some(limits) = limits_of_text(joined.as_str(), provider, id) {
                    return Some(limits);
                }
                open = Vec::new();
                opened = 0;
                closed = 0;
                assert(text::texts(open@) =~= seq![]);
            }
        } else {
            assert(before =~= seq![]);
        }
        i = i + 1;
    }
    None
}

/// Where the search for a model's limits stands.
#[derive(Debug, Clone, Copy, PartialEq, Eq, Structural)]
pub enum LimitsLookup {
    Found(OpenCodeModelLimits),
    /// The provider's listing does not have the model: ask for the listing of
    /// all providers.
    AskAll,
}

pub open spec fn no_metadata_message(model: Seq<char>) -> Seq<char> {
    "OpenCode model metadata not found for "@ + model
        + "; run `opencode models --verbose` and verify the model exists with a limit.context field"@
}

/// Resolves the limits of a model from the listing of its provider and, once
/// that was asked for, from the listing of all providers.
pub fn load_opencode_model_limits(
    model: &str,
    provider_output: &str,
    all_output: Option<&str>,
) -> (r: Result<LimitsLookup, String>)
    ensures
        (match model_parts(model@) {
            None => r matches Err(e) && e@ == bad_model_message(model@),
            Some((provider, id)) => match limits_in_listing(provider_output@, provider, id) {
                Some(limits) => r == Ok::<LimitsLookup, String>(LimitsLookup::Found(limits)),
                None => match all_output {
                    None => r == Ok::<LimitsLookup, String>(LimitsLookup::AskAll),
                    Some(all) => match limits_in_listing(all@, provider, id) {
                        Some(limits) => r == Ok::<LimitsLookup, String>(
                            LimitsLookup::Found(limits),
                        ),
                        None => r matches Err(e) && e@ == no_metadata_message(model@),
                    },
                },
            },
        }),
{
    let (provider, id) = match parse_opencode_model(model) {
        Ok(parts) => parts,
        Err(e) => {
            return Err(e);
        },
    };
    if let Some(limits) = extract_model_limits_from_output(
        provider_output,
        provider.as_str(),
        id.as_str(),
    ) {
        return Ok(LimitsLookup::Found(limits));
    }
    match all_output {
        None => Ok(LimitsLookup::AskAll),
        Some(all) => match extract_model_limits_from_output(all, provider.as_str(), id.as_str()) {
            Some(limits) => Ok(LimitsLookup::Found(limits)),
            None => {
                let mut e = "OpenCode model metadata not found for ".to_owned();
                e.append(model);
                e.append(
                    "; run `opencode models --verbose` and verify the model exists with a limit.context field",
                );
                Err(e)
            },
        },
    }
}

pub open spec fn limits_block(limits: OpenCodeModelLimits) -> Seq<char> {
    let head = "### Registry context limits\ncontext_limit: "@ + text::decimal_of(
        limits.context as nat,
    );
    match limits.output {
        Some(n) => head + "\noutput_limit: "@ + text::decimal_of(n as nat),
        None => head,
    }
}

/// The limits as a block for a prompt.
pub fn render_model_limits_block(limits: &OpenCodeModelLimits) -> (r: String)
    ensures
        r@ == limits_block(*limits),
{
    let mut s = "### Registry context limits\ncontext_limit: ".to_owned();
    s.append(text::decimal(limits.context).as_str());
    if let Some(n) = limits.output {
        s.append("\noutput_limit: ");
        s.append(text::decimal(n).as_str());
    }
    s
}

/// Whether a model is reached through a router: such a model is spelled
/// `provider,model`.
pub fn claude_uses_ccr(model: Option<&str>) -> (r: bool)
    ensures
        r == (model is Some && model->0@.contains(',')),
{
    match model {
        Some(m) => text::contains_char(m, ','),
        None => false,
    }
}

} // verus!
