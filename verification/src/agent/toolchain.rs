//! The Rust toolchain contract of a run.

use crate::path;
use crate::path::{Component, ComponentView};
use crate::text;
use vstd::prelude::*;
use vstd::string::*;

verus! {

/// The toolchain that a run must use, and how the agent is told.
#[derive(Debug, PartialEq, Eq)]
pub struct RustToolchainContext {
    pub required_version: String,
    pub prompt_block: String,
    /// The checkout the contract was read from, if one was found. Recorded in
    /// the stage manifest so a run resuming from a snapshot can find it again.
    pub test_corpus_root: Option<String>,
}

// ── Reading versions ─────────────────────────────────────────────────────

/// `s` unless it is empty.
pub open spec fn nonempty(s: Seq<char>) -> Option<Seq<char>> {
    if s.len() == 0 {
        None
    } else {
        Some(s)
    }
}

/// White space and then double quotes taken off both ends.
pub open spec fn unquoted(s: Seq<char>) -> Seq<char> {
    text::trim_char_of(text::trim_of(s), '"')
}

/// The value on the first line that starts with `key`: what follows its `=`,
/// unquoted. None when that line has no `=` or no value.
pub open spec fn quoted_value_in(lines: Seq<Seq<char>>, key: Seq<char>) -> Option<Seq<char>>
    decreases lines.len(),
{
    if lines.len() == 0 {
        None
    } else {
        let line = text::trim_of(lines[0]);
        if !text::has_prefix(line, key) {
            quoted_value_in(lines.skip(1), key)
        } else {
            let n = text::index_of(line, '=');
            if n < line.len() {
                nonempty(unquoted(line.skip(n + 1)))
            } else {
                None
            }
        }
    }
}

/// The value of `key` in the text of a configuration file, such as `channel` in
/// `rust-toolchain.toml` or `rust-version` in `Cargo.toml`.
pub fn read_quoted_value(content: &str, key: &str) -> (r: Option<String>)
    ensures
        text::opt_text(r) == quoted_value_in(text::lines_of(content@), key@),
{
    let lines = text::lines(content);
    let ghost all = text::texts(lines@);
    let mut i: usize = 0;
    assert(all.skip(0) =~= all);
    while i < lines.len()
        invariant
            i <= lines@.len(),
            all == text::texts(lines@),
            quoted_value_in(all.skip(i as int), key@) == quoted_value_in(
                text::lines_of(content@),
                key@,
            ),
        decreases lines@.len() - i,
    {
        assert(all.skip(i as int)[0] == lines@[i as int]@);
        assert(all.skip(i as int).skip(1) =~= all.skip(i + 1));
        let line = text::trim(lines[i].as_str());
        if text::starts_with(line.as_str(), key) {
            proof {
                text::index_of_bounds(line@, '=');
            }
            return match text::split_once(line.as_str(), '=') {
                None => None,
                Some((_, value)) => {
                    let trimmed = text::trim(value.as_str());
                    let v = text::trim_char(trimmed.as_str(), '"');
                    if v.as_str().is_empty() {
                        None
                    } else {
                        Some(v)
                    }
                },
            };
        }
        i = i + 1;
    }
    None
}

/// The channel of a checkout: the `channel` of its `rust-toolchain.toml`, else
/// the whole of its `rust-toolchain`.
pub open spec fn channel_of(toml: Option<Seq<char>>, plain: Option<Seq<char>>) -> Option<Seq<char>> {
    let from_toml = match toml {
        Some(s) => quoted_value_in(text::lines_of(s), "channel"@),
        None => None,
    };
    match from_toml {
        Some(v) => nonempty(unquoted(v)),
        None => match plain {
            Some(s) => nonempty(unquoted(s)),
            None => None,
        },
    }
}

/// The toolchain channel of a checkout, from the texts of its
/// `rust-toolchain.toml` and `rust-toolchain`.
pub fn read_toolchain_channel(toml: Option<&str>, plain: Option<&str>) -> (r: Option<String>)
    ensures
        text::opt_text(r) == channel_of(
            match toml {
                Some(s) => Some(s@),
                None => None,
            },
            match plain {
                Some(s) => Some(s@),
                None => None,
            },
        ),
{
    let from_toml = match toml {
        Some(s) => read_quoted_value(s, "channel"),
        None => None,
    };
    let raw = match from_toml {
        Some(v) => v,
        None => match plain {
            Some(s) => s.to_owned(),
            None => {
                return None;
            },
        },
    };
    let trimmed = text::trim(raw.as_str());
    let v = text::trim_char(trimmed.as_str(), '"');
    if v.as_str().is_empty() {
        None
    } else {
        Some(v)
    }
}

/// The second word of the output of `rustc --version`.
pub fn parse_rustc_semver(version: &str) -> (r: Option<String>)
    ensures
        text::opt_text(r) == if text::words_of(version@).len() > 1 {
            Some(text::words_of(version@)[1])
        } else {
            None
        },
{
    let words = text::words(version);
    assert(text::texts(words@).len() == words@.len());
    if words.len() > 1 {
        assert(text::texts(words@)[1] == words@[1]@);
        Some(words[1].clone())
    } else {
        None
    }
}

// ── Finding the corpus ───────────────────────────────────────────────────

/// The number of components up to and with the last one named `Test-Corpus`.
pub open spec fn corpus_depth(cs: Seq<ComponentView>) -> int
    decreases cs.len(),
{
    if cs.len() == 0 {
        0
    } else if cs.last() == ComponentView::Normal("Test-Corpus"@) {
        cs.len() as int
    } else {
        corpus_depth(cs.drop_last())
    }
}

/// The corpus checkout of an input path: the nearest directory above it, or it
/// itself, that is named `Test-Corpus`; else `Test-Corpus` next to the program,
/// if that exists.
pub open spec fn corpus_root_of(
    input_path: Seq<char>,
    repo_root: Seq<char>,
    exists_here: bool,
) -> Option<Seq<char>> {
    let cs = path::components_of(path::joined(repo_root, input_path));
    let n = corpus_depth(cs);
    if n > 0 {
        Some(path::components_text(cs.take(n)))
    } else if exists_here {
        Some(path::joined(repo_root, "Test-Corpus"@))
    } else {
        None
    }
}

/// Locates the corpus checkout for an input path. `exists_here` tells whether
/// there is a `Test-Corpus` in `repo_root`.
pub fn find_test_corpus_root(input_path: &str, repo_root: &str, exists_here: bool) -> (r: Option<
    String,
>)
    ensures
        text::opt_text(r) == corpus_root_of(input_path@, repo_root@, exists_here),
{
    let absolute = path::join(repo_root, input_path);
    let cs = path::components(absolute.as_str());
    let ghost all = path::component_views(cs@);
    let mut n: usize = cs.len();
    assert(all.take(n as int) =~= all);
    while n > 0
        invariant
            n <= cs@.len(),
            all == path::component_views(cs@),
            all == path::components_of(path::joined(repo_root@, input_path@)),
            corpus_depth(all.take(n as int)) == corpus_depth(all),
        decreases n,
    {
        assert(all.take(n as int).last() == cs@[n - 1].view());
        assert(all.take(n as int).drop_last() =~= all.take(n - 1));
        if let Component::Normal(name) = &cs[n - 1] {
            if text::same(name.as_str(), "Test-Corpus") {
                return Some(path::text_of_components(&cs, n));
            }
        }
        n = n - 1;
    }
    if exists_here {
        Some(path::join(repo_root, "Test-Corpus"))
    } else {
        None
    }
}

// ── The contract ─────────────────────────────────────────────────────────

/// What was found out about a run's toolchain.
#[derive(Debug)]
pub struct ToolchainFacts {
    /// Channel of the program's own checkout.
    pub root_channel: Option<String>,
    /// The corpus checkout.
    pub corpus_root: Option<String>,
    /// Its channel.
    pub corpus_channel: Option<String>,
    /// The `rust-version` of its cando2.
    pub cando2_version: Option<String>,
    /// Output of `rustc --version`, or why there is none.
    pub rustc_version: Result<String, String>,
    /// Output of `cargo --version`, or why there is none.
    pub cargo_version: Result<String, String>,
}

/// The version that cando2 asks for, else the corpus, else this checkout.
pub open spec fn required_of(facts: ToolchainFacts) -> Option<Seq<char>> {
    match facts.cando2_version {
        Some(v) => Some(v@),
        None => match facts.corpus_channel {
            Some(v) => Some(v@),
            None => text::opt_text(facts.root_channel),
        },
    }
}

pub open spec fn mismatch_message(label: Seq<char>, found: Seq<char>, required: Seq<char>) -> Seq<
    char,
> {
    "Rust toolchain contract mismatch: "@ + label + " is "@ + found + ", required version is "@
        + required
}

pub open spec fn disagrees(found: Option<String>, required: Seq<char>) -> bool {
    found is Some && found->0@ != required
}

pub open spec fn prompt_block_of(required: Seq<char>, rustc: Seq<char>, cargo: Seq<char>) -> Seq<
    char,
> {
    "### Rust toolchain contract\n- Required Rust toolchain: `"@ + required
        + "`\n- Detected rustc: `"@ + text::trim_of(rustc) + "`\n- Detected cargo: `"@
        + text::trim_of(cargo)
        + "`\n- All self-tests and build checks MUST use this exact toolchain. Run Cargo as `RUSTUP_TOOLCHAIN="@
        + required + " cargo ...` (or verify `rustc --version` reports `"@ + required
        + "` first). If a different Rust version is active, stop and report an environment/toolchain problem instead of treating test failures as translation bugs."@
}

/// What the contract is, or why there is none.
pub enum ContractView {
    Context { required: Seq<char>, block: Seq<char> },
    Refused(Seq<char>),
}

pub open spec fn contract_of(facts: ToolchainFacts) -> ContractView {
    match required_of(facts) {
        None => ContractView::Refused(
            "Unable to determine required Rust toolchain version from rust-toolchain.toml or cando2 Cargo.toml"@,
        ),
        Some(required) => if disagrees(facts.root_channel, required) {
            ContractView::Refused(
                mismatch_message(
                    "HARVEST rust-toolchain.toml"@,
                    facts.root_channel->0@,
                    required,
                ),
            )
        } else if disagrees(facts.corpus_channel, required) {
            ContractView::Refused(
                mismatch_message(
                    "Test-Corpus rust-toolchain.toml"@,
                    facts.corpus_channel->0@,
                    required,
                ),
            )
        } else {
            match (facts.rustc_version, facts.cargo_version) {
                (Err(e), _) => ContractView::Refused(e@),
                (Ok(_), Err(e)) => ContractView::Refused(e@),
                (Ok(rustc), Ok(cargo)) => {
                    let words = text::words_of(rustc@);
                    if words.len() < 2 {
                        ContractView::Refused(
                            "Could not parse rustc version from `"@ + text::trim_of(rustc@) + "`"@,
                        )
                    } else if words[1] != required {
                        ContractView::Refused(
                            "Rust toolchain mismatch: required "@ + required
                                + " from Test-Corpus/cando2 contract, but active rustc is "@
                                + words[1] + " (`"@ + text::trim_of(rustc@) + "`)"@,
                        )
                    } else {
                        ContractView::Context {
                            required,
                            block: prompt_block_of(required, rustc@, cargo@),
                        }
                    }
                },
            }
        },
    }
}

/// Refuses a version that is not the required one.
pub fn check_version_match(label: &str, found: &Option<String>, required: &str) -> (r: Result<
    (),
    String,
>)
    ensures
        (match r {
            Ok(_) => !disagrees(*found, required@),
            Err(e) => disagrees(*found, required@) && e@ == mismatch_message(
                label@,
                found->0@,
                required@,
            ),
        }),
{
    match found {
        Some(v) => {
            if text::same(v.as_str(), required) {
                Ok(())
            } else {
                let mut e = "Rust toolchain contract mismatch: ".to_owned();
                e.append(label);
                e.append(" is ");
                e.append(v.as_str());
                e.append(", required version is ");
                e.append(required);
                Err(e)
            }
        },
        None => Ok(()),
    }
}

/// Detects the Rust toolchain contract for a run. All versions that are stated
/// must agree, and the active compiler must be of that version.
pub fn detect_rust_toolchain_context(facts: &ToolchainFacts) -> (r: Result<
    RustToolchainContext,
    String,
>)
    ensures
        (match contract_of(*facts) {
            ContractView::Context { required, block } => {
                &&& r is Ok
                &&& r->Ok_0.required_version@ == required
                &&& r->Ok_0.prompt_block@ == block
                &&& text::opt_text(r->Ok_0.test_corpus_root) == text::opt_text(
                    facts.corpus_root,
                )
            },
            ContractView::Refused(message) => r is Err && r->Err_0@ == message,
        }),
{
    let stated = match &facts.cando2_version {
        Some(v) => Some(v.clone()),
        None => match &facts.corpus_channel {
            Some(v) => Some(v.clone()),
            None => text::copy_opt(&facts.root_channel),
        },
    };
    let required = match stated {
        Some(v) => v,
        None => {
            return Err(
                "Unable to determine required Rust toolchain version from rust-toolchain.toml or cando2 Cargo.toml".to_owned(),
            );
        },
    };
    if let Err(e) = check_version_match(
        "HARVEST rust-toolchain.toml",
        &facts.root_channel,
        required.as_str(),
    ) {
        return Err(e);
    }
    if let Err(e) = check_version_match(
        "Test-Corpus rust-toolchain.toml",
        &facts.corpus_channel,
        required.as_str(),
    ) {
        return Err(e);
    }
    if let Err(e) = check_version_match(
        "cando2 rust-version",
        &facts.cando2_version,
        required.as_str(),
    ) {
        return Err(e);
    }
    let rustc = match &facts.rustc_version {
        Ok(v) => v.as_str(),
        Err(e) => {
            return Err(e.clone());
        },
    };
    let cargo = match &facts.cargo_version {
        Ok(v) => v.as_str(),
        Err(e) => {
            return Err(e.clone());
        },
    };
    let trimmed = text::trim(rustc);
    let active = match parse_rustc_semver(rustc) {
        Some(v) => v,
        None => {
            let mut e = "Could not parse rustc version from `".to_owned();
            e.append(trimmed.as_str());
            e.append("`");
            return Err(e);
        },
    };
    if !text::same(active.as_str(), required.as_str()) {
        let mut e = "Rust toolchain mismatch: required ".to_owned();
        e.append(required.as_str());
        e.append(" from Test-Corpus/cando2 contract, but active rustc is ");
        e.append(active.as_str());
        e.append(" (`");
        e.append(trimmed.as_str());
        e.append("`)");
        return Err(e);
    }
    let mut block = "### Rust toolchain contract\n- Required Rust toolchain: `".to_owned();
    block.append(required.as_str());
    block.append("`\n- Detected rustc: `");
    block.append(trimmed.as_str());
    block.append("`\n- Detected cargo: `");
    block.append(text::trim(cargo).as_str());
    block.append(
        "`\n- All self-tests and build checks MUST use this exact toolchain. Run Cargo as `RUSTUP_TOOLCHAIN=",
    );
    block.append(required.as_str());
    block.append(" cargo ...` (or verify `rustc --version` reports `");
    block.append(required.as_str());
    block.append(
        "` first). If a different Rust version is active, stop and report an environment/toolchain problem instead of treating test failures as translation bugs.",
    );
    Ok(
        RustToolchainContext {
            required_version: required,
            prompt_block: block,
            test_corpus_root: text::copy_opt(&facts.corpus_root),
        },
    )
}

/// When there is a contract, every version that is stated is the required one,
/// and so is the active compiler's.
pub proof fn contract_versions_agree(facts: ToolchainFacts)
    requires
        contract_of(facts) is Context,
    ensures
        ({
            let required = contract_of(facts)->required;
            &&& facts.root_channel is Some ==> facts.root_channel->0@ == required
            &&& facts.corpus_channel is Some ==> facts.corpus_channel->0@ == required
            &&& facts.cando2_version is Some ==> facts.cando2_version->0@ == required
            &&& facts.rustc_version is Ok
            &&& text::words_of(facts.rustc_version->Ok_0@)[1] == required
        }),
{
}

// ── What the readings mean ───────────────────────────────────────────────

/// Which line a value is read from.
pub open spec fn is_first_with(lines: Seq<Seq<char>>, key: Seq<char>, i: int) -> bool {
    &&& 0 <= i < lines.len()
    &&& key.is_prefix_of(text::trim_of(lines[i]))
    &&& forall|j: int| 0 <= j < i ==> !key.is_prefix_of(text::trim_of(#[trigger] lines[j]))
}

proof fn the_first_line_counts(lines: Seq<Seq<char>>, key: Seq<char>, i: int)
    requires
        is_first_with(lines, key, i),
    ensures
        quoted_value_in(lines, key) == quoted_value_in(seq![lines[i]], key),
    decreases i,
{
    let line = text::trim_of(lines[0]);
    if i > 0 {
        assert(!key.is_prefix_of(line));
        assert(!text::has_prefix(line, key)) by {
            if text::has_prefix(line, key) {
                assert(key =~= line.subrange(0, key.len() as int));
            }
        }
        let rest = lines.skip(1);
        assert forall|j: int| 0 <= j < i - 1 implies !key.is_prefix_of(
            text::trim_of(#[trigger] rest[j]),
        ) by {
            assert(rest[j] == lines[j + 1]);
        }
        assert(rest[i - 1] == lines[i]);
        the_first_line_counts(rest, key, i - 1);
    } else {
        assert(key =~= line.subrange(0, key.len() as int));
        assert(text::has_prefix(line, key));
    }
}

/// A value is read from the first line that starts with its key, and only from what
/// follows the `=` there: whatever stands on the other lines, the answer is the same.
pub proof fn values_are_read_from_the_first_line(
    one: &str,
    two: &str,
    key: &str,
    a: Option<String>,
    b: Option<String>,
    i: int,
    k: int,
    name: Seq<char>,
    rest: Seq<char>,
)
    requires
        call_ensures(read_quoted_value, (one, key), a),
        call_ensures(read_quoted_value, (two, key), b),
        is_first_with(text::lines_of(one@), key@, i),
        is_first_with(text::lines_of(two@), key@, k),
        text::trim_of(text::lines_of(one@)[i]) == name + seq!['='] + rest,
        text::trim_of(text::lines_of(two@)[k]) == name + seq!['='] + rest,
        !name.contains('='),
    ensures
        text::opt_text(a) == text::opt_text(b),
        a is None <==> unquoted(rest).len() == 0,
        a is Some ==> a->0@ == unquoted(rest),
{
    the_first_line_counts(text::lines_of(one@), key@, i);
    the_first_line_counts(text::lines_of(two@), key@, k);
    let line = name + seq!['='] + rest;
    assert(line[name.len() as int] == '=');
    assert forall|j: int| 0 <= j < name.len() implies line[j] != '=' by {
        assert(name.contains(name[j]));
    }
    text::index_of_unique(line, '=', name.len() as int);
    assert(line.skip(name.len() as int + 1) =~= rest);
    let l1 = text::lines_of(one@)[i];
    let l2 = text::lines_of(two@)[k];
    assert(key@ =~= line.subrange(0, key@.len() as int));
    assert(seq![l1][0] == l1 && seq![l2][0] == l2);
    assert(text::has_prefix(line, key@));
}

/// The table's channel comes first: where it has one, the plain file says nothing; and
/// where it has none, the plain file decides as if it stood alone.
pub proof fn the_table_comes_first(
    toml: &str,
    plain: Option<&str>,
    other: Option<&str>,
    told: Option<String>,
    a: Option<String>,
    b: Option<String>,
    alone: Option<String>,
)
    requires
        call_ensures(read_quoted_value, (toml, "channel"), told),
        call_ensures(read_toolchain_channel, (Some(toml), plain), a),
        call_ensures(read_toolchain_channel, (Some(toml), other), b),
        call_ensures(read_toolchain_channel, (None, plain), alone),
    ensures
        told is Some ==> text::opt_text(a) == text::opt_text(b),
        told is None ==> text::opt_text(a) == text::opt_text(alone),
        plain is None ==> alone is None,
        plain is Some && unquoted(plain->0@).len() > 0 ==> alone is Some && alone->0@ == unquoted(
            plain->0@,
        ),
{
}

/// The number of components that lead to the corpus ends at one of its name, with no
/// other of that name below.
proof fn depths_end_at_the_name(cs: Seq<ComponentView>)
    ensures
        ({
            let n = corpus_depth(cs);
            &&& 0 <= n <= cs.len()
            &&& n > 0 ==> cs[n - 1] == ComponentView::Normal("Test-Corpus"@)
            &&& forall|j: int|
                n <= j < cs.len() ==> #[trigger] cs[j] != ComponentView::Normal("Test-Corpus"@)
        }),
    decreases cs.len(),
{
    if cs.len() > 0 && cs.last() != ComponentView::Normal("Test-Corpus"@) {
        depths_end_at_the_name(cs.drop_last());
        assert forall|j: int| corpus_depth(cs) <= j < cs.len() implies #[trigger] cs[j]
            != ComponentView::Normal("Test-Corpus"@) by {
            if j < cs.len() - 1 {
                assert(cs.drop_last()[j] == cs[j]);
            }
        }
    }
}

/// The corpus of an input is the nearest directory of that name on its path; only where
/// the path has none is the one beside the program taken, and only if it is there.
pub proof fn the_nearest_corpus_is_found(
    input_path: &str,
    repo_root: &str,
    exists_here: bool,
    r: Option<String>,
    n: int,
)
    requires
        call_ensures(find_test_corpus_root, (input_path, repo_root, exists_here), r),
    ensures
        ({
            let cs = path::components_of(path::joined(repo_root@, input_path@));
            let corpus = ComponentView::Normal("Test-Corpus"@);
            &&& 0 < n <= cs.len() && cs[n - 1] == corpus && (forall|j: int|
                n <= j < cs.len() ==> #[trigger] cs[j] != corpus) ==> r is Some && r->0@
                == path::components_text(cs.take(n))
            &&& !cs.contains(corpus) && exists_here ==> r is Some && r->0@ == path::joined(
                repo_root@,
                "Test-Corpus"@,
            )
            &&& !cs.contains(corpus) && !exists_here ==> r is None
        }),
{
    let cs = path::components_of(path::joined(repo_root@, input_path@));
    let corpus = ComponentView::Normal("Test-Corpus"@);
    let d = corpus_depth(cs);
    depths_end_at_the_name(cs);
    if d > 0 {
        assert(cs.contains(cs[d - 1]));
    }
    if 0 < n <= cs.len() && cs[n - 1] == corpus && (forall|j: int|
        n <= j < cs.len() ==> #[trigger] cs[j] != corpus) {
        if n < d {
            assert(cs[d - 1] != corpus);
        }
        if d < n {
            assert(cs[n - 1] != corpus);
        }
        assert(d == n);
    }
}

/// The contract tells the agent the version that is required, and the compiler and the
/// package manager that were found, each for what it is.
pub proof fn contracts_tell_what_was_found(
    facts: &ToolchainFacts,
    r: Result<RustToolchainContext, String>,
)
    requires
        call_ensures(detect_rust_toolchain_context, (facts,), r),
    ensures
        r matches Ok(c) ==> {
            &&& text::has_prefix(
                c.prompt_block@,
                "### Rust toolchain contract\n- Required Rust toolchain: `"@ + c.required_version@,
            )
            &&& text::contains_text(
                c.prompt_block@,
                "`\n- Detected rustc: `"@ + text::trim_of(facts.rustc_version->Ok_0@),
            )
            &&& text::contains_text(
                c.prompt_block@,
                "`\n- Detected cargo: `"@ + text::trim_of(facts.cargo_version->Ok_0@),
            )
            &&& text::contains_text(
                c.prompt_block@,
                c.required_version@ + " cargo ...` (or verify `rustc --version` reports `"@
                    + c.required_version@,
            )
        },
{
    if let Ok(c) = r {
        let v = c.required_version@;
        let a = "### Rust toolchain contract\n- Required Rust toolchain: `"@ + v;
        let b = "`\n- Detected rustc: `"@ + text::trim_of(facts.rustc_version->Ok_0@);
        let d = "`\n- Detected cargo: `"@ + text::trim_of(facts.cargo_version->Ok_0@);
        let e =
            "`\n- All self-tests and build checks MUST use this exact toolchain. Run Cargo as `RUSTUP_TOOLCHAIN="@;
        let f = v + " cargo ...` (or verify `rustc --version` reports `"@ + v;
        let g =
            "` first). If a different Rust version is active, stop and report an environment/toolchain problem instead of treating test failures as translation bugs."@;
        assert(c.prompt_block@ =~= a + b + (d + e + f + g));
        text::part_is_held(a, b, d + e + f + g);
        assert(c.prompt_block@ =~= a + b + d + (e + f + g));
        text::part_is_held(a + b, d, e + f + g);
        assert(c.prompt_block@ =~= a + b + d + e + f + g);
        text::part_is_held(a + b + d + e, f, g);
        assert(c.prompt_block@.subrange(0, a.len() as int) =~= a);
    }
}

/// A version that is not the required one is refused with the place it stands in, what
/// it is there, and what it should be.
pub proof fn disagreements_are_named(
    facts: &ToolchainFacts,
    r: Result<RustToolchainContext, String>,
    required: Seq<char>,
)
    requires
        call_ensures(detect_rust_toolchain_context, (facts,), r),
        facts.cando2_version is Some,
        facts.cando2_version->0@ == required,
    ensures
        facts.root_channel matches Some(v) ==> v@ != required ==> r is Err && r->Err_0@
            == "Rust toolchain contract mismatch: "@ + "HARVEST rust-toolchain.toml"@ + " is "@ + v@
            + ", required version is "@ + required,
        (facts.root_channel matches Some(v) ==> v@ == required) ==> (facts.corpus_channel matches Some(
            c,
        ) ==> c@ != required ==> r is Err && r->Err_0@ == "Rust toolchain contract mismatch: "@
            + "Test-Corpus rust-toolchain.toml"@ + " is "@ + c@ + ", required version is "@
            + required),
{
}

} // verus!
