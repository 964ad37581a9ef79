//! Test configurations out of `CMakePresets.json`.
//!
//! Test cases declare their required build configuration via a CMake preset
//! named `"test"` or, failing that, the last non-hidden `configurePreset`:
//!
//! ```json
//! "cacheVariables": {
//!     "HASH_BACKEND": "blake",
//!     "SECPAR": "128f",
//!     "THASH": "simple"
//! }
//! ```
//!
//! The C `#ifdef` switches become Cargo features whose names match the
//! cache-variable values exactly. Builtin CMake keys (those starting with
//! `CMAKE_`) are filtered out.

use crate::json;
use crate::json::{Json, JsonView};
use crate::text;
use crate::text_map;
use crate::text_map::TextMap;
use vstd::prelude::*;
use vstd::string::*;

verus! {

/// One configuration the agent must verify: a set of CMake `-D` flags and the
/// matching Cargo feature list.
#[derive(Debug)]
pub struct TestConfig {
    /// CMake build flags ready to splice into a command line. Empty when no
    /// project-specific cache variables are set.
    pub cmake_flags: String,
    /// Cargo feature names matching the cache-variable values, in the order of
    /// the variables' names.
    pub cargo_features: Vec<String>,
}

impl Default for TestConfig {
    fn default() -> (r: Self)
        ensures
            r.is_blank(),
    {
        TestConfig { cmake_flags: String::new(), cargo_features: Vec::new() }
    }
}

pub open spec fn bullet_of(flags: Seq<char>, features: Seq<Seq<char>>) -> Seq<char> {
    "- cmake flags: `"@ + flags + "`\n  cargo features: `"@ + text::join_of(features, ","@) + "`"@
}

impl TestConfig {
    pub open spec fn is_blank(&self) -> bool {
        self.cmake_flags@.len() == 0 && self.cargo_features@.len() == 0
    }

    /// Whether this config carries no project-specific knobs.
    pub fn is_empty(&self) -> (r: bool)
        ensures
            r == self.is_blank(),
    {
        self.cmake_flags.as_str().is_empty() && self.cargo_features.len() == 0
    }

    /// Markdown bullet describing this config, for a verify prompt.
    pub fn as_markdown_bullet(&self) -> (r: String)
        ensures
            r@ == bullet_of(self.cmake_flags@, text::texts(self.cargo_features@)),
    {
        let mut s = "- cmake flags: `".to_owned();
        s.append(self.cmake_flags.as_str());
        s.append("`\n  cargo features: `");
        s.append(text::join(&self.cargo_features, ",").as_str());
        s.append("`");
        s
    }
}

// ── Which preset counts ──────────────────────────────────────────────────

/// The list of configure presets; empty when there is none.
pub open spec fn presets_of(doc: JsonView) -> Seq<JsonView> {
    match json::get_of(doc, "configurePresets"@) {
        Some(JsonView::Array(v)) => v,
        _ => seq![],
    }
}

/// The last preset of that name.
pub open spec fn preset_named(presets: Seq<JsonView>, name: Seq<char>) -> Option<JsonView>
    decreases presets.len(),
{
    if presets.len() == 0 {
        None
    } else if json::get_str_of(presets.last(), "name"@) == Some(name) {
        Some(presets.last())
    } else {
        preset_named(presets.drop_last(), name)
    }
}

pub open spec fn is_hidden(preset: JsonView) -> bool {
    match json::get_of(preset, "hidden"@) {
        Some(JsonView::Bool(b)) => b,
        _ => false,
    }
}

/// The last preset that is not hidden.
pub open spec fn last_visible(presets: Seq<JsonView>) -> Option<JsonView>
    decreases presets.len(),
{
    if presets.len() == 0 {
        None
    } else if !is_hidden(presets.last()) {
        Some(presets.last())
    } else {
        last_visible(presets.drop_last())
    }
}

/// The preset that configures the tests.
pub open spec fn target_of(presets: Seq<JsonView>) -> Option<JsonView> {
    match preset_named(presets, "test"@) {
        Some(p) => Some(p),
        None => last_visible(presets),
    }
}

// ── What it inherits ─────────────────────────────────────────────────────

/// The texts among JSON values.
pub open spec fn strings_in(v: Seq<JsonView>) -> Seq<Seq<char>>
    decreases v.len(),
{
    if v.len() == 0 {
        seq![]
    } else {
        match v.last() {
            JsonView::Str(s) => strings_in(v.drop_last()).push(s),
            _ => strings_in(v.drop_last()),
        }
    }
}

/// The names of the presets that a preset inherits from.
pub open spec fn parents_of(preset: JsonView) -> Seq<Seq<char>> {
    match json::get_of(preset, "inherits"@) {
        Some(JsonView::Str(s)) => seq![s],
        Some(JsonView::Array(v)) => strings_in(v),
        _ => seq![],
    }
}

pub type Vars = Map<Seq<char>, Seq<char>>;

/// `vars` with the text members among `members` set.
pub open spec fn with_members(vars: Vars, members: Seq<(Seq<char>, JsonView)>) -> Vars
    decreases members.len(),
{
    if members.len() == 0 {
        vars
    } else {
        let before = with_members(vars, members.drop_last());
        match members.last().1 {
            JsonView::Str(s) => before.insert(members.last().0, s),
            _ => before,
        }
    }
}

/// `vars` with the cache variables that a preset itself sets.
pub open spec fn with_own(vars: Vars, preset: JsonView) -> Vars {
    match json::get_of(preset, "cacheVariables"@) {
        Some(JsonView::Object(ms)) => with_members(vars, ms),
        _ => vars,
    }
}

/// `vars` with the cache variables of a preset: first those of the presets it
/// inherits from, in order, then its own. Undefined when inheritance goes on for
/// more than `depth` steps.
pub open spec fn inherited(
    vars: Vars,
    preset: JsonView,
    presets: Seq<JsonView>,
    depth: nat,
) -> Option<Vars>
    decreases depth, 1nat, 0nat,
{
    match all_inherited(vars, parents_of(preset), presets, depth) {
        Some(v) => Some(with_own(v, preset)),
        None => None,
    }
}

/// `vars` with the cache variables of the presets of the given names.
pub open spec fn all_inherited(
    vars: Vars,
    names: Seq<Seq<char>>,
    presets: Seq<JsonView>,
    depth: nat,
) -> Option<Vars>
    decreases depth, 0nat, names.len(),
{
    if names.len() == 0 {
        Some(vars)
    } else {
        match all_inherited(vars, names.drop_last(), presets, depth) {
            None => None,
            Some(v) => match preset_named(presets, names.last()) {
                None => Some(v),
                Some(p) => if depth == 0 {
                    None
                } else {
                    inherited(v, p, presets, (depth - 1) as nat)
                },
            },
        }
    }
}

/// The cache variables that a presets document sets for the tests. Undefined
/// when presets inherit from each other in a cycle.
pub open spec fn vars_of(doc: JsonView) -> Option<Vars> {
    match target_of(presets_of(doc)) {
        None => Some(Map::empty()),
        Some(t) => inherited(Map::empty(), t, presets_of(doc), presets_of(doc).len()),
    }
}

// ── Flags and features ───────────────────────────────────────────────────

pub open spec fn is_project_var(name: Seq<char>) -> bool {
    !text::has_prefix(name, "CMAKE_"@)
}

/// Whether `ps` lists the project-specific variables in ascending order.
pub open spec fn lists_project_vars(ps: Seq<(Seq<char>, Seq<char>)>, vars: Vars) -> bool {
    &&& text_map::ascending(ps)
    &&& forall|k: Seq<char>|
        #[trigger] text_map::map_of(ps).contains_key(k) <==> vars.contains_key(k) && is_project_var(k)
    &&& forall|k: Seq<char>|
        #[trigger] text_map::map_of(ps).contains_key(k) ==> text_map::map_of(ps)[k] == vars[k]
}

pub open spec fn flag_of(p: (Seq<char>, Seq<char>)) -> Seq<char> {
    "-D"@ + p.0 + "="@ + p.1
}

pub open spec fn flags_of(ps: Seq<(Seq<char>, Seq<char>)>) -> Seq<char> {
    text::join_of(ps.map_values(|p: (Seq<char>, Seq<char>)| flag_of(p)), " "@)
}

pub open spec fn features_of(ps: Seq<(Seq<char>, Seq<char>)>) -> Seq<Seq<char>> {
    ps.map_values(|p: (Seq<char>, Seq<char>)| p.1)
}

/// Whether `c` is the configuration that the variables make.
pub open spec fn configures(c: TestConfig, vars: Vars) -> bool {
    exists|ps: Seq<(Seq<char>, Seq<char>)>|
        #![trigger lists_project_vars(ps, vars)]
        {
            &&& lists_project_vars(ps, vars)
            &&& c.cmake_flags@ == flags_of(ps)
            &&& text::texts(c.cargo_features@) == features_of(ps)
        }
}

// ── Executable ───────────────────────────────────────────────────────────

/// The last preset of that name.
fn find_preset<'a>(presets: &'a Vec<Json>, name: &str) -> (r: Option<&'a Json>)
    ensures
        json::opt_view(r) == preset_named(json::json_views(presets@), name@),
{
    let ghost all = json::json_views(presets@);
    let mut i: usize = presets.len();
    assert(all.take(i as int) =~= all);
    while i > 0
        invariant
            i <= presets@.len(),
            all == json::json_views(presets@),
            preset_named(all.take(i as int), name@) == preset_named(all, name@),
        decreases i,
    {
        assert(all.take(i as int).last() == presets@[i - 1].view());
        assert(all.take(i as int).drop_last() =~= all.take(i - 1));
        if let Some(n) = presets[i - 1].get_str("name") {
            if text::same(n, name) {
                return Some(&presets[i - 1]);
            }
        }
        i = i - 1;
    }
    None
}

fn find_visible(presets: &Vec<Json>) -> (r: Option<&Json>)
    ensures
        json::opt_view(r) == last_visible(json::json_views(presets@)),
{
    let ghost all = json::json_views(presets@);
    let mut i: usize = presets.len();
    assert(all.take(i as int) =~= all);
    while i > 0
        invariant
            i <= presets@.len(),
            all == json::json_views(presets@),
            last_visible(all.take(i as int)) == last_visible(all),
        decreases i,
    {
        assert(all.take(i as int).last() == presets@[i - 1].view());
        assert(all.take(i as int).drop_last() =~= all.take(i - 1));
        let hidden = match presets[i - 1].get("hidden") {
            Some(Json::Bool(b)) => *b,
            _ => false,
        };
        if !hidden {
            return Some(&presets[i - 1]);
        }
        i = i - 1;
    }
    None
}

/// The names of the presets that a preset inherits from.
fn parent_names(preset: &Json) -> (r: Vec<String>)
    ensures
        text::texts(r@) == parents_of(preset.view()),
{
    broadcast use text::group_texts;

    let mut out: Vec<String> = Vec::new();
    assert(text::texts(out@) =~= seq![]);
    match preset.get("inherits") {
        Some(Json::Str(s)) => {
            let name = s.clone();
            out.push(name);
            assert(text::texts(out@) =~= seq![s@]);
        },
        Some(Json::Array(v)) => {
            proof {
                json::array_view(*v);
            }
            let ghost all = json::json_views(v@);
            let mut i: usize = 0;
            assert(all.take(0) =~= seq![]);
            while i < v.len()
                invariant
                    i <= v@.len(),
                    all == json::json_views(v@),
                    text::texts(out@) == strings_in(all.take(i as int)),
                decreases v@.len() - i,
            {
                assert(all.take(i + 1).last() == v@[i as int].view());
                assert(all.take(i + 1).drop_last() =~= all.take(i as int));
                if let Json::Str(s) = &v[i] {
                    let name = s.clone();
                    out.push(name);
                }
                i = i + 1;
            }
            assert(all.take(i as int) =~= all);
        },
        _ => {},
    }
    out
}

/// Sets the cache variables that a preset itself sets.
fn set_own(preset: &Json, merged: &mut TextMap)
    requires
        old(merged).wf(),
    ensures
        final(merged).wf(),
        final(merged).view() == with_own(old(merged).view(), preset.view()),
{
    match preset.get("cacheVariables") {
        Some(Json::Object(ms)) => {
            proof {
                json::object_view(*ms);
            }
            let ghost all = json::member_views(ms@);
            let ghost start = merged.view();
            let mut i: usize = 0;
            assert(all.take(0) =~= seq![]);
            while i < ms.len()
                invariant
                    i <= ms@.len(),
                    all == json::member_views(ms@),
                    merged.wf(),
                    merged.view() == with_members(start, all.take(i as int)),
                decreases ms@.len() - i,
            {
                assert(all.take(i + 1).last() == (ms@[i as int].0@, ms@[i as int].1.view()));
                assert(all.take(i + 1).drop_last() =~= all.take(i as int));
                if let Json::Str(s) = &ms[i].1 {
                    merged.insert(ms[i].0.clone(), s.clone());
                }
                i = i + 1;
            }
            assert(all.take(i as int) =~= all);
        },
        _ => {},
    }
}

/// Merges the cache variables of a preset and of those it inherits from. False
/// when inheritance goes on for more than `depth` steps.
fn walk_inherits(
    node: &Json,
    presets: &Vec<Json>,
    merged: &mut TextMap,
    depth: usize,
) -> (r: bool)
    requires
        old(merged).wf(),
    ensures
        final(merged).wf(),
        (match inherited(
            old(merged).view(),
            node.view(),
            json::json_views(presets@),
            depth as nat,
        ) {
            Some(v) => r && final(merged).view() == v,
            None => !r,
        }),
    decreases depth,
{
    let names = parent_names(node);
    let ghost start = merged.view();
    let ghost all = text::texts(names@);
    let ghost views = json::json_views(presets@);
    let mut i: usize = 0;
    assert(all.take(0) =~= seq![]);
    while i < names.len()
        invariant
            i <= names@.len(),
            all == text::texts(names@),
            all == parents_of(node.view()),
            start == old(merged).view(),
            views == json::json_views(presets@),
            merged.wf(),
            all_inherited(start, all.take(i as int), views, depth as nat) == Some(merged.view()),
        decreases names@.len() - i,
    {
        assert(all.take(i + 1).last() == names@[i as int]@);
        assert(all.take(i + 1).drop_last() =~= all.take(i as int));
        if let Some(parent) = find_preset(presets, names[i].as_str()) {
            if depth == 0 {
                proof {
                    undefined_stays(start, all, views, depth as nat, i + 1);
                }
                return false;
            }
            if !walk_inherits(parent, presets, merged, depth - 1) {
                proof {
                    undefined_stays(start, all, views, depth as nat, i + 1);
                }
                return false;
            }
        }
        i = i + 1;
    }
    assert(all.take(i as int) =~= all);
    set_own(node, merged);
    true
}

proof fn undefined_stays(
    vars: Vars,
    names: Seq<Seq<char>>,
    presets: Seq<JsonView>,
    depth: nat,
    n: int,
)
    requires
        0 <= n <= names.len(),
        all_inherited(vars, names.take(n), presets, depth) is None,
    ensures
        all_inherited(vars, names, presets, depth) is None,
    decreases names.len() - n,
{
    if n < names.len() {
        assert(names.take(n + 1).drop_last() =~= names.take(n));
        undefined_stays(vars, names, presets, depth, n + 1);
    } else {
        assert(names.take(n) =~= names);
    }
}

/// The configuration that merged cache variables make.
fn config_of_vars(merged: &TextMap) -> (r: TestConfig)
    requires
        merged.wf(),
    ensures
        configures(r, merged.view()),
{
    broadcast use text::group_texts;

    let ghost pairs = merged.pairs();
    let mut flags: Vec<String> = Vec::new();
    let mut features: Vec<String> = Vec::new();
    let ghost mut ps: Seq<(Seq<char>, Seq<char>)> = seq![];
    let ghost mut from: Seq<int> = seq![];
    let mut i: usize = 0;
    assert(text::texts(flags@) =~= ps.map_values(|p: (Seq<char>, Seq<char>)| flag_of(p)));
    assert(text::texts(features@) =~= features_of(ps));
    while i < merged.entries.len()
        invariant
            i <= merged.entries@.len(),
            pairs == merged.pairs(),
            text_map::ascending(pairs),
            from.len() == ps.len(),
            forall|j: int|
                #![trigger from[j]]
                0 <= j < from.len() ==> 0 <= from[j] < i && ps[j] == pairs[from[j]]
                    && is_project_var(ps[j].0),
            forall|j: int, k: int|
                #![trigger from[j], from[k]]
                0 <= j < k < from.len() ==> from[j] < from[k],
            forall|j: int|
                #![trigger pairs[j]]
                0 <= j < i && is_project_var(pairs[j].0) ==> from.contains(j),
            text::texts(flags@) == ps.map_values(|p: (Seq<char>, Seq<char>)| flag_of(p)),
            text::texts(features@) == features_of(ps),
        decreases merged.entries@.len() - i,
    {
        let key = &merged.entries[i].0;
        let value = &merged.entries[i].1;
        assert(pairs[i as int] == (key@, value@));
        if !text::starts_with(key.as_str(), "CMAKE_") {
            let mut flag = "-D".to_owned();
            flag.append(key.as_str());
            flag.append("=");
            flag.append(value.as_str());
            let ghost flag_text = flag@;
            flags.push(flag);
            let feature = value.clone();
            features.push(feature);
            proof {
                let old_from = from;
                let old_ps = ps;
                from = from.push(i as int);
                ps = ps.push((key@, value@));
                assert forall|j: int| #![trigger from[j]] 0 <= j < from.len() implies 0 <= from[j]
                    < i + 1 && ps[j] == pairs[from[j]] && is_project_var(ps[j].0) by {
                    if j < old_from.len() {
                        assert(from[j] == old_from[j]);
                        assert(ps[j] == old_ps[j]);
                    } else {
                        assert(from[j] == i);
                        assert(ps[j] == (key@, value@));
                    }
                }
                assert forall|j: int| #![trigger pairs[j]] 0 <= j < i + 1 && is_project_var(pairs[j].0) implies from.contains(
                    j,
                ) by {
                    if j < i {
                        let k = choose|k: int| 0 <= k < old_from.len() && old_from[k] == j;
                        assert(from[k] == j);
                    } else {
                        assert(from[from.len() - 1] == j);
                    }
                }
                assert(ps.map_values(|p: (Seq<char>, Seq<char>)| flag_of(p))
                    =~= old_ps.map_values(|p: (Seq<char>, Seq<char>)| flag_of(p)).push(flag_text));
                assert(features_of(ps) =~= features_of(old_ps).push(value@));
            }
        }
        i = i + 1;
    }
    let r = TestConfig { cmake_flags: text::join(&flags, " "), cargo_features: features };
    proof {
        let vars = merged.view();
        assert forall|a: int, b: int| #![trigger ps[a], ps[b]] 0 <= a < b < ps.len() implies text::text_less(
            ps[a].0,
            ps[b].0,
        ) by {
            assert(from[a] < from[b]);
            assert(text::text_less(pairs[from[a]].0, pairs[from[b]].0));
        }
        assert forall|k: Seq<char>|
            #[trigger] text_map::map_of(ps).contains_key(k) <==> vars.contains_key(k)
                && is_project_var(k) by {
            if text_map::map_of(ps).contains_key(k) {
                let j = choose|j: int| text_map::key_at(ps, k, j);
                assert(text_map::key_at(ps, k, j));
                assert(0 <= from[j]);
                text_map::map_of_at(pairs, from[j]);
            }
            if vars.contains_key(k) && is_project_var(k) {
                let n = choose|n: int| text_map::key_at(pairs, k, n);
                assert(text_map::key_at(pairs, k, n));
                assert(from.contains(n));
                let j = choose|j: int| 0 <= j < from.len() && from[j] == n;
                assert(text_map::key_at(ps, k, j));
            }
        }
        assert forall|k: Seq<char>| #[trigger] text_map::map_of(ps).contains_key(k) implies text_map::map_of(
            ps,
        )[k] == vars[k] by {
            let j = choose|j: int| text_map::key_at(ps, k, j);
            assert(text_map::key_at(ps, k, j));
            assert(0 <= from[j]);
            text_map::map_of_at(ps, j);
            text_map::map_of_at(pairs, from[j]);
        }
        assert(lists_project_vars(ps, vars));
    }
    r
}

/// The test config of a presets document. `None` when its presets inherit from
/// each other without end.
pub fn config_of_presets(doc: &Json) -> (r: Option<TestConfig>)
    ensures
        (match vars_of(doc.view()) {
            Some(vars) => r is Some && configures(r->0, vars),
            None => r is None,
        }),
{
    let mut merged = TextMap::new();
    match doc.get("configurePresets") {
        Some(Json::Array(presets)) => {
            proof {
                json::array_view(*presets);
            }
            let target = match find_preset(presets, "test") {
                Some(p) => Some(p),
                None => find_visible(presets),
            };
            if let Some(t) = target {
                if !walk_inherits(t, presets, &mut merged, presets.len()) {
                    return None;
                }
            }
        },
        _ => {},
    }
    Some(config_of_vars(&merged))
}

/// The test config in the text of a `CMakePresets.json`. Empty when there is no
/// text, when it is not JSON, or when it has no project-specific cache
/// variables; `None` when its presets inherit from each other without end.
pub fn read_test_config(content: Option<&str>) -> (r: Option<TestConfig>)
    ensures
        (match content {
            None => r is Some && r->0.is_blank(),
            Some(s) => match json::document_in(s@) {
                None => r is Some && r->0.is_blank(),
                Some(doc) => match vars_of(doc) {
                    Some(vars) => r is Some && configures(r->0, vars),
                    None => r is None,
                },
            },
        }),
{
    match content {
        None => Some(TestConfig::default()),
        Some(s) => match json::parse_json(s) {
            None => Some(TestConfig::default()),
            Some(doc) => config_of_presets(&doc),
        },
    }
}

/// The places where a presets file is looked for, in order: `dir`, the directory
/// above it, and the C source below it.
pub fn preset_candidates(start_dir: &str) -> (r: Vec<String>)
    ensures
        text::texts(r@) == seq![
            crate::path::joined(start_dir@, "CMakePresets.json"@),
            crate::path::joined(crate::path::joined(start_dir@, ".."@), "CMakePresets.json"@),
            crate::path::joined(start_dir@, "translated_rust/c_src/CMakePresets.json"@),
            crate::path::joined(start_dir@, "c_src/CMakePresets.json"@),
        ],
{
    let r = vec![
        crate::path::join(start_dir, "CMakePresets.json"),
        crate::path::join(crate::path::join(start_dir, "..").as_str(), "CMakePresets.json"),
        crate::path::join(start_dir, "translated_rust/c_src/CMakePresets.json"),
        crate::path::join(start_dir, "c_src/CMakePresets.json"),
    ];
    assert(text::texts(r@) =~= seq![
        crate::path::joined(start_dir@, "CMakePresets.json"@),
        crate::path::joined(crate::path::joined(start_dir@, ".."@), "CMakePresets.json"@),
        crate::path::joined(start_dir@, "translated_rust/c_src/CMakePresets.json"@),
        crate::path::joined(start_dir@, "c_src/CMakePresets.json"@),
    ]);
    r
}

/// Among the texts of the candidate files, the first that holds a test config
/// with project-specific knobs; empty when none does. `None` when a file before
/// it has presets that inherit from each other without end.
pub fn find_test_config(candidates: &Vec<Option<String>>) -> (r: Option<TestConfig>)
    ensures
        (match r {
            Some(c) => {
                ||| {
                    &&& c.is_blank()
                    &&& forall|i: int|
                        0 <= i < candidates@.len() ==> #[trigger] has_blank_config(candidates@[i])
                }
                ||| {
                    &&& !c.is_blank()
                    &&& exists|i: int|
                        {
                            &&& 0 <= i < candidates@.len()
                            &&& #[trigger] candidates@[i] is Some
                            &&& json::document_in(candidates@[i]->0@) is Some
                            &&& vars_of(json::document_in(candidates@[i]->0@)->0) is Some
                            &&& configures(
                                c,
                                vars_of(json::document_in(candidates@[i]->0@)->0)->0,
                            )
                            &&& forall|j: int|
                                0 <= j < i ==> #[trigger] has_blank_config(candidates@[j])
                        }
                }
            },
            None => exists|i: int|
                {
                    &&& 0 <= i < candidates@.len()
                    &&& #[trigger] candidates@[i] is Some
                    &&& json::document_in(candidates@[i]->0@) is Some
                    &&& vars_of(json::document_in(candidates@[i]->0@)->0) is None
                    &&& forall|j: int| 0 <= j < i ==> #[trigger] has_blank_config(candidates@[j])
                },
        }),
{
    let mut i: usize = 0;
    while i < candidates.len()
        invariant
            i <= candidates@.len(),
            forall|j: int| 0 <= j < i ==> #[trigger] has_blank_config(candidates@[j]),
        decreases candidates@.len() - i,
    {
        let content = match &candidates[i] {
            Some(s) => Some(s.as_str()),
            None => None,
        };
        match read_test_config(content) {
            None => {
                assert(candidates@[i as int] is Some);
                return None;
            },
            Some(c) => {
                if !c.is_empty() {
                    assert(candidates@[i as int] is Some);
                    return Some(c);
                }
                assert(has_blank_config(candidates@[i as int]));
            },
        }
        i = i + 1;
    }
    Some(TestConfig::default())
}

/// Whether a candidate file is missing, is not JSON or configures nothing.
pub open spec fn has_blank_config(content: Option<String>) -> bool {
    match content {
        None => true,
        Some(s) => match json::document_in(s@) {
            None => true,
            Some(doc) => match vars_of(doc) {
                None => false,
                Some(vars) => exists|c: TestConfig| c.is_blank() && #[trigger] configures(c, vars),
            },
        },
    }
}

/// Presets that inherit along a falling rank always have a configuration:
/// inheritance fails only where it goes round in a circle.
pub proof fn ranked_presets_resolve(
    vars: Vars,
    preset: JsonView,
    presets: Seq<JsonView>,
    rank: spec_fn(JsonView) -> nat,
    depth: nat,
)
    requires
        rank(preset) <= depth,
        forall|p: JsonView, i: int|
            #![trigger parents_of(p)[i]]
            0 <= i < parents_of(p).len() && preset_named(presets, parents_of(p)[i]) is Some
                ==> rank(preset_named(presets, parents_of(p)[i])->0) < rank(p),
    ensures
        inherited(vars, preset, presets, depth) is Some,
    decreases depth, parents_of(preset).len() + 1,
{
    ranked_parents_resolve(vars, preset, presets, rank, depth, parents_of(preset).len() as int);
    assert(parents_of(preset).take(parents_of(preset).len() as int) =~= parents_of(preset));
}

proof fn ranked_parents_resolve(
    vars: Vars,
    preset: JsonView,
    presets: Seq<JsonView>,
    rank: spec_fn(JsonView) -> nat,
    depth: nat,
    n: int,
)
    requires
        0 <= n <= parents_of(preset).len(),
        rank(preset) <= depth,
        forall|p: JsonView, i: int|
            #![trigger parents_of(p)[i]]
            0 <= i < parents_of(p).len() && preset_named(presets, parents_of(p)[i]) is Some
                ==> rank(preset_named(presets, parents_of(p)[i])->0) < rank(p),
    ensures
        all_inherited(vars, parents_of(preset).take(n), presets, depth) is Some,
    decreases depth, n,
{
    let names = parents_of(preset);
    if n > 0 {
        ranked_parents_resolve(vars, preset, presets, rank, depth, n - 1);
        assert(names.take(n).drop_last() =~= names.take(n - 1));
        assert(names.take(n).last() == names[n - 1]);
        let v = all_inherited(vars, names.take(n - 1), presets, depth)->0;
        if let Some(p) = preset_named(presets, names[n - 1]) {
            assert(rank(p) < rank(preset));
            ranked_presets_resolve(v, p, presets, rank, (depth - 1) as nat);
        }
    }
}

// ── Laws ─────────────────────────────────────────────────────────────────

/// The preset of the tests is the last one of that name.
pub proof fn the_test_preset_is_chosen(presets: Seq<JsonView>, i: int)
    requires
        0 <= i < presets.len(),
        json::get_str_of(presets[i], "name"@) == Some("test"@),
        forall|j: int|
            i < j < presets.len() ==> json::get_str_of(#[trigger] presets[j], "name"@) != Some(
                "test"@,
            ),
    ensures
        target_of(presets) == Some(presets[i]),
    decreases presets.len(),
{
    last_of_its_name(presets, "test"@, i);
}

proof fn last_of_its_name(presets: Seq<JsonView>, name: Seq<char>, i: int)
    requires
        0 <= i < presets.len(),
        json::get_str_of(presets[i], "name"@) == Some(name),
        forall|j: int|
            i < j < presets.len() ==> json::get_str_of(#[trigger] presets[j], "name"@) != Some(
                name,
            ),
    ensures
        preset_named(presets, name) == Some(presets[i]),
    decreases presets.len(),
{
    if i < presets.len() - 1 {
        assert(json::get_str_of(presets[presets.len() - 1], "name"@) != Some(name));
        assert(presets.drop_last()[i] == presets[i]);
        last_of_its_name(presets.drop_last(), name, i);
    }
}

proof fn none_of_that_name(presets: Seq<JsonView>, name: Seq<char>)
    requires
        forall|j: int|
            0 <= j < presets.len() ==> json::get_str_of(#[trigger] presets[j], "name"@) != Some(
                name,
            ),
    ensures
        preset_named(presets, name) is None,
    decreases presets.len(),
{
    if presets.len() > 0 {
        assert(json::get_str_of(presets[presets.len() - 1], "name"@) != Some(name));
        let front = presets.drop_last();
        assert forall|j: int| 0 <= j < front.len() implies json::get_str_of(
            #[trigger] front[j],
            "name"@,
        ) != Some(name) by {
            assert(front[j] == presets[j]);
        }
        none_of_that_name(front, name);
    }
}

/// Without a preset for the tests, the last one that is not hidden counts.
pub proof fn the_last_visible_preset_is_chosen(presets: Seq<JsonView>, i: int)
    requires
        0 <= i < presets.len(),
        forall|j: int|
            0 <= j < presets.len() ==> json::get_str_of(#[trigger] presets[j], "name"@) != Some(
                "test"@,
            ),
        json::get_of(presets[i], "hidden"@) != Some(JsonView::Bool(true)),
        forall|j: int|
            i < j < presets.len() ==> json::get_of(#[trigger] presets[j], "hidden"@) == Some(
                JsonView::Bool(true),
            ),
    ensures
        target_of(presets) == Some(presets[i]),
{
    none_of_that_name(presets, "test"@);
    visible_is_last(presets, i);
}

proof fn visible_is_last(presets: Seq<JsonView>, i: int)
    requires
        0 <= i < presets.len(),
        json::get_of(presets[i], "hidden"@) != Some(JsonView::Bool(true)),
        forall|j: int|
            i < j < presets.len() ==> json::get_of(#[trigger] presets[j], "hidden"@) == Some(
                JsonView::Bool(true),
            ),
    ensures
        last_visible(presets) == Some(presets[i]),
    decreases presets.len(),
{
    if i < presets.len() - 1 {
        assert(json::get_of(presets[presets.len() - 1], "hidden"@) == Some(JsonView::Bool(true)));
        assert(presets.drop_last()[i] == presets[i]);
        visible_is_last(presets.drop_last(), i);
    }
}

proof fn last_member_counts(vars: Vars, ms: Seq<(Seq<char>, JsonView)>, i: int, value: Seq<char>)
    requires
        0 <= i < ms.len(),
        ms[i].1 == JsonView::Str(value),
        forall|j: int| i < j < ms.len() ==> (#[trigger] ms[j]).0 != ms[i].0,
    ensures
        with_members(vars, ms).contains_key(ms[i].0),
        with_members(vars, ms)[ms[i].0] == value,
    decreases ms.len(),
{
    if i < ms.len() - 1 {
        assert(ms[ms.len() - 1].0 != ms[i].0);
        assert(ms.drop_last()[i] == ms[i]);
        last_member_counts(vars, ms.drop_last(), i, value);
    }
}

proof fn other_members_keep(vars: Vars, ms: Seq<(Seq<char>, JsonView)>, key: Seq<char>)
    requires
        forall|j: int| 0 <= j < ms.len() ==> (#[trigger] ms[j]).0 != key,
    ensures
        with_members(vars, ms).contains_key(key) <==> vars.contains_key(key),
        vars.contains_key(key) ==> with_members(vars, ms)[key] == vars[key],
    decreases ms.len(),
{
    if ms.len() > 0 {
        assert(ms[ms.len() - 1].0 != key);
        let front = ms.drop_last();
        assert forall|j: int| 0 <= j < front.len() implies (#[trigger] front[j]).0 != key by {
            assert(front[j] == ms[j]);
        }
        other_members_keep(vars, front, key);
    }
}

/// What a preset sets itself counts, whatever it inherits.
pub proof fn own_variables_count(
    vars: Vars,
    preset: JsonView,
    presets: Seq<JsonView>,
    depth: nat,
    ms: Seq<(Seq<char>, JsonView)>,
    i: int,
    value: Seq<char>,
)
    requires
        inherited(vars, preset, presets, depth) is Some,
        json::get_of(preset, "cacheVariables"@) == Some(JsonView::Object(ms)),
        0 <= i < ms.len(),
        ms[i].1 == JsonView::Str(value),
        forall|j: int| i < j < ms.len() ==> (#[trigger] ms[j]).0 != ms[i].0,
    ensures
        inherited(vars, preset, presets, depth)->0.contains_key(ms[i].0),
        inherited(vars, preset, presets, depth)->0[ms[i].0] == value,
{
    let v = all_inherited(vars, parents_of(preset), presets, depth)->0;
    last_member_counts(v, ms, i, value);
}

/// What a preset does not set itself, it has from the one that it inherits from.
pub proof fn other_variables_are_inherited(
    preset: JsonView,
    presets: Seq<JsonView>,
    depth: nat,
    parent: JsonView,
    name: Seq<char>,
    ms: Seq<(Seq<char>, JsonView)>,
    key: Seq<char>,
)
    requires
        json::get_of(preset, "inherits"@) == Some(JsonView::Str(name)),
        preset_named(presets, name) == Some(parent),
        depth > 0,
        inherited(Map::empty(), parent, presets, (depth - 1) as nat) is Some,
        json::get_of(preset, "cacheVariables"@) == Some(JsonView::Object(ms)),
        forall|j: int| 0 <= j < ms.len() ==> (#[trigger] ms[j]).0 != key,
    ensures
        ({
            let own = inherited(Map::empty(), preset, presets, depth);
            let theirs = inherited(Map::empty(), parent, presets, (depth - 1) as nat)->0;
            &&& own is Some
            &&& own->0.contains_key(key) <==> theirs.contains_key(key)
            &&& theirs.contains_key(key) ==> own->0[key] == theirs[key]
        }),
{
    let empty: Vars = Map::empty();
    let names = seq![name];
    assert(parents_of(preset) == names);
    assert(names.drop_last() =~= seq![]);
    assert(all_inherited(empty, names.drop_last(), presets, depth) == Some(empty));
    let theirs = inherited(empty, parent, presets, (depth - 1) as nat)->0;
    assert(all_inherited(empty, names, presets, depth) == Some(theirs));
    other_members_keep(theirs, ms, key);
}

/// Every variable of the project becomes a flag and a feature, and the builtin ones
/// become neither.
pub proof fn variables_become_flags_and_features(
    doc: &Json,
    r: Option<TestConfig>,
    feature: Seq<char>,
    key: Seq<char>,
)
    requires
        call_ensures(config_of_presets, (doc,), r),
    ensures
        r is Some <==> vars_of(doc.view()) is Some,
        r matches Some(c) ==> {
            let vars = vars_of(doc.view())->0;
            &&& text::texts(c.cargo_features@).contains(feature) <==> exists|k: Seq<char>|
                #[trigger] vars.contains_key(k) && !text::has_prefix(k, "CMAKE_"@) && vars[k]
                    == feature
            &&& vars.contains_key(key) && !text::has_prefix(key, "CMAKE_"@) ==> text::contains_text(
                c.cmake_flags@,
                "-D"@ + key + "="@ + vars[key],
            )
        },
{
    if let Some(c) = r {
        let vars = vars_of(doc.view())->0;
        let ps = choose|ps: Seq<(Seq<char>, Seq<char>)>|
            #![trigger lists_project_vars(ps, vars)]
            lists_project_vars(ps, vars) && c.cmake_flags@ == flags_of(ps) && text::texts(
                c.cargo_features@,
            ) == features_of(ps);
        let m = text_map::map_of(ps);
        let features = features_of(ps);
        if features.contains(feature) {
            let i = choose|i: int| 0 <= i < features.len() && features[i] == feature;
            text_map::map_of_at(ps, i);
            assert(m.contains_key(ps[i].0));
            assert(vars.contains_key(ps[i].0));
        }
        if exists|k: Seq<char>|
            #[trigger] vars.contains_key(k) && !text::has_prefix(k, "CMAKE_"@) && vars[k]
                == feature {
            let k = choose|k: Seq<char>|
                #[trigger] vars.contains_key(k) && !text::has_prefix(k, "CMAKE_"@) && vars[k]
                    == feature;
            assert(m.contains_key(k));
            let i = choose|i: int| text_map::key_at(ps, k, i);
            assert(text_map::key_at(ps, k, i));
            text_map::map_of_at(ps, i);
            assert(features[i] == feature);
        }
        if vars.contains_key(key) && !text::has_prefix(key, "CMAKE_"@) {
            assert(m.contains_key(key));
            let i = choose|i: int| text_map::key_at(ps, key, i);
            assert(text_map::key_at(ps, key, i));
            text_map::map_of_at(ps, i);
            let flags = ps.map_values(|p: (Seq<char>, Seq<char>)| flag_of(p));
            assert(flags[i] == "-D"@ + key + "="@ + vars[key]);
            text::joined_parts_are_held(flags, " "@, i);
        }
    }
}

} // verus!
