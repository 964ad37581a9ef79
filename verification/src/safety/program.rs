//! The metrics of a whole program.

use crate::safety::scope;
use crate::safety::scope::{Scope, ScopeMetrics, UnparsedFile};
use crate::safety::c_source;
use crate::safety::c_source::CSourceMetrics;
use crate::text;
use vstd::prelude::*;
use vstd::string::*;

verus! {

// ── A whole program ──────────────────────────────────────────────────────

/// A file of the translated crate: its path within the crate and its text, if
/// it could be read as text.
#[derive(Debug)]
pub struct SourceFile {
    pub path: String,
    pub content: Option<String>,
}

pub struct SourceFileView {
    pub path: Seq<char>,
    pub content: Option<Seq<char>>,
}

pub open spec fn source_file_views(v: Seq<SourceFile>) -> Seq<SourceFileView> {
    v.map_values(
        |f: SourceFile| SourceFileView { path: f.path@, content: text::opt_text(f.content) },
    )
}

/// The readable files of a scope.
pub open spec fn scope_sources(files: Seq<SourceFileView>, scope: Scope) -> Seq<
    (Seq<char>, Seq<char>),
>
    decreases files.len(),
{
    if files.len() == 0 {
        seq![]
    } else {
        let before = scope_sources(files.drop_last(), scope);
        let f = files.last();
        if scope::measured_scope(f.path) == Some(scope) && f.content is Some {
            before.push((f.path, f.content->0))
        } else {
            before
        }
    }
}

/// The paths of the unreadable files of a scope.
pub open spec fn scope_unreadable(files: Seq<SourceFileView>, scope: Scope) -> Seq<Seq<char>>
    decreases files.len(),
{
    if files.len() == 0 {
        seq![]
    } else {
        let before = scope_unreadable(files.drop_last(), scope);
        let f = files.last();
        if scope::measured_scope(f.path) == Some(scope) && f.content is None {
            before.push(f.path)
        } else {
            before
        }
    }
}

/// Everything measured about one translated program.
#[derive(Debug, PartialEq, Eq)]
pub struct SafetyMetrics {
    pub schema_version: u32,
    /// `src/**` + `build.rs`: the translation. The headline scope.
    pub library: ScopeMetrics,
    /// Agent-written tests and benches, measured separately on purpose.
    pub harness: ScopeMetrics,
    /// Rust outside both, if any.
    pub other: ScopeMetrics,
    pub c_source: CSourceMetrics,
}

pub const SCHEMA_VERSION: u32 = 1;

impl SafetyMetrics {
    /// Whether these are the metrics of a program. Each scope is measured from
    /// its own files alone.
    pub open spec fn measures(
        &self,
        files: Seq<SourceFileView>,
        c_files: Seq<(Seq<char>, Seq<char>)>,
    ) -> bool {
        &&& self.schema_version == SCHEMA_VERSION
        &&& self.library.measures(
            scope_sources(files, Scope::Library),
            scope_unreadable(files, Scope::Library),
        )
        &&& self.harness.measures(
            scope_sources(files, Scope::Harness),
            scope_unreadable(files, Scope::Harness),
        )
        &&& self.other.measures(
            scope_sources(files, Scope::Other),
            scope_unreadable(files, Scope::Other),
        )
        &&& self.c_source.measures(c_files)
    }
}

/// The readable and the unreadable files of a scope.
fn select_scope(files: &Vec<SourceFile>, scope: Scope) -> (r: (Vec<(String, String)>, Vec<String>))
    ensures
        scope::source_views(r.0@) == scope_sources(source_file_views(files@), scope),
        text::texts(r.1@) == scope_unreadable(source_file_views(files@), scope),
{
    broadcast use text::group_texts;

    let ghost all = source_file_views(files@);
    let mut readable: Vec<(String, String)> = Vec::new();
    let mut unreadable: Vec<String> = Vec::new();
    let mut i: usize = 0;
    assert(all.take(0) =~= seq![]);
    assert(scope::source_views(readable@) =~= seq![]);
    assert(text::texts(unreadable@) =~= seq![]);
    while i < files.len()
        invariant
            i <= files@.len(),
            all == source_file_views(files@),
            scope::source_views(readable@) == scope_sources(all.take(i as int), scope),
            text::texts(unreadable@) == scope_unreadable(all.take(i as int), scope),
        decreases files@.len() - i,
    {
        let f = &files[i];
        assert(all.take(i + 1).drop_last() =~= all.take(i as int));
        assert(all.take(i + 1).last() == (SourceFileView {
            path: f.path@,
            content: text::opt_text(f.content),
        }));
        let ghost before = scope::source_views(readable@);
        let here = match scope::rust_scope(f.path.as_str()) {
            Some(s) => s == scope,
            None => false,
        };
        if here {
            match &f.content {
                Some(src) => {
                    let path = f.path.clone();
                    let copy = src.clone();
                    readable.push((path, copy));
                    assert(scope::source_views(readable@) =~= before.push((f.path@, src@)));
                },
                None => {
                    let path = f.path.clone();
                    unreadable.push(path);
                },
            }
        }
        i = i + 1;
    }
    assert(all.take(i as int) =~= all);
    (readable, unreadable)
}

fn note_unreadable(m: ScopeMetrics, paths: &Vec<String>, Ghost(srcs): Ghost<Seq<(Seq<char>, Seq<char>)>>) -> (r: ScopeMetrics)
    requires
        m.measures(srcs, seq![]),
    ensures
        r.measures(srcs, text::texts(paths@)),
{
    let mut out = m;
    let ghost all = text::texts(paths@);
    let mut i: usize = 0;
    assert(all.take(0) =~= seq![]);
    while i < paths.len()
        invariant
            i <= paths@.len(),
            all == text::texts(paths@),
            out.measures(srcs, all.take(i as int)),
        decreases paths@.len() - i,
    {
        let ghost before = out.unparsed@;
        let ghost notes = scope::unreadable_notes(all.take(i as int));
        assert(all.take(i + 1) =~= all.take(i as int).push(paths@[i as int]@));
        out.files_unreadable = out.files_unreadable.saturating_add(1);
        out.partial = true;
        let path = paths[i].clone();
        let error = "file is not valid UTF-8 or could not be read".to_owned();
        let ghost pair = (path@, error@);
        out.unparsed.push(UnparsedFile { path, error, error_line: None });
        proof {
            assert(scope::unreadable_notes(all.take(i + 1)) =~= notes.push(pair));
            assert(scope::unparsed_views(out.unparsed@) =~= scope::unparsed_views(before).push(pair));
            assert(scope::unparsed_files(srcs) + notes.push(pair) =~= (scope::unparsed_files(srcs) + notes).push(
                pair,
            ));
            assert forall|j: int| 0 <= j < out.unparsed@.len() implies (#[trigger] out.unparsed@[j]).error_line is None by {
                if j < before.len() {
                    assert(out.unparsed@[j] == before[j]);
                }
            }
        }
        i = i + 1;
    }
    assert(all.take(i as int) =~= all);
    out
}

fn measure_in(files: &Vec<SourceFile>, scope: Scope) -> (r: ScopeMetrics)
    ensures
        r.measures(
            scope_sources(source_file_views(files@), scope),
            scope_unreadable(source_file_views(files@), scope),
        ),
{
    let (readable, unreadable) = select_scope(files, scope);
    let m = scope::measure_scope(&readable);
    let ghost srcs = scope::source_views(readable@);
    note_unreadable(m, &unreadable, Ghost(srcs))
}

/// Measures one translated program: its Rust, split by scope, and its C input.
///
/// Never fails. An unreadable or unparseable file is recorded and excluded from
/// both numerator and denominator; a metrics pass must not lose a translation
/// that cost hours of agent time.
pub fn measure(files: &Vec<SourceFile>, c_files: &Vec<(String, String)>) -> (r: SafetyMetrics)
    ensures
        r.measures(source_file_views(files@), scope::source_views(c_files@)),
{
    SafetyMetrics {
        schema_version: SCHEMA_VERSION,
        library: measure_in(files, Scope::Library),
        harness: measure_in(files, Scope::Harness),
        other: measure_in(files, Scope::Other),
        c_source: c_source::measure_c_source(c_files),
    }
}

} // verus!
