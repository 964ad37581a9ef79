//! What a transpilation leaves behind, and what is read out of it.

use crate::fs::raw_dir::RawDir;
use crate::full_source::ExternalTestSuite;
use crate::text;
use vstd::prelude::*;
use vstd::string::*;

verus! {

/// A file that a build produced.
#[derive(Debug)]
pub struct Artifact {
    pub target_name: String,
    pub executable: Option<String>,
}

/// What came of a build.
#[derive(Debug)]
pub struct CargoBuildResult {
    pub success: bool,
    /// The build's error output.
    pub err: String,
    pub artifacts: Vec<Artifact>,
}

/// The result of one tool.
#[derive(Debug)]
pub enum Representation {
    RawSource(RawDir),
    CargoPackage(RawDir),
    ExternalTestSuite(ExternalTestSuite),
    CargoBuild(CargoBuildResult),
    Other,
}

/// The results of a transpilation, in the order in which they were produced.
#[derive(Debug)]
pub struct HarvestIr {
    pub entries: Vec<Representation>,
}

/// The place of the last entry with a property.
pub open spec fn is_last(
    v: Seq<Representation>,
    i: int,
    holds: spec_fn(Representation) -> bool,
) -> bool {
    &&& 0 <= i < v.len()
    &&& holds(v[i])
    &&& forall|k: int| i < k < v.len() ==> !holds(#[trigger] v[k])
}

pub open spec fn has_none(v: Seq<Representation>, holds: spec_fn(Representation) -> bool) -> bool {
    forall|k: int| 0 <= k < v.len() ==> !holds(#[trigger] v[k])
}

/// How many entries have a property.
pub open spec fn count_of(v: Seq<Representation>, holds: spec_fn(Representation) -> bool) -> nat
    decreases v.len(),
{
    if v.len() == 0 {
        0
    } else {
        count_of(v.drop_last(), holds) + if holds(v.last()) {
            1nat
        } else {
            0nat
        }
    }
}

proof fn count_bounds(v: Seq<Representation>, holds: spec_fn(Representation) -> bool)
    ensures
        count_of(v, holds) <= v.len(),
        count_of(v, holds) == 0 <==> has_none(v, holds),
    decreases v.len(),
{
    if v.len() > 0 {
        let front = v.drop_last();
        count_bounds(front, holds);
        if has_none(v, holds) {
            assert forall|k: int| 0 <= k < front.len() implies !holds(#[trigger] front[k]) by {
                assert(front[k] == v[k]);
            }
            assert(!holds(v[v.len() - 1]));
        }
        if count_of(v, holds) == 0 {
            assert forall|k: int| 0 <= k < v.len() implies !holds(#[trigger] v[k]) by {
                if k < front.len() {
                    assert(front[k] == v[k]);
                }
            }
        }
    }
}

pub open spec fn is_package() -> spec_fn(Representation) -> bool {
    |r: Representation| r is CargoPackage
}

pub open spec fn is_source() -> spec_fn(Representation) -> bool {
    |r: Representation| r is RawSource
}

pub open spec fn is_suite() -> spec_fn(Representation) -> bool {
    |r: Representation| r is ExternalTestSuite
}

pub open spec fn is_build() -> spec_fn(Representation) -> bool {
    |r: Representation| r is CargoBuild
}

/// The final package. Where several tools each produced one, the last is the most
/// recent.
pub fn raw_cargo_package(ir: &HarvestIr) -> (r: Result<&RawDir, String>)
    ensures
        (match r {
            Ok(d) => exists|i: int|
                is_last(ir.entries@, i, is_package()) && ir.entries@[i]->CargoPackage_0 == *d,
            Err(e) => has_none(ir.entries@, is_package()) && e@
                == "No CargoPackage representation found in IR"@,
        }),
{
    let mut i: usize = ir.entries.len();
    while i > 0
        invariant
            i <= ir.entries@.len(),
            forall|k: int|
                i <= k < ir.entries@.len() ==> !is_package()(#[trigger] ir.entries@[k]),
        decreases i,
    {
        i = i - 1;
        if let Representation::CargoPackage(d) = &ir.entries[i] {
            assert(is_last(ir.entries@, i as int, is_package()));
            return Ok(d);
        }
        assert(!is_package()(ir.entries@[i as int]));
    }
    Err("No CargoPackage representation found in IR".to_owned())
}

/// The suite that the run loaded, if it loaded one.
pub fn external_test_suite(ir: &HarvestIr) -> (r: Option<&ExternalTestSuite>)
    ensures
        (match r {
            Some(s) => exists|i: int|
                is_last(ir.entries@, i, is_suite()) && ir.entries@[i]->ExternalTestSuite_0 == *s,
            None => has_none(ir.entries@, is_suite()),
        }),
{
    let mut i: usize = ir.entries.len();
    while i > 0
        invariant
            i <= ir.entries@.len(),
            forall|k: int| i <= k < ir.entries@.len() ==> !is_suite()(#[trigger] ir.entries@[k]),
        decreases i,
    {
        i = i - 1;
        if let Representation::ExternalTestSuite(s) = &ir.entries[i] {
            assert(is_last(ir.entries@, i as int, is_suite()));
            return Some(s);
        }
        assert(!is_suite()(ir.entries@[i as int]));
    }
    None
}

/// The one C source. None, or several, is an error.
pub fn raw_source(ir: &HarvestIr) -> (r: Result<&RawDir, String>)
    ensures
        ({
            let n = count_of(ir.entries@, is_source());
            match r {
                Ok(d) => n == 1 && exists|i: int|
                    is_last(ir.entries@, i, is_source()) && ir.entries@[i]->RawSource_0 == *d,
                Err(e) => n != 1 && e@ == (if n == 0 {
                    "No RawSource representation found in IR"@
                } else {
                    "Found "@ + text::decimal_of(n)
                        + " RawSource representations, expected at most 1"@
                }),
            }
        }),
{
    let mut n: usize = 0;
    let mut last: usize = 0;
    let mut i: usize = 0;
    assert(ir.entries@.take(0) =~= seq![]);
    while i < ir.entries.len()
        invariant
            n <= i <= ir.entries@.len(),
            n == count_of(ir.entries@.take(i as int), is_source()),
            n > 0 ==> is_last(ir.entries@.take(i as int), last as int, is_source()),
        decreases ir.entries@.len() - i,
    {
        let ghost next = ir.entries@.take(i + 1);
        assert(next.drop_last() =~= ir.entries@.take(i as int));
        if let Representation::RawSource(_) = &ir.entries[i] {
            n = n + 1;
            last = i;
        }
        i = i + 1;
        assert(n > 0 ==> is_last(next, last as int, is_source()));
    }
    assert(ir.entries@.take(i as int) =~= ir.entries@);
    if n == 0 {
        return Err("No RawSource representation found in IR".to_owned());
    }
    if n > 1 {
        let mut e = "Found ".to_owned();
        e.append(text::decimal(n as u64).as_str());
        e.append(" RawSource representations, expected at most 1");
        return Err(e);
    }
    match &ir.entries[last] {
        Representation::RawSource(d) => Ok(d),
        _ => {
            assert(false);
            Err("No RawSource representation found in IR".to_owned())
        },
    }
}

/// What is wrong with the builds, if anything.
pub open spec fn build_fault(ir: HarvestIr, i: int) -> Option<Seq<char>> {
    let n = count_of(ir.entries@, is_build());
    if n == 0 {
        Some("No artifacts built"@)
    } else if n > 1 {
        Some("Found "@ + text::decimal_of(n) + " build results, expected at most 1"@)
    } else if !ir.entries@[i]->CargoBuild_0.success {
        Some("cargo build failed:\n"@ + ir.entries@[i]->CargoBuild_0.err@)
    } else {
        None
    }
}

/// The artifacts of the one build, if it succeeded.
pub fn cargo_build_result(ir: &HarvestIr) -> (r: Result<&Vec<Artifact>, String>)
    ensures
        ({
            let n = count_of(ir.entries@, is_build());
            match r {
                Ok(v) => n == 1 && exists|i: int|
                    {
                        &&& is_last(ir.entries@, i, is_build())
                        &&& build_fault(*ir, i) is None
                        &&& ir.entries@[i]->CargoBuild_0.artifacts == *v
                    },
                Err(e) => if n == 1 {
                    exists|i: int|
                        is_last(ir.entries@, i, is_build()) && build_fault(*ir, i) == Some(e@)
                } else {
                    build_fault(*ir, 0) == Some(e@)
                },
            }
        }),
{
    let mut n: usize = 0;
    let mut last: usize = 0;
    let mut i: usize = 0;
    assert(ir.entries@.take(0) =~= seq![]);
    while i < ir.entries.len()
        invariant
            n <= i <= ir.entries@.len(),
            n == count_of(ir.entries@.take(i as int), is_build()),
            n > 0 ==> is_last(ir.entries@.take(i as int), last as int, is_build()),
        decreases ir.entries@.len() - i,
    {
        let ghost next = ir.entries@.take(i + 1);
        assert(next.drop_last() =~= ir.entries@.take(i as int));
        if let Representation::CargoBuild(_) = &ir.entries[i] {
            n = n + 1;
            last = i;
        }
        i = i + 1;
        assert(n > 0 ==> is_last(next, last as int, is_build()));
    }
    assert(ir.entries@.take(i as int) =~= ir.entries@);
    if n == 0 {
        return Err("No artifacts built".to_owned());
    }
    if n > 1 {
        let mut e = "Found ".to_owned();
        e.append(text::decimal(n as u64).as_str());
        e.append(" build results, expected at most 1");
        return Err(e);
    }
    match &ir.entries[last] {
        Representation::CargoBuild(b) => {
            assert(is_last(ir.entries@, last as int, is_build()));
            if !b.success {
                let mut e = "cargo build failed:\n".to_owned();
                e.append(b.err.as_str());
                assert(build_fault(*ir, last as int) == Some(e@));
                Err(e)
            } else {
                assert(build_fault(*ir, last as int) is None);
                Ok(&b.artifacts)
            }
        },
        _ => {
            assert(false);
            Err("No artifacts built".to_owned())
        },
    }
}

/// The important results of a transpilation.
#[derive(Debug)]
pub struct TranspilationResult {
    pub translation_success: bool,
    pub build_success: bool,
    pub rust_binary_path: Option<String>,
    pub build_error: Option<String>,
}

/// The executable of the first artifact named `driver` that has one. Other
/// binaries do not count: an agent can leave some behind.
pub open spec fn driver_of(artifacts: Seq<Artifact>) -> Option<Seq<char>>
    decreases artifacts.len(),
{
    if artifacts.len() == 0 {
        None
    } else if artifacts[0].target_name@ == "driver"@ && artifacts[0].executable is Some {
        Some(artifacts[0].executable->0@)
    } else {
        driver_of(artifacts.skip(1))
    }
}

/// The driver among the artifacts of a build.
pub fn find_driver(artifacts: &Vec<Artifact>) -> (r: Option<String>)
    ensures
        text::opt_text(r) == driver_of(artifacts@),
{
    let mut i: usize = 0;
    assert(artifacts@.skip(0) =~= artifacts@);
    while i < artifacts.len()
        invariant
            i <= artifacts@.len(),
            driver_of(artifacts@) == driver_of(artifacts@.skip(i as int)),
        decreases artifacts@.len() - i,
    {
        assert(artifacts@.skip(i as int)[0] == artifacts@[i as int]);
        assert(artifacts@.skip(i as int).skip(1) =~= artifacts@.skip(i + 1));
        if text::same(artifacts[i].target_name.as_str(), "driver") {
            if let Some(e) = &artifacts[i].executable {
                return Some(e.clone());
            }
        }
        i = i + 1;
    }
    None
}

impl TranspilationResult {
    /// What a build came to: no artifacts at all counts as a failure.
    pub open spec fn tells_build(&self, build: Result<Seq<Artifact>, Seq<char>>) -> bool {
        match build {
            Err(e) => {
                &&& !self.build_success
                &&& self.rust_binary_path is None
                &&& text::opt_text(self.build_error) == Some(e)
            },
            Ok(artifacts) => if artifacts.len() == 0 {
                &&& !self.build_success
                &&& self.rust_binary_path is None
                &&& text::opt_text(self.build_error) == Some(
                    "Build succeeded but produced no artifacts"@,
                )
            } else {
                &&& self.build_success
                &&& text::opt_text(self.rust_binary_path) == driver_of(artifacts)
                &&& self.build_error is None
            },
        }
    }

    /// Sums up a package and a build.
    pub fn from_parts(translated: bool, build: Result<&Vec<Artifact>, String>) -> (r: Self)
        ensures
            r.translation_success == translated,
            r.tells_build(
                match build {
                    Ok(v) => Ok(v@),
                    Err(e) => Err(e@),
                },
            ),
    {
        match build {
            Ok(artifacts) => {
                if artifacts.len() == 0 {
                    TranspilationResult {
                        translation_success: translated,
                        build_success: false,
                        rust_binary_path: None,
                        build_error: Some("Build succeeded but produced no artifacts".to_owned()),
                    }
                } else {
                    TranspilationResult {
                        translation_success: translated,
                        build_success: true,
                        rust_binary_path: find_driver(artifacts),
                        build_error: None,
                    }
                }
            },
            Err(e) => TranspilationResult {
                translation_success: translated,
                build_success: false,
                rust_binary_path: None,
                build_error: Some(e),
            },
        }
    }

    /// Extracts the important results.
    pub fn from_ir(ir: &HarvestIr) -> (r: Self)
        ensures
            r.translation_success == !has_none(ir.entries@, is_package()),
            ({
                let n = count_of(ir.entries@, is_build());
                if n == 1 {
                    exists|i: int|
                        {
                            &&& is_last(ir.entries@, i, is_build())
                            &&& r.tells_build(
                                match build_fault(*ir, i) {
                                    Some(e) => Err(e),
                                    None => Ok(ir.entries@[i]->CargoBuild_0.artifacts@),
                                },
                            )
                        }
                } else {
                    r.tells_build(Err(build_fault(*ir, 0)->0))
                }
            }),
    {
        let translated = raw_cargo_package(ir).is_ok();
        proof {
            if translated {
                let i = choose|i: int| is_last(ir.entries@, i, is_package());
                assert(is_package()(ir.entries@[i]));
            }
        }
        let build = cargo_build_result(ir);
        let ghost b = build;
        proof {
            count_bounds(ir.entries@, is_build());
        }
        let r = TranspilationResult::from_parts(translated, build);
        proof {
            if count_of(ir.entries@, is_build()) == 1 {
                match b {
                    Ok(v) => {
                        let i = choose|i: int|
                            {
                                &&& is_last(ir.entries@, i, is_build())
                                &&& build_fault(*ir, i) is None
                                &&& ir.entries@[i]->CargoBuild_0.artifacts == *v
                            };
                        assert(is_last(ir.entries@, i, is_build()));
                    },
                    Err(e) => {
                        let i = choose|i: int|
                            is_last(ir.entries@, i, is_build()) && build_fault(*ir, i) == Some(e@);
                        assert(is_last(ir.entries@, i, is_build()));
                    },
                }
            }
        }
        r
    }
}

/// A build counts as successful only if it produced something.
pub proof fn success_needs_artifacts(r: TranspilationResult, build: Result<Seq<Artifact>, Seq<char>>)
    requires
        r.tells_build(build),
        r.build_success,
    ensures
        build matches Ok(artifacts) && artifacts.len() > 0,
{
}

} // verus!
