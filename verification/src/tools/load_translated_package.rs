//! Reconstructs a package from a pipeline snapshot: the output directory of a
//! previous run.
//!
//! This is driven entirely by the snapshot layout: the package is every
//! top-level entry except the framework's own `.harvest/` directory, cargo's
//! `target/` and external test material. A file added to the crate directory is
//! part of the crate.

use crate::fs::raw_dir;
use crate::fs::raw_dir::{DiskNode, KeepTop, RawDir, SkipDirs};
use crate::full_source::CargoPackage;
use crate::stage_manifest;
use crate::text;
use vstd::prelude::*;
use vstd::string::*;

verus! {

pub open spec fn not_a_snapshot_message(dir: Seq<char>) -> Seq<char> {
    dir + " is not a pipeline snapshot (no "@ + stage_manifest::HARVEST_META_DIR@ + "/"@
        + stage_manifest::STAGE_MANIFEST_FILE@ + ")"@
}

pub open spec fn no_crate_files_message(dir: Seq<char>) -> Seq<char> {
    "snapshot "@ + dir + " contains no crate files (only "@ + stage_manifest::HARVEST_META_DIR@
        + "/)"@
}

/// The entries of a snapshot directory that belong to its crate.
pub open spec fn crate_entries(entries: Seq<(Seq<char>, raw_dir::DiskView)>) -> Seq<
    (Seq<char>, raw_dir::DiskView),
> {
    raw_dir::kept(entries, KeepTop::Unreserved)
}

/// Takes the package out of a snapshot program directory. `meta_files` are the
/// names of the files in its `.harvest/` directory, `entries` is everything at
/// its top level.
pub fn load_snapshot(
    directory: &str,
    meta_files: &Vec<String>,
    entries: &Vec<(String, DiskNode)>,
) -> (r: Result<CargoPackage, String>)
    ensures
        ({
            let taken = crate_entries(raw_dir::disk_views(entries@));
            let dir = raw_dir::populated(taken, SkipDirs::Hidden).dir;
            if !text::texts(meta_files@).contains(stage_manifest::STAGE_MANIFEST_FILE@) {
                r matches Err(e) && e@ == not_a_snapshot_message(directory@)
            } else if raw_dir::first_special(taken) is Some {
                r matches Err(e) && e@ == raw_dir::link_message(raw_dir::first_special(taken)->0)
            } else if dir.len() == 0 {
                r matches Err(e) && e@ == no_crate_files_message(directory@)
            } else {
                r matches Ok(p) && p.dir.wf() && p.dir.view() == dir
            }
        }),
{
    if !stage_manifest::is_snapshot(meta_files) {
        let mut e = directory.to_owned();
        e.append(" is not a pipeline snapshot (no ");
        e.append(stage_manifest::HARVEST_META_DIR);
        e.append("/");
        e.append(stage_manifest::STAGE_MANIFEST_FILE);
        e.append(")");
        return Err(e);
    }
    match RawDir::populate_from_toplevel_selected(
        entries,
        &KeepTop::Unreserved,
        SkipDirs::Hidden,
    ) {
        Err(e) => Err(e),
        Ok((dir, _, _)) => {
            proof {
                raw_dir::dir_view(dir);
            }
            if dir.entries.len() == 0 {
                let mut e = "snapshot ".to_owned();
                e.append(directory);
                e.append(" contains no crate files (only ");
                e.append(stage_manifest::HARVEST_META_DIR);
                e.append("/)");
                return Err(e);
            }
            Ok(CargoPackage { dir })
        },
    }
}

/// Nothing reserved is part of the package: not the framework's own directory,
/// not build output, not external test material.
pub proof fn package_holds_nothing_reserved(
    entries: Seq<(Seq<char>, raw_dir::DiskView)>,
    name: Seq<char>,
)
    requires
        stage_manifest::is_reserved(name),
    ensures
        raw_dir::find(
            raw_dir::populated(crate_entries(entries), SkipDirs::Hidden).dir,
            name,
        ) is None,
{
    let dir = raw_dir::populated(crate_entries(entries), SkipDirs::Hidden).dir;
    if raw_dir::find(dir, name) is Some {
        raw_dir::only_kept_names(entries, KeepTop::Unreserved, SkipDirs::Hidden, name);
    }
}

/// Every file at the top level that is not reserved is part of the package, with
/// its contents.
pub proof fn unreserved_files_are_packaged(
    entries: Seq<(Seq<char>, raw_dir::DiskView)>,
    i: int,
)
    requires
        0 <= i < entries.len(),
        !stage_manifest::is_reserved(entries[i].0),
        entries[i].1 is File,
        forall|j: int, k: int|
            #![trigger entries[j], entries[k]]
            0 <= j < k < entries.len() ==> entries[j].0 != entries[k].0,
    ensures
        raw_dir::file_at(
            raw_dir::populated(crate_entries(entries), SkipDirs::Hidden).dir,
            seq![entries[i].0],
        ) == Some(entries[i].1->File_0),
    decreases entries.len(),
{
    let all = crate_entries(entries);
    let shorter = entries.drop_last();
    let before = crate_entries(shorter);
    let last = entries.last();
    let name = entries[i].0;
    raw_dir::populated_wf(before, SkipDirs::Hidden);
    let d = raw_dir::populated(before, SkipDirs::Hidden).dir;
    if i == entries.len() - 1 {
        assert(all.subrange(0, all.len() - 1) =~= before);
        raw_dir::put_law(d, name, raw_dir::EntryView::File(entries[i].1->File_0));
    } else {
        assert(shorter[i] == entries[i]);
        assert forall|j: int, k: int|
            #![trigger shorter[j], shorter[k]]
            0 <= j < k < shorter.len() implies shorter[j].0 != shorter[k].0 by {
            assert(entries[j].0 != entries[k].0);
        }
        unreserved_files_are_packaged(shorter, i);
        assert(entries[i].0 != entries[entries.len() - 1].0);
        if !stage_manifest::is_reserved(last.0) {
            assert(all.subrange(0, all.len() - 1) =~= before);
            match last.1 {
                raw_dir::DiskView::Dir(sub) => {
                    raw_dir::put_law(
                        d,
                        last.0,
                        raw_dir::EntryView::Dir(raw_dir::populated(sub, SkipDirs::Hidden).dir),
                    );
                },
                raw_dir::DiskView::File(b) => {
                    raw_dir::put_law(d, last.0, raw_dir::EntryView::File(b));
                },
                raw_dir::DiskView::Special => {},
            }
        }
    }
}

/// The tool that loads a snapshot.
#[derive(Debug)]
pub struct LoadTranslatedPackage {
    directory: String,
}

impl LoadTranslatedPackage {
    pub closed spec fn dir(&self) -> Seq<char> {
        self.directory@
    }

    pub fn new(directory: &str) -> (r: LoadTranslatedPackage)
        ensures
            r.dir() == directory@,
    {
        LoadTranslatedPackage { directory: directory.to_owned() }
    }

    pub fn name(&self) -> (r: &'static str)
        ensures
            r@ == "load_translated_package"@,
    {
        "load_translated_package"
    }

    /// The snapshot directory to load.
    pub fn directory(&self) -> (r: &str)
        ensures
            r@ == self.dir(),
    {
        self.directory.as_str()
    }
}

} // verus!
