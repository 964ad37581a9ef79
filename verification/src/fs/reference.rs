//! Fingerprints of the read-only reference directories handed to an agent.

use crate::bytes;
use crate::fs::raw_dir;
use crate::fs::raw_dir::{DirView, RawDir};
use crate::text;
use sha2::Digest;
use vstd::prelude::*;
use vstd::string::*;
use vstd::utf8::*;

verus! {

/// The SHA-256 digest of bytes, in lower-case hexadecimal digits.
pub uninterp spec fn sha256_hex(bytes: Seq<u8>) -> Seq<char>;

/// `sha2::Sha256::digest`, formatted with `{:x}`. The claim is that the digest
/// depends on the bytes alone.
#[verifier::external_body]
fn sha256(bytes: &Vec<u8>) -> (r: String)
    ensures
        r@ == sha256_hex(bytes@),
{
    format!("{:x}", sha2::Sha256::digest(bytes))
}

/// Each file's path and contents, each closed by a zero byte.
pub open spec fn framed(files: Seq<(Seq<char>, Seq<u8>)>) -> Seq<u8>
    decreases files.len(),
{
    if files.len() == 0 {
        seq![]
    } else {
        framed(files.drop_last()) + encode_utf8(files.last().0) + seq![0u8] + files.last().1
            + seq![0u8]
    }
}

/// The fingerprint of a directory tree: SHA-256 over each file's path and
/// contents, visited in sorted order.
pub open spec fn fingerprint(d: DirView) -> Seq<char> {
    "sha256:"@ + sha256_hex(framed(raw_dir::with_paths(raw_dir::files_below(d, seq![]))))
}

/// Hashes a directory tree: SHA-256 over each file's directory-relative path and
/// contents, visited in sorted order. A symlink counts as a file that holds its
/// target path. Used to detect whether an agent modified a read-only reference
/// directory.
pub fn hash_dir(dir: &RawDir) -> (r: String)
    ensures
        r@ == fingerprint(dir.view()),
{
    let files = dir.files_recursive();
    let ghost all = raw_dir::listed(files@);
    let mut data: Vec<u8> = Vec::new();
    let mut i: usize = 0;
    assert(all.take(0) =~= seq![]);
    while i < files.len()
        invariant
            i <= files@.len(),
            all == raw_dir::listed(files@),
            data@ == framed(all.take(i as int)),
        decreases files@.len() - i,
    {
        assert(all.take(i + 1).drop_last() =~= all.take(i as int));
        assert(all.take(i + 1).last() == (files@[i as int].0@, files@[i as int].1@));
        bytes::append(&mut data, files[i].0.as_str().as_bytes());
        data.push(0);
        bytes::append(&mut data, files[i].1.as_slice());
        data.push(0);
        assert(data@ =~= framed(all.take(i + 1)));
        i = i + 1;
    }
    assert(all.take(i as int) =~= all);
    let mut out = "sha256:".to_owned();
    out.append(sha256(&data).as_str());
    out
}

/// One guarded reference: its name and its hash when it was handed out.
#[derive(Debug)]
pub struct Reference {
    pub name: String,
    pub hash: String,
}

/// Tracks the read-only reference directories handed to an agent: the C source
/// and, for the conform stage, the external test suite.
#[derive(Debug)]
pub struct ReferenceGuard {
    pub entries: Vec<Reference>,
}

pub open spec fn opt_dir_view(d: Option<RawDir>) -> Option<DirView> {
    match d {
        Some(d) => Some(d.view()),
        None => None,
    }
}

pub open spec fn reference_views(v: Seq<Reference>) -> Seq<(Seq<char>, Seq<char>)> {
    v.map_values(|e: Reference| (e.name@, e.hash@))
}

pub open spec fn found_views(v: Seq<(String, Option<RawDir>)>) -> Seq<(Seq<char>, Option<DirView>)> {
    v.map_values(|e: (String, Option<RawDir>)| (e.0@, opt_dir_view(e.1)))
}

/// The names that exist, each with its fingerprint.
pub open spec fn fingerprints(found: Seq<(Seq<char>, Option<DirView>)>) -> Seq<
    (Seq<char>, Seq<char>),
>
    decreases found.len(),
{
    if found.len() == 0 {
        seq![]
    } else {
        let before = fingerprints(found.drop_last());
        match found.last().1 {
            Some(d) => before.push((found.last().0, fingerprint(d))),
            None => before,
        }
    }
}

/// What became of one reference.
#[derive(Debug, Clone, Copy, PartialEq, Eq, Structural)]
pub enum ReferenceFate {
    /// The agent left it alone: remove it.
    Intact,
    /// The agent edited it: report it, preserve a copy, remove it.
    Modified,
    /// The agent deleted it: report it.
    Deleted,
}

pub open spec fn fate_of(hash: Seq<char>, now: Option<DirView>) -> ReferenceFate {
    match now {
        None => ReferenceFate::Deleted,
        Some(d) => if fingerprint(d) == hash {
            ReferenceFate::Intact
        } else {
            ReferenceFate::Modified
        },
    }
}

/// The names of the references whose fate is not [`ReferenceFate::Intact`].
pub open spec fn reported(names: Seq<Seq<char>>, fates: Seq<ReferenceFate>) -> Seq<Seq<char>>
    decreases names.len(),
{
    if names.len() == 0 || fates.len() != names.len() {
        seq![]
    } else {
        let before = reported(names.drop_last(), fates.drop_last());
        if fates.last() == ReferenceFate::Intact {
            before
        } else {
            before.push(names.last())
        }
    }
}

impl ReferenceGuard {
    pub open spec fn view(&self) -> Seq<(Seq<char>, Seq<char>)> {
        reference_views(self.entries@)
    }

    /// Fingerprints the references, right after they were materialized. Names
    /// that do not exist as directories are ignored.
    pub fn capture(found: &Vec<(String, Option<RawDir>)>) -> (r: ReferenceGuard)
        ensures
            r.view() == fingerprints(found_views(found@)),
    {
        let ghost all = found_views(found@);
        let mut entries: Vec<Reference> = Vec::new();
        let mut i: usize = 0;
        assert(all.take(0) =~= seq![]);
        assert(reference_views(entries@) =~= seq![]);
        while i < found.len()
            invariant
                i <= found@.len(),
                all == found_views(found@),
                reference_views(entries@) == fingerprints(all.take(i as int)),
            decreases found@.len() - i,
        {
            let ghost before = reference_views(entries@);
            assert(all.take(i + 1).drop_last() =~= all.take(i as int));
            assert(all.take(i + 1).last() == (
                found@[i as int].0@,
                opt_dir_view(found@[i as int].1),
            ));
            if let Some(d) = &found[i].1 {
                let hash = hash_dir(d);
                let name = found[i].0.clone();
                let ghost pair = (name@, hash@);
                entries.push(Reference { name, hash });
                assert(reference_views(entries@) =~= before.push(pair));
            }
            i = i + 1;
        }
        assert(all.take(i as int) =~= all);
        ReferenceGuard { entries }
    }

    /// Re-checks each reference against what is there now, in the order of
    /// [`ReferenceGuard::capture`]. Returns the fate of each, and the names of
    /// the modified references for the caller to record.
    pub fn strip(&self, now: &Vec<Option<RawDir>>) -> (r: (Vec<ReferenceFate>, Vec<String>))
        requires
            now@.len() == self.entries@.len(),
        ensures
            r.0@.len() == now@.len(),
            forall|i: int|
                #![trigger r.0@[i]]
                0 <= i < now@.len() ==> r.0@[i] == fate_of(
                    self.entries@[i].hash@,
                    opt_dir_view(now@[i]),
                ),
            text::texts(r.1@) == reported(
                self.view().map_values(|e: (Seq<char>, Seq<char>)| e.0),
                r.0@,
            ),
    {
        broadcast use text::group_texts;

        let ghost names = self.view().map_values(|e: (Seq<char>, Seq<char>)| e.0);
        let mut fates: Vec<ReferenceFate> = Vec::new();
        let mut modified: Vec<String> = Vec::new();
        let mut i: usize = 0;
        assert(text::texts(modified@) =~= seq![]);
        while i < self.entries.len()
            invariant
                i <= self.entries@.len(),
                now@.len() == self.entries@.len(),
                names == self.view().map_values(|e: (Seq<char>, Seq<char>)| e.0),
                fates@.len() == i,
                forall|j: int|
                    #![trigger fates@[j]]
                    0 <= j < i ==> fates@[j] == fate_of(
                        self.entries@[j].hash@,
                        opt_dir_view(now@[j]),
                    ),
                text::texts(modified@) == reported(names.take(i as int), fates@),
            decreases self.entries@.len() - i,
        {
            let ghost before = fates@;
            let fate: ReferenceFate = match &now[i] {
                None => ReferenceFate::Deleted,
                Some(d) => {
                    if text::same(hash_dir(d).as_str(), self.entries[i].hash.as_str()) {
                        ReferenceFate::Intact
                    } else {
                        ReferenceFate::Modified
                    }
                },
            };
            fates.push(fate);
            proof {
                assert(names.take(i + 1).drop_last() =~= names.take(i as int));
                assert(names.take(i + 1).last() == self.entries@[i as int].name@);
                assert(fates@.drop_last() =~= before);
            }
            match fate {
                ReferenceFate::Intact => {},
                _ => {
                    modified.push(self.entries[i].name.clone());
                },
            }
            i = i + 1;
        }
        assert(names.take(i as int) =~= names);
        (fates, modified)
    }
}

/// A reference that is as it was handed out is never reported.
pub proof fn intact_is_quiet(d: DirView)
    ensures
        fate_of(fingerprint(d), Some(d)) == ReferenceFate::Intact,
{
}

/// A reported reference is not as it was handed out: it is gone, or it holds
/// other files or other contents.
pub proof fn reported_means_changed(d: DirView, now: Option<DirView>)
    requires
        fate_of(fingerprint(d), now) != ReferenceFate::Intact,
    ensures
        now is None || raw_dir::files_below(now->0, seq![]) != raw_dir::files_below(d, seq![]),
{
}

/// Whether no path and no contents holds a zero byte, as no path on disk and no
/// text does.
pub open spec fn free_of_zeros(files: Seq<(Seq<char>, Seq<u8>)>) -> bool {
    forall|i: int|
        0 <= i < files.len() ==> !encode_utf8((#[trigger] files[i]).0).contains(0u8)
            && !files[i].1.contains(0u8)
}

spec fn closed(s: Seq<u8>) -> bool {
    s.len() == 0 || s.last() == 0
}

proof fn framed_is_closed(files: Seq<(Seq<char>, Seq<u8>)>)
    ensures
        closed(framed(files)),
{
    if files.len() > 0 {
        assert(framed(files).last() == 0);
    }
}

/// Where a closed part is followed by one without zero bytes, both are told by the
/// whole.
proof fn same_parts(u: Seq<u8>, x: Seq<u8>, v: Seq<u8>, y: Seq<u8>)
    requires
        closed(u),
        closed(v),
        !x.contains(0u8),
        !y.contains(0u8),
        u + x == v + y,
    ensures
        u == v,
        x == y,
{
    let whole = u + x;
    assert(whole.len() == (v + y).len());
    if u.len() > v.len() {
        assert(whole[u.len() - 1] == 0);
        assert(whole[u.len() - 1] == y[u.len() - 1 - v.len()]);
    }
    if v.len() > u.len() {
        assert(whole[v.len() - 1] == v.last());
        assert(whole[v.len() - 1] == x[v.len() - 1 - u.len()]);
    }
    assert(u =~= whole.take(u.len() as int));
    assert(v =~= whole.take(u.len() as int));
    assert(x =~= whole.skip(u.len() as int));
    assert(y =~= whole.skip(u.len() as int));
}

/// An edit changes what is hashed: different files have different data under the
/// hash. A zero byte in the contents could imitate the end of a file, so only
/// files without one are spoken of.
pub proof fn edits_change_what_is_hashed(
    a: Seq<(Seq<char>, Seq<u8>)>,
    b: Seq<(Seq<char>, Seq<u8>)>,
)
    requires
        free_of_zeros(a),
        free_of_zeros(b),
        a != b,
    ensures
        framed(a) != framed(b),
    decreases a.len(),
{
    broadcast use encode_utf8_decode_utf8;

    if framed(a) == framed(b) {
        if a.len() == 0 {
            assert(b.len() > 0 ==> framed(b).len() > 0);
            assert(a =~= b);
        } else if b.len() == 0 {
            assert(framed(a).len() > 0);
        } else {
            let (fa, fb) = (framed(a.drop_last()), framed(b.drop_last()));
            let (pa, pb) = (encode_utf8(a.last().0), encode_utf8(b.last().0));
            let (ua, ub) = (fa + pa + seq![0u8], fb + pb + seq![0u8]);
            assert(framed(a).drop_last() =~= ua + a.last().1);
            assert(framed(b).drop_last() =~= ub + b.last().1);
            assert(ua.last() == 0 && ub.last() == 0);
            assert(a.last() == a[a.len() - 1] && b.last() == b[b.len() - 1]);
            same_parts(ua, a.last().1, ub, b.last().1);
            assert(ua.drop_last() =~= fa + pa);
            assert(ub.drop_last() =~= fb + pb);
            framed_is_closed(a.drop_last());
            framed_is_closed(b.drop_last());
            same_parts(fa, pa, fb, pb);
            assert(decode_utf8(pa) == a.last().0 && decode_utf8(pb) == b.last().0);
            let (ra, rb) = (a.drop_last(), b.drop_last());
            assert forall|i: int| 0 <= i < ra.len() implies !encode_utf8(
                (#[trigger] ra[i]).0,
            ).contains(0u8) && !ra[i].1.contains(0u8) by {
                assert(ra[i] == a[i]);
            }
            assert forall|i: int| 0 <= i < rb.len() implies !encode_utf8(
                (#[trigger] rb[i]).0,
            ).contains(0u8) && !rb[i].1.contains(0u8) by {
                assert(rb[i] == b[i]);
            }
            if ra != rb {
                edits_change_what_is_hashed(ra, rb);
            }
            assert(a =~= ra.push(a.last()));
            assert(b =~= rb.push(b.last()));
        }
    }
}

/// A changed reference is reported: one that is still there with other files or other
/// contents is modified, provided that the digest tells the two data apart. Files with
/// a zero byte are left out, as above.
pub proof fn changed_references_are_reported(d: DirView, now: DirView)
    requires
        free_of_zeros(raw_dir::with_paths(raw_dir::files_below(d, seq![]))),
        free_of_zeros(raw_dir::with_paths(raw_dir::files_below(now, seq![]))),
        raw_dir::with_paths(raw_dir::files_below(d, seq![])) != raw_dir::with_paths(
            raw_dir::files_below(now, seq![]),
        ),
    ensures
        tells_apart(
            framed(raw_dir::with_paths(raw_dir::files_below(d, seq![]))),
            framed(raw_dir::with_paths(raw_dir::files_below(now, seq![]))),
        ) ==> fate_of(fingerprint(d), Some(now)) == ReferenceFate::Modified,
{
    let a = raw_dir::with_paths(raw_dir::files_below(d, seq![]));
    let b = raw_dir::with_paths(raw_dir::files_below(now, seq![]));
    edits_change_what_is_hashed(a, b);
    let (x, y) = (sha256_hex(framed(a)), sha256_hex(framed(b)));
    if fingerprint(now) == fingerprint(d) {
        assert(("sha256:"@ + x).skip("sha256:"@.len() as int) =~= x);
        assert(("sha256:"@ + y).skip("sha256:"@.len() as int) =~= y);
    }
}

/// Whether different data have different digests.
pub open spec fn tells_apart(a: Seq<u8>, b: Seq<u8>) -> bool {
    a != b ==> sha256_hex(a) != sha256_hex(b)
}

} // verus!
