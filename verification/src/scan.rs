//! The scanner's verified core: content-based container classification,
//! locality ordering of a file list, fingerprinting of zip members from the
//! archive's bytes, and the state machine that fingerprints the entries of a
//! general-purpose container delivered as start/data/end events.

use vstd::prelude::*;

verus! {

use crate::hashes::{sha1_of, stream_sha1, stream_xxhash3, u64_be_bytes, xxh3_of};
use crate::models::rom_file::New;
use crate::paths::{name_of, parent_of};
use crate::strutil::str_eq;
use crate::zipio::{open_zip, zip_entries, zip_len, zip_member_at, zip_member_ok, zip_parse, zip_source};

/// The MIME type the `infer` crate assigns to these bytes, if any.  The
/// crate sniffs magic bytes against a fixed set of matchers, so the result
/// is a function of the bytes alone.
pub uninterp spec fn mime_sniff(data: Seq<u8>) -> Option<Seq<char>>;

/// Relies on `infer::get` and `infer::Type::mime_type`: the MIME type
/// sniffed from the bytes' magic numbers, independent of any file name.
#[verifier::external_body]
pub(crate) fn sniff_mime(data: &[u8]) -> (r: Option<String>)
    ensures
        match r {
            Some(m) => mime_sniff(data@) == Some(m@),
            None => mime_sniff(data@) is None,
        },
{
    infer::get(data).map(|t| t.mime_type().to_owned())
}

/// The kinds of container the scanner can expand.
#[derive(Clone, Copy, PartialEq, Eq, Structural, Debug)]
pub enum ContainerKind {
    /// A zip archive: random access to its member list.
    Zip,
    /// A general multi-format container (7z, rar): read only as a forward
    /// stream of per-entry events.
    General,
}

/// The container kind, if any, that a MIME type maps to.
pub open spec fn spec_kind_of_mime(m: Seq<char>) -> Option<ContainerKind> {
    if m == "application/zip"@ {
        Some(ContainerKind::Zip)
    } else if m == "application/x-7z-compressed"@ || m == "application/vnd.rar"@ {
        Some(ContainerKind::General)
    } else {
        None
    }
}

/// The container kind, if any, of a byte sequence, by content sniffing.
pub open spec fn spec_classify(data: Seq<u8>) -> Option<ContainerKind> {
    match mime_sniff(data) {
        Some(m) => spec_kind_of_mime(m),
        None => None,
    }
}

/// Maps a sniffed MIME type to the container kind the scanner expands.
fn kind_of_mime(m: &str) -> (r: Option<ContainerKind>)
    ensures
        r == spec_kind_of_mime(m@),
{
    if str_eq(m, "application/zip") {
        Some(ContainerKind::Zip)
    } else if str_eq(m, "application/x-7z-compressed") {
        Some(ContainerKind::General)
    } else if str_eq(m, "application/vnd.rar") {
        Some(ContainerKind::General)
    } else {
        None
    }
}

/// Classifies a file's bytes by content sniffing, never by name: `None` for
/// anything that is not a recognised, expandable container.
pub fn classify(data: &[u8]) -> (r: Option<ContainerKind>)
    ensures
        r == spec_classify(data@),
{
    match sniff_mime(data) {
        Some(m) => kind_of_mime(m.as_str()),
        None => None,
    }
}

/// True when the walker should descend into a directory entry: everything at
/// the root itself, and elsewhere everything not starting with a dot.
pub open spec fn spec_entry_is_relevant(name: Seq<char>, depth: int) -> bool {
    depth == 0 || !(name.len() > 0 && name[0] == '.')
}

/// Whether a directory entry takes part in the scan: hidden entries
/// (dotfiles) are excluded except at the root itself.
pub fn entry_is_relevant(name: &str, depth: usize) -> (r: bool)
    ensures
        r == spec_entry_is_relevant(name@, depth as int),
{
    if depth == 0 {
        true
    } else if name.unicode_len() == 0 {
        true
    } else {
        name.get_char(0) != '.'
    }
}

/// Reorders a file list (locality key, path) by ascending key.  The key is a
/// physical-locality hint (an inode number); the ordering only helps
/// throughput, so this keeps exactly the given elements.
pub fn optimize_file_order(files: Vec<(u64, String)>) -> (r: Vec<(u64, String)>)
    ensures
        r@.to_multiset() == files@.to_multiset(),
        forall|i: int, j: int| 0 <= i <= j < r@.len() ==> r@[i].0 <= r@[j].0,
{
    broadcast use vstd::seq_lib::group_to_multiset_ensures;
    broadcast use vstd::multiset::group_multiset_axioms;

    let mut src = files;
    let mut out: Vec<(u64, String)> = Vec::new();
    proof {
        assert(out@.to_multiset().add(src@.to_multiset()) =~= files@.to_multiset());
    }
    while src.len() > 0
        invariant
            out@.to_multiset().add(src@.to_multiset()) == files@.to_multiset(),
            forall|i: int, j: int| 0 <= i <= j < out@.len() ==> out@[i].0 <= out@[j].0,
            forall|i: int, j: int|
                0 <= i < out@.len() && 0 <= j < src@.len() ==> out@[i].0 <= src@[j].0,
        decreases src@.len(),
    {
        let mut mi: usize = 0;
        let mut k: usize = 1;
        while k < src.len()
            invariant
                mi < k,
                k <= src@.len(),
                src@.len() > 0,
                forall|t: int| 0 <= t < k ==> src@[mi as int].0 <= src@[t].0,
            decreases src@.len() - k,
        {
            if src[k].0 < src[mi].0 {
                mi = k;
            }
            k = k + 1;
        }
        let ghost src0 = src@;
        let ghost out0 = out@;
        let item = src.remove(mi);
        out.push(item);
        proof {
            vstd::seq_lib::to_multiset_build(out0, item);
            vstd::seq_lib::to_multiset_remove(src0, mi as int);
            assert(out@.to_multiset() =~= out0.to_multiset().insert(item));
            assert(src@.to_multiset() =~= src0.to_multiset().remove(item));
            assert(src0.contains(item));
            vstd::seq_lib::to_multiset_contains(src0, item);
            assert(src0.to_multiset().count(item) > 0);
            assert(out@.to_multiset().add(src@.to_multiset()) =~= out0.to_multiset().add(
                src0.to_multiset(),
            ));
        }
    }
    out
}

/// Errors of the scanner's verified core.
#[derive(Clone, Copy, PartialEq, Eq, Structural, Debug)]
pub enum ScanError {
    /// The bytes could not be read as the container they sniffed as, or a
    /// member could not be decompressed.
    BadArchive,
}

/// The discovered-file record for the member `m` (name, bytes) of the
/// container at `path`.
pub open spec fn rec_matches_member(n: New, path: Seq<char>, m: (Seq<char>, Seq<u8>)) -> bool {
    &&& n.parent_path@ == parent_of(path)
    &&& n.path@ == path
    &&& n.name@ == m.0
    &&& n.sha1@ == sha1_of(m.1)
    &&& n.xxhash3@ == u64_be_bytes(xxh3_of(m.1))
    &&& n.in_archive
    &&& n.rom_id is None
}

/// The discovered-file record for the loose file at `path` with bytes `data`.
pub open spec fn rec_matches_single(n: New, path: Seq<char>, data: Seq<u8>) -> bool {
    &&& n.parent_path@ == parent_of(path)
    &&& n.path@ == path
    &&& n.name@ == name_of(path)
    &&& n.sha1@ == sha1_of(data)
    &&& n.xxhash3@ == u64_be_bytes(xxh3_of(data))
    &&& !n.in_archive
    &&& n.rom_id is None
}

/// One record per member of the pair list `ms`, in order.
pub open spec fn recs_match_members(
    recs: Seq<New>,
    path: Seq<char>,
    ms: Seq<(Seq<char>, Seq<u8>)>,
) -> bool {
    &&& recs.len() == ms.len()
    &&& forall|k: int| 0 <= k < ms.len() ==> rec_matches_member(#[trigger] recs[k], path, ms[k])
}

/// True when every member of the zip archive held in `bytes` can be
/// extracted.
pub open spec fn zip_all_members_ok(bytes: Seq<u8>) -> bool {
    forall|i: int|
        0 <= i < zip_parse(bytes)->Some_0.len() ==> #[trigger] zip_member_ok(bytes, i)
}

/// Fingerprints every member of the zip archive `data` found at `path`: one
/// record per member, in index order, each digesting the member's bytes.
/// Succeeds exactly when the bytes parse as a zip archive and every member
/// can be extracted — a deterministic fact of the bytes — and fails
/// otherwise.
pub fn scan_zip(path: &str, data: Vec<u8>) -> (r: Result<Vec<New>, ScanError>)
    ensures
        (r matches Ok(v) ==> zip_parse(data@) is Some && recs_match_members(
            v@,
            path@,
            zip_parse(data@)->Some_0,
        )),
        (r is Ok) == (zip_parse(data@) is Some && zip_all_members_ok(data@)),
{
    let ghost data_view = data@;
    let mut ar = match open_zip(data) {
        Ok(ar) => ar,
        Err(_) => {
            return Err(ScanError::BadArchive);
        },
    };
    let ghost members = zip_parse(data_view)->Some_0;
    let n = zip_len(&ar);
    let mut recs: Vec<New> = Vec::new();
    let mut i: usize = 0;
    while i < n
        invariant
            data_view == data@,
            n == members.len(),
            zip_entries(ar) == members,
            zip_source(ar) == data_view,
            zip_parse(data_view) == Some(members),
            i <= n,
            recs@.len() == i,
            forall|k: int| 0 <= k < i ==> rec_matches_member(#[trigger] recs@[k], path@, members[k]),
            forall|k: int| 0 <= k < i ==> #[trigger] zip_member_ok(data_view, k),
        decreases n - i,
    {
        let (member_name, member_data) = match zip_member_at(&mut ar, i) {
            Ok(m) => m,
            Err(_) => {
                proof {
                    assert(!zip_member_ok(data_view, i as int));
                    assert(!zip_all_members_ok(data_view));
                }
                return Err(ScanError::BadArchive);
            },
        };
        let sha1 = stream_sha1(member_data.as_slice());
        let xxh3 = stream_xxhash3(member_data.as_slice());
        let rec = match New::from_archive(path, member_name.as_str(), sha1, xxh3) {
            Some(rec) => rec,
            None => {
                return Err(ScanError::BadArchive);
            },
        };
        recs.push(rec);
        i = i + 1;
    }
    Ok(recs)
}

/// One event of a forward-only container read: an entry begins under a name,
/// carries byte chunks, and ends; a fault is reported without ending the
/// read.
pub enum ArchiveEvent {
    /// A new entry begins; the digest accumulators start afresh.
    Start(String),
    /// A chunk of the current entry's bytes.
    Data(Vec<u8>),
    /// The current entry is complete.
    End,
    /// The reader reported an error for the current entry; the read goes on.
    Fault,
}

/// The (name, bytes) pairs that a run of the event state machine emits,
/// starting from the given current name and accumulated bytes: `Start` resets
/// the accumulator under a new name, `Data` extends it, `End` emits the pair
/// and clears the accumulator, and a fault changes nothing.
pub open spec fn archive_pairs(
    events: Seq<ArchiveEvent>,
    name: Seq<char>,
    fed: Seq<u8>,
) -> Seq<(Seq<char>, Seq<u8>)>
    decreases events.len(),
{
    if events.len() == 0 {
        Seq::<(Seq<char>, Seq<u8>)>::empty()
    } else {
        match events[0] {
            ArchiveEvent::Start(s) => archive_pairs(events.drop_first(), s@, Seq::<u8>::empty()),
            ArchiveEvent::Data(d) => archive_pairs(events.drop_first(), name, fed + d@),
            ArchiveEvent::End => seq![(name, fed)] + archive_pairs(
                events.drop_first(),
                name,
                Seq::<u8>::empty(),
            ),
            ArchiveEvent::Fault => archive_pairs(events.drop_first(), name, fed),
        }
    }
}

/// Drives the per-entry digest state machine over the events read from the
/// general-purpose container at `path`: one record per completed entry, in
/// order, each digesting exactly the bytes streamed for that entry.
pub fn scan_archive_events(path: &str, events: &Vec<ArchiveEvent>) -> (r: Vec<New>)
    ensures
        recs_match_members(
            r@,
            path@,
            archive_pairs(events@, Seq::<char>::empty(), Seq::<u8>::empty()),
        ),
{
    let ghost all = archive_pairs(events@, Seq::<char>::empty(), Seq::<u8>::empty());
    let mut recs: Vec<New> = Vec::new();
    let mut name = crate::strutil::new_empty_string();
    let mut sha = crate::hashes::Sha1Hasher::new();
    let mut xxh = crate::hashes::Xxh3Hasher::new();
    let ghost mut done: Seq<(Seq<char>, Seq<u8>)> = Seq::empty();
    let mut i: usize = 0;
    proof {
        assert(events@.skip(0) =~= events@);
        assert(Seq::<(Seq<char>, Seq<u8>)>::empty() + all =~= all);
    }
    while i < events.len()
        invariant
            i <= events@.len(),
            sha.fed() == xxh.fed(),
            all == done + archive_pairs(events@.skip(i as int), name@, sha.fed()),
            recs@.len() == done.len(),
            forall|k: int| 0 <= k < done.len() ==> rec_matches_member(
                #[trigger] recs@[k],
                path@,
                done[k],
            ),
        decreases events@.len() - i,
    {
        let ghost pre = events@.skip(i as int);
        proof {
            assert(pre[0] == events@[i as int]);
            assert(pre.drop_first() =~= events@.skip(i as int + 1));
        }
        match &events[i] {
            ArchiveEvent::Start(s) => {
                name = s.clone();
                sha.reset();
                xxh.reset();
            },
            ArchiveEvent::Data(d) => {
                sha.update(d.as_slice());
                xxh.update(d.as_slice());
            },
            ArchiveEvent::End => {
                let ghost fed0 = sha.fed();
                let digest = sha.finalize_reset();
                let xxh3 = crate::hashes::u64_to_be_bytes(xxh.digest());
                xxh.reset();
                let rec = match New::from_archive(path, name.as_str(), digest, xxh3) {
                    Some(rec) => rec,
                    None => {
                        proof {
                            assert(false);
                        }
                        return recs;
                    },
                };
                recs.push(rec);
                proof {
                    done = done + seq![(name@, fed0)];
                    assert(done + (seq![(name@, fed0)] + archive_pairs(
                        events@.skip(i as int + 1),
                        name@,
                        Seq::<u8>::empty(),
                    )) =~= (done + seq![(name@, fed0)]) + archive_pairs(
                        events@.skip(i as int + 1),
                        name@,
                        Seq::<u8>::empty(),
                    ));
                }
            },
            ArchiveEvent::Fault => {},
        }
        i = i + 1;
    }
    proof {
        assert(events@.skip(i as int) =~= Seq::<ArchiveEvent>::empty());
        assert(done + Seq::<(Seq<char>, Seq<u8>)>::empty() =~= done);
    }
    recs
}

/// Two discovered-file records that agree on every recorded fact: the same
/// paths and names, the same digests, the same source kind.
pub open spec fn same_record(a: New, b: New) -> bool {
    &&& a.parent_path@ == b.parent_path@
    &&& a.path@ == b.path@
    &&& a.name@ == b.name@
    &&& a.sha1@ == b.sha1@
    &&& a.xxhash3@ == b.xxhash3@
    &&& a.in_archive == b.in_archive
}

/// Scanning is idempotent: two scans of the same container contents produce
/// the same records, record by record.  The records are a function of the
/// bytes alone, so re-scanning an unchanged directory reproduces them.
pub proof fn lemma_scan_idempotent(
    a: Seq<New>,
    b: Seq<New>,
    path: Seq<char>,
    ms: Seq<(Seq<char>, Seq<u8>)>,
)
    requires
        recs_match_members(a, path, ms),
        recs_match_members(b, path, ms),
    ensures
        a.len() == b.len(),
        forall|k: int| 0 <= k < a.len() ==> same_record(#[trigger] a[k], b[k]),
{
    assert forall|k: int| 0 <= k < a.len() implies same_record(#[trigger] a[k], b[k]) by {
        assert(rec_matches_member(a[k], path, ms[k]));
        assert(rec_matches_member(b[k], path, ms[k]));
    }
}

/// Scanning a loose file is idempotent likewise: the record is a function of
/// the path and the bytes alone.
pub proof fn lemma_single_scan_idempotent(a: New, b: New, path: Seq<char>, data: Seq<u8>)
    requires
        rec_matches_single(a, path, data),
        rec_matches_single(b, path, data),
    ensures
        same_record(a, b),
{
}

/// The observable facts of a discovered-file record, as one value.
pub open spec fn record_view(n: New) -> (
    Seq<char>,
    Seq<char>,
    Seq<char>,
    Seq<u8>,
    Seq<u8>,
    bool,
) {
    (n.parent_path@, n.path@, n.name@, n.sha1@, n.xxhash3@, n.in_archive)
}

/// The record that the member `m` of the container at `path` produces, in
/// the same observable form.
pub open spec fn member_record_view(path: Seq<char>, m: (Seq<char>, Seq<u8>)) -> (
    Seq<char>,
    Seq<char>,
    Seq<char>,
    Seq<u8>,
    Seq<u8>,
    bool,
) {
    (parent_of(path), path, m.0, sha1_of(m.1), u64_be_bytes(xxh3_of(m.1)), true)
}

/// Mapping a function over two sequences that hold the same elements (in any
/// order) yields sequences that hold the same images (in any order).
proof fn lemma_map_values_multiset<A, B>(s1: Seq<A>, s2: Seq<A>, f: spec_fn(A) -> B)
    requires
        s1.to_multiset() == s2.to_multiset(),
    ensures
        s1.map_values(f).to_multiset() == s2.map_values(f).to_multiset(),
    decreases s1.len(),
{
    broadcast use vstd::seq_lib::group_to_multiset_ensures;
    broadcast use vstd::multiset::group_multiset_axioms;

    if s1.len() == 0 {
        vstd::seq_lib::to_multiset_len(s1);
        vstd::seq_lib::to_multiset_len(s2);
        assert(s2.len() == 0);
        assert(s1.map_values(f) =~= s2.map_values(f));
    } else {
        let x = s1.last();
        assert(s1.contains(x));
        vstd::seq_lib::to_multiset_contains(s1, x);
        vstd::seq_lib::to_multiset_contains(s2, x);
        assert(s2.contains(x));
        let i = choose|i: int| 0 <= i < s2.len() && s2[i] == x;
        vstd::seq_lib::to_multiset_remove(s1, s1.len() - 1);
        vstd::seq_lib::to_multiset_remove(s2, i);
        assert(s1.remove(s1.len() - 1) =~= s1.drop_last());
        assert(s1.drop_last().to_multiset() =~= s2.remove(i).to_multiset());
        lemma_map_values_multiset(s1.drop_last(), s2.remove(i), f);

        let m1 = s1.map_values(f);
        let m2 = s2.map_values(f);
        assert(m1.remove(m1.len() - 1) =~= s1.drop_last().map_values(f));
        assert(m2.remove(i) =~= s2.remove(i).map_values(f));
        vstd::seq_lib::to_multiset_remove(m1, m1.len() - 1);
        vstd::seq_lib::to_multiset_remove(m2, i);
        assert(m1[m1.len() - 1] == f(x));
        assert(m2[i] == f(x));
        assert(m1.contains(f(x)));
        assert(m2.contains(f(x)));
        vstd::seq_lib::to_multiset_contains(m1, f(x));
        vstd::seq_lib::to_multiset_contains(m2, f(x));
        assert(m1.remove(m1.len() - 1).to_multiset() == m2.remove(i).to_multiset());
        assert(m1.to_multiset().remove(f(x)) == m2.to_multiset().remove(f(x)));
        assert forall|y: B| m1.to_multiset().count(y) == m2.to_multiset().count(y) by {
            assert(m1.to_multiset().remove(f(x)).count(y) == m2.to_multiset().remove(f(x)).count(
                y,
            ));
        }
        assert(m1.to_multiset() =~= m2.to_multiset());
    }
}

/// Scanning is stable under reordering: two scans that saw the same members
/// — however the walk ordered them — produce record collections with the
/// same observable facts, as multisets.
pub proof fn lemma_scan_order_independent(
    a: Seq<New>,
    b: Seq<New>,
    path: Seq<char>,
    ms1: Seq<(Seq<char>, Seq<u8>)>,
    ms2: Seq<(Seq<char>, Seq<u8>)>,
)
    requires
        recs_match_members(a, path, ms1),
        recs_match_members(b, path, ms2),
        ms1.to_multiset() == ms2.to_multiset(),
    ensures
        a.map_values(|n: New| record_view(n)).to_multiset() == b.map_values(
            |n: New| record_view(n),
        ).to_multiset(),
{
    let f = |m: (Seq<char>, Seq<u8>)| member_record_view(path, m);
    assert(a.map_values(|n: New| record_view(n)) =~= ms1.map_values(f));
    assert(b.map_values(|n: New| record_view(n)) =~= ms2.map_values(f));
    lemma_map_values_multiset(ms1, ms2, f);
}

/// Scans one file's bytes: a recognised zip is expanded member by member; a
/// general-purpose container is left to the
/// event-driven reader (`None` here); anything else is fingerprinted as one
/// loose file.  `None` also stands for a file the scan skips: an unreadable
/// archive, or a path with an empty file name.
pub fn build_rom_files(path: &str, data: Vec<u8>) -> (r: Option<Vec<New>>)
    ensures
        spec_classify(data@) == Some(ContainerKind::Zip) ==> {
            &&& (r matches Some(v) ==> zip_parse(data@) is Some && recs_match_members(
                v@,
                path@,
                zip_parse(data@)->Some_0,
            ))
            &&& (r is Some) == (zip_parse(data@) is Some && zip_all_members_ok(data@))
        },
        spec_classify(data@) == Some(ContainerKind::General) ==> r is None,
        spec_classify(data@) is None ==> match r {
            Some(v) => v@.len() == 1 && rec_matches_single(v@[0], path@, data@),
            None => name_of(path@).len() == 0,
        },
{
    match classify(data.as_slice()) {
        Some(ContainerKind::Zip) => match scan_zip(path, data) {
            Ok(v) => Some(v),
            Err(_) => None,
        },
        Some(ContainerKind::General) => None,
        None => match New::from_path(path, data.as_slice()) {
            Some(rec) => {
                let mut v: Vec<New> = Vec::new();
                v.push(rec);
                Some(v)
            },
            None => None,
        },
    }
}

} // verus!
