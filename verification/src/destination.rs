//! The rebuild stage: for every family (a root game with its clones), plan
//! one output archive whose entries carry the catalog-declared rom names and
//! point at the chosen source for each rom, then build the archive bytes.
//!
//! Entry order is deterministic: games in catalog order, roms in declared
//! order.  Within one family a digest already planned is not planned again
//! (duplicate roms collapse to the first declaration), and neither is a
//! destination name already taken (the archive writer refuses duplicate
//! names).  A rom with no matching discovered file is silently omitted; a
//! family with no matched rom produces no archive at all.

use vstd::prelude::*;

verus! {

use crate::logiqx::{Game, Rom};
use crate::models::rom_file::New;
use crate::resolve::{
    best_match,
    has_clone_chain,
    resolve_roots,
    spec_best_match,
    spec_root_of,
    CatalogError,
};
use crate::strutil::{bytes_eq, clone_bytes, str_eq};
use crate::zipio::{
    new_zip_writer,
    zip_bytes_of,
    zip_finish,
    zip_open_entry,
    zip_sink_ok,
    zip_start_file,
    zip_write_data,
    zip_written,
    ZIP_NAME_MAX,
    ZIP_PLAIN_SIZE_MAX,
};

/// One planned copy: which source bytes go into which output entry, for
/// which game.
pub struct DestinationBundle {
    archive_path: String,
    destination_name: String,
    source_name: String,
    in_archive: bool,
    game_name: String,
}

impl DestinationBundle {
    /// The path of the source file or container.
    pub closed spec fn spec_archive_path(&self) -> Seq<char> {
        self.archive_path@
    }

    /// The catalog-declared name the entry is written under.
    pub closed spec fn spec_destination_name(&self) -> Seq<char> {
        self.destination_name@
    }

    /// The source's own name (the member name inside a container).
    pub closed spec fn spec_source_name(&self) -> Seq<char> {
        self.source_name@
    }

    /// Whether the source bytes live inside a container.
    pub closed spec fn spec_in_archive(&self) -> bool {
        self.in_archive
    }

    /// The name of the game the entry belongs to.
    pub closed spec fn spec_game_name(&self) -> Seq<char> {
        self.game_name@
    }

    /// Plans one copy: the bytes found at `rom_file` are to be written under
    /// `rom`'s declared name into the archive of `game_name`.
    pub fn from_rom_and_rom_file(rom: &Rom, rom_file: &New, game_name: &str) -> (r: Self)
        ensures
            r.spec_archive_path() == rom_file.path@,
            r.spec_destination_name() == rom.name@,
            r.spec_source_name() == rom_file.name@,
            r.spec_in_archive() == rom_file.in_archive,
            r.spec_game_name() == game_name@,
    {
        DestinationBundle {
            archive_path: rom_file.path.clone(),
            destination_name: rom.name.clone(),
            source_name: rom_file.name.clone(),
            in_archive: rom_file.in_archive,
            game_name: game_name.to_owned(),
        }
    }

    /// The destination bundle's source path.
    pub fn archive_path(&self) -> (r: &str)
        ensures
            r@ == self.spec_archive_path(),
    {
        self.archive_path.as_str()
    }

    /// The destination bundle's output entry name.
    pub fn destination_name(&self) -> (r: &str)
        ensures
            r@ == self.spec_destination_name(),
    {
        self.destination_name.as_str()
    }

    /// The destination bundle's source name.
    pub fn source_name(&self) -> (r: &str)
        ensures
            r@ == self.spec_source_name(),
    {
        self.source_name.as_str()
    }

    /// Whether the destination bundle's source lives inside a container.
    pub fn in_archive(&self) -> (r: bool)
        ensures
            r == self.spec_in_archive(),
    {
        self.in_archive
    }

    /// The destination bundle's game name.
    pub fn game_name(&self) -> (r: &str)
        ensures
            r@ == self.spec_game_name(),
    {
        self.game_name.as_str()
    }
}

/// One family's planned archive: the root game's name and the planned
/// entries, in deterministic order.
pub struct FamilyBundle {
    pub game_name: String,
    pub entries: Vec<DestinationBundle>,
}

/// The views of a list of byte vectors.
pub open spec fn bytes_views(s: Seq<Vec<u8>>) -> Seq<Seq<u8>> {
    s.map_values(|v: Vec<u8>| v@)
}

/// The views of a list of strings.
pub open spec fn string_views(s: Seq<String>) -> Seq<Seq<char>> {
    s.map_values(|v: String| v@)
}

/// True when `d` occurs in `s`.
pub open spec fn seq_contains_bytes(s: Seq<Seq<u8>>, d: Seq<u8>) -> bool {
    exists|i: int| 0 <= i < s.len() && s[i] == d
}

/// True when `d` occurs in `s`.
pub open spec fn seq_contains_chars(s: Seq<Seq<char>>, d: Seq<char>) -> bool {
    exists|i: int| 0 <= i < s.len() && s[i] == d
}

/// The entries planned for one game's roms, walked in declared order with
/// the digests and names already planned carried along: a rom is planned
/// under its declared name, sourced from the best match for its digest, and
/// skipped when no file matches, when its digest is already planned, or when
/// its name is already taken.  Yields the planned (name, file index) pairs
/// and the updated seen digests and taken names.
pub open spec fn rom_descs(
    roms: Seq<Rom>,
    files: Seq<New>,
    seen: Seq<Seq<u8>>,
    names: Seq<Seq<char>>,
) -> (Seq<(Seq<char>, int)>, Seq<Seq<u8>>, Seq<Seq<char>>)
    decreases roms.len(),
{
    if roms.len() == 0 {
        (Seq::<(Seq<char>, int)>::empty(), seen, names)
    } else {
        let rom = roms[0];
        match spec_best_match(files, rom.sha1@) {
            Some(f) => {
                if seq_contains_bytes(seen, rom.sha1@) || seq_contains_chars(names, rom.name@) {
                    rom_descs(roms.drop_first(), files, seen, names)
                } else {
                    let rest = rom_descs(
                        roms.drop_first(),
                        files,
                        seen.push(rom.sha1@),
                        names.push(rom.name@),
                    );
                    (seq![(rom.name@, f)] + rest.0, rest.1, rest.2)
                }
            },
            None => rom_descs(roms.drop_first(), files, seen, names),
        }
    }
}

/// The entries planned for the family rooted at `root`, walking games from
/// index `i` on in catalog order and processing those that resolve to
/// `root`.
pub open spec fn family_descs_from(
    games: Seq<Game>,
    files: Seq<New>,
    root: int,
    i: int,
    seen: Seq<Seq<u8>>,
    names: Seq<Seq<char>>,
) -> (Seq<(Seq<char>, int)>, Seq<Seq<u8>>, Seq<Seq<char>>)
    decreases games.len() - i,
{
    if i < 0 || i >= games.len() {
        (Seq::<(Seq<char>, int)>::empty(), seen, names)
    } else if spec_root_of(games, i) == root {
        let g = rom_descs(games[i].roms@, files, seen, names);
        let rest = family_descs_from(games, files, root, i + 1, g.1, g.2);
        (g.0 + rest.0, rest.1, rest.2)
    } else {
        family_descs_from(games, files, root, i + 1, seen, names)
    }
}

/// The entries planned for the family rooted at `root`: (destination name,
/// source file index) pairs, in deterministic order.
pub open spec fn family_descs(games: Seq<Game>, files: Seq<New>, root: int) -> Seq<
    (Seq<char>, int),
> {
    family_descs_from(games, files, root, 0, Seq::empty(), Seq::empty()).0
}

/// Membership in a name list, one element at a time: a name is in the list
/// extended by `x` exactly when it is in the list or is `x`.
proof fn lemma_contains_chars_push(s: Seq<Seq<char>>, x: Seq<char>, y: Seq<char>)
    ensures
        seq_contains_chars(s.push(x), y) == (seq_contains_chars(s, y) || y == x),
{
    if seq_contains_chars(s, y) {
        let i = choose|i: int| 0 <= i < s.len() && s[i] == y;
        assert(s.push(x)[i] == y);
    }
    if y == x {
        assert(s.push(x)[s.len() as int] == y);
    }
    if seq_contains_chars(s.push(x), y) {
        let i = choose|i: int| 0 <= i < s.push(x).len() && s.push(x)[i] == y;
        if i < s.len() {
            assert(s[i] == y);
        }
    }
}

/// How a planning step relates its output to the taken names: the taken
/// names only grow, every planned name was free before and is taken after,
/// and no name is planned twice.
pub open spec fn descs_well_named(
    descs: Seq<(Seq<char>, int)>,
    names_in: Seq<Seq<char>>,
    names_out: Seq<Seq<char>>,
) -> bool {
    &&& (forall|x: Seq<char>|
        seq_contains_chars(names_in, x) ==> seq_contains_chars(names_out, x))
    &&& (forall|k: int|
        0 <= k < descs.len() ==> !seq_contains_chars(names_in, (#[trigger] descs[k]).0))
    &&& (forall|k: int|
        0 <= k < descs.len() ==> seq_contains_chars(names_out, (#[trigger] descs[k]).0))
    &&& (forall|k1: int, k2: int| 0 <= k1 < k2 < descs.len() ==> descs[k1].0 != descs[k2].0)
}

/// Planning one game's roms never plans a taken or repeated name.
proof fn lemma_rom_descs_names(
    roms: Seq<Rom>,
    files: Seq<New>,
    seen: Seq<Seq<u8>>,
    names: Seq<Seq<char>>,
)
    ensures
        ({
            let rd = rom_descs(roms, files, seen, names);
            descs_well_named(rd.0, names, rd.2)
        }),
    decreases roms.len(),
{
    if roms.len() > 0 {
        let rom = roms[0];
        match spec_best_match(files, rom.sha1@) {
            Some(f) => {
                if seq_contains_chars(names, rom.name@) || seq_contains_bytes(seen, rom.sha1@) {
                    lemma_rom_descs_names(roms.drop_first(), files, seen, names);
                } else {
                    let names2 = names.push(rom.name@);
                    lemma_rom_descs_names(roms.drop_first(), files, seen.push(rom.sha1@), names2);
                    let rest = rom_descs(roms.drop_first(), files, seen.push(rom.sha1@), names2);
                    let rd = rom_descs(roms, files, seen, names);
                    assert forall|x: Seq<char>|
                        seq_contains_chars(names, x) implies seq_contains_chars(rd.2, x) by {
                        lemma_contains_chars_push(names, rom.name@, x);
                    }
                    assert forall|k: int|
                        0 <= k < rd.0.len() implies !seq_contains_chars(
                        names,
                        (#[trigger] rd.0[k]).0,
                    ) && seq_contains_chars(rd.2, rd.0[k].0) by {
                        if k == 0 {
                            lemma_contains_chars_push(names, rom.name@, rom.name@);
                        } else {
                            assert(rd.0[k] == rest.0[k - 1]);
                            lemma_contains_chars_push(names, rom.name@, rest.0[k - 1].0);
                        }
                    }
                    assert forall|k1: int, k2: int|
                        0 <= k1 < k2 < rd.0.len() implies rd.0[k1].0 != rd.0[k2].0 by {
                        if k1 == 0 {
                            assert(rd.0[k2] == rest.0[k2 - 1]);
                            lemma_contains_chars_push(names, rom.name@, rest.0[k2 - 1].0);
                        } else {
                            assert(rd.0[k1] == rest.0[k1 - 1]);
                            assert(rd.0[k2] == rest.0[k2 - 1]);
                        }
                    }
                }
            },
            None => {
                lemma_rom_descs_names(roms.drop_first(), files, seen, names);
            },
        }
    }
}

/// Planning a family never plans a taken or repeated name, across all the
/// family's games.
proof fn lemma_family_descs_names(
    games: Seq<Game>,
    files: Seq<New>,
    root: int,
    i: int,
    seen: Seq<Seq<u8>>,
    names: Seq<Seq<char>>,
)
    ensures
        ({
            let fd = family_descs_from(games, files, root, i, seen, names);
            descs_well_named(fd.0, names, fd.2)
        }),
    decreases games.len() - i,
{
    if 0 <= i < games.len() {
        if spec_root_of(games, i) == root {
            let g = rom_descs(games[i].roms@, files, seen, names);
            lemma_rom_descs_names(games[i].roms@, files, seen, names);
            lemma_family_descs_names(games, files, root, i + 1, g.1, g.2);
            let rest = family_descs_from(games, files, root, i + 1, g.1, g.2);
            let fd = family_descs_from(games, files, root, i, seen, names);
            assert(fd.0 == g.0 + rest.0);
            assert forall|k: int|
                0 <= k < fd.0.len() implies !seq_contains_chars(names, (#[trigger] fd.0[k]).0)
                && seq_contains_chars(fd.2, fd.0[k].0) by {
                if k < g.0.len() {
                    assert(fd.0[k] == g.0[k]);
                } else {
                    assert(fd.0[k] == rest.0[k - g.0.len()]);
                }
            }
            assert forall|k1: int, k2: int|
                0 <= k1 < k2 < fd.0.len() implies fd.0[k1].0 != fd.0[k2].0 by {
                if k2 < g.0.len() {
                    assert(fd.0[k1] == g.0[k1] && fd.0[k2] == g.0[k2]);
                } else if k1 >= g.0.len() {
                    assert(fd.0[k1] == rest.0[k1 - g.0.len()]);
                    assert(fd.0[k2] == rest.0[k2 - g.0.len()]);
                } else {
                    assert(fd.0[k1] == g.0[k1]);
                    assert(fd.0[k2] == rest.0[k2 - g.0.len()]);
                    assert(seq_contains_chars(g.2, g.0[k1].0));
                    assert(!seq_contains_chars(g.2, rest.0[k2 - g.0.len()].0));
                }
            }
        } else {
            lemma_family_descs_names(games, files, root, i + 1, seen, names);
        }
    }
}

/// Within one family's plan the destination names are pairwise distinct:
/// duplicate digests collapse to their first declaration and a taken name is
/// never planned again, so the archive writer, which refuses duplicate entry
/// names, accepts every planned entry.
pub proof fn lemma_plan_names_distinct(
    p: FamilyBundle,
    games: Seq<Game>,
    files: Seq<New>,
    root: int,
)
    requires
        plan_matches_family(p, games, files, root),
    ensures
        forall|i: int, j: int|
            0 <= i < j < p.entries@.len() ==> p.entries@[i].spec_destination_name()
                != p.entries@[j].spec_destination_name(),
{
    lemma_family_descs_names(games, files, root, 0, Seq::empty(), Seq::empty());
}

/// The planned copy `e` realises the planned pair `d` against the discovered
/// files, for the family of `game_name`.
pub open spec fn entry_matches_desc(
    e: DestinationBundle,
    d: (Seq<char>, int),
    files: Seq<New>,
    game_name: Seq<char>,
) -> bool {
    &&& 0 <= d.1 < files.len()
    &&& e.spec_destination_name() == d.0
    &&& e.spec_archive_path() == files[d.1].path@
    &&& e.spec_source_name() == files[d.1].name@
    &&& e.spec_in_archive() == files[d.1].in_archive
    &&& e.spec_game_name() == game_name
}

/// Whether a digest was already planned.
fn digest_seen(seen: &Vec<Vec<u8>>, d: &Vec<u8>) -> (r: bool)
    ensures
        r == seq_contains_bytes(bytes_views(seen@), d@),
{
    let mut i: usize = 0;
    while i < seen.len()
        invariant
            i <= seen@.len(),
            forall|t: int| 0 <= t < i ==> bytes_views(seen@)[t] != d@,
        decreases seen@.len() - i,
    {
        if bytes_eq(seen[i].as_slice(), d.as_slice()) {
            assert(bytes_views(seen@)[i as int] == d@);
            return true;
        }
        i = i + 1;
    }
    false
}

/// Whether a destination name was already taken.
fn name_seen(names: &Vec<String>, n: &str) -> (r: bool)
    ensures
        r == seq_contains_chars(string_views(names@), n@),
{
    let mut i: usize = 0;
    while i < names.len()
        invariant
            i <= names@.len(),
            forall|t: int| 0 <= t < i ==> string_views(names@)[t] != n@,
        decreases names@.len() - i,
    {
        if str_eq(names[i].as_str(), n) {
            assert(string_views(names@)[i as int] == n@);
            return true;
        }
        i = i + 1;
    }
    false
}

/// Plans the entries of one game's roms, appending to the family's entries
/// and to the digests and names already planned.
fn add_game_entries(
    roms: &Vec<Rom>,
    files: &Vec<New>,
    game_name: &str,
    entries: &mut Vec<DestinationBundle>,
    seen: &mut Vec<Vec<u8>>,
    names: &mut Vec<String>,
)
    ensures
        ({
            let rd = rom_descs(roms@, files@, bytes_views(old(seen)@), string_views(old(names)@));
            &&& final(entries)@.len() == old(entries)@.len() + rd.0.len()
            &&& (forall|k: int|
                0 <= k < old(entries)@.len() ==> final(entries)@[k] == old(entries)@[k])
            &&& (forall|k: int|
                0 <= k < rd.0.len() ==> entry_matches_desc(
                    #[trigger] final(entries)@[old(entries)@.len() + k],
                    rd.0[k],
                    files@,
                    game_name@,
                ))
            &&& bytes_views(final(seen)@) == rd.1
            &&& string_views(final(names)@) == rd.2
        }),
{
    let ghost rd_full = rom_descs(roms@, files@, bytes_views(seen@), string_views(names@));
    let ghost entries0 = entries@;
    let ghost mut done: Seq<(Seq<char>, int)> = Seq::empty();
    let mut k: usize = 0;
    proof {
        assert(roms@.skip(0) =~= roms@);
        assert(Seq::<(Seq<char>, int)>::empty() + rd_full.0 =~= rd_full.0);
    }
    while k < roms.len()
        invariant
            k <= roms@.len(),
            rd_full.0 == done + rom_descs(
                roms@.skip(k as int),
                files@,
                bytes_views(seen@),
                string_views(names@),
            ).0,
            rd_full.1 == rom_descs(
                roms@.skip(k as int),
                files@,
                bytes_views(seen@),
                string_views(names@),
            ).1,
            rd_full.2 == rom_descs(
                roms@.skip(k as int),
                files@,
                bytes_views(seen@),
                string_views(names@),
            ).2,
            entries@.len() == entries0.len() + done.len(),
            forall|t: int| 0 <= t < entries0.len() ==> entries@[t] == entries0[t],
            forall|t: int|
                0 <= t < done.len() ==> entry_matches_desc(
                    #[trigger] entries@[entries0.len() + t],
                    done[t],
                    files@,
                    game_name@,
                ),
        decreases roms@.len() - k,
    {
        let ghost pre = roms@.skip(k as int);
        proof {
            assert(pre[0] == roms@[k as int]);
            assert(pre.drop_first() =~= roms@.skip(k as int + 1));
        }
        let rom = &roms[k];
        match best_match(files, &rom.sha1) {
            Some(f) => {
                if !digest_seen(seen, &rom.sha1) && !name_seen(names, rom.name.as_str()) {
                    let entry = DestinationBundle::from_rom_and_rom_file(
                        rom,
                        &files[f],
                        game_name,
                    );
                    entries.push(entry);
                    let ghost seen0 = seen@;
                    let ghost names0 = names@;
                    seen.push(clone_bytes(&rom.sha1));
                    names.push(rom.name.clone());
                    proof {
                        assert(bytes_views(seen@) =~= bytes_views(seen0).push(
                            roms@[k as int].sha1@,
                        ));
                        assert(string_views(names@) =~= string_views(names0).push(
                            roms@[k as int].name@,
                        ));
                        let rest = rom_descs(
                            roms@.skip(k as int + 1),
                            files@,
                            bytes_views(seen@),
                            string_views(names@),
                        );
                        assert(done + (seq![(roms@[k as int].name@, f as int)] + rest.0) =~= (done
                            + seq![(roms@[k as int].name@, f as int)]) + rest.0);
                        done = done + seq![(roms@[k as int].name@, f as int)];
                    }
                }
            },
            None => {},
        }
        k = k + 1;
    }
    proof {
        assert(roms@.skip(roms@.len() as int) =~= Seq::<Rom>::empty());
        assert(done + Seq::<(Seq<char>, int)>::empty() =~= done);
    }
}

/// The planned archive for one family realises the planned pairs of
/// `family_descs` for its root, and carries the root game's name.
pub open spec fn plan_matches_family(
    p: FamilyBundle,
    games: Seq<Game>,
    files: Seq<New>,
    root: int,
) -> bool {
    &&& p.game_name@ == games[root].name@
    &&& p.entries@.len() == family_descs(games, files, root).len()
    &&& forall|k: int|
        0 <= k < p.entries@.len() ==> entry_matches_desc(
            #[trigger] p.entries@[k],
            family_descs(games, files, root)[k],
            files,
            games[root].name@,
        )
}

/// Plans the archive of the family rooted at `root`: entries for every game
/// that resolves to that root, in catalog order.
fn build_family_bundle(games: &Vec<Game>, roots: &Vec<usize>, files: &Vec<New>, root: usize) -> (r:
    FamilyBundle)
    requires
        roots@.len() == games@.len(),
        forall|i: int| 0 <= i < games@.len() ==> #[trigger] roots@[i] as int == spec_root_of(
            games@,
            i,
        ),
        root < games@.len(),
    ensures
        plan_matches_family(r, games@, files@, root as int),
{
    let ghost full = family_descs_from(
        games@,
        files@,
        root as int,
        0,
        Seq::empty(),
        Seq::empty(),
    );
    let mut entries: Vec<DestinationBundle> = Vec::new();
    let mut seen: Vec<Vec<u8>> = Vec::new();
    let mut names: Vec<String> = Vec::new();
    let ghost mut done: Seq<(Seq<char>, int)> = Seq::empty();
    let mut gi: usize = 0;
    proof {
        assert(bytes_views(seen@) =~= Seq::<Seq<u8>>::empty());
        assert(string_views(names@) =~= Seq::<Seq<char>>::empty());
        assert(Seq::<(Seq<char>, int)>::empty() + full.0 =~= full.0);
    }
    while gi < games.len()
        invariant
            gi <= games@.len(),
            root < games@.len(),
            roots@.len() == games@.len(),
            forall|i: int| 0 <= i < games@.len() ==> #[trigger] roots@[i] as int == spec_root_of(
                games@,
                i,
            ),
            full.0 == done + family_descs_from(
                games@,
                files@,
                root as int,
                gi as int,
                bytes_views(seen@),
                string_views(names@),
            ).0,
            full.1 == family_descs_from(
                games@,
                files@,
                root as int,
                gi as int,
                bytes_views(seen@),
                string_views(names@),
            ).1,
            full.2 == family_descs_from(
                games@,
                files@,
                root as int,
                gi as int,
                bytes_views(seen@),
                string_views(names@),
            ).2,
            entries@.len() == done.len(),
            forall|t: int|
                0 <= t < done.len() ==> entry_matches_desc(
                    #[trigger] entries@[t],
                    done[t],
                    files@,
                    games@[root as int].name@,
                ),
        decreases games@.len() - gi,
    {
        if roots[gi] == root {
            let ghost g = rom_descs(
                games@[gi as int].roms@,
                files@,
                bytes_views(seen@),
                string_views(names@),
            );
            add_game_entries(
                &games[gi].roms,
                files,
                games[root].name.as_str(),
                &mut entries,
                &mut seen,
                &mut names,
            );
            proof {
                assert((done + (g.0 + family_descs_from(
                    games@,
                    files@,
                    root as int,
                    gi as int + 1,
                    g.1,
                    g.2,
                ).0)) =~= ((done + g.0) + family_descs_from(
                    games@,
                    files@,
                    root as int,
                    gi as int + 1,
                    g.1,
                    g.2,
                ).0));
                assert forall|t: int| 0 <= t < (done + g.0).len() implies entry_matches_desc(
                    #[trigger] entries@[t],
                    (done + g.0)[t],
                    files@,
                    games@[root as int].name@,
                ) by {
                    if t < done.len() {
                        assert((done + g.0)[t] == done[t]);
                    } else {
                        let k = t - done.len();
                        assert((done + g.0)[t] == g.0[k]);
                        assert(entry_matches_desc(
                            entries@[done.len() + k],
                            g.0[k],
                            files@,
                            games@[root as int].name@,
                        ));
                    }
                }
                done = done + g.0;
            }
        }
        gi = gi + 1;
    }
    FamilyBundle { game_name: games[root].name.clone(), entries }
}

/// The indices of the root games (games that resolve to themselves), from
/// index `i` on, in catalog order.
pub open spec fn spec_root_list(games: Seq<Game>, i: int) -> Seq<int>
    decreases games.len() - i,
{
    if i < 0 || i >= games.len() {
        Seq::<int>::empty()
    } else if spec_root_of(games, i) == i {
        seq![i] + spec_root_list(games, i + 1)
    } else {
        spec_root_list(games, i + 1)
    }
}

/// Plans the whole rebuild: one planned archive per root game, in catalog
/// order, each holding the family's matched entries.  A catalog with a
/// clone-of chain is rejected whole.
pub fn plan_rebuild(games: &Vec<Game>, files: &Vec<New>) -> (r: Result<
    Vec<FamilyBundle>,
    CatalogError,
>)
    ensures
        match r {
            Ok(plans) => !has_clone_chain(games@) && plans@.len() == spec_root_list(
                games@,
                0,
            ).len() && (forall|k: int|
                0 <= k < plans@.len() ==> plan_matches_family(
                    #[trigger] plans@[k],
                    games@,
                    files@,
                    spec_root_list(games@, 0)[k],
                )),
            Err(e) => e == CatalogError::CloneOfClone && has_clone_chain(games@),
        },
{
    let roots = match resolve_roots(games) {
        Ok(roots) => roots,
        Err(e) => {
            return Err(e);
        },
    };
    let mut plans: Vec<FamilyBundle> = Vec::new();
    let ghost mut done_roots: Seq<int> = Seq::empty();
    let mut gi: usize = 0;
    proof {
        assert(Seq::<int>::empty() + spec_root_list(games@, 0) =~= spec_root_list(games@, 0));
    }
    while gi < games.len()
        invariant
            gi <= games@.len(),
            roots@.len() == games@.len(),
            forall|i: int| 0 <= i < games@.len() ==> #[trigger] roots@[i] as int == spec_root_of(
                games@,
                i,
            ),
            spec_root_list(games@, 0) == done_roots + spec_root_list(games@, gi as int),
            plans@.len() == done_roots.len(),
            forall|k: int|
                0 <= k < done_roots.len() ==> plan_matches_family(
                    #[trigger] plans@[k],
                    games@,
                    files@,
                    done_roots[k],
                ),
        decreases games@.len() - gi,
    {
        if roots[gi] == gi {
            let bundle = build_family_bundle(games, &roots, files, gi);
            plans.push(bundle);
            proof {
                assert((done_roots + (seq![gi as int] + spec_root_list(games@, gi as int + 1)))
                    =~= ((done_roots + seq![gi as int]) + spec_root_list(games@, gi as int + 1)));
                done_roots = done_roots + seq![gi as int];
            }
        }
        gi = gi + 1;
    }
    proof {
        assert(spec_root_list(games@, games@.len() as int) =~= Seq::<int>::empty());
        assert(done_roots + Seq::<int>::empty() =~= done_roots);
    }
    Ok(plans)
}

/// Plans the rebuild of the catalog's games against a scan's discovered
/// files.  With `dry_run` set nothing is planned for writing: the result is
/// empty and no filesystem effect is called for.
pub fn rename_roms(games: &Vec<Game>, files: &Vec<New>, dry_run: bool) -> (r: Result<
    Vec<FamilyBundle>,
    CatalogError,
>)
    ensures
        match r {
            Ok(plans) => !has_clone_chain(games@) && (if dry_run {
                plans@.len() == 0
            } else {
                plans@.len() == spec_root_list(games@, 0).len() && (forall|k: int|
                    0 <= k < plans@.len() ==> plan_matches_family(
                        #[trigger] plans@[k],
                        games@,
                        files@,
                        spec_root_list(games@, 0)[k],
                    ))
            }),
            Err(e) => e == CatalogError::CloneOfClone && has_clone_chain(games@),
        },
{
    let plans = match plan_rebuild(games, files) {
        Ok(plans) => plans,
        Err(e) => {
            return Err(e);
        },
    };
    if dry_run {
        Ok(Vec::new())
    } else {
        Ok(plans)
    }
}

/// Errors of the rebuild writer.
#[derive(Clone, Copy, PartialEq, Eq, Structural, Debug)]
pub enum RebuildError {
    /// The archive writer refused an entry (a duplicate name, or an
    /// input/output fault inside the writer).
    WriteFailed,
}

/// The views of (entry name, entry bytes) pairs.
pub open spec fn pairs_view(entries: Seq<(String, Vec<u8>)>) -> Seq<(Seq<char>, Seq<u8>)> {
    entries.map_values(|e: (String, Vec<u8>)| (e.0@, e.1@))
}

/// Entry lists the archive writer is bound to accept: names pairwise
/// distinct, every name within the header's length field, every entry's
/// bytes within a plain (non-zip64) size field.
pub open spec fn writable_entries(entries: Seq<(String, Vec<u8>)>) -> bool {
    &&& (forall|i: int, j: int|
        0 <= i < j < entries.len() ==> (#[trigger] entries[i]).0@ != (#[trigger] entries[j]).0@)
    &&& (forall|i: int|
        0 <= i < entries.len() ==> vstd::utf8::encode_utf8((#[trigger] entries[i]).0@).len()
            <= ZIP_NAME_MAX)
    &&& (forall|i: int|
        0 <= i < entries.len() ==> (#[trigger] entries[i]).1@.len() <= ZIP_PLAIN_SIZE_MAX)
}

/// Builds one output archive in memory: the given (entry name, bytes) pairs,
/// in order, as one zip archive.  A writable entry list — distinct names
/// within the format's limits — is guaranteed to build; the error comes only
/// on an input the writer refuses.
pub fn write_zip(entries: &Vec<(String, Vec<u8>)>) -> (r: Result<Vec<u8>, RebuildError>)
    ensures
        (r matches Ok(b) ==> b@ == zip_bytes_of(pairs_view(entries@))),
        writable_entries(entries@) ==> r is Ok,
{
    let mut w = new_zip_writer();
    let mut i: usize = 0;
    while i < entries.len()
        invariant
            i <= entries@.len(),
            zip_sink_ok(w),
            i == 0 ==> zip_written(w) == Seq::<(Seq<char>, Seq<u8>)>::empty() && zip_open_entry(w)
                is None,
            i > 0 ==> zip_written(w) == pairs_view(entries@).subrange(0, i as int - 1)
                && zip_open_entry(w) == Some(pairs_view(entries@)[i as int - 1]),
        decreases entries@.len() - i,
    {
        let ghost w0_written = zip_written(w);
        let ghost w0_open = zip_open_entry(w);
        match zip_start_file(&mut w, entries[i].0.as_str()) {
            Ok(_) => {},
            Err(_) => {
                proof {
                    if writable_entries(entries@) {
                        assert forall|j: int| 0 <= j < w0_written.len() implies (
                        #[trigger] w0_written[j]).0 != entries@[i as int].0@ by {
                            assert(w0_written[j] == pairs_view(entries@)[j]);
                            assert(pairs_view(entries@)[j].0 == entries@[j].0@);
                        }
                        if i > 0 {
                            assert(w0_open == Some(pairs_view(entries@)[i as int - 1]));
                            assert(pairs_view(entries@)[i as int - 1].0 == entries@[i as int
                                - 1].0@);
                            assert(pairs_view(entries@)[i as int - 1].1 == entries@[i as int
                                - 1].1@);
                        }
                        assert(false);
                    }
                }
                return Err(RebuildError::WriteFailed);
            },
        }
        proof {
            if i == 0 {
                assert(zip_written(w) =~= pairs_view(entries@).subrange(0, 0));
            } else {
                assert(w0_written + seq![pairs_view(entries@)[i as int - 1]] =~= pairs_view(
                    entries@,
                ).subrange(0, i as int));
            }
        }
        match zip_write_data(&mut w, entries[i].1.as_slice()) {
            Ok(_) => {},
            Err(_) => {
                proof {
                    if writable_entries(entries@) {
                        assert(false);
                    }
                }
                return Err(RebuildError::WriteFailed);
            },
        }
        proof {
            assert(Seq::<u8>::empty() + entries@[i as int].1@ =~= entries@[i as int].1@);
            assert(zip_open_entry(w) == Some(pairs_view(entries@)[i as int]));
        }
        i = i + 1;
    }
    let ghost final_entries = crate::zipio::zip_final_entries(w);
    proof {
        if entries@.len() == 0 {
            assert(final_entries =~= pairs_view(entries@));
        } else {
            assert(pairs_view(entries@).subrange(0, entries@.len() - 1) + seq![
                pairs_view(entries@)[entries@.len() - 1],
            ] =~= pairs_view(entries@));
        }
    }
    match zip_finish(w) {
        Ok(bytes) => Ok(bytes),
        Err(_) => {
            proof {
                if writable_entries(entries@) {
                    if entries@.len() > 0 {
                        assert(pairs_view(entries@)[entries@.len() - 1].1 == entries@[entries@.len()
                            - 1].1@);
                    }
                    assert(false);
                }
            }
            Err(RebuildError::WriteFailed)
        },
    }
}

/// A planned family is guaranteed to build: when the resolved pairs carry
/// the plan's destination names — pairwise distinct by the plan's dedup —
/// and the names and sources fit the archive format's limits, the entry list
/// is writable, so `write_zip` returns the archive.
pub proof fn lemma_planned_family_writable(
    p: FamilyBundle,
    games: Seq<Game>,
    files: Seq<New>,
    root: int,
    entries: Seq<(String, Vec<u8>)>,
)
    requires
        plan_matches_family(p, games, files, root),
        entries.len() == p.entries@.len(),
        forall|k: int|
            0 <= k < entries.len() ==> (#[trigger] entries[k]).0@
                == p.entries@[k].spec_destination_name(),
        forall|k: int|
            0 <= k < entries.len() ==> vstd::utf8::encode_utf8((#[trigger] entries[k]).0@).len()
                <= ZIP_NAME_MAX,
        forall|k: int| 0 <= k < entries.len() ==> (#[trigger] entries[k]).1@.len()
            <= ZIP_PLAIN_SIZE_MAX,
    ensures
        writable_entries(entries),
{
    lemma_plan_names_distinct(p, games, files, root);
}

/// Builds every family's archive from resolved (entry name, bytes) pairs:
/// for each (family name, entries) input, the output holds the archive file
/// name (the family's name with `.zip` appended) and the archive bytes.  A
/// family with no entries is skipped — no empty archive is emitted — and a
/// non-empty writable family is guaranteed its archive.
pub fn write_all_zip(families: &Vec<(String, Vec<(String, Vec<u8>)>)>) -> (r: Vec<
    (String, Option<Vec<u8>>),
>)
    ensures
        r@.len() == families@.len(),
        forall|k: int| 0 <= k < r@.len() ==> (#[trigger] r@[k]).0@ == families@[k].0@ + ".zip"@,
        forall|k: int|
            0 <= k < r@.len() ==> ((#[trigger] r@[k]).1 matches Some(b) ==> families@[k].1@.len()
                > 0 && b@ == zip_bytes_of(pairs_view(families@[k].1@))),
        forall|k: int|
            0 <= k < r@.len() ==> (families@[k].1@.len() == 0 ==> (#[trigger] r@[k]).1 is None),
        forall|k: int|
            0 <= k < r@.len() ==> ((families@[k].1@.len() > 0 && writable_entries(
                families@[k].1@,
            )) ==> (#[trigger] r@[k]).1 is Some),
{
    let mut out: Vec<(String, Option<Vec<u8>>)> = Vec::new();
    let mut i: usize = 0;
    while i < families.len()
        invariant
            i <= families@.len(),
            out@.len() == i,
            forall|k: int| 0 <= k < i ==> (#[trigger] out@[k]).0@ == families@[k].0@ + ".zip"@,
            forall|k: int|
                0 <= k < i ==> ((#[trigger] out@[k]).1 matches Some(b) ==> families@[k].1@.len()
                    > 0 && b@ == zip_bytes_of(pairs_view(families@[k].1@))),
            forall|k: int|
                0 <= k < i ==> (families@[k].1@.len() == 0 ==> (#[trigger] out@[k]).1 is None),
            forall|k: int|
                0 <= k < i ==> ((families@[k].1@.len() > 0 && writable_entries(families@[k].1@))
                    ==> (#[trigger] out@[k]).1 is Some),
        decreases families@.len() - i,
    {
        let zip_name = vstd::string::StringExecFns::concat(families[i].0.clone(), ".zip");
        let built: Option<Vec<u8>> = if families[i].1.len() == 0 {
            None
        } else {
            match write_zip(&families[i].1) {
                Ok(bytes) => Some(bytes),
                Err(_) => None,
            }
        };
        out.push((zip_name, built));
        i = i + 1;
    }
    out
}

} // verus!
