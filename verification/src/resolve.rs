//! Clone resolution and source matching.  Every game resolves to a root by a
//! name-indexed lookup of its clone-of reference, independent of the order in
//! which games are listed; a catalog in which a clone names another clone is
//! rejected.  A rom's source among the discovered files is chosen by digest,
//! with a documented deterministic tie-break: loose files are preferred over
//! archive members, then the lexicographically smallest path (by UTF-8
//! bytes), then the smallest member name, then the earliest scan record.

use vstd::prelude::*;

verus! {

use crate::logiqx::Game;
use crate::models::rom_file::New;
use crate::strutil::{
    lemma_str_lt_trans,
    lemma_str_lt_trichotomy,
    str_bytes_lt,
    str_eq,
    str_lt,
    bytes_eq,
};

/// Errors of catalog resolution.
#[derive(Clone, Copy, PartialEq, Eq, Structural, Debug)]
pub enum CatalogError {
    /// A game's clone-of target itself resolves to a clone-of target: the
    /// model supports a single level of cloning only.
    CloneOfClone,
}

/// Index of the first game at or after `i` whose name is `name`.
pub open spec fn spec_lookup_from(games: Seq<Game>, name: Seq<char>, i: int) -> Option<int>
    decreases games.len() - i,
{
    if i < 0 || i >= games.len() {
        None
    } else if games[i].name@ == name {
        Some(i)
    } else {
        spec_lookup_from(games, name, i + 1)
    }
}

/// Index of the first game whose name is `name`, if any.
pub open spec fn spec_lookup(games: Seq<Game>, name: Seq<char>) -> Option<int> {
    spec_lookup_from(games, name, 0)
}

/// The game that game `i`'s clone-of reference resolves to, if any: the
/// first game carrying the referenced name.
pub open spec fn clone_target(games: Seq<Game>, i: int) -> Option<int> {
    match games[i].cloneof {
        Some(n) => spec_lookup(games, n@),
        None => None,
    }
}

/// The root of game `i`: its resolved clone-of target, or itself when the
/// reference is absent or names no game.
pub open spec fn spec_root_of(games: Seq<Game>, i: int) -> int {
    match clone_target(games, i) {
        Some(j) => j,
        None => i,
    }
}

/// True when some game's resolved clone-of target itself resolves a clone-of
/// reference: a clone chain, which the model rejects.
pub open spec fn has_clone_chain(games: Seq<Game>) -> bool {
    exists|i: int|
        0 <= i < games.len() && ((#[trigger] clone_target(games, i)) matches Some(j)
            && clone_target(games, j) is Some)
}

/// Finds the first game carrying `name`.
pub fn lookup_game(games: &Vec<Game>, name: &str) -> (r: Option<usize>)
    ensures
        match r {
            Some(j) => spec_lookup(games@, name@) == Some(j as int),
            None => spec_lookup(games@, name@) is None,
        },
{
    let mut i: usize = 0;
    while i < games.len()
        invariant
            i <= games@.len(),
            spec_lookup(games@, name@) == spec_lookup_from(games@, name@, i as int),
        decreases games@.len() - i,
    {
        if str_eq(games[i].name.as_str(), name) {
            return Some(i);
        }
        i = i + 1;
    }
    None
}

/// Resolves every game to its root, by name lookup of the clone-of
/// reference: `roots[i]` is the index of game `i`'s root, itself when the
/// reference is absent or unresolved.  A catalog holding a clone whose
/// target is itself a clone is rejected whole.
pub fn resolve_roots(games: &Vec<Game>) -> (r: Result<Vec<usize>, CatalogError>)
    ensures
        match r {
            Ok(roots) => !has_clone_chain(games@) && roots@.len() == games@.len() && (forall|
                i: int,
            |
                0 <= i < games@.len() ==> roots@[i] as int == spec_root_of(games@, i)),
            Err(e) => e == CatalogError::CloneOfClone && has_clone_chain(games@),
        },
{
    let n = games.len();
    let mut targets: Vec<Option<usize>> = Vec::new();
    let mut i: usize = 0;
    while i < n
        invariant
            i <= n,
            n == games@.len(),
            targets@.len() == i,
            forall|t: int| 0 <= t < i ==> match #[trigger] targets@[t] {
                Some(j) => clone_target(games@, t) == Some(j as int),
                None => clone_target(games@, t) is None,
            },
        decreases n - i,
    {
        let target = match &games[i].cloneof {
            Some(cn) => lookup_game(games, cn.as_str()),
            None => None,
        };
        targets.push(target);
        i = i + 1;
    }
    let mut roots: Vec<usize> = Vec::new();
    let mut i: usize = 0;
    while i < n
        invariant
            i <= n,
            n == games@.len(),
            targets@.len() == n,
            forall|t: int| 0 <= t < n ==> match #[trigger] targets@[t] {
                Some(j) => clone_target(games@, t) == Some(j as int),
                None => clone_target(games@, t) is None,
            },
            roots@.len() == i,
            forall|t: int| 0 <= t < i ==> #[trigger] roots@[t] as int == spec_root_of(games@, t),
            forall|t: int|
                0 <= t < i ==> !(((#[trigger] clone_target(games@, t)) matches Some(j)
                    && clone_target(games@, j) is Some)),
        decreases n - i,
    {
        match targets[i] {
            Some(j) => {
                proof {
                    lemma_lookup_in_range(games@, games@[i as int].cloneof->Some_0@, 0);
                }
                if targets[j].is_some() {
                    return Err(CatalogError::CloneOfClone);
                }
                roots.push(j);
            },
            None => {
                roots.push(i);
            },
        }
        i = i + 1;
    }
    Ok(roots)
}

/// A successful lookup yields an index within the game list.
proof fn lemma_lookup_in_range(games: Seq<Game>, name: Seq<char>, i: int)
    ensures
        spec_lookup_from(games, name, i) matches Some(j) ==> i <= j < games.len(),
    decreases games.len() - i,
{
    if 0 <= i < games.len() && games[i].name@ != name {
        lemma_lookup_in_range(games, name, i + 1);
    }
}

/// The documented tie-break order between two discovered files: a loose file
/// comes before an archive member; then the smaller path by UTF-8 byte
/// order; then the smaller member name.
pub open spec fn src_before(a: New, b: New) -> bool {
    if a.in_archive != b.in_archive {
        !a.in_archive
    } else if a.path@ != b.path@ {
        str_bytes_lt(a.path@, b.path@)
    } else {
        str_bytes_lt(a.name@, b.name@)
    }
}

/// True when two discovered files are indistinguishable to the tie-break
/// order: same source kind, path and name.
pub open spec fn same_source_key(a: New, b: New) -> bool {
    a.in_archive == b.in_archive && a.path@ == b.path@ && a.name@ == b.name@
}

/// The tie-break order is strict: of `a` before `b`, `b` before `a` and
/// equal keys, exactly one holds.
pub proof fn lemma_src_before_trichotomy(a: New, b: New)
    ensures
        src_before(a, b) || src_before(b, a) || same_source_key(a, b),
        src_before(a, b) ==> !src_before(b, a),
        src_before(a, b) ==> !same_source_key(a, b),
{
    lemma_str_lt_trichotomy(a.path@, b.path@);
    lemma_str_lt_trichotomy(a.name@, b.name@);
}

/// The tie-break order is transitive.
pub proof fn lemma_src_before_trans(a: New, b: New, c: New)
    requires
        src_before(a, b),
        src_before(b, c),
    ensures
        src_before(a, c),
{
    lemma_str_lt_trichotomy(a.path@, b.path@);
    lemma_str_lt_trichotomy(b.path@, c.path@);
    lemma_str_lt_trichotomy(a.name@, b.name@);
    lemma_str_lt_trichotomy(b.name@, c.name@);
    if a.in_archive == b.in_archive && b.in_archive == c.in_archive {
        if a.path@ != b.path@ && b.path@ != c.path@ {
            lemma_str_lt_trans(a.path@, b.path@, c.path@);
        } else if a.path@ == b.path@ && b.path@ == c.path@ {
            lemma_str_lt_trans(a.name@, b.name@, c.name@);
        }
    }
}

/// The chosen source among the files matching `digest`: of the prefix's
/// choice and a matching last file, the one the tie-break order puts first,
/// the earlier record when the order cannot tell them apart.
pub open spec fn spec_best_match(files: Seq<New>, digest: Seq<u8>) -> Option<int>
    decreases files.len(),
{
    if files.len() == 0 {
        None
    } else {
        let front = spec_best_match(files.drop_last(), digest);
        let last = files.len() - 1;
        if files[last].sha1@ == digest {
            match front {
                Some(m) => if src_before(files[last], files[m]) {
                    Some(last)
                } else {
                    Some(m)
                },
                None => Some(last),
            }
        } else {
            front
        }
    }
}

/// Whether the tie-break order puts `a` strictly before `b`.
pub fn src_before_exec(a: &New, b: &New) -> (r: bool)
    ensures
        r == src_before(*a, *b),
{
    if a.in_archive != b.in_archive {
        !a.in_archive
    } else if !str_eq(a.path.as_str(), b.path.as_str()) {
        str_lt(a.path.as_str(), b.path.as_str())
    } else {
        str_lt(a.name.as_str(), b.name.as_str())
    }
}

/// Picks the source for a rom with digest `digest` among the discovered
/// files: the file the tie-break order puts first, deterministically.
pub fn best_match(files: &Vec<New>, digest: &Vec<u8>) -> (r: Option<usize>)
    ensures
        match r {
            Some(m) => m < files@.len() && spec_best_match(files@, digest@) == Some(m as int),
            None => spec_best_match(files@, digest@) is None,
        },
{
    let mut best: Option<usize> = None;
    let mut j: usize = 0;
    proof {
        assert(files@.subrange(0, 0) =~= Seq::<New>::empty());
    }
    while j < files.len()
        invariant
            j <= files@.len(),
            match best {
                Some(m) => m < j && spec_best_match(files@.subrange(0, j as int), digest@) == Some(
                    m as int,
                ),
                None => spec_best_match(files@.subrange(0, j as int), digest@) is None,
            },
        decreases files@.len() - j,
    {
        let ghost pre = files@.subrange(0, j as int);
        let ghost cur = files@.subrange(0, j as int + 1);
        proof {
            assert(cur.drop_last() =~= pre);
            assert(cur[j as int] == files@[j as int]);
            assert(forall|t: int| 0 <= t <= j ==> cur[t] == files@[t]);
        }
        if bytes_eq(files[j].sha1.as_slice(), digest.as_slice()) {
            match best {
                Some(m) => {
                    if src_before_exec(&files[j], &files[m]) {
                        best = Some(j);
                    }
                },
                None => {
                    best = Some(j);
                },
            }
        }
        j = j + 1;
    }
    proof {
        assert(files@.subrange(0, files@.len() as int) =~= files@);
    }
    best
}

/// What the tie-break picks, spelled out: the chosen file matches the
/// digest, no matching file comes before it in the tie-break order, and
/// every matching record earlier in the scan list is strictly later in that
/// order — so the choice is unique and stable across runs.  When no file
/// matches, nothing is chosen.
pub proof fn lemma_best_match_minimal(files: Seq<New>, digest: Seq<u8>)
    ensures
        match spec_best_match(files, digest) {
            Some(m) => 0 <= m < files.len() && files[m].sha1@ == digest && (forall|t: int|
                0 <= t < files.len() && files[t].sha1@ == digest ==> !src_before(
                    files[t],
                    files[m],
                )) && (forall|t: int|
                0 <= t < m && files[t].sha1@ == digest ==> src_before(files[m], files[t])),
            None => forall|t: int| 0 <= t < files.len() ==> files[t].sha1@ != digest,
        },
    decreases files.len(),
{
    if files.len() > 0 {
        let front_files = files.drop_last();
        lemma_best_match_minimal(front_files, digest);
        let front = spec_best_match(front_files, digest);
        let last = files.len() - 1;
        assert(forall|t: int| 0 <= t < last ==> front_files[t] == files[t]);
        if files[last].sha1@ == digest {
            match front {
                Some(m) => {
                    if src_before(files[last], files[m]) {
                        assert forall|t: int|
                            0 <= t < files.len() && files[t].sha1@ == digest implies !src_before(
                            files[t],
                            files[last],
                        ) && (t < last ==> src_before(files[last], files[t])) by {
                            if t < last {
                                lemma_src_before_trichotomy(files[t], files[m]);
                                if src_before(files[m], files[t]) {
                                    lemma_src_before_trans(files[last], files[m], files[t]);
                                }
                                lemma_src_before_trichotomy(files[last], files[t]);
                            } else {
                                lemma_src_before_trichotomy(files[last], files[last]);
                            }
                        }
                    } else {
                        lemma_src_before_trichotomy(files[last], files[m]);
                    }
                },
                None => {
                    lemma_src_before_trichotomy(files[last], files[last]);
                },
            }
        }
    }
}

} // verus!
