use mame_coalesce::destination::{plan_rebuild, rename_roms, write_all_zip, write_zip, RebuildError};
use mame_coalesce::hashes::{stream_sha1, stream_xxhash3};
use mame_coalesce::logiqx::{Game, Rom};
use mame_coalesce::models::NewRomFile;
use mame_coalesce::resolve::{best_match, lookup_game, resolve_roots, CatalogError};
use mame_coalesce::scan::scan_zip;

fn rom_for(name: &str, data: &[u8]) -> Rom {
    Rom::new(
        name.to_owned(),
        data.len() as i32,
        Vec::new(),
        stream_sha1(data),
        Vec::new(),
    )
}

fn loose_file(path: &str, data: &[u8]) -> NewRomFile {
    NewRomFile::from_path(path, data).unwrap()
}

fn archived_file(path: &str, member: &str, data: &[u8]) -> NewRomFile {
    NewRomFile::from_archive(path, member, stream_sha1(data), stream_xxhash3(data)).unwrap()
}

#[test]
fn clone_resolution_roots() {
    // A is a root, B is a clone of A, C names a game that does not exist, so
    // C is its own root.
    let games = vec![
        Game::new("A".to_owned(), None, vec![]),
        Game::new("B".to_owned(), Some("A".to_owned()), vec![]),
        Game::new("C".to_owned(), Some("nonexistent".to_owned()), vec![]),
    ];
    let roots = resolve_roots(&games).unwrap();
    assert_eq!(roots, vec![0, 0, 2]);

    // The families come out as {A: [A, B]} and {C: [C]}.
    let plans = plan_rebuild(&games, &Vec::new()).unwrap();
    assert_eq!(plans.len(), 2);
    assert_eq!(plans[0].game_name, "A");
    assert_eq!(plans[1].game_name, "C");
}

#[test]
fn clone_resolution_is_order_independent() {
    // The clone appears before its root; resolution must not care.
    let games = vec![
        Game::new("B".to_owned(), Some("A".to_owned()), vec![]),
        Game::new("A".to_owned(), None, vec![]),
    ];
    let roots = resolve_roots(&games).unwrap();
    assert_eq!(roots, vec![1, 1]);
}

#[test]
fn clone_of_clone_is_rejected() {
    let games = vec![
        Game::new("A".to_owned(), None, vec![]),
        Game::new("B".to_owned(), Some("A".to_owned()), vec![]),
        Game::new("C".to_owned(), Some("B".to_owned()), vec![]),
    ];
    assert_eq!(resolve_roots(&games), Err(CatalogError::CloneOfClone));
    assert_eq!(
        plan_rebuild(&games, &Vec::new()).err(),
        Some(CatalogError::CloneOfClone)
    );
}

#[test]
fn lookup_finds_first_by_name() {
    let games = vec![
        Game::new("x".to_owned(), None, vec![]),
        Game::new("y".to_owned(), None, vec![]),
    ];
    assert_eq!(lookup_game(&games, "y"), Some(1));
    assert_eq!(lookup_game(&games, "z"), None);
}

#[test]
fn cross_source_tie_break_prefers_loose_file() {
    let data = b"shared rom bytes".to_vec();
    let digest = stream_sha1(&data);
    let in_zip = archived_file("dir/a.zip", "rom.bin", &data);
    let loose = loose_file("dir/rom.bin", &data);

    // Whatever the scan order, the loose file wins.
    let one = vec![in_zip, loose];
    let picked = best_match(&one, &digest).unwrap();
    assert!(!one[picked].in_archive);

    let in_zip2 = archived_file("dir/a.zip", "rom.bin", &data);
    let loose2 = loose_file("dir/rom.bin", &data);
    let two = vec![loose2, in_zip2];
    let picked2 = best_match(&two, &digest).unwrap();
    assert!(!two[picked2].in_archive);
    assert_eq!(one[picked].path, two[picked2].path);
}

#[test]
fn tie_break_uses_smallest_path_then_name() {
    let data = b"dup".to_vec();
    let digest = stream_sha1(&data);
    let files = vec![
        loose_file("dir/b.bin", &data),
        loose_file("dir/a.bin", &data),
        loose_file("dir/c.bin", &data),
    ];
    let picked = best_match(&files, &digest).unwrap();
    assert_eq!(files[picked].path, "dir/a.bin");
    assert!(best_match(&files, &stream_sha1(b"absent")).is_none());
}

#[test]
fn rebuild_completeness_two_of_three() {
    // Three declared roms, two with matches: the planned archive holds
    // exactly two entries, named after the declared rom names, not after the
    // source file names.
    let d1 = b"first rom".to_vec();
    let d2 = b"second rom".to_vec();
    let d3 = b"third rom, missing".to_vec();
    let games = vec![Game::new(
        "game".to_owned(),
        None,
        vec![rom_for("r1.bin", &d1), rom_for("r2.bin", &d2), rom_for("r3.bin", &d3)],
    )];
    let files = vec![loose_file("src/x.dat", &d1), loose_file("src/y.dat", &d2)];

    let plans = plan_rebuild(&games, &files).unwrap();
    assert_eq!(plans.len(), 1);
    let plan = &plans[0];
    assert_eq!(plan.game_name, "game");
    assert_eq!(plan.entries.len(), 2);
    assert_eq!(plan.entries[0].destination_name(), "r1.bin");
    assert_eq!(plan.entries[0].archive_path(), "src/x.dat");
    assert_eq!(plan.entries[0].source_name(), "x.dat");
    assert!(!plan.entries[0].in_archive());
    assert_eq!(plan.entries[0].game_name(), "game");
    assert_eq!(plan.entries[1].destination_name(), "r2.bin");

    // Build the archive and read it back: exactly the two matched entries.
    let resolved = vec![(
        "game".to_owned(),
        vec![("r1.bin".to_owned(), d1.clone()), ("r2.bin".to_owned(), d2.clone())],
    )];
    let outputs = write_all_zip(&resolved);
    assert_eq!(outputs.len(), 1);
    assert_eq!(outputs[0].0, "game.zip");
    let bytes = outputs[0].1.clone().unwrap();
    let recs = scan_zip("game.zip", bytes).unwrap();
    assert_eq!(recs.len(), 2);
    assert_eq!(recs[0].name, "r1.bin");
    assert_eq!(recs[0].sha1, stream_sha1(&d1));
    assert_eq!(recs[1].name, "r2.bin");
    assert_eq!(recs[1].sha1, stream_sha1(&d2));
}

#[test]
fn family_merges_clone_matches_and_dedupes_digests() {
    let shared = b"shared between parent and clone".to_vec();
    let extra = b"clone only".to_vec();
    let games = vec![
        Game::new("parent".to_owned(), None, vec![rom_for("p.bin", &shared)]),
        Game::new(
            "child".to_owned(),
            Some("parent".to_owned()),
            vec![rom_for("p.bin", &shared), rom_for("c.bin", &extra)],
        ),
    ];
    let files = vec![loose_file("s/one.dat", &shared), loose_file("s/two.dat", &extra)];
    let plans = plan_rebuild(&games, &files).unwrap();
    assert_eq!(plans.len(), 1);
    let plan = &plans[0];
    assert_eq!(plan.game_name, "parent");
    // The shared digest is planned once, under the first declaration.
    assert_eq!(plan.entries.len(), 2);
    assert_eq!(plan.entries[0].destination_name(), "p.bin");
    assert_eq!(plan.entries[1].destination_name(), "c.bin");
}

#[test]
fn family_never_repeats_a_destination_name() {
    // Parent and clone declare different content under the same rom name:
    // only the first declaration is planned, so the archive writer never
    // sees a duplicate entry name.
    let one = b"parent content".to_vec();
    let two = b"clone content, different digest".to_vec();
    let games = vec![
        Game::new("parent".to_owned(), None, vec![rom_for("same.bin", &one)]),
        Game::new(
            "child".to_owned(),
            Some("parent".to_owned()),
            vec![rom_for("same.bin", &two)],
        ),
    ];
    let files = vec![loose_file("s/one.dat", &one), loose_file("s/two.dat", &two)];
    let plans = plan_rebuild(&games, &files).unwrap();
    assert_eq!(plans.len(), 1);
    assert_eq!(plans[0].entries.len(), 1);
    assert_eq!(plans[0].entries[0].destination_name(), "same.bin");
    assert_eq!(plans[0].entries[0].archive_path(), "s/one.dat");
}

#[test]
fn dry_run_plans_nothing() {
    let data = b"rom".to_vec();
    let games = vec![Game::new("g".to_owned(), None, vec![rom_for("r.bin", &data)])];
    let files = vec![loose_file("s/r.bin", &data)];
    let dry = rename_roms(&games, &files, true).unwrap();
    assert!(dry.is_empty());
    let wet = rename_roms(&games, &files, false).unwrap();
    assert_eq!(wet.len(), 1);
    assert_eq!(wet[0].entries.len(), 1);
}

#[test]
fn empty_family_emits_no_archive() {
    let resolved = vec![("empty".to_owned(), Vec::new())];
    let outputs = write_all_zip(&resolved);
    assert_eq!(outputs.len(), 1);
    assert_eq!(outputs[0].0, "empty.zip");
    assert!(outputs[0].1.is_none());
}

#[test]
fn duplicate_entry_names_are_refused_by_the_writer() {
    let entries = vec![
        ("same.bin".to_owned(), b"one".to_vec()),
        ("same.bin".to_owned(), b"two".to_vec()),
    ];
    assert_eq!(write_zip(&entries), Err(RebuildError::WriteFailed));
}
