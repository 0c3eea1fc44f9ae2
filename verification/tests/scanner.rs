use mame_coalesce::destination::write_zip;
use mame_coalesce::hashes::stream_sha1;
use mame_coalesce::models::NewRomFile;
use mame_coalesce::paths::split_path;
use mame_coalesce::scan::{
    build_rom_files, classify, entry_is_relevant, optimize_file_order, scan_archive_events,
    scan_zip, ArchiveEvent, ContainerKind, ScanError,
};

fn sample_bytes(len: usize) -> Vec<u8> {
    (0..len).map(|i| (i % 253) as u8).collect()
}

#[test]
fn classify_by_content_not_name() {
    let zip_bytes = write_zip(&vec![("m".to_owned(), b"abc".to_vec())]).unwrap();
    assert_eq!(classify(&zip_bytes), Some(ContainerKind::Zip));

    let seven_z = [0x37u8, 0x7a, 0xbc, 0xaf, 0x27, 0x1c, 0, 0, 0, 0, 0, 0];
    assert_eq!(classify(&seven_z), Some(ContainerKind::General));

    let rar = [0x52u8, 0x61, 0x72, 0x21, 0x1a, 0x07, 0x00, 0, 0, 0, 0, 0];
    assert_eq!(classify(&rar), Some(ContainerKind::General));

    assert_eq!(classify(b"just some text, no magic"), None);
}

#[test]
fn entry_relevance_hides_dotfiles_below_root() {
    assert!(entry_is_relevant(".hidden", 0));
    assert!(!entry_is_relevant(".hidden", 1));
    assert!(entry_is_relevant("visible", 3));
    assert!(entry_is_relevant("", 2));
}

#[test]
fn file_order_sorts_by_locality_key() {
    let files = vec![
        (5u64, "e".to_owned()),
        (1u64, "a".to_owned()),
        (3u64, "c".to_owned()),
        (3u64, "b".to_owned()),
    ];
    let ordered = optimize_file_order(files);
    let keys: Vec<u64> = ordered.iter().map(|f| f.0).collect();
    assert_eq!(keys, vec![1, 3, 3, 5]);
    let mut paths: Vec<String> = ordered.into_iter().map(|f| f.1).collect();
    paths.sort();
    assert_eq!(paths, vec!["a", "b", "c", "e"]);
}

#[test]
fn split_path_cases() {
    assert_eq!(split_path("a/b/c.bin"), ("a/b".to_owned(), "c.bin".to_owned()));
    assert_eq!(split_path("c.bin"), (String::new(), "c.bin".to_owned()));
    assert_eq!(split_path("dir/"), ("dir".to_owned(), String::new()));
    assert_eq!(split_path(""), (String::new(), String::new()));
}

#[test]
fn zip_round_trip_digests() {
    // A member archived in a zip container carries the same strong digest as
    // the loose file, across the edge sizes.
    for len in [0usize, 1, 16385] {
        let data = sample_bytes(len);
        let loose = stream_sha1(&data);
        let zip_bytes = write_zip(&vec![("member.bin".to_owned(), data)]).unwrap();
        let recs = scan_zip("src/a.zip", zip_bytes).unwrap();
        assert_eq!(recs.len(), 1);
        assert_eq!(recs[0].name, "member.bin");
        assert_eq!(recs[0].sha1, loose);
        assert!(recs[0].in_archive);
        assert_eq!(recs[0].path, "src/a.zip");
    }
}

#[test]
fn event_stream_round_trip_digests() {
    // A member delivered by a forward-only container reader carries the same
    // strong digest as the loose file, across the edge sizes.
    for len in [0usize, 1, 16385] {
        let data = sample_bytes(len);
        let loose = stream_sha1(&data);
        let mut events = vec![ArchiveEvent::Start("member.bin".to_owned())];
        for chunk in data.chunks(16384) {
            events.push(ArchiveEvent::Data(chunk.to_vec()));
        }
        events.push(ArchiveEvent::End);
        let recs = scan_archive_events("src/a.7z", &events);
        assert_eq!(recs.len(), 1);
        assert_eq!(recs[0].name, "member.bin");
        assert_eq!(recs[0].sha1, loose);
        assert!(recs[0].in_archive);
    }
}

#[test]
fn event_stream_faults_do_not_end_the_read() {
    let events = vec![
        ArchiveEvent::Start("one".to_owned()),
        ArchiveEvent::Data(b"aa".to_vec()),
        ArchiveEvent::Fault,
        ArchiveEvent::Data(b"bb".to_vec()),
        ArchiveEvent::End,
        ArchiveEvent::Start("two".to_owned()),
        ArchiveEvent::Data(b"cc".to_vec()),
        ArchiveEvent::End,
    ];
    let recs = scan_archive_events("p.7z", &events);
    assert_eq!(recs.len(), 2);
    assert_eq!(recs[0].name, "one");
    assert_eq!(recs[0].sha1, stream_sha1(b"aabb"));
    assert_eq!(recs[1].name, "two");
    assert_eq!(recs[1].sha1, stream_sha1(b"cc"));
}

#[test]
fn scan_zip_rejects_garbage() {
    assert_eq!(
        scan_zip("x.zip", b"this is not a zip archive at all".to_vec()).err(),
        Some(ScanError::BadArchive)
    );
}

#[test]
fn idempotent_scan_of_unchanged_input() {
    // Scanning the same bytes twice yields the same records.
    let data = sample_bytes(100);
    let zip_bytes = write_zip(&vec![
        ("x.bin".to_owned(), data.clone()),
        ("y.bin".to_owned(), sample_bytes(7)),
    ])
    .unwrap();

    let first = build_rom_files("d/a.zip", zip_bytes.clone()).unwrap();
    let second = build_rom_files("d/a.zip", zip_bytes).unwrap();
    assert_eq!(first.len(), second.len());
    for (a, b) in first.iter().zip(second.iter()) {
        assert_eq!(a.parent_path, b.parent_path);
        assert_eq!(a.path, b.path);
        assert_eq!(a.name, b.name);
        assert_eq!(a.sha1, b.sha1);
        assert_eq!(a.xxhash3, b.xxhash3);
        assert_eq!(a.in_archive, b.in_archive);
    }

    let loose_one = build_rom_files("d/loose.bin", data.clone()).unwrap();
    let loose_two = build_rom_files("d/loose.bin", data).unwrap();
    assert_eq!(loose_one.len(), 1);
    assert_eq!(loose_one[0].sha1, loose_two[0].sha1);
    assert_eq!(loose_one[0].name, "loose.bin");
    assert_eq!(loose_one[0].parent_path, "d");
    assert!(!loose_one[0].in_archive);
}

#[test]
fn scan_collection_is_order_independent() {
    // Two walks that visit the same files in different orders collect the
    // same records, up to ordering.
    let d1 = sample_bytes(64);
    let d2 = sample_bytes(65);
    let mut first = build_rom_files("p/a.bin", d1.clone()).unwrap();
    first.extend(build_rom_files("p/b.bin", d2.clone()).unwrap());
    let mut second = build_rom_files("p/b.bin", d2).unwrap();
    second.extend(build_rom_files("p/a.bin", d1).unwrap());

    let key = |n: &NewRomFile| (n.path.clone(), n.name.clone(), n.sha1.clone(), n.in_archive);
    let mut k1: Vec<_> = first.iter().map(key).collect();
    let mut k2: Vec<_> = second.iter().map(key).collect();
    k1.sort();
    k2.sort();
    assert_eq!(k1, k2);
}

#[test]
fn general_container_left_to_event_reader() {
    let seven_z = vec![0x37u8, 0x7a, 0xbc, 0xaf, 0x27, 0x1c, 0, 0, 0, 0, 0, 0];
    assert!(build_rom_files("a.7z", seven_z).is_none());
}

#[test]
fn from_path_refuses_empty_file_name() {
    assert!(NewRomFile::from_path("dir/", b"abc").is_none());
    let rec = NewRomFile::from_path("dir/f.bin", b"abc").unwrap();
    assert_eq!(rec.parent_path, "dir");
    assert_eq!(rec.name, "f.bin");
    assert_eq!(rec.sha1, stream_sha1(b"abc"));
}
