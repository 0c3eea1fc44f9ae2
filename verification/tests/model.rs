use mame_coalesce::files::RomFile;
use mame_coalesce::hashes::stream_sha1;
use mame_coalesce::logiqx::{DataFile, Game, Header, Rom};
use mame_coalesce::models::{NewDataFile, NewGame, NewRom, NewRomFile};

#[test]
fn header_new_is_empty() {
    let h = Header::new();
    assert_eq!(h.name(), "");
    assert!(h.description().is_none());
    assert!(h.version().is_none());
    assert!(h.author().is_none());
    assert!(h.homepage().is_none());
    assert!(h.url().is_none());
}

#[test]
fn data_file_identity_fields() {
    let mut df = DataFile::new(Header::new(), vec![Game::new("g".to_owned(), None, vec![])]);
    assert!(df.sha1().is_none());
    assert!(df.file_name().is_none());
    df.set_sha1(vec![1, 2, 3]);
    df.set_file_name(Some("cat.dat".to_owned()));
    assert_eq!(df.sha1().unwrap(), &vec![1, 2, 3]);
    assert_eq!(df.file_name().unwrap().as_str(), "cat.dat");
    assert_eq!(df.games().len(), 1);
    assert_eq!(df.games()[0].name(), "g");
}

#[test]
fn rom_getters() {
    let r = Rom::new("r.bin".to_owned(), 42, vec![1], vec![2], vec![3]);
    assert_eq!(r.name(), "r.bin");
    assert_eq!(*r.size(), 42);
    assert_eq!(r.md5(), &vec![1]);
    assert_eq!(r.sha1(), &vec![2]);
    assert_eq!(r.crc(), &vec![3]);
    assert_eq!(r.merge(), "");
    assert_eq!(r.status(), "");
}

#[test]
fn game_getters() {
    let g = Game::new("g".to_owned(), Some("parent".to_owned()), vec![]);
    assert_eq!(g.name(), "g");
    assert_eq!(g.cloneof().unwrap().as_str(), "parent");
    assert_eq!(g.isbios(), "");
    assert_eq!(g.year(), "");
    assert!(g.roms().is_empty());
}

#[test]
fn flat_records_from_catalog() {
    let rom = Rom::new("r.bin".to_owned(), 7, vec![0xaa], vec![0xbb], vec![0xcc]);
    let new_rom = NewRom::from_logiqx(&rom, 5);
    assert_eq!(new_rom.name, "r.bin");
    assert_eq!(new_rom.size, 7);
    assert_eq!(new_rom.sha1, vec![0xbb]);
    assert_eq!(new_rom.game_id, 5);
    assert!(new_rom.date.is_none());

    let game = Game::new("g".to_owned(), Some("p".to_owned()), vec![rom]);
    let new_game = NewGame::from_logiqx(&game, 9);
    assert_eq!(new_game.name, "g");
    assert_eq!(new_game.clone_of.as_deref(), Some("p"));
    assert_eq!(new_game.data_file_id, Some(9));

    let mut df = DataFile::new(Header::new(), vec![game]);
    df.set_sha1(vec![0xdd]);
    let new_df = NewDataFile::from_logiqx(&df);
    assert_eq!(new_df.name(), "");
    assert_eq!(new_df.sha1().unwrap(), &vec![0xdd]);
}

#[test]
fn discovered_file_record_updates() {
    let mut rec = NewRomFile::from_archive("d/a.zip", "m.bin", vec![1], vec![2]).unwrap();
    assert_eq!(rec.name(), "m.bin");
    assert_eq!(rec.path(), "d/a.zip");
    assert!(rec.in_archive());
    assert_eq!(rec.in_archive_str(), "true");
    rec.set_sha1(vec![9, 9]);
    rec.set_xxhash3(vec![8, 8]);
    assert_eq!(rec.sha1, vec![9, 9]);
    assert_eq!(rec.xxhash3, vec![8, 8]);
}

#[test]
fn archive_decision_by_mime_type() {
    assert!(RomFile::is_archive("application/zip"));
    assert!(RomFile::is_archive("application/x-7z-compressed"));
    assert!(RomFile::is_archive("application/x-cpio"));
    assert!(!RomFile::is_archive("text/plain"));
    assert!(!RomFile::is_archive("application/x-n64-rom"));
    assert!(!RomFile::is_archive("application/octet-stream"));
}

#[test]
fn whole_file_fingerprints() {
    let rf = RomFile::from_data("d/f.bin".to_owned(), b"123456789", false);
    assert_eq!(rf.path(), "d/f.bin");
    assert_eq!(rf.crc(), &[0x26, 0x39, 0xf4, 0xcb]);
    assert_eq!(rf.sha1(), stream_sha1(b"123456789").as_slice());
    assert!(rf.md5().is_empty());
    assert!(!rf.in_archive());
    let inner = RomFile::from_data("d/a.zip".to_owned(), b"x", true);
    assert!(inner.in_archive());
}
