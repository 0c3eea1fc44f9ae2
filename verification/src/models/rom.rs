//! The flat record of one expected rom.

use vstd::prelude::*;

verus! {

use crate::logiqx;
use crate::strutil::clone_bytes;

/// An expected rom's attributes flattened into one record, tied to its game
/// by `game_id`.
pub struct New {
    pub name: String,
    pub size: i32,
    pub md5: Vec<u8>,
    pub sha1: Vec<u8>,
    pub crc: Vec<u8>,
    pub date: Option<String>,
    pub updated_at: Option<String>,
    pub inserted_at: Option<String>,
    pub game_id: i32,
}

impl New {
    /// Flattens one catalog rom into a record under game `game_id`.
    pub fn from_logiqx(rom: &logiqx::Rom, game_id: i32) -> (r: New)
        ensures
            r.name@ == rom.name@,
            r.size == rom.size,
            r.md5@ == rom.md5@,
            r.sha1@ == rom.sha1@,
            r.crc@ == rom.crc@,
            r.date is None,
            r.updated_at is None,
            r.inserted_at is None,
            r.game_id == game_id,
    {
        New {
            name: rom.name.clone(),
            size: rom.size,
            md5: clone_bytes(&rom.md5),
            sha1: clone_bytes(&rom.sha1),
            crc: clone_bytes(&rom.crc),
            date: None,
            updated_at: None,
            inserted_at: None,
            game_id,
        }
    }
}

} // verus!
