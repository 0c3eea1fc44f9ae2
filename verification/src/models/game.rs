//! The flat record of one game.

use vstd::prelude::*;

verus! {

use crate::logiqx;
use crate::strutil::clone_opt_string;

/// A game's attributes flattened into one record, tied to its catalog by
/// `data_file_id`.
pub struct New {
    pub name: String,
    pub is_bios: Option<String>,
    pub clone_of: Option<String>,
    pub rom_of: Option<String>,
    pub sample_of: Option<String>,
    pub board: Option<String>,
    pub rebuildto: Option<String>,
    pub year: Option<String>,
    pub manufacturer: Option<String>,
    pub data_file_id: Option<i32>,
}

impl New {
    /// Flattens one catalog game into a record under catalog `data_file_id`.
    pub fn from_logiqx(l_game: &logiqx::Game, data_file_id: i32) -> (r: New)
        ensures
            r.name@ == l_game.name@,
            r.is_bios == Some(l_game.isbios),
            r.clone_of == l_game.cloneof,
            r.rom_of == Some(l_game.romof),
            r.sample_of == Some(l_game.sampleof),
            r.board == Some(l_game.board),
            r.rebuildto == Some(l_game.rebuildto),
            r.year == Some(l_game.year),
            r.manufacturer == Some(l_game.manufacturer),
            r.data_file_id == Some(data_file_id),
    {
        New {
            name: l_game.name.clone(),
            is_bios: Some(l_game.isbios.clone()),
            clone_of: clone_opt_string(&l_game.cloneof),
            rom_of: Some(l_game.romof.clone()),
            sample_of: Some(l_game.sampleof.clone()),
            board: Some(l_game.board.clone()),
            rebuildto: Some(l_game.rebuildto.clone()),
            year: Some(l_game.year.clone()),
            manufacturer: Some(l_game.manufacturer.clone()),
            data_file_id: Some(data_file_id),
        }
    }
}

} // verus!
