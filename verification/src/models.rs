//! Flat record types derived from the catalog model and from scans: one per
//! catalog document, game, expected rom, and discovered file.

pub mod data_file;

pub mod game;

pub mod rom;

pub mod rom_file;

pub use data_file::New as NewDataFile;
pub use game::New as NewGame;
pub use rom::New as NewRom;
pub use rom_file::New as NewRomFile;
