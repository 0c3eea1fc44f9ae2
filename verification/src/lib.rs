//! Identification and reassembly of emulator ROM sets.
//!
//! A catalog (a "DAT" file) declares games, their expected rom entries (name,
//! size and content digests), and clone relationships between games.  This
//! library fingerprints files and archive members by content digest, matches
//! them against the catalog, resolves clones into families rooted at a parent
//! game, and plans one output archive per family whose entries carry the
//! catalog-declared rom names.

pub mod destination;

pub mod files;

pub mod hashes;

pub mod hexutil;

pub mod logiqx;

pub mod models;

pub mod paths;

pub mod resolve;

pub mod scan;

pub mod strutil;

pub mod zipio;
