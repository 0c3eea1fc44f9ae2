//! The in-memory catalog model: a data file holds a header and an ordered
//! list of games; a game holds an ordered list of expected roms and an
//! optional clone-of reference to another game's name.  Parsing the catalog
//! document into this model is a collaborator's concern; the model itself is
//! plain data.

use vstd::prelude::*;

verus! {

use crate::strutil::new_empty_string;

/// An expected file within a game: a name, a declared size and content
/// digests.  The strong digest (`sha1`) identifies the rom for matching.
pub struct Rom {
    pub name: String,
    pub size: i32,
    pub md5: Vec<u8>,
    pub sha1: Vec<u8>,
    pub crc: Vec<u8>,
    pub merge: String,
    pub status: String,
    pub serial: String,
    pub date: String,
}

impl Rom {
    /// A rom with the given name, size and digests; the descriptive fields
    /// stay empty.
    pub fn new(name: String, size: i32, md5: Vec<u8>, sha1: Vec<u8>, crc: Vec<u8>) -> (r: Self)
        ensures
            r.name == name,
            r.size == size,
            r.md5 == md5,
            r.sha1 == sha1,
            r.crc == crc,
            r.merge@ == Seq::<char>::empty(),
            r.status@ == Seq::<char>::empty(),
            r.serial@ == Seq::<char>::empty(),
            r.date@ == Seq::<char>::empty(),
    {
        Rom {
            name,
            size,
            md5,
            sha1,
            crc,
            merge: new_empty_string(),
            status: new_empty_string(),
            serial: new_empty_string(),
            date: new_empty_string(),
        }
    }

    /// The rom's name.
    pub fn name(&self) -> (r: &str)
        ensures
            r@ == self.name@,
    {
        self.name.as_str()
    }

    /// The rom's declared size.
    pub fn size(&self) -> (r: &i32)
        ensures
            *r == self.size,
    {
        &self.size
    }

    /// The rom's MD5 digest.
    pub fn md5(&self) -> (r: &Vec<u8>)
        ensures
            r == &self.md5,
    {
        &self.md5
    }

    /// The rom's SHA-1 digest.
    pub fn sha1(&self) -> (r: &Vec<u8>)
        ensures
            r == &self.sha1,
    {
        &self.sha1
    }

    /// The rom's CRC-32 checksum.
    pub fn crc(&self) -> (r: &Vec<u8>)
        ensures
            r == &self.crc,
    {
        &self.crc
    }

    /// The rom's merge attribute.
    pub fn merge(&self) -> (r: &str)
        ensures
            r@ == self.merge@,
    {
        self.merge.as_str()
    }

    /// The rom's dump status.
    pub fn status(&self) -> (r: &str)
        ensures
            r@ == self.status@,
    {
        self.status.as_str()
    }

    /// The rom's serial attribute.
    pub fn serial(&self) -> (r: &str)
        ensures
            r@ == self.serial@,
    {
        self.serial.as_str()
    }

    /// The rom's date attribute.
    pub fn date(&self) -> (r: &str)
        ensures
            r@ == self.date@,
    {
        self.date.as_str()
    }
}

/// One game of the catalog: a unique name, an optional clone-of reference,
/// descriptive attributes and its expected roms in declared order.
pub struct Game {
    pub name: String,
    pub sourcefile: String,
    pub isbios: String,
    pub cloneof: Option<String>,
    pub romof: String,
    pub sampleof: String,
    pub board: String,
    pub rebuildto: String,
    pub year: String,
    pub manufacturer: String,
    pub roms: Vec<Rom>,
}

impl Game {
    /// A game with the given name, clone-of reference and roms; the
    /// descriptive fields stay empty.
    pub fn new(name: String, cloneof: Option<String>, roms: Vec<Rom>) -> (r: Self)
        ensures
            r.name == name,
            r.cloneof == cloneof,
            r.roms == roms,
    {
        Game {
            name,
            sourcefile: new_empty_string(),
            isbios: new_empty_string(),
            cloneof,
            romof: new_empty_string(),
            sampleof: new_empty_string(),
            board: new_empty_string(),
            rebuildto: new_empty_string(),
            year: new_empty_string(),
            manufacturer: new_empty_string(),
            roms,
        }
    }

    /// The game's name.
    pub fn name(&self) -> (r: &str)
        ensures
            r@ == self.name@,
    {
        self.name.as_str()
    }

    /// The game's source file attribute.
    pub fn sourcefile(&self) -> (r: &str)
        ensures
            r@ == self.sourcefile@,
    {
        self.sourcefile.as_str()
    }

    /// The game's BIOS marker.
    pub fn isbios(&self) -> (r: &str)
        ensures
            r@ == self.isbios@,
    {
        self.isbios.as_str()
    }

    /// The game's rom-of attribute.
    pub fn romof(&self) -> (r: &str)
        ensures
            r@ == self.romof@,
    {
        self.romof.as_str()
    }

    /// The game's sample-of attribute.
    pub fn sampleof(&self) -> (r: &str)
        ensures
            r@ == self.sampleof@,
    {
        self.sampleof.as_str()
    }

    /// The game's board attribute.
    pub fn board(&self) -> (r: &str)
        ensures
            r@ == self.board@,
    {
        self.board.as_str()
    }

    /// The game's rebuild-to attribute.
    pub fn rebuildto(&self) -> (r: &str)
        ensures
            r@ == self.rebuildto@,
    {
        self.rebuildto.as_str()
    }

    /// The game's year attribute.
    pub fn year(&self) -> (r: &str)
        ensures
            r@ == self.year@,
    {
        self.year.as_str()
    }

    /// The game's manufacturer attribute.
    pub fn manufacturer(&self) -> (r: &str)
        ensures
            r@ == self.manufacturer@,
    {
        self.manufacturer.as_str()
    }

    /// The game's roms, in declared order.
    pub fn roms(&self) -> (r: &Vec<Rom>)
        ensures
            r == &self.roms,
    {
        &self.roms
    }

    /// The game's clone-of reference, if any.
    pub fn cloneof(&self) -> (r: Option<&String>)
        ensures
            match r {
                Some(n) => self.cloneof == Some(*n),
                None => self.cloneof is None,
            },
    {
        self.cloneof.as_ref()
    }
}

/// The header of a catalog document: its declared name and descriptive
/// attributes.
pub struct Header {
    pub name: String,
    pub description: Option<String>,
    pub version: Option<String>,
    pub author: Option<String>,
    pub homepage: Option<String>,
    pub url: Option<String>,
}

impl Header {
    /// An empty header: empty name, no attributes.
    pub fn new() -> (r: Self)
        ensures
            r.name@ == Seq::<char>::empty(),
            r.description is None,
            r.version is None,
            r.author is None,
            r.homepage is None,
            r.url is None,
    {
        Header {
            name: new_empty_string(),
            description: None,
            version: None,
            author: None,
            homepage: None,
            url: None,
        }
    }

    /// The catalog's declared name.
    pub fn name(&self) -> (r: &str)
        ensures
            r@ == self.name@,
    {
        self.name.as_str()
    }

    /// The catalog's homepage, if declared.
    pub fn homepage(&self) -> (r: Option<&String>)
        ensures
            match r {
                Some(s) => self.homepage == Some(*s),
                None => self.homepage is None,
            },
    {
        self.homepage.as_ref()
    }

    /// The catalog's description, if declared.
    pub fn description(&self) -> (r: Option<&String>)
        ensures
            match r {
                Some(s) => self.description == Some(*s),
                None => self.description is None,
            },
    {
        self.description.as_ref()
    }

    /// The catalog's version, if declared.
    pub fn version(&self) -> (r: Option<&String>)
        ensures
            match r {
                Some(s) => self.version == Some(*s),
                None => self.version is None,
            },
    {
        self.version.as_ref()
    }

    /// The catalog's author, if declared.
    pub fn author(&self) -> (r: Option<&String>)
        ensures
            match r {
                Some(s) => self.author == Some(*s),
                None => self.author is None,
            },
    {
        self.author.as_ref()
    }

    /// The catalog's URL, if declared.
    pub fn url(&self) -> (r: Option<&String>)
        ensures
            match r {
                Some(s) => self.url == Some(*s),
                None => self.url is None,
            },
    {
        self.url.as_ref()
    }
}

/// A parsed catalog document: header, games, and the source document's
/// identity (its path and SHA-1 digest) once known.
pub struct DataFile {
    pub file_name: Option<String>,
    pub build: Option<String>,
    pub debug: Option<String>,
    pub header: Header,
    pub sha1: Option<Vec<u8>>,
    pub games: Vec<Game>,
}

impl DataFile {
    /// A catalog with the given header and games; identity fields stay unset
    /// until the surrounding tooling fills them in.
    pub fn new(header: Header, games: Vec<Game>) -> (r: Self)
        ensures
            r.header == header,
            r.games == games,
            r.file_name is None,
            r.build is None,
            r.debug is None,
            r.sha1 is None,
    {
        DataFile { file_name: None, build: None, debug: None, header, sha1: None, games }
    }

    /// The catalog's header.
    pub fn header(&self) -> (r: &Header)
        ensures
            r == &self.header,
    {
        &self.header
    }

    /// The catalog's games, in declared order.
    pub fn games(&self) -> (r: &Vec<Game>)
        ensures
            r == &self.games,
    {
        &self.games
    }

    /// The digest of the source document, once computed.
    pub fn sha1(&self) -> (r: Option<&Vec<u8>>)
        ensures
            match r {
                Some(d) => self.sha1 == Some(*d),
                None => self.sha1 is None,
            },
    {
        self.sha1.as_ref()
    }

    /// Records the digest of the source document.
    pub fn set_sha1(&mut self, sha1: Vec<u8>)
        ensures
            *final(self) == (DataFile { sha1: Some(sha1), ..*old(self) }),
    {
        self.sha1 = Some(sha1);
    }

    /// The path of the source document, once known.
    pub fn file_name(&self) -> (r: Option<&String>)
        ensures
            match r {
                Some(s) => self.file_name == Some(*s),
                None => self.file_name is None,
            },
    {
        self.file_name.as_ref()
    }

    /// Records the path of the source document.
    pub fn set_file_name(&mut self, file_name: Option<String>)
        ensures
            *final(self) == (DataFile { file_name, ..*old(self) }),
    {
        self.file_name = file_name;
    }

    /// The catalog's build attribute, if declared.
    pub fn build(&self) -> (r: Option<&String>)
        ensures
            match r {
                Some(s) => self.build == Some(*s),
                None => self.build is None,
            },
    {
        self.build.as_ref()
    }

    /// The catalog's debug attribute, if declared.
    pub fn debug(&self) -> (r: Option<&String>)
        ensures
            match r {
                Some(s) => self.debug == Some(*s),
                None => self.debug is None,
            },
    {
        self.debug.as_ref()
    }
}

} // verus!
