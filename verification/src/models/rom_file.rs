//! The discovered-file record produced by a scan: a path, an optional
//! archive-member name, and the content digests of the bytes.

use vstd::prelude::*;

verus! {

use crate::hashes::{sha1_of, stream_sha1, stream_xxhash3, u64_be_bytes, xxh3_of};
use crate::paths::{name_of, parent_of, split_path};

/// One discovered file.  For a loose file, `path` is the file itself and
/// `name` its file name; for an archive member, `path` is the container and
/// `name` the member's name inside it, with `in_archive` set.
pub struct New {
    pub parent_path: String,
    pub path: String,
    pub name: String,
    pub sha1: Vec<u8>,
    pub xxhash3: Vec<u8>,
    pub in_archive: bool,
    pub rom_id: Option<i32>,
}

impl New {
    /// Fingerprints `data`, the bytes of the loose file at `path`.  Returns
    /// `None` exactly when the path's file-name part is empty.
    pub fn from_path(path: &str, data: &[u8]) -> (r: Option<New>)
        ensures
            match r {
                Some(n) => name_of(path@).len() > 0 && n.parent_path@ == parent_of(path@)
                    && n.path@ == path@ && n.name@ == name_of(path@) && n.sha1@ == sha1_of(data@)
                    && n.xxhash3@ == u64_be_bytes(xxh3_of(data@)) && !n.in_archive
                    && n.rom_id is None,
                None => name_of(path@).len() == 0,
            },
    {
        let (parent_path, name) = split_path(path);
        if name.as_str().unicode_len() == 0 {
            return None;
        }
        let sha1 = stream_sha1(data);
        let xxhash3 = stream_xxhash3(data);
        Some(
            New {
                parent_path,
                path: path.to_owned(),
                name,
                sha1,
                xxhash3,
                in_archive: false,
                rom_id: None,
            },
        )
    }

    /// A record for the member `name` of the container at `path`, with
    /// digests the caller already computed from the member's stream.
    pub fn from_archive(path: &str, name: &str, sha1: Vec<u8>, xxhash3: Vec<u8>) -> (r: Option<
        New,
    >)
        ensures
            match r {
                Some(n) => n.parent_path@ == parent_of(path@) && n.path@ == path@ && n.name@
                    == name@ && n.sha1 == sha1 && n.xxhash3 == xxhash3 && n.in_archive
                    && n.rom_id is None,
                None => false,
            },
    {
        let (parent_path, _) = split_path(path);
        Some(
            New {
                parent_path,
                path: path.to_owned(),
                name: name.to_owned(),
                sha1,
                xxhash3,
                in_archive: true,
                rom_id: None,
            },
        )
    }

    /// The discovered file's name.
    pub fn name(&self) -> (r: &str)
        ensures
            r@ == self.name@,
    {
        self.name.as_str()
    }

    /// The discovered file's path.
    pub fn path(&self) -> (r: &str)
        ensures
            r@ == self.path@,
    {
        self.path.as_str()
    }

    /// Whether the discovered file's bytes live inside a container.
    pub fn in_archive(&self) -> (r: bool)
        ensures
            r == self.in_archive,
    {
        self.in_archive
    }

    /// The discovered file's archive flag as text.
    pub fn in_archive_str(&self) -> (r: &str)
        ensures
            self.in_archive ==> r@ == "true"@,
            !self.in_archive ==> r@ == "false"@,
    {
        if self.in_archive {
            "true"
        } else {
            "false"
        }
    }

    /// Replaces the record's strong digest.
    pub fn set_sha1(&mut self, sha1: Vec<u8>)
        ensures
            *final(self) == (New { sha1, ..*old(self) }),
    {
        self.sha1 = sha1;
    }

    /// Replaces the record's fast digest.
    pub fn set_xxhash3(&mut self, xxhash3: Vec<u8>)
        ensures
            *final(self) == (New { xxhash3, ..*old(self) }),
    {
        self.xxhash3 = xxhash3;
    }
}

} // verus!
