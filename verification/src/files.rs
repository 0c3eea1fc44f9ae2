//! The whole-file fingerprint record: a path together with the CRC-32,
//! SHA-1 and (placeholder) MD5 digests of the file's bytes.

use vstd::prelude::*;

verus! {

use crate::hashes::{compute_hashes, crc32_of, sha1_of, u32_le_bytes};

/// A file's content fingerprints.  `in_archive` records whether the bytes
/// came from inside a container.
pub struct RomFile {
    path: String,
    crc: Vec<u8>,
    sha1: Vec<u8>,
    md5: Vec<u8>,
    in_archive: bool,
}

/// Whether a sniffed MIME type names a container this tool expands: zip and
/// 7z archives are containers, and so is a file calling itself cpio; text,
/// console images and everything unrecognised are not.
pub open spec fn spec_is_archive(m: Seq<char>) -> bool {
    ||| m == "application/zip"@
    ||| m == "application/x-7z-compressed"@
    ||| m == "application/x-cpio"@
}

impl RomFile {
    /// Decides from a file's sniffed MIME type whether it is a container to
    /// expand; the sniffing itself is the caller's.
    pub fn is_archive(mime: &str) -> (r: bool)
        ensures
            r == spec_is_archive(mime@),
    {
        if crate::strutil::str_eq(mime, "application/zip") {
            true
        } else if crate::strutil::str_eq(mime, "application/x-7z-compressed") {
            true
        } else if crate::strutil::str_eq(mime, "application/x-cpio") {
            true
        } else {
            false
        }
    }

    /// The file's path.
    pub closed spec fn spec_path(&self) -> Seq<char> {
        self.path@
    }

    /// The file's CRC-32 checksum, least significant byte first.
    pub closed spec fn spec_crc(&self) -> Seq<u8> {
        self.crc@
    }

    /// The file's SHA-1 digest.
    pub closed spec fn spec_sha1(&self) -> Seq<u8> {
        self.sha1@
    }

    /// The file's MD5 digest.
    pub closed spec fn spec_md5(&self) -> Seq<u8> {
        self.md5@
    }

    /// Whether the bytes live inside a container.
    pub closed spec fn spec_in_archive(&self) -> bool {
        self.in_archive
    }

    /// Fingerprints `data`, the bytes read from `path`.
    pub fn from_data(path: String, data: &[u8], in_archive: bool) -> (r: Self)
        ensures
            r.spec_path() == path@,
            r.spec_crc() == u32_le_bytes(crc32_of(data@)),
            r.spec_sha1() == sha1_of(data@),
            r.spec_md5() == Seq::<u8>::empty(),
            r.spec_in_archive() == in_archive,
    {
        let (crc, sha1, md5) = compute_hashes(data);
        RomFile { path, crc, sha1, md5, in_archive }
    }

    /// The rom file's path.
    pub fn path(&self) -> (r: &String)
        ensures
            r@ == self.spec_path(),
    {
        &self.path
    }

    /// The rom file's CRC-32 checksum.
    pub fn crc(&self) -> (r: &[u8])
        ensures
            r@ == self.spec_crc(),
    {
        self.crc.as_slice()
    }

    /// The rom file's SHA-1 digest.
    pub fn sha1(&self) -> (r: &[u8])
        ensures
            r@ == self.spec_sha1(),
    {
        self.sha1.as_slice()
    }

    /// The rom file's MD5 digest.
    pub fn md5(&self) -> (r: &[u8])
        ensures
            r@ == self.spec_md5(),
    {
        self.md5.as_slice()
    }

    /// Whether the rom file's bytes live inside a container.
    pub fn in_archive(&self) -> (r: bool)
        ensures
            r == self.spec_in_archive(),
    {
        self.in_archive
    }
}

} // verus!
