//! Content fingerprints: a strong digest (SHA-1), a fast digest (XXH3) and a
//! legacy checksum (CRC-32), all computed over fixed-size chunks so that the
//! same code serves whole files and streamed archive members.

use vstd::prelude::*;

verus! {

use vstd::slice::slice_subrange;

/// The SHA-1 digest of a byte sequence, as the `sha1` crate computes it.
pub uninterp spec fn sha1_of(data: Seq<u8>) -> Seq<u8>;

/// The XXH3 (64-bit, default secret) digest of a byte sequence, as the
/// `xxhash-rust` crate computes it.
pub uninterp spec fn xxh3_of(data: Seq<u8>) -> u64;

/// The CRC-32 (IEEE) checksum of a byte sequence, as the `crc32fast` crate
/// computes it.
pub uninterp spec fn crc32_of(data: Seq<u8>) -> u32;

#[verifier::external_type_specification]
#[verifier::external_body]
pub struct ExSha1(sha1::Sha1);

#[verifier::external_type_specification]
#[verifier::external_body]
pub struct ExXxh3(xxhash_rust::xxh3::Xxh3);

#[verifier::external_type_specification]
#[verifier::external_body]
pub struct ExCrc32(crc32fast::Hasher);

/// An incremental SHA-1 computation; `fed` tracks the bytes given so far.
pub struct Sha1Hasher {
    inner: sha1::Sha1,
    fed: Ghost<Seq<u8>>,
}

impl Sha1Hasher {
    /// The bytes fed to the hasher since it was created or last reset.
    pub closed spec fn fed(&self) -> Seq<u8> {
        self.fed@
    }

    /// Relies on `sha1::Digest::new`: a hasher that has seen no input.
    #[verifier::external_body]
    pub fn new() -> (h: Self)
        ensures
            h.fed() == Seq::<u8>::empty(),
    {
        Sha1Hasher { inner: <sha1::Sha1 as sha1::Digest>::new(), fed: Ghost(Seq::empty()) }
    }

    /// Relies on `sha1::Digest::update`: feeds further bytes.
    #[verifier::external_body]
    pub fn update(&mut self, chunk: &[u8])
        ensures
            final(self).fed() == old(self).fed() + chunk@,
    {
        <sha1::Sha1 as sha1::Digest>::update(&mut self.inner, chunk);
    }

    /// Relies on `sha1::Digest::reset`: forgets all input fed so far.
    #[verifier::external_body]
    pub fn reset(&mut self)
        ensures
            final(self).fed() == Seq::<u8>::empty(),
    {
        <sha1::Sha1 as sha1::Digest>::reset(&mut self.inner);
    }

    /// Relies on `sha1::Digest::finalize_reset`: the 20-byte SHA-1 digest of
    /// the bytes fed so far, leaving the hasher empty again.
    #[verifier::external_body]
    pub fn finalize_reset(&mut self) -> (r: Vec<u8>)
        ensures
            r@ == sha1_of(old(self).fed()),
            r@.len() == 20,
            final(self).fed() == Seq::<u8>::empty(),
    {
        <sha1::Sha1 as sha1::Digest>::finalize_reset(&mut self.inner).to_vec()
    }
}

/// An incremental XXH3 computation; `fed` tracks the bytes given so far.
pub struct Xxh3Hasher {
    inner: xxhash_rust::xxh3::Xxh3,
    fed: Ghost<Seq<u8>>,
}

impl Xxh3Hasher {
    /// The bytes fed to the hasher since it was created or last reset.
    pub closed spec fn fed(&self) -> Seq<u8> {
        self.fed@
    }

    /// Relies on `Xxh3::new`: a hasher that has seen no input.
    #[verifier::external_body]
    pub fn new() -> (h: Self)
        ensures
            h.fed() == Seq::<u8>::empty(),
    {
        Xxh3Hasher { inner: xxhash_rust::xxh3::Xxh3::new(), fed: Ghost(Seq::empty()) }
    }

    /// Relies on `Xxh3::update`: feeds further bytes.
    #[verifier::external_body]
    pub fn update(&mut self, chunk: &[u8])
        ensures
            final(self).fed() == old(self).fed() + chunk@,
    {
        self.inner.update(chunk);
    }

    /// Relies on `Xxh3::reset`: forgets all input fed so far.
    #[verifier::external_body]
    pub fn reset(&mut self)
        ensures
            final(self).fed() == Seq::<u8>::empty(),
    {
        self.inner.reset();
    }

    /// Relies on `Xxh3::digest`: the 64-bit digest of the bytes fed so far,
    /// without disturbing the hasher.
    #[verifier::external_body]
    pub fn digest(&self) -> (r: u64)
        ensures
            r == xxh3_of(self.fed()),
    {
        self.inner.digest()
    }
}

/// An incremental CRC-32 computation; `fed` tracks the bytes given so far.
pub struct Crc32Hasher {
    inner: crc32fast::Hasher,
    fed: Ghost<Seq<u8>>,
}

impl Crc32Hasher {
    /// The bytes fed to the hasher since it was created.
    pub closed spec fn fed(&self) -> Seq<u8> {
        self.fed@
    }

    /// Relies on `crc32fast::Hasher::new`: a hasher that has seen no input.
    #[verifier::external_body]
    pub fn new() -> (h: Self)
        ensures
            h.fed() == Seq::<u8>::empty(),
    {
        Crc32Hasher { inner: crc32fast::Hasher::new(), fed: Ghost(Seq::empty()) }
    }

    /// Relies on `crc32fast::Hasher::update`: feeds further bytes.
    #[verifier::external_body]
    pub fn update(&mut self, chunk: &[u8])
        ensures
            final(self).fed() == old(self).fed() + chunk@,
    {
        self.inner.update(chunk);
    }

    /// Relies on `crc32fast::Hasher::finalize`: the checksum of all bytes fed.
    #[verifier::external_body]
    pub fn finalize(self) -> (r: u32)
        ensures
            r == crc32_of(self.fed()),
    {
        self.inner.finalize()
    }
}

/// The four bytes of `x`, least significant first.
pub open spec fn u32_le_bytes(x: u32) -> Seq<u8> {
    seq![
        (x & 0xff) as u8,
        ((x >> 8) & 0xff) as u8,
        ((x >> 16) & 0xff) as u8,
        ((x >> 24) & 0xff) as u8,
    ]
}

/// The eight bytes of `x`, most significant first.
pub open spec fn u64_be_bytes(x: u64) -> Seq<u8> {
    seq![
        ((x >> 56) & 0xff) as u8,
        ((x >> 48) & 0xff) as u8,
        ((x >> 40) & 0xff) as u8,
        ((x >> 32) & 0xff) as u8,
        ((x >> 24) & 0xff) as u8,
        ((x >> 16) & 0xff) as u8,
        ((x >> 8) & 0xff) as u8,
        (x & 0xff) as u8,
    ]
}

/// Serialises `x` least significant byte first.
pub fn u32_to_le_bytes(x: u32) -> (r: Vec<u8>)
    ensures
        r@ == u32_le_bytes(x),
{
    let mut r: Vec<u8> = Vec::new();
    r.push((x & 0xff) as u8);
    r.push(((x >> 8) & 0xff) as u8);
    r.push(((x >> 16) & 0xff) as u8);
    r.push(((x >> 24) & 0xff) as u8);
    proof {
        assert(r@ =~= u32_le_bytes(x));
    }
    r
}

/// Serialises `x` most significant byte first.
pub fn u64_to_be_bytes(x: u64) -> (r: Vec<u8>)
    ensures
        r@ == u64_be_bytes(x),
{
    let mut r: Vec<u8> = Vec::new();
    r.push(((x >> 56) & 0xff) as u8);
    r.push(((x >> 48) & 0xff) as u8);
    r.push(((x >> 40) & 0xff) as u8);
    r.push(((x >> 32) & 0xff) as u8);
    r.push(((x >> 24) & 0xff) as u8);
    r.push(((x >> 16) & 0xff) as u8);
    r.push(((x >> 8) & 0xff) as u8);
    r.push((x & 0xff) as u8);
    proof {
        assert(r@ =~= u64_be_bytes(x));
    }
    r
}

/// Size of the pieces in which inputs are fed to the hashers.
pub const HASH_CHUNK: usize = 16384;

/// SHA-1 over `data`, fed to the hasher in pieces of `chunk_size` bytes.
/// The digest never depends on the chunking: any chunk size from one byte up
/// to (or beyond) the whole input yields the digest of the whole input.
pub fn stream_sha1_chunked(data: &[u8], chunk_size: usize) -> (r: Vec<u8>)
    requires
        chunk_size >= 1,
    ensures
        r@ == sha1_of(data@),
        r@.len() == 20,
{
    let mut h = Sha1Hasher::new();
    let mut i: usize = 0;
    proof {
        assert(Seq::<u8>::empty() =~= data@.subrange(0, 0));
    }
    while i < data.len()
        invariant
            i <= data@.len(),
            chunk_size >= 1,
            h.fed() == data@.subrange(0, i as int),
        decreases data@.len() - i,
    {
        let end = if data.len() - i < chunk_size {
            data.len()
        } else {
            i + chunk_size
        };
        let piece = slice_subrange(data, i, end);
        h.update(piece);
        proof {
            assert(data@.subrange(0, i as int) + data@.subrange(i as int, end as int) =~= data@
                .subrange(0, end as int));
        }
        i = end;
    }
    proof {
        assert(data@.subrange(0, data@.len() as int) =~= data@);
    }
    h.finalize_reset()
}

/// Digest stability: the digest of a fixed input never depends on how the
/// input was chunked.  Any two streaming runs over the same bytes — one byte
/// at a time, the standard chunk, or the whole buffer at once — return the
/// digest of the whole input, so their results are equal.
pub proof fn lemma_digest_stability(r1: Seq<u8>, r2: Seq<u8>, data: Seq<u8>)
    requires
        r1 == sha1_of(data),
        r2 == sha1_of(data),
    ensures
        r1 == r2,
{
}

/// SHA-1 over `data` with the library's standard chunk size.
pub fn stream_sha1(data: &[u8]) -> (r: Vec<u8>)
    ensures
        r@ == sha1_of(data@),
        r@.len() == 20,
{
    stream_sha1_chunked(data, HASH_CHUNK)
}

/// XXH3 over `data`, fed in pieces of `chunk_size` bytes, serialised most
/// significant byte first.  The digest never depends on the chunking.
pub fn stream_xxhash3_chunked(data: &[u8], chunk_size: usize) -> (r: Vec<u8>)
    requires
        chunk_size >= 1,
    ensures
        r@ == u64_be_bytes(xxh3_of(data@)),
{
    let mut h = Xxh3Hasher::new();
    let mut i: usize = 0;
    proof {
        assert(Seq::<u8>::empty() =~= data@.subrange(0, 0));
    }
    while i < data.len()
        invariant
            i <= data@.len(),
            chunk_size >= 1,
            h.fed() == data@.subrange(0, i as int),
        decreases data@.len() - i,
    {
        let end = if data.len() - i < chunk_size {
            data.len()
        } else {
            i + chunk_size
        };
        let piece = slice_subrange(data, i, end);
        h.update(piece);
        proof {
            assert(data@.subrange(0, i as int) + data@.subrange(i as int, end as int) =~= data@
                .subrange(0, end as int));
        }
        i = end;
    }
    proof {
        assert(data@.subrange(0, data@.len() as int) =~= data@);
    }
    u64_to_be_bytes(h.digest())
}

/// XXH3 over `data` with the library's standard chunk size.
pub fn stream_xxhash3(data: &[u8]) -> (r: Vec<u8>)
    ensures
        r@ == u64_be_bytes(xxh3_of(data@)),
{
    stream_xxhash3_chunked(data, HASH_CHUNK)
}

/// CRC-32 and SHA-1 of `data` in one chunked pass, plus an (empty) MD5
/// placeholder: the triple of digests recorded for a loose file.  The
/// checksum is serialised least significant byte first.
pub fn compute_hashes(data: &[u8]) -> (r: (Vec<u8>, Vec<u8>, Vec<u8>))
    ensures
        r.0@ == u32_le_bytes(crc32_of(data@)),
        r.1@ == sha1_of(data@),
        r.2@ == Seq::<u8>::empty(),
{
    let mut crc = Crc32Hasher::new();
    let mut sha = Sha1Hasher::new();
    let mut i: usize = 0;
    proof {
        assert(Seq::<u8>::empty() =~= data@.subrange(0, 0));
    }
    while i < data.len()
        invariant
            i <= data@.len(),
            crc.fed() == data@.subrange(0, i as int),
            sha.fed() == data@.subrange(0, i as int),
        decreases data@.len() - i,
    {
        let end = if data.len() - i < HASH_CHUNK {
            data.len()
        } else {
            i + HASH_CHUNK
        };
        let piece = slice_subrange(data, i, end);
        crc.update(piece);
        sha.update(piece);
        proof {
            assert(data@.subrange(0, i as int) + data@.subrange(i as int, end as int) =~= data@
                .subrange(0, end as int));
        }
        i = end;
    }
    proof {
        assert(data@.subrange(0, data@.len() as int) =~= data@);
    }
    let crc_bytes = u32_to_le_bytes(crc.finalize());
    let sha_bytes = sha.finalize_reset();
    (crc_bytes, sha_bytes, Vec::new())
}

} // verus!
