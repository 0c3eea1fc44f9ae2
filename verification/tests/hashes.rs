use mame_coalesce::hashes::{compute_hashes, stream_sha1, stream_sha1_chunked, stream_xxhash3};
use mame_coalesce::hexutil::hex_decode;

#[test]
fn sha1_known_vector() {
    let digest = stream_sha1(b"abc");
    let expected = hex_decode("a9993e364706816aba3e25717850c26c9cd0d89d").unwrap();
    assert_eq!(digest, expected);
}

#[test]
fn sha1_empty_input() {
    let digest = stream_sha1(b"");
    let expected = hex_decode("da39a3ee5e6b4b0d3255bfef95601890afd80709").unwrap();
    assert_eq!(digest, expected);
}

#[test]
fn digest_stability_across_chunk_sizes() {
    let data: Vec<u8> = (0u32..40000).map(|i| (i % 251) as u8).collect();
    let one_byte = stream_sha1_chunked(&data, 1);
    let standard = stream_sha1_chunked(&data, 16384);
    let whole = stream_sha1_chunked(&data, data.len());
    assert_eq!(one_byte, standard);
    assert_eq!(standard, whole);
    assert_eq!(whole, stream_sha1(&data));
}

#[test]
fn digest_stability_on_abc() {
    let one = stream_sha1_chunked(b"abc", 1);
    let whole = stream_sha1_chunked(b"abc", 3);
    let expected = hex_decode("a9993e364706816aba3e25717850c26c9cd0d89d").unwrap();
    assert_eq!(one, expected);
    assert_eq!(whole, expected);
}

#[test]
fn crc32_known_check_value() {
    let (crc, sha1, md5) = compute_hashes(b"123456789");
    // The CRC-32 check value 0xCBF43926, least significant byte first.
    assert_eq!(crc, vec![0x26, 0x39, 0xf4, 0xcb]);
    assert_eq!(sha1, stream_sha1(b"123456789"));
    assert!(md5.is_empty());
}

#[test]
fn xxh3_known_empty_value() {
    // XXH3-64 of the empty input, most significant byte first.
    let digest = stream_xxhash3(b"");
    assert_eq!(digest, vec![0x2d, 0x06, 0x80, 0x05, 0x38, 0xd3, 0x94, 0xc2]);
}

#[test]
fn xxh3_stable_across_chunkings() {
    let data: Vec<u8> = (0u32..33000).map(|i| (i * 7 % 256) as u8).collect();
    let a = mame_coalesce::hashes::stream_xxhash3_chunked(&data, 1);
    let b = mame_coalesce::hashes::stream_xxhash3_chunked(&data, 16384);
    assert_eq!(a, b);
}

#[test]
fn hex_decode_round_cases() {
    assert_eq!(hex_decode("00ff10Ab").unwrap(), vec![0x00, 0xff, 0x10, 0xab]);
    assert_eq!(hex_decode("").unwrap(), Vec::<u8>::new());
    assert!(hex_decode("abc").is_none());
    assert!(hex_decode("zz").is_none());
}
