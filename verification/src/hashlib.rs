//! Key-to-path transforms and content hashes.

use vstd::prelude::*;
use vstd::string::*;
use crypto::digest::Digest;

verus! {

/// Width, in characters, of one directory segment of a sharded path.
pub const CAS_BLOCK_SIZE: usize = 5;

/// Largest input, in bytes, that the SHA-1 implementation takes: its bit counter is a `u64`.
pub const SHA1_INPUT_LIMIT: u64 = 0x1fff_ffff_ffff_ffff;

/// Lowercase hexadecimal SHA-1 digest of the UTF-8 encoding of a string.
pub uninterp spec fn sha1_hex(input: Seq<char>) -> Seq<char>;

/// Lowercase hexadecimal MD5 digest of a byte sequence.
pub uninterp spec fn md5_hex(input: Seq<u8>) -> Seq<char>;

/// Calls `Sha1::new`, `Digest::input_str` and `Digest::result_str` of the `crypto` crate.
/// Believed, not proved: the digest is a function of the string's contents alone and is
/// 40 characters long (160 bits, two hexadecimal digits per byte). The length bound keeps
/// the crate's bit counter from overflowing, on which it panics.
#[verifier::external_body]
fn sha1_hex_digest(s: &str) -> (digest: String)
    requires
        vstd::utf8::encode_utf8(s@).len() <= SHA1_INPUT_LIMIT,
    ensures
        digest@ == sha1_hex(s@),
        digest@.len() == 40,
{
    let mut hasher = crypto::sha1::Sha1::new();
    hasher.input_str(s);
    hasher.result_str()
}

/// Calls `Md5::new`, `Digest::input` and `Digest::result_str` of the `crypto` crate.
/// Believed, not proved: the digest is a function of the bytes alone and is 32 characters
/// long (128 bits, two hexadecimal digits per byte).
#[verifier::external_body]
fn md5_hex_digest(buf: &[u8]) -> (digest: String)
    ensures
        digest@ == md5_hex(buf@),
        digest@.len() == 32,
{
    let mut hasher = crypto::md5::Md5::new();
    hasher.input(buf);
    hasher.result_str()
}

/// The canonical transform: a key's on-disk name is the hex SHA-1 digest of the key.
pub fn filename_transform(s: String) -> (name: String)
    requires
        vstd::utf8::encode_utf8(s@).len() <= SHA1_INPUT_LIMIT,
    ensures
        name@ == sha1_hex(s@),
        name@.len() == 40,
{
    sha1_hex_digest(s.as_str())
}

/// Content hash of a blob: its hex MD5 digest.
pub fn get_file_hash(buf: &[u8]) -> (hash: String)
    ensures
        hash@ == md5_hex(buf@),
        hash@.len() == 32,
{
    md5_hex_digest(buf)
}

/// Length of the sharded path made from a digest of `len` characters.
pub open spec fn cas_path_len(len: nat) -> nat {
    if len / 5 == 0 {
        0
    } else {
        ((len / 5) * 6 - 1) as nat
    }
}

/// The first `blocks` five-character segments of `digest`, joined by `/`.
pub open spec fn cas_segments(digest: Seq<char>, blocks: nat) -> Seq<char> {
    Seq::new(
        if blocks == 0 { 0 } else { (blocks * 6 - 1) as nat },
        |i: int| if i % 6 == 5 { '/' } else { digest[(i / 6) * 5 + i % 6] },
    )
}

/// A digest cut into segments of five characters, joined by `/`; characters past the last
/// full segment are left out.
pub open spec fn cas_path(digest: Seq<char>) -> Seq<char> {
    cas_segments(digest, digest.len() / 5)
}

/// Shards a digest: every full run of five characters becomes one path segment.
pub fn cas_path_of_digest(digest: &str) -> (path: String)
    ensures
        path@ == cas_path(digest@),
        path@.len() == cas_path_len(digest@.len()),
{
    let n: usize = digest.unicode_len();
    let blocks: usize = n / CAS_BLOCK_SIZE;
    let mut path = String::new();
    let mut i: usize = 0;
    while i < blocks
        invariant
            n == digest@.len(),
            blocks == n / 5,
            i <= blocks,
            path@ == cas_segments(digest@, i as nat),
        decreases blocks - i,
    {
        if i > 0 {
            proof {
                reveal_strlit("/");
            }
            path.append("/");
        }
        let start: usize = i * CAS_BLOCK_SIZE;
        let segment = digest.substring_char(start, start + CAS_BLOCK_SIZE);
        path.append(segment);
        i += 1;
        assert(path@ =~= cas_segments(digest@, i as nat));
    }
    path
}

/// The sharding transform: the hex SHA-1 digest of the key, cut into eight segments of
/// five characters joined by `/`.
pub fn cas_path_transform(s: String) -> (path: String)
    requires
        vstd::utf8::encode_utf8(s@).len() <= SHA1_INPUT_LIMIT,
    ensures
        path@ == cas_path(sha1_hex(s@)),
        path@.len() == 47,
{
    let digest = sha1_hex_digest(s.as_str());
    cas_path_of_digest(digest.as_str())
}

} // verus!
