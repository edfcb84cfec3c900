//! The hash engine: digests of byte contents under a selectable
//! algorithm, digest verification, and the digest of a whole directory
//! tree as the digest of its concatenated file contents.
//!
//! The six digest functions come from their crates and are named, not
//! restated: each trusted wrapper says only that the result is a
//! function of the input bytes and has the documented length.  The
//! hexadecimal rendering is stated exactly.

use vstd::prelude::*;
use crate::text::spec_hex;
use sha1::Digest;

verus! {

/// The digest algorithms the engine offers.
#[derive(Debug, Clone, Copy, PartialEq, Eq, Structural)]
pub enum HashAlgorithm {
    MD5,
    SHA1,
    SHA256,
    SHA512,
    BLAKE3,
    RIPEMD160,
}

/// The outcome of one digest computation.
#[derive(Debug, Clone)]
pub struct HashResult {
    /// The algorithm that produced the digest.
    pub algorithm: HashAlgorithm,
    /// The digest as a lower-case hexadecimal string.
    pub hash: String,
    /// The number of bytes that were digested.
    pub size: u64,
    /// Elapsed wall-clock milliseconds, filled in by the caller that
    /// timed the surrounding read; 0 as produced here.
    pub time_ms: u64,
}

/// The MD5 digest of a byte sequence.
pub uninterp spec fn spec_md5(data: Seq<u8>) -> Seq<u8>;

/// The SHA-1 digest of a byte sequence.
pub uninterp spec fn spec_sha1(data: Seq<u8>) -> Seq<u8>;

/// The SHA-256 digest of a byte sequence.
pub uninterp spec fn spec_sha256(data: Seq<u8>) -> Seq<u8>;

/// The SHA-512 digest of a byte sequence.
pub uninterp spec fn spec_sha512(data: Seq<u8>) -> Seq<u8>;

/// The BLAKE3 digest of a byte sequence.
pub uninterp spec fn spec_blake3(data: Seq<u8>) -> Seq<u8>;

/// The RIPEMD-160 digest of a byte sequence.
pub uninterp spec fn spec_ripemd160(data: Seq<u8>) -> Seq<u8>;

/// The byte length of each algorithm's digest.
pub open spec fn spec_digest_len(algorithm: HashAlgorithm) -> nat {
    match algorithm {
        HashAlgorithm::MD5 => 16,
        HashAlgorithm::SHA1 => 20,
        HashAlgorithm::SHA256 => 32,
        HashAlgorithm::SHA512 => 64,
        HashAlgorithm::BLAKE3 => 32,
        HashAlgorithm::RIPEMD160 => 20,
    }
}

/// The digest of `data` under `algorithm`.
pub open spec fn spec_digest(algorithm: HashAlgorithm, data: Seq<u8>) -> Seq<u8> {
    match algorithm {
        HashAlgorithm::MD5 => spec_md5(data),
        HashAlgorithm::SHA1 => spec_sha1(data),
        HashAlgorithm::SHA256 => spec_sha256(data),
        HashAlgorithm::SHA512 => spec_sha512(data),
        HashAlgorithm::BLAKE3 => spec_blake3(data),
        HashAlgorithm::RIPEMD160 => spec_ripemd160(data),
    }
}

/// The hexadecimal digest string of `data` under `algorithm`.
pub open spec fn spec_hash_string(algorithm: HashAlgorithm, data: Seq<u8>) -> Seq<char> {
    spec_hex(spec_digest(algorithm, data))
}

/// Whether `expected` is exactly the digest string of `data`.
pub open spec fn spec_verify(data: Seq<u8>, expected: Seq<char>, algorithm: HashAlgorithm) -> bool {
    expected == spec_hash_string(algorithm, data)
}

/// Relies on `md5::compute`: the 16-byte MD5 digest of the input.
#[verifier::external_body]
fn md5_bytes(data: &Vec<u8>) -> (r: Vec<u8>)
    ensures
        r@ == spec_md5(data@),
        r@.len() == 16,
{
    md5::compute(data.as_slice()).0.to_vec()
}

/// Relies on `sha1::Sha1::digest`: the 20-byte SHA-1 digest of the input.
#[verifier::external_body]
fn sha1_bytes(data: &Vec<u8>) -> (r: Vec<u8>)
    ensures
        r@ == spec_sha1(data@),
        r@.len() == 20,
{
    sha1::Sha1::digest(data.as_slice()).to_vec()
}

/// Relies on `sha2::Sha256::digest`: the 32-byte SHA-256 digest of the input.
#[verifier::external_body]
fn sha256_bytes(data: &Vec<u8>) -> (r: Vec<u8>)
    ensures
        r@ == spec_sha256(data@),
        r@.len() == 32,
{
    sha2::Sha256::digest(data.as_slice()).to_vec()
}

/// Relies on `sha2::Sha512::digest`: the 64-byte SHA-512 digest of the input.
#[verifier::external_body]
fn sha512_bytes(data: &Vec<u8>) -> (r: Vec<u8>)
    ensures
        r@ == spec_sha512(data@),
        r@.len() == 64,
{
    sha2::Sha512::digest(data.as_slice()).to_vec()
}

/// Relies on `blake3::hash`: the 32-byte BLAKE3 digest of the input.
#[verifier::external_body]
fn blake3_bytes(data: &Vec<u8>) -> (r: Vec<u8>)
    ensures
        r@ == spec_blake3(data@),
        r@.len() == 32,
{
    blake3::hash(data.as_slice()).as_bytes().to_vec()
}

/// Relies on `ripemd::Ripemd160::digest`: the 20-byte RIPEMD-160 digest
/// of the input.
#[verifier::external_body]
fn ripemd160_bytes(data: &Vec<u8>) -> (r: Vec<u8>)
    ensures
        r@ == spec_ripemd160(data@),
        r@.len() == 20,
{
    ripemd::Ripemd160::digest(data.as_slice()).to_vec()
}

/// Relies on `hex::encode`: each input byte becomes two lower-case
/// hexadecimal digits, high digit first.
#[verifier::external_body]
fn hex_encode(data: &Vec<u8>) -> (r: String)
    ensures
        r@ == spec_hex(data@),
{
    hex::encode(data.as_slice())
}

/// The raw digest of `data` under `algorithm`.
pub fn digest_bytes(data: &Vec<u8>, algorithm: HashAlgorithm) -> (r: Vec<u8>)
    ensures
        r@ == spec_digest(algorithm, data@),
        r@.len() == spec_digest_len(algorithm),
{
    match algorithm {
        HashAlgorithm::MD5 => md5_bytes(data),
        HashAlgorithm::SHA1 => sha1_bytes(data),
        HashAlgorithm::SHA256 => sha256_bytes(data),
        HashAlgorithm::SHA512 => sha512_bytes(data),
        HashAlgorithm::BLAKE3 => blake3_bytes(data),
        HashAlgorithm::RIPEMD160 => ripemd160_bytes(data),
    }
}

proof fn lemma_spec_hex_len(data: Seq<u8>)
    ensures
        spec_hex(data).len() == 2 * data.len(),
    decreases data.len(),
{
    if data.len() > 0 {
        lemma_spec_hex_len(data.drop_first());
    }
}

/// Digest the given bytes under `algorithm`.  The digest string is the
/// lower-case hexadecimal rendering of the raw digest, and the reported
/// size is the number of bytes digested.  Unchanged bytes always yield
/// the identical digest string.
pub fn calculate_hash(data: &Vec<u8>, algorithm: HashAlgorithm) -> (r: HashResult)
    ensures
        r.algorithm == algorithm,
        r.hash@ == spec_hash_string(algorithm, data@),
        r.hash@.len() == 2 * spec_digest_len(algorithm),
        r.size == data@.len(),
        r.time_ms == 0,
{
    let digest = digest_bytes(data, algorithm);
    let hash = hex_encode(&digest);
    proof {
        lemma_spec_hex_len(digest@);
    }
    HashResult { algorithm, hash, size: data.len() as u64, time_ms: 0 }
}

/// Recompute the digest of `data` and compare it, character for
/// character, against `expected`.  The comparison is case-sensitive.
pub fn verify_hash(data: &Vec<u8>, expected: &str, algorithm: HashAlgorithm) -> (r: bool)
    ensures
        r == spec_verify(data@, expected@, algorithm),
{
    let result = calculate_hash(data, algorithm);
    let expected_owned: String = expected.to_owned();
    result.hash == expected_owned
}

/// The concatenation of a sequence of byte sequences, in order.
pub open spec fn concat_all(parts: Seq<Seq<u8>>) -> Seq<u8>
    decreases parts.len(),
{
    if parts.len() == 0 {
        Seq::empty()
    } else {
        concat_all(parts.drop_last()) + parts.last()
    }
}

/// Digest a whole directory: the contents of every regular file, in the
/// order the traversal yielded them, are concatenated and digested once.
/// The reported size is the total number of bytes.  The result is
/// sensitive to the traversal order of the caller.
pub fn calculate_directory_hash(files: &Vec<Vec<u8>>, algorithm: HashAlgorithm) -> (r: HashResult)
    ensures
        r.algorithm == algorithm,
        r.hash@ == spec_hash_string(algorithm, concat_all(files.deep_view())),
        r.size == concat_all(files.deep_view()).len(),
        r.time_ms == 0,
{
    let mut all: Vec<u8> = Vec::new();
    let mut i: usize = 0;
    proof {
        assert(files.deep_view().take(0) =~= Seq::<Seq<u8>>::empty());
        assert(all@ =~= concat_all(files.deep_view().take(0)));
    }
    while i < files.len()
        invariant
            i <= files.len(),
            files.deep_view().len() == files@.len(),
            all@ == concat_all(files.deep_view().take(i as int)),
        decreases files.len() - i,
    {
        let file: &Vec<u8> = &files[i];
        all.extend_from_slice(file.as_slice());
        proof {
            assert(files.deep_view().take(i + 1).drop_last() =~= files.deep_view().take(i as int));
            assert(files.deep_view().take(i + 1).last() == files@[i as int]@);
            assert(all@ =~= concat_all(files.deep_view().take(i + 1)));
        }
        i += 1;
    }
    proof {
        assert(files.deep_view().take(files@.len() as int) =~= files.deep_view());
    }
    calculate_hash(&all, algorithm)
}

/// Digesting is deterministic: the digest string is a function of the
/// bytes and the algorithm alone, so two computations over unchanged
/// bytes agree.
pub proof fn lemma_hash_deterministic(
    data1: Seq<u8>,
    data2: Seq<u8>,
    algorithm: HashAlgorithm,
)
    requires
        data1 == data2,
    ensures
        spec_hash_string(algorithm, data1) == spec_hash_string(algorithm, data2),
{
}

/// Verifying a freshly computed digest succeeds: for any contents and
/// algorithm, the digest string that `calculate_hash` reports passes
/// `verify_hash` over the same contents.
pub proof fn lemma_verify_after_hash(data: Seq<u8>, algorithm: HashAlgorithm)
    ensures
        spec_verify(data, spec_hash_string(algorithm, data), algorithm),
{
}

} // verus!
