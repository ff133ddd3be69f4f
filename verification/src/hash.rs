//! Content identity: the SHA-256 digest of a file's bytes, as hexadecimal text.

use vstd::prelude::*;
use crate::text::{hex_of, join2, same_text, to_hex};

verus! {

/// The SHA-256 digest of `data`, as `sha2::Sha256` computes it.
pub uninterp spec fn sha256_of(data: Seq<u8>) -> Seq<u8>;

/// Calls `sha2::Sha256::digest` (the `Digest::digest` of the `digest` crate),
/// which feeds all of `data` to a fresh hasher and finalizes it. The result is
/// the digest of `data`, and it has the 32 bytes of a SHA-256 output.
#[verifier::external_body]
pub(crate) fn sha256(data: &[u8]) -> (out: Vec<u8>)
    ensures
        out@ == sha256_of(data@),
        out@.len() == 32,
{
    <sha2::Sha256 as sha2::Digest>::digest(data).to_vec()
}

/// The content hash of a file with the bytes `data`: 64 lower-case
/// hexadecimal digits.
pub open spec fn content_hash_of(data: Seq<u8>) -> Seq<char> {
    hex_of(sha256_of(data))
}

/// Why a content hash could not be had.
#[derive(Debug)]
pub enum HashError {
    /// The file could not be read.
    Io(String),
    /// The digest could not be computed.
    ComputationFailed { message: String },
}

impl HashError {
    /// The line of text that describes the error.
    pub open spec fn text(&self) -> Seq<char> {
        match *self {
            HashError::Io(m) => "IO error: "@ + m@,
            HashError::ComputationFailed { message } => "Hash computation failed: "@ + message@,
        }
    }

    /// A line of text that describes the error.
    pub fn message(&self) -> (out: String)
        ensures
            out@ == self.text(),
    {
        match self {
            HashError::Io(m) => join2("IO error: ", m.as_str()),
            HashError::ComputationFailed { message } => join2(
                "Hash computation failed: ",
                message.as_str(),
            ),
        }
    }
}

/// Computes content hashes.
#[derive(Clone, Copy, Debug)]
pub struct HashService;

impl HashService {
    pub fn new() -> (service: Self)
        ensures
            service == HashService,
    {
        HashService
    }

    /// The content hash of a file with the bytes `data`.
    pub fn compute_content_hash(&self, data: &[u8]) -> (hash: String)
        ensures
            hash@ == content_hash_of(data@),
            hash@.len() == 64,
    {
        let digest = sha256(data);
        to_hex(digest.as_slice())
    }

    /// Whether two files, given by their bytes, have the same content hash.
    pub fn verify_identical_content(&self, first: &[u8], second: &[u8]) -> (same: bool)
        ensures
            same == (content_hash_of(first@) == content_hash_of(second@)),
    {
        let a = self.compute_content_hash(first);
        let b = self.compute_content_hash(second);
        same_text(a.as_str(), b.as_str())
    }
}

/// Files with the same bytes have the same content hash.
pub proof fn lemma_same_bytes_same_hash(first: Seq<u8>, second: Seq<u8>)
    requires
        first == second,
    ensures
        content_hash_of(first) == content_hash_of(second),
{
}

} // verus!
