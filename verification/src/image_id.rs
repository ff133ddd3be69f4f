//! The identity of an image file: a digest of its bytes and a fingerprint of
//! what it shows.

use vstd::prelude::*;
use crate::ident::{format_hex, hex_fixed};
use crate::text::{hex_of, to_hex};

verus! {

/// The MD5 digest of `data`, as `md5::compute` gives it.
pub uninterp spec fn md5_of(data: Seq<u8>) -> Seq<u8>;

/// Calls `md5::compute` and copies the 16 bytes of the digest.
#[verifier::external_body]
pub(crate) fn md5_digest(data: &[u8]) -> (out: Vec<u8>)
    ensures
        out@ == md5_of(data@),
        out@.len() == 16,
{
    md5::compute(data).0.to_vec()
}

/// The hashes of one image file.
#[derive(Debug, Clone, PartialEq, Eq)]
pub struct ImageHash {
    pub path: String,
    /// The MD5 digest of the file, as 32 hexadecimal digits.
    pub md5_hash: String,
    /// The perceptual fingerprint, as 16 hexadecimal digits.
    pub perceptual_hash: String,
    /// Size in bytes.
    pub file_size: u64,
}

impl ImageHash {
    /// The hashes of the file at `path`, whose bytes are `data` and whose
    /// image has the perceptual fingerprint `fingerprint`.
    pub fn compute(path: &str, data: &[u8], fingerprint: u64) -> (hash: Self)
        ensures
            hash.path@ == path@,
            hash.md5_hash@ == hex_of(md5_of(data@)),
            hash.md5_hash@.len() == 32,
            hash.perceptual_hash@ == hex_fixed(fingerprint as nat, 16),
            hash.file_size == data@.len(),
    {
        let digest = md5_digest(data);
        ImageHash {
            path: path.to_owned(),
            md5_hash: to_hex(digest.as_slice()),
            perceptual_hash: format_hex(fingerprint as u128, 16),
            file_size: data.len() as u64,
        }
    }
}

} // verus!
