//! The two ways of finding duplicates among files: by a code of their
//! bytes, and by a code of what the image looks like.

use vstd::prelude::*;
use crate::duplicate::MatchRule;
use crate::fingerprint::{bit_difference, code_of, fold_code, hamming_distance};

verus! {

/// The BLAKE3 digest of `data`, as `blake3::hash` computes it.
pub uninterp spec fn blake3_of(data: Seq<u8>) -> Seq<u8>;

/// Calls `blake3::hash` and copies the bytes of the digest, which
/// `Hash::as_bytes` gives: there are 32 of them.
#[verifier::external_body]
pub(crate) fn blake3_digest(data: &[u8]) -> (out: Vec<u8>)
    ensures
        out@ == blake3_of(data@),
        out@.len() == 32,
{
    blake3::hash(data).as_bytes().to_vec()
}

/// Makes a grey image of the pixels with `image::GrayImage::from_raw`, and
/// hashes it with the hasher that `image_hasher::HasherConfig::new` gives
/// for `HashAlg::Gradient`; returns the bytes of the hash. The image must
/// not be empty, and there must be one byte for each pixel. The image is
/// scaled in floating point, so nothing is promised of the bytes.
#[verifier::external_body]
pub(crate) fn gradient_hash(width: u32, height: u32, luma: &[u8]) -> (out: Vec<u8>)
    requires
        width > 0,
        height > 0,
        luma@.len() == width * height,
{
    let hasher = image_hasher::HasherConfig::new().hash_alg(
        image_hasher::HashAlg::Gradient,
    ).to_hasher();
    match image::GrayImage::from_raw(width, height, luma.to_vec()) {
        Some(image) => hasher.hash_image(&image).as_bytes().to_vec(),
        None => Vec::new(),
    }
}

/// The rule by which a run compares files: images are compared by what
/// they look like where only images are looked at and a threshold above
/// zero is given; otherwise files are compared by their bytes.
pub open spec fn rule_for(images_only: bool, threshold: u32) -> MatchRule {
    if images_only && threshold > 0 {
        MatchRule::Near { threshold }
    } else {
        MatchRule::Exact
    }
}

/// Chooses the rule by which a run compares files.
pub fn choose_rule(images_only: bool, threshold: u32) -> (rule: MatchRule)
    ensures
        rule == rule_for(images_only, threshold),
{
    if images_only && threshold > 0 {
        MatchRule::Near { threshold }
    } else {
        MatchRule::Exact
    }
}

/// Finds files with the same bytes.
#[derive(Debug, Clone, Copy, PartialEq, Eq, Structural)]
pub struct ExactHasher;

impl ExactHasher {
    /// The code of a file with the bytes `data`: the first eight bytes of
    /// its BLAKE3 digest, read as one number.
    pub fn hash(&self, data: &[u8]) -> (code: u64)
        ensures
            code == code_of(blake3_of(data@)),
    {
        let digest = blake3_digest(data);
        fold_code(digest.as_slice())
    }

    /// Whether two codes are those of duplicates: they are where they are
    /// equal.
    pub fn is_duplicate(&self, a: u64, b: u64) -> (r: bool)
        ensures
            r == (a == b),
            r == self.rule().accepts(a, b),
    {
        a == b
    }

    /// The rule by which this hasher groups.
    pub open spec fn rule(&self) -> MatchRule {
        MatchRule::Exact
    }

    /// The rule by which this hasher groups.
    pub fn match_rule(&self) -> (rule: MatchRule)
        ensures
            rule == self.rule(),
    {
        MatchRule::Exact
    }
}

/// Finds images that look alike.
#[derive(Debug, Clone, Copy, PartialEq, Eq, Structural)]
pub struct ImageHasher {
    threshold: u32,
}

impl ImageHasher {
    /// The number of bits in which the codes of two duplicates may differ.
    pub closed spec fn limit(&self) -> u32 {
        self.threshold
    }

    /// A hasher that takes two images for duplicates where their codes
    /// differ in at most `threshold` bits.
    pub fn new(threshold: u32) -> (hasher: Self)
        ensures
            hasher.limit() == threshold,
    {
        ImageHasher { threshold }
    }

    /// The code of a grey image: the first eight bytes of its gradient
    /// hash, read as one number. What the hash is, is for the `image_hasher`
    /// crate to say; `fold_code` says how its bytes are read.
    pub fn hash_pixels(&self, width: u32, height: u32, luma: &[u8]) -> (code: u64)
        requires
            width > 0,
            height > 0,
            luma@.len() == width * height,
    {
        let bits = gradient_hash(width, height, luma);
        fold_code(bits.as_slice())
    }

    /// The code of a grey image of the given width and height, whose pixels
    /// are given row by row; `None` where the image is empty or the number
    /// of bytes is not that of its pixels.
    pub fn hash(&self, width: u32, height: u32, luma: &[u8]) -> (code: Option<u64>)
        ensures
            code is Some <==> width > 0 && height > 0 && luma@.len() == width * height,
    {
        if width == 0 || height == 0 {
            return None;
        }
        assert(width as u64 * height as u64 <= 0xffff_ffff * 0xffff_ffff) by (nonlinear_arith)
            requires
                width as u64 <= 0xffff_ffff,
                height as u64 <= 0xffff_ffff,
        ;
        let pixels: u64 = width as u64 * height as u64;
        if luma.len() as u64 != pixels {
            return None;
        }
        Some(self.hash_pixels(width, height, luma))
    }

    /// Whether two codes are those of duplicates: they are where they
    /// differ in no more bits than the threshold allows.
    pub fn is_duplicate(&self, a: u64, b: u64) -> (r: bool)
        ensures
            r == (bit_difference(a, b) <= self.limit()),
            r == self.rule().accepts(a, b),
    {
        hamming_distance(a, b) <= self.threshold
    }

    /// The rule by which this hasher groups.
    pub open spec fn rule(&self) -> MatchRule {
        MatchRule::Near { threshold: self.limit() }
    }

    /// The rule by which this hasher groups.
    pub fn match_rule(&self) -> (rule: MatchRule)
        ensures
            rule == self.rule(),
    {
        MatchRule::Near { threshold: self.threshold }
    }
}

} // verus!
