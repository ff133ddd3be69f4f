//! The services of the first catalog: file hashes, placeholder perceptual
//! hashes, image formats by extension, and the options of a directory scan.

use vstd::prelude::*;
use crate::hash::{content_hash_of, HashService as ContentHashService};
use crate::paths::{folded_extension, folded_extension_of};
use crate::scanner::holds_text;
use crate::text::{decimal_of, join2, same_text, texts, to_decimal};

verus! {

/// The content hash of a file, as hexadecimal text.
#[derive(Debug, Clone, PartialEq, Eq, Hash)]
pub struct FileHash(pub String);

impl FileHash {
    /// The hash as text.
    pub fn as_str(&self) -> (s: &str)
        ensures
            s@ == self.0@,
    {
        self.0.as_str()
    }
}

/// Computes file hashes.
#[derive(Debug, Clone, Copy)]
pub struct HashService;

impl HashService {
    pub fn new() -> (service: Self)
        ensures
            service == HashService,
    {
        HashService
    }

    /// The hash of a file with the bytes `data`: its SHA-256 digest as 64
    /// hexadecimal digits.
    pub fn compute_hash(&self, data: &[u8]) -> (hash: FileHash)
        ensures
            hash.0@ == content_hash_of(data@),
    {
        FileHash(ContentHashService::new().compute_content_hash(data))
    }
}

/// Three perceptual hashes of one image, each as text.
#[derive(Debug, Clone, PartialEq, Eq)]
pub struct PerceptualHash {
    pub dhash: String,
    pub phash: String,
    pub ahash: String,
}

/// The perceptual hash to compare by.
#[derive(Debug, Clone, Copy, PartialEq, Eq, Structural)]
pub enum HashAlgorithm {
    DHash,
    PHash,
    AHash,
}

/// The text of the hash that `algorithm` selects.
pub open spec fn selected(hash: PerceptualHash, algorithm: HashAlgorithm) -> Seq<char> {
    match algorithm {
        HashAlgorithm::DHash => hash.dhash@,
        HashAlgorithm::PHash => hash.phash@,
        HashAlgorithm::AHash => hash.ahash@,
    }
}

/// Whether two perceptual hashes agree under one of the three algorithms.
pub open spec fn agree_somewhere(a: PerceptualHash, b: PerceptualHash) -> bool {
    ||| selected(a, HashAlgorithm::DHash) == selected(b, HashAlgorithm::DHash)
    ||| selected(a, HashAlgorithm::PHash) == selected(b, HashAlgorithm::PHash)
    ||| selected(a, HashAlgorithm::AHash) == selected(b, HashAlgorithm::AHash)
}

/// Compares perceptual hashes.
#[derive(Debug, Clone, Copy)]
pub struct PerceptualService;

impl PerceptualService {
    pub fn new() -> (service: Self)
        ensures
            service == PerceptualService,
    {
        PerceptualService
    }

    /// A stand-in for the perceptual hash of the image at `image_path`, made
    /// of the length of the path in bytes.
    pub fn compute_perceptual_hash(&self, image_path: &str) -> (hash: PerceptualHash)
        ensures
            hash.dhash@ == "placeholder_hash_"@ + decimal_of(image_path.len() as nat),
            hash.phash@ == hash.dhash@,
            hash.ahash@ == hash.dhash@,
    {
        let length = to_decimal(image_path.len() as u64);
        let text = join2("placeholder_hash_", length.as_str());
        PerceptualHash { dhash: text.clone(), phash: text.clone(), ahash: text }
    }

    /// How alike two images are by the hash that `algorithm` selects, in
    /// thousandths: 1000 where the two hashes are the same text, else 0.
    pub fn calculate_similarity(
        &self,
        hash1: &PerceptualHash,
        hash2: &PerceptualHash,
        algorithm: HashAlgorithm,
    ) -> (similarity: u32)
        ensures
            similarity == if selected(*hash1, algorithm) == selected(*hash2, algorithm) {
                1000u32
            } else {
                0u32
            },
    {
        let same: bool = match algorithm {
            HashAlgorithm::DHash => same_text(hash1.dhash.as_str(), hash2.dhash.as_str()),
            HashAlgorithm::PHash => same_text(hash1.phash.as_str(), hash2.phash.as_str()),
            HashAlgorithm::AHash => same_text(hash1.ahash.as_str(), hash2.ahash.as_str()),
        };
        if same {
            1000
        } else {
            0
        }
    }

    /// The highest of the similarities by the three algorithms.
    pub fn calculate_best_similarity(&self, hash1: &PerceptualHash, hash2: &PerceptualHash) -> (similarity:
        u32)
        ensures
            similarity == if agree_somewhere(*hash1, *hash2) {
                1000u32
            } else {
                0u32
            },
    {
        let d = self.calculate_similarity(hash1, hash2, HashAlgorithm::DHash);
        let p = self.calculate_similarity(hash1, hash2, HashAlgorithm::PHash);
        let a = self.calculate_similarity(hash1, hash2, HashAlgorithm::AHash);
        let best: u32 = if d >= p {
            d
        } else {
            p
        };
        if best >= a {
            best
        } else {
            a
        }
    }
}

/// The format of an image file, as its extension names it.
#[derive(Debug, Clone, PartialEq, Eq)]
pub enum ImageFormat {
    Jpeg,
    Png,
    Tiff,
    Raw,
    Other(String),
}

/// An image file that a directory scan found.
#[derive(Debug, Clone, PartialEq, Eq)]
pub struct ImageFile {
    pub path: String,
    /// Size in bytes.
    pub size: u64,
    /// Time of the last change, in nanoseconds since the Unix epoch.
    pub modified: i128,
    pub format: ImageFormat,
    pub dimensions: Option<(u32, u32)>,
}

/// How a directory scan goes about.
#[derive(Debug, Clone, PartialEq, Eq)]
pub struct ScanOptions {
    pub recursive: bool,
    pub max_depth: Option<usize>,
    /// Extensions of the files to find, in lower case.
    pub supported_formats: Vec<String>,
}

/// The extensions that a directory scan looks for unless told otherwise.
pub open spec fn default_formats() -> Seq<Seq<char>> {
    seq!["jpg"@, "jpeg"@, "png"@, "tiff"@, "tif"@, "raw"@, "cr2"@, "nef"@, "arw"@]
}

impl Default for ScanOptions {
    fn default() -> (options: Self)
        ensures
            options.recursive,
            options.max_depth is None,
            texts(options.supported_formats@) == default_formats(),
    {
        let mut supported_formats: Vec<String> = Vec::new();
        supported_formats.push("jpg".to_owned());
        supported_formats.push("jpeg".to_owned());
        supported_formats.push("png".to_owned());
        supported_formats.push("tiff".to_owned());
        supported_formats.push("tif".to_owned());
        supported_formats.push("raw".to_owned());
        supported_formats.push("cr2".to_owned());
        supported_formats.push("nef".to_owned());
        supported_formats.push("arw".to_owned());
        assert(texts(supported_formats@) =~= default_formats());
        ScanOptions { recursive: true, max_depth: None, supported_formats }
    }
}

/// The format that an extension in lower case names, or that a missing
/// extension stands for.
pub open spec fn names_format(format: ImageFormat, extension: Option<Seq<char>>) -> bool {
    match extension {
        Some(e) => if e == "jpg"@ || e == "jpeg"@ {
            format == ImageFormat::Jpeg
        } else if e == "png"@ {
            format == ImageFormat::Png
        } else if e == "tiff"@ || e == "tif"@ {
            format == ImageFormat::Tiff
        } else if e == "raw"@ || e == "cr2"@ || e == "nef"@ || e == "arw"@ {
            format == ImageFormat::Raw
        } else {
            format matches ImageFormat::Other(name) && name@ == e
        },
        None => format matches ImageFormat::Other(name) && name@ == "unknown"@,
    }
}

/// Whether a directory scan under `options` takes the file: it does where
/// the extension of the file, in lower case, is among the formats of the
/// options.
pub open spec fn is_wanted(path: Seq<char>, options: ScanOptions) -> bool {
    match folded_extension_of(path) {
        Some(e) => texts(options.supported_formats@).contains(e),
        None => false,
    }
}

/// Finds the image files of a directory.
#[derive(Debug, Clone, Copy)]
pub struct ScannerService;

impl ScannerService {
    pub fn new() -> (service: Self)
        ensures
            service == ScannerService,
    {
        ScannerService
    }

    /// The format of a file, by its extension.
    pub fn detect_format(path: &str) -> (format: ImageFormat)
        ensures
            names_format(format, folded_extension_of(path@)),
    {
        match folded_extension(path) {
            Some(e) => {
                let ext = e.as_str();
                if same_text(ext, "jpg") || same_text(ext, "jpeg") {
                    ImageFormat::Jpeg
                } else if same_text(ext, "png") {
                    ImageFormat::Png
                } else if same_text(ext, "tiff") || same_text(ext, "tif") {
                    ImageFormat::Tiff
                } else if same_text(ext, "raw") || same_text(ext, "cr2") || same_text(ext, "nef")
                    || same_text(ext, "arw") {
                    ImageFormat::Raw
                } else {
                    ImageFormat::Other(e)
                }
            },
            None => ImageFormat::Other("unknown".to_owned()),
        }
    }

    /// Whether a directory scan under `options` takes the file at `path`.
    pub fn accepts(&self, path: &str, options: &ScanOptions) -> (r: bool)
        ensures
            r == is_wanted(path@, *options),
    {
        match folded_extension(path) {
            Some(e) => holds_text(&options.supported_formats, e.as_str()),
            None => false,
        }
    }

    /// The record of an image file that a scan found: its format is that of
    /// its extension, and its dimensions are not known yet.
    pub fn create_image_file(path: &str, size: u64, modified: i128) -> (file: ImageFile)
        ensures
            file.path@ == path@,
            file.size == size,
            file.modified == modified,
            names_format(file.format, folded_extension_of(path@)),
            file.dimensions is None,
    {
        ImageFile {
            path: path.to_owned(),
            size,
            modified,
            format: Self::detect_format(path),
            dimensions: None,
        }
    }
}

/// How the files of a group are alike.
#[derive(Debug, Clone, Copy, PartialEq, Eq, Structural)]
pub enum DuplicateType {
    Exact,
    NearDuplicate,
    Crop,
    Rotation,
}

/// A group of files that are duplicates of each other.
#[derive(Debug, Clone, PartialEq, Eq)]
pub struct DuplicateGroup {
    pub group_id: String,
    pub duplicate_type: DuplicateType,
    pub files: Vec<ImageFile>,
    /// Similarity in thousandths, where it is known.
    pub similarity_score: Option<u32>,
}

} // verus!
