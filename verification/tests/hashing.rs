use cullrs::fingerprint::{fold_code, hamming_distance};
use cullrs::hash::{HashError, HashService};
use cullrs::hashers::{ExactHasher, ImageHasher};
use cullrs::image_id::ImageHash;
use cullrs::services::{FileHash, HashService as FileHashService};
use cullrs::text::{to_decimal, to_hex};

#[test]
fn test_compute_content_hash() {
    let content = b"Hello, World!";
    let hash_service = HashService::new();
    let hash = hash_service.compute_content_hash(content);

    let hash2 = hash_service.compute_content_hash(content);
    assert_eq!(hash, hash2);

    assert_eq!(hash.len(), 64);
    assert!(hash.chars().all(|c| c.is_ascii_hexdigit()));
}

#[test]
fn hash_test_identical_files_same_hash() {
    let content = b"Identical content";
    let hash_service = HashService::new();
    let hash1 = hash_service.compute_content_hash(content);
    let hash2 = hash_service.compute_content_hash(content);

    assert_eq!(hash1, hash2);
    assert!(hash_service.verify_identical_content(content, content));
}

#[test]
fn test_different_files_different_hash() {
    let hash_service = HashService::new();
    let hash1 = hash_service.compute_content_hash(b"Content A");
    let hash2 = hash_service.compute_content_hash(b"Content B");

    assert_ne!(hash1, hash2);
    assert!(!hash_service.verify_identical_content(b"Content A", b"Content B"));
}

#[test]
fn content_hash_of_known_input() {
    let hash = HashService::new().compute_content_hash(b"abc");
    assert_eq!(hash, "ba7816bf8f01cfea414140de5dae2223b00361a396177a9cb410ff61f20015ad");
}

#[test]
fn content_hash_of_nothing() {
    let hash = HashService::new().compute_content_hash(b"");
    assert_eq!(hash, "e3b0c44298fc1c149afbf4c8996fb92427ae41e4649b934ca495991b7852b855");
}

#[test]
fn file_hash_is_the_content_hash() {
    let hash: FileHash = FileHashService::new().compute_hash(b"abc");
    assert_eq!(
        hash.as_str(),
        "ba7816bf8f01cfea414140de5dae2223b00361a396177a9cb410ff61f20015ad"
    );
}

#[test]
fn hash_error_messages() {
    assert_eq!(HashError::Io("gone".to_string()).message(), "IO error: gone");
    assert_eq!(
        HashError::ComputationFailed { message: "bad".to_string() }.message(),
        "Hash computation failed: bad"
    );
}

#[test]
fn hex_of_bytes() {
    assert_eq!(to_hex(&[0x00, 0x0f, 0xa5, 0xff]), "000fa5ff");
    assert_eq!(to_hex(&[]), "");
}

#[test]
fn decimal_of_numbers() {
    assert_eq!(to_decimal(0), "0");
    assert_eq!(to_decimal(7), "7");
    assert_eq!(to_decimal(10), "10");
    assert_eq!(to_decimal(18446744073709551615), "18446744073709551615");
}

#[test]
fn fold_takes_the_first_eight_bytes() {
    assert_eq!(fold_code(&[1, 2, 3, 4, 5, 6, 7, 8, 9, 10]), 0x0102030405060708);
    assert_eq!(fold_code(&[0xab, 0xcd]), 0xabcd);
    assert_eq!(fold_code(&[]), 0);
}

#[test]
fn hamming_distance_counts_differing_bits() {
    assert_eq!(hamming_distance(0, 0), 0);
    assert_eq!(hamming_distance(0b1010, 0b0110), 2);
    assert_eq!(hamming_distance(0, u64::MAX), 64);
    assert_eq!(hamming_distance(0xff00, 0x00ff), 16);
}

#[test]
fn exact_hasher_folds_the_blake3_digest() {
    let data = b"some file content";
    let digest = blake3::hash(data);
    let mut expected = 0u64;
    for &b in digest.as_bytes().iter().take(8) {
        expected = (expected << 8) | (b as u64);
    }
    let hasher = ExactHasher;
    assert_eq!(hasher.hash(data), expected);
    assert_ne!(hasher.hash(data), hasher.hash(b"other content"));
    assert!(hasher.is_duplicate(5, 5));
    assert!(!hasher.is_duplicate(5, 6));
}

fn gradient_pixels(width: u32, height: u32) -> Vec<u8> {
    let mut pixels = Vec::new();
    for y in 0..height {
        for x in 0..width {
            pixels.push(((x * 7 + y * 3) % 256) as u8);
        }
    }
    pixels
}

#[test]
fn image_hasher_uses_the_gradient_hash() {
    let width = 32u32;
    let height = 24u32;
    let pixels = gradient_pixels(width, height);
    let image = image::GrayImage::from_raw(width, height, pixels.clone()).unwrap();
    let direct = image_hasher::HasherConfig::new()
        .hash_alg(image_hasher::HashAlg::Gradient)
        .to_hasher()
        .hash_image(&image::DynamicImage::ImageLuma8(image));
    let mut expected = 0u64;
    for &b in direct.as_bytes().iter().take(8) {
        expected = (expected << 8) | (b as u64);
    }
    let hasher = ImageHasher::new(5);
    assert_eq!(hasher.hash(width, height, &pixels), Some(expected));
}

#[test]
fn image_hasher_refuses_a_wrong_pixel_count() {
    let hasher = ImageHasher::new(5);
    assert_eq!(hasher.hash(4, 4, &[0u8; 15]), None);
    assert_eq!(hasher.hash(0, 4, &[]), None);
    assert_eq!(hasher.hash(4, 0, &[]), None);
}

#[test]
fn image_hasher_threshold_is_inclusive() {
    let hasher = ImageHasher::new(2);
    assert!(hasher.is_duplicate(0b0000, 0b0011));
    assert!(!hasher.is_duplicate(0b0000, 0b0111));
    assert!(hasher.is_duplicate(9, 9));
}

#[test]
fn image_hash_holds_md5_and_fingerprint() {
    let hash = ImageHash::compute("/photos/a.jpg", b"", 0xabc);
    assert_eq!(hash.path, "/photos/a.jpg");
    assert_eq!(hash.md5_hash, "d41d8cd98f00b204e9800998ecf8427e");
    assert_eq!(hash.perceptual_hash, "0000000000000abc");
    assert_eq!(hash.file_size, 0);

    let other = ImageHash::compute("b.png", b"abc", u64::MAX);
    assert_eq!(other.md5_hash, "900150983cd24fb0d6963f7d28e17f72");
    assert_eq!(other.perceptual_hash, "ffffffffffffffff");
    assert_eq!(other.file_size, 3);
}
