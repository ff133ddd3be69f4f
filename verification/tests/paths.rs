use cullrs::ident::{format_hex, format_simple, fresh_identifier};
use cullrs::paths::{extension, folded_extension, split_file_name};
use cullrs::project::{is_image_file, is_listed_image, ProjectConfig};
use cullrs::services::{
    HashAlgorithm, ImageFormat, PerceptualHash, PerceptualService, ScanOptions, ScannerService,
};
use cullrs::text::{chars_of, same_text, string_of};

#[test]
fn file_names_are_split_at_the_last_dot() {
    let cases = [
        "photo.jpg",
        "archive.tar.gz",
        "README",
        ".hidden",
        ".hidden.txt",
        "trailing.",
        "..",
        "...",
        "a..b",
        "",
        "x",
        ".",
    ];
    for name in cases {
        let path = std::path::Path::new(name);
        let (stem, ext) = split_file_name(name);
        if let Some(file_name) = path.file_name() {
            assert_eq!(file_name.to_str(), Some(name));
            assert_eq!(Some(stem.as_str()), path.file_stem().and_then(|s| s.to_str()), "{}", name);
            assert_eq!(ext.as_deref(), path.extension().and_then(|s| s.to_str()), "{}", name);
        }
    }
    assert_eq!(split_file_name("photo.jpg"), ("photo".to_string(), Some("jpg".to_string())));
    assert_eq!(split_file_name("a.tar.gz"), ("a.tar".to_string(), Some("gz".to_string())));
    assert_eq!(split_file_name(".hidden"), (".hidden".to_string(), None));
    assert_eq!(split_file_name("trailing."), ("trailing".to_string(), Some(String::new())));
    assert_eq!(split_file_name("README"), ("README".to_string(), None));
}

#[test]
fn extensions_are_those_of_the_final_component() {
    for path in ["/a/b/c.JPG", "/a.dir/file", "relative/x.tar.gz", "/", "", "/a/.profile", "dir.d/"] {
        let expected =
            std::path::Path::new(path).extension().map(|e| e.to_string_lossy().into_owned());
        assert_eq!(extension(path), expected, "{}", path);
    }
    assert_eq!(extension("/a/b/c.JPG"), Some("JPG".to_string()));
    assert_eq!(folded_extension("/a/b/c.JPG"), Some("jpg".to_string()));
    assert_eq!(folded_extension("/a/b/c"), None);
}

#[test]
fn texts_are_taken_apart_and_put_together() {
    let chars = chars_of("héllo ✓");
    assert_eq!(chars, vec!['h', 'é', 'l', 'l', 'o', ' ', '✓']);
    assert_eq!(string_of(&chars), "héllo ✓");
    assert!(same_text("abc", "abc"));
    assert!(!same_text("abc", "abd"));
    assert!(!same_text("abc", "ab"));
    assert!(same_text("", ""));
}

#[test]
fn identifiers_are_written_as_uuid_writes_them() {
    let bits = 0xa1a2a3a4b1b2c1c2d1d2d3d4d5d6d7d8u128;
    assert_eq!(format_simple(bits), uuid::Uuid::from_u128(bits).simple().to_string());
    assert_eq!(format_simple(0), "00000000000000000000000000000000");
    assert_eq!(format_simple(u128::MAX), "ffffffffffffffffffffffffffffffff");
    assert_eq!(format_hex(0x1f, 4), "001f");
    assert_eq!(format_hex(0x12345, 4), "2345");
    assert_eq!(format_hex(9, 0), "");
}

#[test]
fn fresh_identifiers_have_their_prefix() {
    let a = fresh_identifier("prj_");
    let b = fresh_identifier("prj_");
    assert!(a.starts_with("prj_"));
    assert_eq!(a.len(), 36);
    assert!(a[4..].chars().all(|c| matches!(c, '0'..='9' | 'a'..='f')));
    assert_ne!(a, b);
}

#[test]
fn image_files_by_extension() {
    for path in ["a.jpg", "a.JPEG", "b.png", "c.GIF", "d.bmp", "e.tiff", "f.webp"] {
        assert!(is_image_file(path), "{}", path);
    }
    for path in ["a.tif", "a.txt", "noext", "a.raw", ".jpg"] {
        assert!(!is_image_file(path), "{}", path);
    }
    for path in ["a.tif", "a.raw", "a.CR2", "a.nef", "a.arw", "a.jpg", "a.bmp"] {
        assert!(is_listed_image(path), "{}", path);
    }
    assert!(!is_listed_image("a.heic"));
    assert!(!is_listed_image("a"));
}

#[test]
fn a_project_needs_its_source_directory() {
    let config = ProjectConfig::new("/src", "/out", "Holiday", true).unwrap();
    assert_eq!(config.name, "Holiday");
    assert_eq!(config.source_dir, "/src");
    assert_eq!(config.output_dir, "/out");
    assert_eq!(config.version, "1.0.0");
    assert!(!config.created_at.is_empty());
    assert_eq!(
        ProjectConfig::new("/missing", "/out", "Holiday", false),
        Err("Source directory does not exist: /missing".to_string())
    );
}

#[test]
fn formats_are_named_by_extensions() {
    assert_eq!(ScannerService::detect_format("a.jpg"), ImageFormat::Jpeg);
    assert_eq!(ScannerService::detect_format("a.JPEG"), ImageFormat::Jpeg);
    assert_eq!(ScannerService::detect_format("a.png"), ImageFormat::Png);
    assert_eq!(ScannerService::detect_format("a.tif"), ImageFormat::Tiff);
    assert_eq!(ScannerService::detect_format("a.tiff"), ImageFormat::Tiff);
    for raw in ["a.raw", "a.cr2", "a.NEF", "a.arw"] {
        assert_eq!(ScannerService::detect_format(raw), ImageFormat::Raw);
    }
    assert_eq!(ScannerService::detect_format("a.GIF"), ImageFormat::Other("gif".to_string()));
    assert_eq!(ScannerService::detect_format("a"), ImageFormat::Other("unknown".to_string()));
}

#[test]
fn directory_scans_take_the_formats_of_their_options() {
    let options = ScanOptions::default();
    assert!(options.recursive);
    assert_eq!(options.max_depth, None);
    assert_eq!(
        options.supported_formats,
        vec!["jpg", "jpeg", "png", "tiff", "tif", "raw", "cr2", "nef", "arw"]
    );
    let service = ScannerService::new();
    assert!(service.accepts("/a/b.JPG", &options));
    assert!(service.accepts("/a/b.nef", &options));
    assert!(!service.accepts("/a/b.gif", &options));
    assert!(!service.accepts("/a/b", &options));

    let file = ScannerService::create_image_file("/a/b.png", 77, 123456789);
    assert_eq!(file.path, "/a/b.png");
    assert_eq!(file.size, 77);
    assert_eq!(file.modified, 123456789);
    assert_eq!(file.format, ImageFormat::Png);
    assert_eq!(file.dimensions, None);
}

#[test]
fn placeholder_perceptual_hashes() {
    let service = PerceptualService::new();
    let hash = service.compute_perceptual_hash("/photos/a.jpg");
    assert_eq!(hash.dhash, "placeholder_hash_13");
    assert_eq!(hash.phash, "placeholder_hash_13");
    assert_eq!(hash.ahash, "placeholder_hash_13");
    assert_eq!(service.compute_perceptual_hash("é").dhash, "placeholder_hash_2");

    let a = PerceptualHash { dhash: "1".into(), phash: "2".into(), ahash: "3".into() };
    let b = PerceptualHash { dhash: "1".into(), phash: "x".into(), ahash: "y".into() };
    let c = PerceptualHash { dhash: "p".into(), phash: "q".into(), ahash: "r".into() };
    assert_eq!(service.calculate_similarity(&a, &b, HashAlgorithm::DHash), 1000);
    assert_eq!(service.calculate_similarity(&a, &b, HashAlgorithm::PHash), 0);
    assert_eq!(service.calculate_similarity(&a, &b, HashAlgorithm::AHash), 0);
    assert_eq!(service.calculate_best_similarity(&a, &b), 1000);
    assert_eq!(service.calculate_best_similarity(&a, &c), 0);
}

#[test]
fn identifiers_are_claimed_once() {
    let mut used = std::collections::HashSet::new();
    assert_eq!(
        cullrs::ident::claim_identifier(&mut used, "ast_", 0xab),
        Some("ast_000000000000000000000000000000ab".to_string())
    );
    assert_eq!(cullrs::ident::claim_identifier(&mut used, "ast_", 0xab), None);
    assert_eq!(used.len(), 1);
    let drawn = cullrs::ident::draw_identifier(&mut used, "grp_");
    assert!(drawn.starts_with("grp_"));
    assert_eq!(drawn.len(), 36);
    assert_eq!(used.len(), 2);
}

#[test]
fn a_value_in_use_gives_way_to_the_next_free_one() {
    let mut used = std::collections::HashSet::new();
    used.insert(5u128);
    used.insert(6u128);
    used.insert(u128::MAX);
    used.insert(0u128);
    assert_eq!(
        cullrs::ident::claim_next_free(&mut used, "ast_", 5),
        "ast_00000000000000000000000000000007"
    );
    assert_eq!(
        cullrs::ident::claim_next_free(&mut used, "ast_", 5),
        "ast_00000000000000000000000000000008"
    );
    assert_eq!(
        cullrs::ident::claim_next_free(&mut used, "ast_", u128::MAX),
        "ast_00000000000000000000000000000001"
    );
    assert_eq!(
        cullrs::ident::claim_next_free(&mut used, "ast_", 100),
        "ast_00000000000000000000000000000064"
    );
    assert_eq!(used.len(), 8);
}
