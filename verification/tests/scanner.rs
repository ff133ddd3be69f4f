use cullrs::enrich::{
    apply_hashes, apply_hashes_batch, apply_metadata, apply_metadata_batch, set_thumbnail_paths,
    HashFinding, MetadataFinding,
};
use cullrs::orchestrator::{batch_bounds, batch_count, ScanRun, ScanStage};
use cullrs::pattern::{check_patterns, is_excluded};
use cullrs::progress::{
    estimate_remaining, hashing_line, is_quick_report_due, is_report_due, metadata_line,
    status_after, thumbnail_progress, ScanError, ScanPhase,
};
use cullrs::records::{Asset, ScanStatus};
use cullrs::scanner::{FoundFile, RootStatus, ScannerService, WalkEntry};
use cullrs::thumbnail::ThumbnailService;

fn test_image_bytes(width: u32, height: u32) -> Vec<u8> {
    let img = image::ImageBuffer::from_fn(width, height, |x, y| {
        let intensity = ((x + y) % 256) as u8;
        image::Rgb([intensity, intensity, intensity])
    });
    let mut bytes = std::io::Cursor::new(Vec::new());
    image::DynamicImage::ImageRgb8(img)
        .write_to(&mut bytes, image::ImageFormat::Jpeg)
        .unwrap();
    bytes.into_inner()
}

fn root(path: &str, exists: bool, is_dir: bool) -> RootStatus {
    RootStatus { path: path.to_string(), exists, is_dir }
}

fn file(path: &str) -> WalkEntry {
    WalkEntry { path: path.to_string(), is_file: true }
}

fn strings(items: &[&str]) -> Vec<String> {
    items.iter().map(|s| s.to_string()).collect()
}

#[test]
fn test_supported_format_detection() {
    let scanner = ScannerService::new();

    assert!(scanner.is_supported_format("test.jpg"));
    assert!(scanner.is_supported_format("test.JPEG"));
    assert!(scanner.is_supported_format("test.png"));
    assert!(scanner.is_supported_format("test.heic"));
    assert!(!scanner.is_supported_format("test.txt"));
    assert!(!scanner.is_supported_format("test"));
}

#[test]
fn test_compute_asset_hash() {
    let data = test_image_bytes(100, 100);

    let scanner = ScannerService::new();
    let mut asset = Asset {
        id: "test_asset".to_string(),
        project_id: "test_project".to_string(),
        path: "/tmp/test.jpg".to_string(),
        thumbnail_path: None,
        hash: None,
        perceptual_hash: None,
        size: 1000,
        width: 100,
        height: 100,
        exif_data: None,
        created_at: "2023-01-01T00:00:00Z".to_string(),
        updated_at: "2023-01-01T00:00:00Z".to_string(),
    };

    scanner.compute_asset_hash(&mut asset, &data);
    assert!(asset.hash.is_some());

    let hash = asset.hash.unwrap();
    assert_eq!(hash.len(), 64);
    assert!(hash.chars().all(|c| c.is_ascii_hexdigit()));
}

#[test]
fn test_verify_asset_hash() {
    let data = test_image_bytes(100, 100);

    let scanner = ScannerService::new();
    let hash = scanner.hash_service().compute_content_hash(&data);

    let asset = Asset {
        id: "test_asset".to_string(),
        project_id: "test_project".to_string(),
        path: "/tmp/test.jpg".to_string(),
        thumbnail_path: None,
        hash: Some(hash),
        perceptual_hash: None,
        size: 1000,
        width: 100,
        height: 100,
        exif_data: None,
        created_at: "2023-01-01T00:00:00Z".to_string(),
        updated_at: "2023-01-01T00:00:00Z".to_string(),
    };

    assert!(scanner.verify_asset_hash(&asset, &data));
    assert!(!scanner.verify_asset_hash(&asset, b"other bytes"));
    let bare = Asset { hash: None, ..asset };
    assert!(!scanner.verify_asset_hash(&bare, &data));
}

#[test]
fn test_hash_computation_integration() {
    let scanner = ScannerService::new();
    let files = vec![
        FoundFile { path: "/p/test1.jpg".to_string(), size: 10 },
        FoundFile { path: "/p/test2.jpg".to_string(), size: 20 },
    ];
    let mut assets = scanner.quick_index_files("test_project_hash", &files);
    assert_eq!(assets.len(), 2);
    let first = test_image_bytes(100, 100);
    let second = test_image_bytes(200, 200);
    scanner.compute_asset_hash(&mut assets[0], &first);
    scanner.compute_asset_hash(&mut assets[1], &second);

    for asset in &assets {
        assert!(asset.hash.is_some());
        let hash = asset.hash.as_ref().unwrap();
        assert_eq!(hash.len(), 64);
        assert!(hash.chars().all(|c| c.is_ascii_hexdigit()));
    }
    assert_ne!(assets[0].hash, assets[1].hash);
}

#[test]
fn scanner_test_identical_files_same_hash() {
    let scanner = ScannerService::new();
    let files = vec![
        FoundFile { path: "/p/identical1.jpg".to_string(), size: 10 },
        FoundFile { path: "/p/identical2.jpg".to_string(), size: 10 },
    ];
    let mut assets = scanner.quick_index_files("test_project_identical", &files);
    let data = test_image_bytes(100, 100);
    scanner.compute_asset_hash(&mut assets[0], &data);
    scanner.compute_asset_hash(&mut assets[1], &data);

    assert_eq!(assets.len(), 2);
    assert!(assets[0].hash.is_some());
    assert!(assets[1].hash.is_some());
    assert_eq!(assets[0].hash, assets[1].hash);
}

#[test]
fn supports_takes_lower_case_extensions() {
    let scanner = ScannerService::new();
    for ext in ["jpg", "jpeg", "png", "heic", "tiff", "tif", "webp", "cr3", "nef", "arw", "dng"] {
        assert!(scanner.supports(ext));
    }
    assert!(!scanner.supports("JPG"));
    assert!(!scanner.supports("gif"));
    assert!(!scanner.supports(""));
}

#[test]
fn roots_must_exist_and_be_directories() {
    let scanner = ScannerService::new();
    assert!(scanner.validate_roots(&vec![]).is_ok());
    assert!(scanner.validate_roots(&vec![root("/a", true, true), root("/b", true, true)]).is_ok());

    match scanner.validate_roots(&vec![root("/a", true, true), root("/missing", false, false)]) {
        Err(ScanError::InvalidPath { path }) => assert_eq!(path, "/missing"),
        other => panic!("unexpected: {:?}", other),
    }
    match scanner.validate_roots(&vec![root("/file.txt", true, false), root("/gone", false, false)]) {
        Err(ScanError::InvalidPath { path }) => assert_eq!(path, "/file.txt is not a directory"),
        other => panic!("unexpected: {:?}", other),
    }
}

#[test]
fn file_types_are_folded_and_filtered() {
    let scanner = ScannerService::new();
    let types = scanner.effective_file_types(&strings(&["JPG", "txt", "Png", "gif", "dng"]));
    assert_eq!(types, strings(&["jpg", "png", "dng"]));
}

#[test]
fn prepare_scan_fails_in_order() {
    let scanner = ScannerService::new();
    let good = vec![root("/a", true, true)];
    let bad = vec![root("/nope", false, false)];
    let types = strings(&["jpg"]);
    let broken = strings(&["[abc"]);

    assert!(matches!(
        scanner.prepare_scan(&bad, &types, &broken, true),
        Err(ScanError::Cancelled)
    ));
    assert!(matches!(
        scanner.prepare_scan(&bad, &types, &broken, false),
        Err(ScanError::InvalidPath { .. })
    ));
    assert!(matches!(scanner.prepare_scan(&good, &types, &broken, false), Err(ScanError::Io(_))));
    assert_eq!(scanner.prepare_scan(&good, &types, &vec![], false).unwrap(), strings(&["jpg"]));
}

#[test]
fn patterns_are_checked_by_glob() {
    assert!(check_patterns(&strings(&["*.tmp.*", "a?c", "[a-z]*"])).is_ok());
    match check_patterns(&strings(&["*.jpg", "a**b", "[x"])) {
        Err((at, message)) => {
            assert_eq!(at, 1);
            assert!(!message.is_empty());
        }
        Ok(()) => panic!("the pattern should be refused"),
    }
}

#[test]
fn exclusion_matches_the_whole_path() {
    let patterns = strings(&["*.tmp.*"]);
    assert!(is_excluded(&patterns, "/photos/excluded.tmp.jpg"));
    assert!(!is_excluded(&patterns, "/photos/included.jpg"));
    assert!(!is_excluded(&vec![], "/photos/excluded.tmp.jpg"));
    assert!(!is_excluded(&strings(&["[broken"]), "[broken"));
}

#[test]
fn test_scan_with_exclude_patterns() {
    let scanner = ScannerService::new();
    let entries = vec![file("/scan/included.jpg"), file("/scan/excluded.tmp.jpg")];
    let found = scanner
        .discover_files(&entries, &strings(&["jpg"]), &strings(&["*.tmp.*"]), false)
        .unwrap();
    let assets = scanner.quick_index_files(
        "test_project",
        &found.iter().map(|p| FoundFile { path: p.clone(), size: 1 }).collect(),
    );

    assert_eq!(assets.len(), 1);
    assert!(assets[0].path.contains("included.jpg"));
}

#[test]
fn test_file_type_filtering() {
    let scanner = ScannerService::new();
    let entries = vec![file("/scan/test.jpg"), file("/scan/test.png"), file("/scan/test.txt")];
    let types = scanner.effective_file_types(&strings(&["jpg", "png"]));
    let found = scanner.discover_files(&entries, &types, &vec![], false).unwrap();
    let assets = scanner.quick_index_files(
        "test_project",
        &found.iter().map(|p| FoundFile { path: p.clone(), size: 1 }).collect(),
    );

    assert_eq!(assets.len(), 2);

    let paths: Vec<&str> = assets.iter().map(|a| a.path.as_str()).collect();
    assert!(paths.iter().any(|p| p.contains("test.jpg")));
    assert!(paths.iter().any(|p| p.contains("test.png")));
    assert!(!paths.iter().any(|p| p.contains("test.txt")));
}

#[test]
fn discovery_skips_directories_and_keeps_order() {
    let scanner = ScannerService::new();
    let entries = vec![
        WalkEntry { path: "/scan".to_string(), is_file: false },
        file("/scan/b.JPG"),
        WalkEntry { path: "/scan/dir.jpg".to_string(), is_file: false },
        file("/scan/a.jpg"),
        file("/scan/noext"),
        file("/scan/.jpg"),
    ];
    let found = scanner.discover_files(&entries, &strings(&["jpg"]), &vec![], false).unwrap();
    assert_eq!(found, strings(&["/scan/b.JPG", "/scan/a.jpg"]));
    assert!(matches!(
        scanner.discover_files(&entries, &strings(&["jpg"]), &vec![], true),
        Err(ScanError::Cancelled)
    ));
}

#[test]
fn quick_index_makes_one_bare_entry_per_file() {
    let scanner = ScannerService::new();
    let files = vec![
        FoundFile { path: "/p/one.jpg".to_string(), size: 11 },
        FoundFile { path: "/p/two.png".to_string(), size: 22 },
        FoundFile { path: "/p/three.dng".to_string(), size: 33 },
    ];
    let assets = scanner.quick_index_files("prj_1", &files);
    assert_eq!(assets.len(), 3);
    for (asset, file) in assets.iter().zip(files.iter()) {
        assert_eq!(asset.path, file.path);
        assert_eq!(asset.size, file.size);
        assert_eq!(asset.project_id, "prj_1");
        assert!(asset.id.starts_with("ast_"));
        assert_eq!(asset.id.len(), 36);
        assert!(asset.id[4..].chars().all(|c| c.is_ascii_hexdigit() && !c.is_ascii_uppercase()));
        assert_eq!(asset.hash, None);
        assert_eq!(asset.perceptual_hash, None);
        assert_eq!(asset.thumbnail_path, None);
        assert_eq!(asset.exif_data, None);
        assert_eq!((asset.width, asset.height), (0, 0));
        assert_eq!(asset.created_at, asset.updated_at);
        assert!(!asset.created_at.is_empty());
    }
    assert_ne!(assets[0].id, assets[1].id);
    assert_ne!(assets[1].id, assets[2].id);
    assert_ne!(assets[0].id, assets[2].id);
}

#[test]
fn cache_directory_prefers_the_output_path() {
    let scanner = ScannerService::new();
    let under_output = std::path::Path::new("/out").join(".cullrs");
    let under_source = std::path::Path::new("/src").join(".cullrs");
    assert_eq!(scanner.project_cache_dir("/out", "/src"), under_output.to_string_lossy());
    assert_eq!(scanner.project_cache_dir("", "/src"), under_source.to_string_lossy());
}

#[test]
fn test_cancellation_functionality() {
    let (run, result) = ScanRun::begin(true);

    assert!(result.is_err());
    assert!(matches!(result.unwrap_err(), ScanError::Cancelled));
    assert_eq!(run.files_processed(), 0);
    assert_eq!(run.total_files(), 0);
    assert_eq!(run.current_stage(), ScanStage::Cancelled);

    let mut late = ScanRun::new();
    assert!(matches!(late.advance(true), Err(ScanError::Cancelled)));
    assert_eq!(late.files_processed(), 0);
    assert_eq!(late.current_stage(), ScanStage::Cancelled);
}

#[test]
fn a_scan_begins_with_discovery() {
    let (run, opening) = ScanRun::begin(false);
    let opening = opening.unwrap();
    assert_eq!(run.current_stage(), ScanStage::Discovery);
    assert_eq!(opening.current_file, "Starting quick scan...");
    assert_eq!(opening.phase, ScanPhase::QuickScan);
    assert_eq!(opening.total_files, 0);
    assert!(!opening.quick_scan_complete);
}

#[test]
fn test_cancellation() {
    let scanner = ScannerService::new();
    let result = scanner.prepare_scan(
        &vec![root("/scan", true, true)],
        &strings(&["jpg"]),
        &vec![],
        true,
    );
    assert!(matches!(result, Err(ScanError::Cancelled)));
}

#[test]
fn cancellation_is_seen_between_stages() {
    let mut run = ScanRun::new();
    run.advance(false).unwrap();
    run.discovered(30);
    run.advance(false).unwrap();
    run.close_stage();
    run.advance(false).unwrap();
    run.record(12);
    assert!(matches!(run.advance(true), Err(ScanError::Cancelled)));
    assert_eq!(run.current_stage(), ScanStage::Cancelled);
    assert_eq!(run.files_processed(), 12);
    assert_eq!(run.total_files(), 30);
    assert!(matches!(run.advance(false), Err(ScanError::Cancelled)));
    assert_eq!(run.current_stage(), ScanStage::Cancelled);
}

#[test]
fn test_scan_empty_directory() {
    let scanner = ScannerService::new();
    let found = scanner
        .discover_files(&vec![], &strings(&["jpg", "png"]), &vec![], false)
        .unwrap();
    let assets = scanner.quick_index_files("test_project", &vec![]);
    assert_eq!(found.len(), 0);
    assert_eq!(assets.len(), 0);

    let mut run = ScanRun::new();
    run.advance(false).unwrap();
    run.discovered(found.len());
    let mut last = None;
    while run.current_stage() != ScanStage::Complete {
        run.close_stage();
        if let Some(event) = run.advance(false).unwrap() {
            last = Some(event);
        }
    }
    let last = last.unwrap();
    assert_eq!(last.phase, ScanPhase::Complete);
    assert_eq!(last.total_files, 0);
    assert_eq!(last.files_processed, 0);
}

#[test]
fn test_enhanced_progress_tracking() {
    let mut events = Vec::new();
    let mut run = ScanRun::new();
    events.extend(run.advance(false).unwrap());
    assert_eq!(run.current_stage(), ScanStage::Discovery);
    run.discovered(5);
    events.extend(run.advance(false).unwrap());
    assert_eq!(run.current_stage(), ScanStage::QuickIndex);
    run.record(5);
    events.extend(run.close_stage());
    events.extend(run.advance(false).unwrap());
    assert_eq!(run.current_stage(), ScanStage::Metadata);
    run.record(5);
    events.extend(run.close_stage());
    events.extend(run.advance(false).unwrap());
    assert_eq!(run.current_stage(), ScanStage::Thumbnails);
    events.extend(run.close_stage());
    events.extend(run.advance(false).unwrap());
    assert_eq!(run.current_stage(), ScanStage::Hashing);
    run.record(5);
    events.extend(run.close_stage());
    events.extend(run.advance(false).unwrap());
    assert_eq!(run.current_stage(), ScanStage::Complete);

    assert!(!events.is_empty());
    let phases: std::collections::HashSet<_> = events.iter().map(|e| &e.phase).collect();
    assert!(phases.contains(&ScanPhase::QuickScan));
    assert!(phases.contains(&ScanPhase::BackgroundMetadata));
    assert!(phases.contains(&ScanPhase::BackgroundThumbnails));
    assert!(phases.contains(&ScanPhase::BackgroundHashing));
    assert!(phases.contains(&ScanPhase::Complete));

    let final_progress = events.last().unwrap();
    assert_eq!(final_progress.phase, ScanPhase::Complete);
    assert_eq!(final_progress.files_processed, final_progress.total_files);

    let lines: Vec<&str> = events.iter().map(|e| e.current_file.as_str()).collect();
    assert_eq!(
        lines,
        vec![
            "Starting quick scan...",
            "Quick scan complete - assets available in UI",
            "Extracting metadata...",
            "Setting up thumbnail paths...",
            "Thumbnail paths configured",
            "Computing hashes...",
            "All processing complete",
        ]
    );
    assert!(!events[0].quick_scan_complete);
    assert!(events[1].quick_scan_complete);
    assert_eq!(events[0].estimated_time_remaining, None);
    assert_eq!(events[1].estimated_time_remaining, Some(0));
    assert_eq!(events[6].bytes_processed, None);
    assert_eq!(events[2].bytes_processed, Some(0));

    assert_eq!(run.advance(false).unwrap(), None);
    assert_eq!(run.current_stage(), ScanStage::Complete);
}

#[test]
fn a_stopped_scan_reports_under_the_phase_it_stopped_in() {
    let (mut run, _) = ScanRun::begin(false);
    assert!(run.discovered(40));
    run.advance(false).unwrap();
    run.close_stage();
    run.advance(false).unwrap();
    assert_eq!(run.current_stage(), ScanStage::Metadata);
    run.record(15);
    assert!(run.advance(true).is_err());
    assert_eq!(run.current_stage(), ScanStage::Cancelled);

    let report = run.report("/p/x.jpg", 3);
    assert_eq!(report.phase, ScanPhase::BackgroundMetadata);
    assert_eq!(report.files_processed, 15);
    assert_eq!(report.total_files, 40);
    assert_eq!(run.close_stage(), None);
    assert_eq!(run.files_processed(), 15);
    assert!(!run.discovered(7));
    assert_eq!(run.total_files(), 40);
    assert_eq!(run.files_processed(), 15);
}

#[test]
fn only_discovery_takes_the_number_of_files() {
    let mut run = ScanRun::new();
    assert!(!run.discovered(5));
    assert_eq!(run.total_files(), 0);
    assert_eq!(run.report("", 0).phase, ScanPhase::QuickScan);
    run.advance(false).unwrap();
    assert!(run.discovered(5));
    assert_eq!(run.total_files(), 5);
    run.advance(false).unwrap();
    run.record(3);
    assert!(!run.discovered(9));
    assert_eq!(run.total_files(), 5);
    assert_eq!(run.files_processed(), 3);
    while run.current_stage() != ScanStage::Complete {
        run.advance(false).unwrap();
    }
    let done = run.report("", 1);
    assert_eq!(done.phase, ScanPhase::Complete);
    assert_eq!(done.files_processed, done.total_files);
    assert!(!run.discovered(2));
    assert_eq!(run.total_files(), 5);
}

#[test]
fn run_counts_within_the_total() {
    let mut run = ScanRun::new();
    run.advance(false).unwrap();
    run.discovered(10);
    run.advance(false).unwrap();
    run.record(4);
    assert_eq!(run.files_processed(), 4);
    run.record(100);
    assert_eq!(run.files_processed(), 10);
    let report = run.report("/p/a.jpg", 0);
    assert_eq!(report.files_processed, 10);
    assert_eq!(report.total_files, 10);
    assert_eq!(report.current_file, "/p/a.jpg");
    assert_eq!(report.phase, ScanPhase::QuickScan);
    assert_eq!(report.estimated_time_remaining, None);
    assert_eq!(report.bytes_processed, Some(0));
    assert!(!report.quick_scan_complete);
}

#[test]
fn estimate_projects_the_rate_so_far() {
    assert_eq!(estimate_remaining(0, 100, 10), None);
    assert_eq!(estimate_remaining(10, 100, 0), None);
    assert_eq!(estimate_remaining(10, 100, 5), Some(45));
    assert_eq!(estimate_remaining(50, 100, 3), Some(3));
    assert_eq!(estimate_remaining(3, 10, 2), Some(4));
    assert_eq!(estimate_remaining(100, 100, 7), Some(0));
    assert_eq!(estimate_remaining(120, 100, 7), Some(0));
    assert_eq!(estimate_remaining(1, usize::MAX, u64::MAX), Some(u64::MAX));
}

#[test]
fn reports_are_due_at_a_coarse_cadence() {
    assert!(is_report_due(50, 50));
    assert!(is_report_due(0, 50));
    assert!(!is_report_due(49, 50));
    assert!(is_quick_report_due(10, 0));
    assert!(!is_quick_report_due(11, 0));
    assert!(is_quick_report_due(11, 1));
}

#[test]
fn batches_cover_all_items() {
    assert_eq!(batch_count(0, 100), 0);
    assert_eq!(batch_count(1, 100), 1);
    assert_eq!(batch_count(100, 100), 1);
    assert_eq!(batch_count(101, 100), 2);
    assert_eq!(batch_count(250, 100), 3);
    assert_eq!(batch_bounds(250, 100, 0), (0, 100));
    assert_eq!(batch_bounds(250, 100, 1), (100, 200));
    assert_eq!(batch_bounds(250, 100, 2), (200, 250));
    assert_eq!(batch_bounds(250, 100, 3), (250, 250));
    assert_eq!(batch_bounds(45, 20, 2), (40, 45));
    assert_eq!(batch_bounds(usize::MAX, 7, usize::MAX), (usize::MAX, usize::MAX));
}

#[test]
fn item_lines_name_the_file() {
    assert_eq!(metadata_line("/photos/a.jpg"), "Processing metadata: a.jpg");
    assert_eq!(hashing_line("/photos/b.png"), "Computing hashes: b.png");
    assert_eq!(hashing_line("/"), "Computing hashes: ");
}

#[test]
fn thumbnail_progress_counts_and_estimates() {
    let p = thumbnail_progress(20, 60, 4);
    assert_eq!(p.current_file, "Generated 20 of 60 thumbnails");
    assert_eq!(p.files_processed, 20);
    assert_eq!(p.total_files, 60);
    assert_eq!(p.phase, ScanPhase::BackgroundThumbnails);
    assert_eq!(p.estimated_time_remaining, Some(8));
    assert_eq!(p.bytes_processed, None);
    assert!(p.quick_scan_complete);
}

#[test]
fn scan_outcome_sets_the_project_status() {
    assert_eq!(status_after(&Ok(())), ScanStatus::Completed);
    assert_eq!(status_after(&Err(ScanError::Cancelled)), ScanStatus::Cancelled);
    assert_eq!(
        status_after(&Err(ScanError::InvalidPath { path: "/x".to_string() })),
        ScanStatus::Failed("Invalid path: /x".to_string())
    );
}

#[test]
fn scan_error_messages() {
    assert_eq!(ScanError::Cancelled.message(), "Operation cancelled");
    assert_eq!(ScanError::Io("disk".to_string()).message(), "IO error: disk");
    assert_eq!(ScanError::Image("bad".to_string()).message(), "Image processing error: bad");
    assert_eq!(
        ScanError::PermissionDenied { path: "/p".to_string() }.message(),
        "Permission denied: /p"
    );
    assert_eq!(
        ScanError::UnsupportedFileType { extension: "txt".to_string() }.message(),
        "Unsupported file type: txt"
    );
    assert_eq!(
        ScanError::Hash(cullrs::hash::HashError::Io("x".to_string())).message(),
        "Hash computation error: IO error: x"
    );
    assert_eq!(
        ScanError::Thumbnail(cullrs::thumbnail::ThumbnailError::Image("y".to_string())).message(),
        "Thumbnail generation error: Image processing error: y"
    );
    assert_eq!(
        ScanError::Exif(cullrs::exif::ExifError::Parse("z".to_string())).message(),
        "EXIF extraction error: EXIF parsing error: z"
    );
}

fn bare(id: &str) -> Asset {
    Asset {
        id: id.to_string(),
        project_id: "prj".to_string(),
        path: format!("/p/{}.jpg", id),
        thumbnail_path: None,
        hash: None,
        perceptual_hash: None,
        size: 5,
        width: 0,
        height: 0,
        exif_data: None,
        created_at: "t0".to_string(),
        updated_at: "t0".to_string(),
    }
}

#[test]
fn findings_are_applied_and_failures_leave_fields() {
    let mut asset = bare("a");
    apply_metadata(
        &mut asset,
        MetadataFinding { dimensions: Some((640, 480)), exif_data: None },
        "t1",
    );
    assert_eq!((asset.width, asset.height), (640, 480));
    assert_eq!(asset.exif_data, None);
    assert_eq!(asset.updated_at, "t1");
    assert_eq!(asset.created_at, "t0");

    apply_metadata(
        &mut asset,
        MetadataFinding { dimensions: None, exif_data: Some("{}".to_string()) },
        "t2",
    );
    assert_eq!((asset.width, asset.height), (640, 480));
    assert_eq!(asset.exif_data, Some("{}".to_string()));

    apply_hashes(&mut asset, HashFinding { content_hash: None, perceptual_hash: Some(9) }, "t3");
    assert_eq!(asset.hash, None);
    assert_eq!(asset.perceptual_hash, Some(9));
    apply_hashes(
        &mut asset,
        HashFinding { content_hash: Some("abc".to_string()), perceptual_hash: None },
        "t4",
    );
    assert_eq!(asset.hash, Some("abc".to_string()));
    assert_eq!(asset.perceptual_hash, Some(9));
    assert_eq!(asset.updated_at, "t4");
    assert_eq!(asset.path, "/p/a.jpg");
}

#[test]
fn batches_touch_their_own_entries_only() {
    let assets = vec![bare("a"), bare("b"), bare("c"), bare("d")];
    let findings = vec![
        MetadataFinding { dimensions: Some((1, 2)), exif_data: None },
        MetadataFinding { dimensions: None, exif_data: Some("x".to_string()) },
    ];
    let out = apply_metadata_batch(assets, 1, findings, "t9");
    assert_eq!(out.len(), 4);
    assert_eq!(out[0], bare("a"));
    assert_eq!(out[3], bare("d"));
    assert_eq!((out[1].width, out[1].height), (1, 2));
    assert_eq!(out[1].updated_at, "t9");
    assert_eq!(out[2].exif_data, Some("x".to_string()));
    assert_eq!((out[2].width, out[2].height), (0, 0));

    let hashed = apply_hashes_batch(
        out,
        0,
        vec![
            HashFinding { content_hash: Some("h0".to_string()), perceptual_hash: None },
            HashFinding { content_hash: None, perceptual_hash: Some(4) },
        ],
        "t10",
    );
    assert_eq!(hashed[0].hash, Some("h0".to_string()));
    assert_eq!(hashed[1].hash, None);
    assert_eq!(hashed[1].perceptual_hash, Some(4));
    assert_eq!(hashed[2].updated_at, "t9");
    assert_eq!(hashed[3], bare("d"));
}

#[test]
fn thumbnail_paths_are_set_in_the_cache() {
    let scanner = ScannerService::new();
    let cache = scanner.project_cache_dir("/out", "/src");
    let assets = set_thumbnail_paths(&ThumbnailService::new(), vec![bare("ast_1")], &cache);
    assert_eq!(assets.len(), 1);
    let expected = std::path::Path::new("/out")
        .join(".cullrs")
        .join("thumbnails")
        .join("ast_1.jpg");
    assert_eq!(assets[0].thumbnail_path.as_deref(), Some(expected.to_string_lossy().as_ref()));
    assert_eq!(scanner.get_thumbnail_path(&cache, "ast_1"), expected.to_string_lossy());
    assert_eq!(assets[0].path, "/p/ast_1.jpg");
}

#[test]
fn many_entries_have_distinct_ids() {
    let scanner = ScannerService::new();
    let files: Vec<FoundFile> =
        (0..500).map(|i| FoundFile { path: format!("/p/{}.jpg", i), size: i }).collect();
    let assets = scanner.quick_index_files("prj", &files);
    assert_eq!(assets.len(), 500);
    let ids: std::collections::HashSet<&str> = assets.iter().map(|a| a.id.as_str()).collect();
    assert_eq!(ids.len(), 500);
}
