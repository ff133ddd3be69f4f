//! What a scan reports while it runs: its phase, its counts, and an
//! estimate of the time that is left.

use vstd::prelude::*;
use crate::exif::ExifError;
use crate::hash::HashError;
use crate::paths::{file_name, file_name_of};
use crate::records::ScanStatus;
use crate::text::{decimal_of, join2, join3, to_decimal};
use crate::thumbnail::ThumbnailError;

verus! {

/// Why a scan ended without a result.
#[derive(Debug)]
pub enum ScanError {
    /// A root does not exist or is not a directory.
    InvalidPath { path: String },
    PermissionDenied { path: String },
    UnsupportedFileType { extension: String },
    /// A file or directory operation failed.
    Io(String),
    /// An image could not be opened.
    Image(String),
    Thumbnail(ThumbnailError),
    Hash(HashError),
    Exif(ExifError),
    /// The scan was told to stop.
    Cancelled,
}

impl ScanError {
    /// The line of text that describes the error.
    pub open spec fn text(&self) -> Seq<char> {
        match *self {
            ScanError::InvalidPath { path } => "Invalid path: "@ + path@,
            ScanError::PermissionDenied { path } => "Permission denied: "@ + path@,
            ScanError::UnsupportedFileType { extension } => "Unsupported file type: "@
                + extension@,
            ScanError::Io(m) => "IO error: "@ + m@,
            ScanError::Image(m) => "Image processing error: "@ + m@,
            ScanError::Thumbnail(e) => "Thumbnail generation error: "@ + e.text(),
            ScanError::Hash(e) => "Hash computation error: "@ + e.text(),
            ScanError::Exif(e) => "EXIF extraction error: "@ + e.text(),
            ScanError::Cancelled => "Operation cancelled"@,
        }
    }

    /// A line of text that describes the error.
    pub fn message(&self) -> (out: String)
        ensures
            out@ == self.text(),
    {
        match self {
            ScanError::InvalidPath { path } => join2("Invalid path: ", path.as_str()),
            ScanError::PermissionDenied { path } => join2("Permission denied: ", path.as_str()),
            ScanError::UnsupportedFileType { extension } => join2(
                "Unsupported file type: ",
                extension.as_str(),
            ),
            ScanError::Io(m) => join2("IO error: ", m.as_str()),
            ScanError::Image(m) => join2("Image processing error: ", m.as_str()),
            ScanError::Thumbnail(e) => {
                let inner = e.message();
                join2("Thumbnail generation error: ", inner.as_str())
            },
            ScanError::Hash(e) => {
                let inner = e.message();
                join2("Hash computation error: ", inner.as_str())
            },
            ScanError::Exif(e) => {
                let inner = e.message();
                join2("EXIF extraction error: ", inner.as_str())
            },
            ScanError::Cancelled => "Operation cancelled".to_owned(),
        }
    }
}

/// The phase that a progress report is about.
#[derive(Debug, Clone, Copy, PartialEq, Eq, Hash, Structural)]
pub enum ScanPhase {
    /// Discovery and the fast first index of all files.
    QuickScan,
    /// Reading dimensions and descriptive metadata.
    BackgroundMetadata,
    /// Placing and rendering thumbnails.
    BackgroundThumbnails,
    /// Computing content and perceptual hashes.
    BackgroundHashing,
    Complete,
}

/// A report on the progress of a scan.
#[derive(Debug, Clone, PartialEq, Eq)]
pub struct ScanProgress {
    pub files_processed: usize,
    pub total_files: usize,
    /// The file at hand, or a line on what is being done.
    pub current_file: String,
    /// In seconds.
    pub estimated_time_remaining: Option<u64>,
    pub phase: ScanPhase,
    pub bytes_processed: Option<u64>,
    /// Whether the first index of all files is complete.
    pub quick_scan_complete: bool,
}

/// The seconds that the rest of the work is expected to take, from the
/// rate so far: the time that has passed, for each item done, times the
/// items left. There is no estimate before one item is done and one second
/// has passed. An estimate beyond the largest number is given as that
/// number.
pub open spec fn remaining_estimate(processed: nat, total: nat, elapsed: nat) -> Option<nat> {
    if processed > 0 && elapsed > 0 {
        let left = if processed <= total {
            (total - processed) as nat
        } else {
            0
        };
        let seconds = left * elapsed / processed;
        if seconds > u64::MAX {
            Some(u64::MAX as nat)
        } else {
            Some(seconds)
        }
    } else {
        None
    }
}

/// Estimates the seconds that are left, after `processed` of `total` items
/// and `elapsed` seconds.
pub fn estimate_remaining(processed: usize, total: usize, elapsed: u64) -> (out: Option<u64>)
    ensures
        out is Some == remaining_estimate(processed as nat, total as nat, elapsed as nat) is Some,
        out matches Some(s) ==> remaining_estimate(processed as nat, total as nat, elapsed as nat)
            == Some(s as nat),
        out is Some <==> processed > 0 && elapsed > 0,
{
    if processed > 0 && elapsed > 0 {
        let left: usize = if processed <= total {
            total - processed
        } else {
            0
        };
        assert(left as u128 * elapsed as u128 <= 0xffff_ffff_ffff_ffff * 0xffff_ffff_ffff_ffff)
            by (nonlinear_arith)
            requires
                left as u128 <= 0xffff_ffff_ffff_ffff,
                elapsed as u128 <= 0xffff_ffff_ffff_ffff,
        ;
        let product: u128 = left as u128 * elapsed as u128;
        let seconds: u128 = product / processed as u128;
        if seconds > u64::MAX as u128 {
            Some(u64::MAX)
        } else {
            Some(seconds as u64)
        }
    } else {
        None
    }
}

/// The status that a project is given when its scan has ended with
/// `outcome`: completed after a success, cancelled after a stop, and failed,
/// with the line that describes the error, after any other failure.
pub fn status_after(outcome: &Result<(), ScanError>) -> (status: ScanStatus)
    ensures
        match *outcome {
            Ok(_) => status == ScanStatus::Completed,
            Err(ScanError::Cancelled) => status == ScanStatus::Cancelled,
            Err(e) => status matches ScanStatus::Failed(m) && m@ == e.text(),
        },
{
    match outcome {
        Ok(_) => ScanStatus::Completed,
        Err(ScanError::Cancelled) => ScanStatus::Cancelled,
        Err(e) => ScanStatus::Failed(e.message()),
    }
}

/// The line of an item report: what is being done, and the name of the
/// file at hand. A path without a file name gives no name.
pub open spec fn item_line(action: Seq<char>, path: Seq<char>) -> Seq<char> {
    action + ": "@ + match file_name_of(path) {
        Some(name) => name,
        None => Seq::<char>::empty(),
    }
}

/// The line of the report on one file of the metadata phase.
pub fn metadata_line(path: &str) -> (line: String)
    ensures
        line@ == item_line("Processing metadata"@, path@),
{
    match file_name(path) {
        Some(name) => join3("Processing metadata", ": ", name.as_str()),
        None => {
            let line = join2("Processing metadata", ": ");
            assert(line@ + Seq::<char>::empty() =~= line@);
            line
        },
    }
}

/// The line of the report on one file of the hash phase.
pub fn hashing_line(path: &str) -> (line: String)
    ensures
        line@ == item_line("Computing hashes"@, path@),
{
    match file_name(path) {
        Some(name) => join3("Computing hashes", ": ", name.as_str()),
        None => {
            let line = join2("Computing hashes", ": ");
            assert(line@ + Seq::<char>::empty() =~= line@);
            line
        },
    }
}

/// The line of the report on the thumbnails rendered so far.
pub open spec fn thumbnails_line(done: nat, total: nat) -> Seq<char> {
    "Generated "@ + decimal_of(done) + " of "@ + decimal_of(total) + " thumbnails"@
}

/// The report on the rendering of thumbnails, after `done` of `total` and
/// `elapsed` seconds.
pub fn thumbnail_progress(done: usize, total: usize, elapsed: u64) -> (p: ScanProgress)
    ensures
        p.files_processed == done,
        p.total_files == total,
        p.current_file@ == thumbnails_line(done as nat, total as nat),
        p.phase == ScanPhase::BackgroundThumbnails,
        p.bytes_processed is None,
        p.quick_scan_complete,
        p.estimated_time_remaining is Some == remaining_estimate(
            done as nat,
            total as nat,
            elapsed as nat,
        ) is Some,
        p.estimated_time_remaining matches Some(s) ==> remaining_estimate(
            done as nat,
            total as nat,
            elapsed as nat,
        ) == Some(s as nat),
{
    let first = to_decimal(done as u64);
    let second = to_decimal(total as u64);
    let head = join3("Generated ", first.as_str(), " of ");
    let line = join3(head.as_str(), second.as_str(), " thumbnails");
    ScanProgress {
        files_processed: done,
        total_files: total,
        current_file: line,
        estimated_time_remaining: estimate_remaining(done, total, elapsed),
        phase: ScanPhase::BackgroundThumbnails,
        bytes_processed: None,
        quick_scan_complete: true,
    }
}

/// Whether a report is due in the first index of all files: after every
/// tenth file, and after every file once a second has passed.
pub fn is_quick_report_due(count: usize, elapsed: u64) -> (due: bool)
    ensures
        due == (count % 10 == 0 || elapsed > 0),
{
    count % 10 == 0 || elapsed > 0
}

/// Whether a report is due after `count` items, where one is made every
/// `every` items.
pub fn is_report_due(count: usize, every: usize) -> (due: bool)
    requires
        every > 0,
    ensures
        due == (count % every == 0),
{
    count % every == 0
}

} // verus!
