//! Thumbnails: where they are stored, when one can be reused, and the
//! course of one rendering job.

use vstd::prelude::*;
use crate::paths::{join, joined};
use crate::text::join2;

verus! {

/// Why a thumbnail could not be made.
#[derive(Debug)]
pub enum ThumbnailError {
    /// A file or directory operation failed.
    Io(String),
    /// The image could not be decoded or encoded.
    Image(String),
    /// The source file does not exist.
    InvalidPath { path: String },
    /// The source is of a format that cannot be read.
    UnsupportedFormat { format: String },
}

impl ThumbnailError {
    /// The line of text that describes the error.
    pub open spec fn text(&self) -> Seq<char> {
        match *self {
            ThumbnailError::Io(m) => "IO error: "@ + m@,
            ThumbnailError::Image(m) => "Image processing error: "@ + m@,
            ThumbnailError::InvalidPath { path } => "Invalid path: "@ + path@,
            ThumbnailError::UnsupportedFormat { format } => "Unsupported format: "@ + format@,
        }
    }

    /// A line of text that describes the error.
    pub fn message(&self) -> (out: String)
        ensures
            out@ == self.text(),
    {
        match self {
            ThumbnailError::Io(m) => join2("IO error: ", m.as_str()),
            ThumbnailError::Image(m) => join2("Image processing error: ", m.as_str()),
            ThumbnailError::InvalidPath { path } => join2("Invalid path: ", path.as_str()),
            ThumbnailError::UnsupportedFormat { format } => join2(
                "Unsupported format: ",
                format.as_str(),
            ),
        }
    }
}

/// What a rendering job is doing.
#[derive(Debug, Clone, Copy, PartialEq, Eq, Structural)]
pub enum ThumbnailPhase {
    Loading,
    Processing,
    Saving,
    Complete,
    Error,
}

/// A report on the progress of a rendering job.
#[derive(Debug, Clone, PartialEq, Eq)]
pub struct ThumbnailProgress {
    pub current_file: String,
    pub completed_count: usize,
    pub total_count: usize,
    pub current_phase: ThumbnailPhase,
    pub error_message: Option<String>,
}

/// When a file was last modified, as far as its metadata tells.
#[derive(Debug, Clone, Copy, PartialEq, Eq, Structural)]
pub struct FileTimes {
    /// Nanoseconds since the Unix epoch.
    pub modified: Option<i128>,
}

impl FileTimes {
    /// The modification time; the Unix epoch where it is unknown.
    pub open spec fn stamp(self) -> int {
        match self.modified {
            Some(t) => t as int,
            None => 0,
        }
    }
}

/// Whether a thumbnail can be reused: it exists, the metadata of both files
/// could be read, and the thumbnail was modified no earlier than its source.
pub open spec fn up_to_date(thumbnail: Option<FileTimes>, source: Option<FileTimes>) -> bool {
    thumbnail is Some && source is Some && thumbnail->0.stamp() >= source->0.stamp()
}

/// Makes and places thumbnails.
#[derive(Debug, Clone, Copy, PartialEq, Eq, Structural)]
pub struct ThumbnailService {
    thumbnail_size: u32,
    quality: u8,
}

impl ThumbnailService {
    /// A service for thumbnails that fit a square of 512 pixels, encoded at
    /// quality 85.
    pub fn new() -> (service: Self)
        ensures
            service.size() == 512,
            service.encoding_quality() == 85,
    {
        ThumbnailService { thumbnail_size: 512, quality: 85 }
    }

    /// Side of the square that thumbnails fit in, in pixels.
    pub closed spec fn size(self) -> u32 {
        self.thumbnail_size
    }

    /// Quality at which thumbnails are encoded.
    pub closed spec fn encoding_quality(self) -> u8 {
        self.quality
    }

    /// Side of the square that thumbnails fit in, in pixels.
    pub fn thumbnail_size(&self) -> (size: u32)
        ensures
            size == self.size(),
    {
        self.thumbnail_size
    }

    /// Quality at which thumbnails are encoded.
    pub fn quality(&self) -> (quality: u8)
        ensures
            quality == self.encoding_quality(),
    {
        self.quality
    }

    /// The path of the thumbnail of an asset: the file `<asset id>.jpg` in
    /// the directory `thumbnails` of the project's cache directory.
    pub fn get_thumbnail_path(&self, project_temp_dir: &str, asset_id: &str) -> (path: String)
        ensures
            path@ == thumbnail_path_of(project_temp_dir@, asset_id@),
    {
        let directory = join(project_temp_dir, "thumbnails");
        let file = join2(asset_id, ".jpg");
        join(directory.as_str(), file.as_str())
    }

    /// Whether the thumbnail has to be rendered: it does unless it can be
    /// reused.
    pub fn needs_render(&self, thumbnail: &Option<FileTimes>, source: &Option<FileTimes>) -> (r:
        bool)
        ensures
            r == !up_to_date(*thumbnail, *source),
    {
        match (thumbnail, source) {
            (Some(t), Some(s)) => {
                let a: i128 = match t.modified {
                    Some(x) => x,
                    None => 0,
                };
                let b: i128 = match s.modified {
                    Some(x) => x,
                    None => 0,
                };
                a < b
            },
            _ => true,
        }
    }
}

/// The path of the thumbnail of an asset in a cache directory.
pub open spec fn thumbnail_path_of(cache_dir: Seq<char>, asset_id: Seq<char>) -> Seq<char> {
    joined(joined(cache_dir, "thumbnails"@), asset_id + ".jpg"@)
}

/// The steps of a rendering job, in the order in which they are taken.
#[derive(Debug, Clone, Copy, PartialEq, Eq, Structural)]
pub enum ThumbnailStage {
    /// Checking that the source file exists.
    CheckSource,
    /// Creating the directory of the thumbnail.
    PrepareDirectory,
    /// Reading and decoding the source.
    Load,
    /// Scaling the image down.
    Resize,
    /// Encoding and writing the thumbnail.
    Save,
    /// The thumbnail is written.
    Done,
    /// A step failed; the job is over.
    Failed,
}

impl ThumbnailStage {
    /// Whether the job is over.
    pub open spec fn is_final(self) -> bool {
        self == ThumbnailStage::Done || self == ThumbnailStage::Failed
    }

    /// The stage that follows when the step of this stage succeeds.
    pub open spec fn following(self) -> ThumbnailStage {
        match self {
            ThumbnailStage::CheckSource => ThumbnailStage::PrepareDirectory,
            ThumbnailStage::PrepareDirectory => ThumbnailStage::Load,
            ThumbnailStage::Load => ThumbnailStage::Resize,
            ThumbnailStage::Resize => ThumbnailStage::Save,
            ThumbnailStage::Save => ThumbnailStage::Done,
            ThumbnailStage::Done => ThumbnailStage::Done,
            ThumbnailStage::Failed => ThumbnailStage::Failed,
        }
    }

    /// The phase that is reported on entering this stage, where one is.
    pub open spec fn announced(self) -> Option<ThumbnailPhase> {
        match self {
            ThumbnailStage::CheckSource => None,
            ThumbnailStage::PrepareDirectory => None,
            ThumbnailStage::Load => Some(ThumbnailPhase::Loading),
            ThumbnailStage::Resize => Some(ThumbnailPhase::Processing),
            ThumbnailStage::Save => Some(ThumbnailPhase::Saving),
            ThumbnailStage::Done => Some(ThumbnailPhase::Complete),
            ThumbnailStage::Failed => Some(ThumbnailPhase::Error),
        }
    }

    /// How the report of a failure in this stage begins.
    pub open spec fn failure_prefix(self) -> Seq<char> {
        match self {
            ThumbnailStage::CheckSource => "File not found: "@,
            ThumbnailStage::PrepareDirectory => "Failed to create directory: "@,
            ThumbnailStage::Load => "Failed to load image: "@,
            ThumbnailStage::Resize => "Failed to resize image: "@,
            ThumbnailStage::Save => "Failed to save thumbnail: "@,
            ThumbnailStage::Done => Seq::<char>::empty(),
            ThumbnailStage::Failed => Seq::<char>::empty(),
        }
    }
}

/// One rendering job: the thumbnail of one file, as one of a batch.
pub struct ThumbnailJob {
    stage: ThumbnailStage,
    file_name: String,
    index: usize,
    total: usize,
}

impl ThumbnailJob {
    /// The stage that the job is in.
    pub closed spec fn stage(&self) -> ThumbnailStage {
        self.stage
    }

    /// The name of the file that is rendered.
    pub closed spec fn file_name(&self) -> Seq<char> {
        self.file_name@
    }

    /// Position of the job in its batch.
    pub closed spec fn index(&self) -> usize {
        self.index
    }

    /// Number of jobs in the batch.
    pub closed spec fn total(&self) -> usize {
        self.total
    }

    /// A job that has not begun: the `index`-th of `total`, counted from 0.
    pub fn new(file_name: &str, index: usize, total: usize) -> (job: Self)
        requires
            index < usize::MAX,
        ensures
            job.stage() == ThumbnailStage::CheckSource,
            job.file_name() == file_name@,
            job.index() == index,
            job.total() == total,
    {
        ThumbnailJob { stage: ThumbnailStage::CheckSource, file_name: file_name.to_owned(), index, total }
    }

    /// The stage that the job is in.
    pub fn current_stage(&self) -> (stage: ThumbnailStage)
        ensures
            stage == self.stage(),
    {
        self.stage
    }

    /// The report for `phase`. A finished job counts as completed; during
    /// any other phase the count is that of the jobs before it.
    pub fn report(&self, phase: ThumbnailPhase, error_message: Option<String>) -> (progress:
        ThumbnailProgress)
        requires
            self.index() < usize::MAX,
        ensures
            progress.current_file@ == self.file_name(),
            progress.total_count == self.total(),
            progress.current_phase == phase,
            progress.error_message == error_message,
            progress.completed_count == if phase == ThumbnailPhase::Complete {
                self.index() + 1
            } else {
                self.index() as int
            },
    {
        let completed_count: usize = match phase {
            ThumbnailPhase::Complete => self.index + 1,
            _ => self.index,
        };
        ThumbnailProgress {
            current_file: self.file_name.clone(),
            completed_count,
            total_count: self.total,
            current_phase: phase,
            error_message,
        }
    }

    /// Takes note of how the step of the current stage ended, and moves on.
    /// After a success the job enters the following stage; after a failure,
    /// given by its message, the job has failed. Returns the report that is
    /// due on entering the new stage, if one is. A job that is over stays as
    /// it is and reports nothing.
    pub fn advance(&mut self, outcome: Result<(), String>) -> (progress: Option<ThumbnailProgress>)
        requires
            old(self).index() < usize::MAX,
        ensures
            final(self).file_name() == old(self).file_name(),
            final(self).index() == old(self).index(),
            final(self).total() == old(self).total(),
            old(self).stage().is_final() ==> final(self).stage() == old(self).stage()
                && progress is None,
            !old(self).stage().is_final() ==> {
                &&& final(self).stage() == match outcome {
                    Ok(_) => old(self).stage().following(),
                    Err(_) => ThumbnailStage::Failed,
                }
                &&& progress is Some == final(self).stage().announced() is Some
                &&& progress matches Some(p) ==> {
                    &&& Some(p.current_phase) == final(self).stage().announced()
                    &&& p.current_file@ == old(self).file_name()
                    &&& p.total_count == old(self).total()
                    &&& p.completed_count == if final(self).stage() == ThumbnailStage::Done {
                        old(self).index() + 1
                    } else {
                        old(self).index() as int
                    }
                    &&& match outcome {
                        Ok(_) => p.error_message is None,
                        Err(m) => p.error_message matches Some(text) && text@ == old(
                            self,
                        ).stage().failure_prefix() + m@,
                    }
                }
            },
    {
        match self.stage {
            ThumbnailStage::Done => {
                return None;
            },
            ThumbnailStage::Failed => {
                return None;
            },
            _ => {},
        }
        match outcome {
            Ok(_) => {
                let (next, phase): (ThumbnailStage, Option<ThumbnailPhase>) = match self.stage {
                    ThumbnailStage::CheckSource => (ThumbnailStage::PrepareDirectory, None),
                    ThumbnailStage::PrepareDirectory => (
                        ThumbnailStage::Load,
                        Some(ThumbnailPhase::Loading),
                    ),
                    ThumbnailStage::Load => (
                        ThumbnailStage::Resize,
                        Some(ThumbnailPhase::Processing),
                    ),
                    ThumbnailStage::Resize => (ThumbnailStage::Save, Some(ThumbnailPhase::Saving)),
                    _ => (ThumbnailStage::Done, Some(ThumbnailPhase::Complete)),
                };
                self.stage = next;
                match phase {
                    Some(p) => Some(self.report(p, None)),
                    None => None,
                }
            },
            Err(m) => {
                let prefix: &str = match self.stage {
                    ThumbnailStage::CheckSource => "File not found: ",
                    ThumbnailStage::PrepareDirectory => "Failed to create directory: ",
                    ThumbnailStage::Load => "Failed to load image: ",
                    ThumbnailStage::Resize => "Failed to resize image: ",
                    _ => "Failed to save thumbnail: ",
                };
                let text = join2(prefix, m.as_str());
                self.stage = ThumbnailStage::Failed;
                Some(self.report(ThumbnailPhase::Error, Some(text)))
            },
        }
    }
}

/// How the rendering of one thumbnail of a batch ended.
#[derive(Debug, Clone, Copy, PartialEq, Eq, Structural)]
pub enum ThumbnailOutcome {
    /// An up-to-date thumbnail was there already.
    Reused,
    /// The thumbnail was rendered.
    Rendered,
    /// Rendering failed; the asset goes without a thumbnail.
    Failed,
}

/// How the thumbnails of a batch ended.
#[derive(Debug, Clone, Copy, PartialEq, Eq, Structural)]
pub struct ThumbnailSummary {
    pub reused: usize,
    pub rendered: usize,
    pub failed: usize,
}

/// How many of the first `k` outcomes are `which`.
pub open spec fn count_outcomes(outcomes: Seq<ThumbnailOutcome>, which: ThumbnailOutcome, k: int) -> nat
    decreases k,
{
    if k <= 0 {
        0
    } else {
        count_outcomes(outcomes, which, k - 1) + if outcomes[k - 1] == which {
            1nat
        } else {
            0nat
        }
    }
}

/// Counts how the thumbnails of a batch ended. A failure does not stop the
/// batch: it is counted and reported.
pub fn summarize_thumbnails(outcomes: &Vec<ThumbnailOutcome>) -> (summary: ThumbnailSummary)
    ensures
        summary.reused == count_outcomes(outcomes@, ThumbnailOutcome::Reused, outcomes@.len() as int),
        summary.rendered == count_outcomes(
            outcomes@,
            ThumbnailOutcome::Rendered,
            outcomes@.len() as int,
        ),
        summary.failed == count_outcomes(outcomes@, ThumbnailOutcome::Failed, outcomes@.len() as int),
        summary.reused + summary.rendered + summary.failed == outcomes@.len(),
{
    let mut reused: usize = 0;
    let mut rendered: usize = 0;
    let mut failed: usize = 0;
    let mut i: usize = 0;
    while i < outcomes.len()
        invariant
            i <= outcomes.len(),
            reused == count_outcomes(outcomes@, ThumbnailOutcome::Reused, i as int),
            rendered == count_outcomes(outcomes@, ThumbnailOutcome::Rendered, i as int),
            failed == count_outcomes(outcomes@, ThumbnailOutcome::Failed, i as int),
            reused + rendered + failed == i,
        decreases outcomes.len() - i,
    {
        match outcomes[i] {
            ThumbnailOutcome::Reused => {
                reused += 1;
            },
            ThumbnailOutcome::Rendered => {
                rendered += 1;
            },
            ThumbnailOutcome::Failed => {
                failed += 1;
            },
        }
        i += 1;
    }
    ThumbnailSummary { reused, rendered, failed }
}

} // verus!
