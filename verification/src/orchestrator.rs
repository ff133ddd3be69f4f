//! The course of a scan: its stages in their fixed order, the counts of
//! the stage at hand, and the reports that are due on the way.
//!
//! The orchestrator decides; its caller does the work. The caller tells it,
//! before each stage, whether the scan has been told to stop, and is handed
//! the report to send.

use vstd::prelude::*;
use crate::progress::{estimate_remaining, remaining_estimate, ScanError, ScanPhase, ScanProgress};

verus! {

/// The stages of a scan.
#[derive(Debug, Clone, Copy, PartialEq, Eq, Structural)]
pub enum ScanStage {
    NotStarted,
    /// Walking the roots for candidate files.
    Discovery,
    /// Making a bare catalog entry for every file found.
    QuickIndex,
    /// Reading dimensions and descriptive metadata.
    Metadata,
    /// Placing thumbnails.
    Thumbnails,
    /// Computing hashes.
    Hashing,
    Complete,
    /// The scan was told to stop.
    Cancelled,
}

impl ScanStage {
    /// Place of the stage in the order of a scan that runs to its end.
    pub open spec fn rank(self) -> nat {
        match self {
            ScanStage::NotStarted => 0,
            ScanStage::Discovery => 1,
            ScanStage::QuickIndex => 2,
            ScanStage::Metadata => 3,
            ScanStage::Thumbnails => 4,
            ScanStage::Hashing => 5,
            ScanStage::Complete => 6,
            ScanStage::Cancelled => 7,
        }
    }

    /// Whether a scan in this stage is over.
    pub open spec fn is_final(self) -> bool {
        self == ScanStage::Complete || self == ScanStage::Cancelled
    }

    /// The stage that follows this one in a scan that is not stopped.
    pub open spec fn following(self) -> ScanStage {
        match self {
            ScanStage::NotStarted => ScanStage::Discovery,
            ScanStage::Discovery => ScanStage::QuickIndex,
            ScanStage::QuickIndex => ScanStage::Metadata,
            ScanStage::Metadata => ScanStage::Thumbnails,
            ScanStage::Thumbnails => ScanStage::Hashing,
            ScanStage::Hashing => ScanStage::Complete,
            ScanStage::Complete => ScanStage::Complete,
            ScanStage::Cancelled => ScanStage::Cancelled,
        }
    }

    /// The phase under which the stage reports. A scan that has not begun
    /// or has been stopped is in no stage of work, and has none.
    pub open spec fn phase(self) -> Option<ScanPhase> {
        match self {
            ScanStage::NotStarted => None,
            ScanStage::Discovery => Some(ScanPhase::QuickScan),
            ScanStage::QuickIndex => Some(ScanPhase::QuickScan),
            ScanStage::Metadata => Some(ScanPhase::BackgroundMetadata),
            ScanStage::Thumbnails => Some(ScanPhase::BackgroundThumbnails),
            ScanStage::Hashing => Some(ScanPhase::BackgroundHashing),
            ScanStage::Complete => Some(ScanPhase::Complete),
            ScanStage::Cancelled => None,
        }
    }

    /// The line with which the stage is announced, where it is.
    pub open spec fn opening_line(self) -> Option<Seq<char>> {
        match self {
            ScanStage::Discovery => Some("Starting quick scan..."@),
            ScanStage::Metadata => Some("Extracting metadata..."@),
            ScanStage::Thumbnails => Some("Setting up thumbnail paths..."@),
            ScanStage::Hashing => Some("Computing hashes..."@),
            ScanStage::Complete => Some("All processing complete"@),
            _ => None,
        }
    }

    /// The line with which the end of the stage is reported, where it is.
    pub open spec fn closing_line(self) -> Option<Seq<char>> {
        match self {
            ScanStage::QuickIndex => Some("Quick scan complete - assets available in UI"@),
            ScanStage::Thumbnails => Some("Thumbnail paths configured"@),
            _ => None,
        }
    }

    /// The stage that follows this one in a scan that is not stopped.
    pub fn next(&self) -> (stage: ScanStage)
        ensures
            stage == self.following(),
    {
        match self {
            ScanStage::NotStarted => ScanStage::Discovery,
            ScanStage::Discovery => ScanStage::QuickIndex,
            ScanStage::QuickIndex => ScanStage::Metadata,
            ScanStage::Metadata => ScanStage::Thumbnails,
            ScanStage::Thumbnails => ScanStage::Hashing,
            ScanStage::Hashing => ScanStage::Complete,
            ScanStage::Complete => ScanStage::Complete,
            ScanStage::Cancelled => ScanStage::Cancelled,
        }
    }

    /// The phase under which the stage reports.
    pub fn report_phase(&self) -> (phase: Option<ScanPhase>)
        ensures
            phase == self.phase(),
    {
        match self {
            ScanStage::NotStarted => None,
            ScanStage::Discovery => Some(ScanPhase::QuickScan),
            ScanStage::QuickIndex => Some(ScanPhase::QuickScan),
            ScanStage::Metadata => Some(ScanPhase::BackgroundMetadata),
            ScanStage::Thumbnails => Some(ScanPhase::BackgroundThumbnails),
            ScanStage::Hashing => Some(ScanPhase::BackgroundHashing),
            ScanStage::Complete => Some(ScanPhase::Complete),
            ScanStage::Cancelled => None,
        }
    }
}

/// The stages of a scan follow each other in one strict order: each stage
/// that is not the last is followed by the stage of the next rank.
pub proof fn lemma_stage_order(stage: ScanStage)
    requires
        !stage.is_final(),
    ensures
        stage.following().rank() == stage.rank() + 1,
        stage.following() != ScanStage::Cancelled,
        stage.following() != ScanStage::NotStarted,
{
}

/// `p` announces `stage` of a scan of `total` files.
pub open spec fn announces(p: ScanProgress, stage: ScanStage, total: usize) -> bool {
    &&& stage.opening_line() == Some(p.current_file@)
    &&& Some(p.phase) == stage.phase()
    &&& p.total_files == total
    &&& p.files_processed == if stage == ScanStage::Complete {
        total
    } else {
        0
    }
    &&& p.estimated_time_remaining == if stage == ScanStage::Complete {
        Some(0u64)
    } else {
        None
    }
    &&& p.bytes_processed == if stage == ScanStage::Complete {
        None
    } else {
        Some(0u64)
    }
    &&& p.quick_scan_complete == (stage != ScanStage::Discovery)
}

/// `p` reports the end of `stage` of a scan of `total` files.
pub open spec fn closes(p: ScanProgress, stage: ScanStage, total: usize) -> bool {
    &&& stage.closing_line() == Some(p.current_file@)
    &&& Some(p.phase) == stage.phase()
    &&& p.total_files == total
    &&& p.files_processed == total
    &&& p.estimated_time_remaining == Some(0u64)
    &&& p.bytes_processed == if stage == ScanStage::QuickIndex {
        Some(0u64)
    } else {
        None
    }
    &&& p.quick_scan_complete
}

/// The state of one scan.
#[derive(Debug, Clone, Copy, PartialEq, Eq, Structural)]
pub struct ScanRun {
    stage: ScanStage,
    phase: ScanPhase,
    total: usize,
    processed: usize,
}

impl ScanRun {
    /// The stage that the scan is in.
    pub closed spec fn stage(self) -> ScanStage {
        self.stage
    }

    /// The phase under which the scan reports: that of the stage it is in,
    /// and after a stop that of the stage in which it was stopped. A scan
    /// that has not begun reports under the first phase.
    pub closed spec fn phase(self) -> ScanPhase {
        self.phase
    }

    /// Number of files that the scan found.
    pub closed spec fn total(self) -> usize {
        self.total
    }

    /// Number of files that the stage at hand has dealt with.
    pub closed spec fn processed(self) -> usize {
        self.processed
    }

    /// No more files are dealt with than were found.
    pub open spec fn well_formed(self) -> bool {
        self.processed() <= self.total()
    }

    /// The scan reports under the phase of its stage, and on completion
    /// every file counts as dealt with.
    pub open spec fn in_step(self) -> bool {
        &&& self.stage().phase() matches Some(p) ==> self.phase() == p
        &&& self.stage() == ScanStage::NotStarted ==> self.phase() == ScanPhase::QuickScan
        &&& self.stage() == ScanStage::Complete ==> self.processed() == self.total()
        &&& self.phase() == ScanPhase::Complete ==> self.stage() == ScanStage::Complete
    }

    #[verifier::type_invariant]
    spec fn consistent(self) -> bool {
        &&& self.processed <= self.total
        &&& self.stage.phase() matches Some(p) ==> self.phase == p
        &&& self.stage == ScanStage::NotStarted ==> self.phase == ScanPhase::QuickScan
        &&& self.stage == ScanStage::Complete ==> self.processed == self.total
        &&& self.phase == ScanPhase::Complete ==> self.stage == ScanStage::Complete
    }

    /// A scan that has not begun.
    pub fn new() -> (run: Self)
        ensures
            run.stage() == ScanStage::NotStarted,
            run.phase() == ScanPhase::QuickScan,
            run.total() == 0,
            run.processed() == 0,
            run.well_formed(),
    {
        ScanRun { stage: ScanStage::NotStarted, phase: ScanPhase::QuickScan, total: 0, processed: 0 }
    }

    /// Begins a scan. `cancelled` tells whether the scan has been told to
    /// stop already: then it ends at once, with `Cancelled` and with no file
    /// dealt with. Otherwise the scan is in discovery, and the report that
    /// announces it is returned.
    pub fn begin(cancelled: bool) -> (out: (Self, Result<ScanProgress, ScanError>))
        ensures
            out.0.total() == 0,
            out.0.processed() == 0,
            out.0.phase() == ScanPhase::QuickScan,
            out.1 is Err <==> cancelled,
            out.1 matches Err(e) ==> e is Cancelled && out.0.stage() == ScanStage::Cancelled,
            out.1 matches Ok(p) ==> out.0.stage() == ScanStage::Discovery && announces(
                p,
                ScanStage::Discovery,
                0,
            ),
    {
        if cancelled {
            (
                ScanRun {
                    stage: ScanStage::Cancelled,
                    phase: ScanPhase::QuickScan,
                    total: 0,
                    processed: 0,
                },
                Err(ScanError::Cancelled),
            )
        } else {
            (
                ScanRun {
                    stage: ScanStage::Discovery,
                    phase: ScanPhase::QuickScan,
                    total: 0,
                    processed: 0,
                },
                Ok(
                    ScanProgress {
                        files_processed: 0,
                        total_files: 0,
                        current_file: "Starting quick scan...".to_owned(),
                        estimated_time_remaining: None,
                        phase: ScanPhase::QuickScan,
                        bytes_processed: Some(0),
                        quick_scan_complete: false,
                    },
                ),
            )
        }
    }

    /// The stage that the scan is in.
    pub fn current_stage(&self) -> (stage: ScanStage)
        ensures
            stage == self.stage(),
    {
        self.stage
    }

    /// Number of files that the scan found.
    pub fn total_files(&self) -> (n: usize)
        ensures
            n == self.total(),
    {
        self.total
    }

    /// Number of files that the stage at hand has dealt with.
    pub fn files_processed(&self) -> (n: usize)
        ensures
            n == self.processed(),
    {
        self.processed
    }

    /// Moves the scan to its next stage, unless it is over or has been told
    /// to stop. `cancelled` tells whether it has.
    ///
    /// A scan that is over stays as it is: the call fails with `Cancelled`
    /// after a stop and returns nothing after completion. Otherwise, where
    /// `cancelled` holds, the scan is stopped: the call fails with
    /// `Cancelled`, and the counts and the phase stay as they were.
    /// Otherwise the scan enters the following stage, with no file dealt with
    /// yet, and the report that announces the stage is returned, where the
    /// stage has one. On completion all files count as dealt with.
    pub fn advance(&mut self, cancelled: bool) -> (out: Result<Option<ScanProgress>, ScanError>)
        ensures
            final(self).well_formed(),
            final(self).in_step(),
            final(self).total() == old(self).total(),
            out is Err <==> old(self).stage() == ScanStage::Cancelled || (cancelled && old(
                self,
            ).stage() != ScanStage::Complete),
            out matches Err(e) ==> e is Cancelled && final(self).stage() == ScanStage::Cancelled
                && final(self).processed() == old(self).processed() && final(self).phase() == old(
                self,
            ).phase(),
            out matches Ok(report) ==> {
                &&& final(self).stage() == old(self).stage().following()
                &&& Some(final(self).phase()) == final(self).stage().phase()
                &&& if old(self).stage() == ScanStage::Complete {
                    report is None && final(self).processed() == old(self).processed()
                } else {
                    &&& final(self).processed() == if final(self).stage() == ScanStage::Complete {
                        old(self).total()
                    } else {
                        0
                    }
                    &&& report is Some == final(self).stage().opening_line() is Some
                    &&& report matches Some(p) ==> announces(
                        p,
                        final(self).stage(),
                        old(self).total(),
                    )
                }
            },
    {
        proof {
            use_type_invariant(&*self);
        }
        match self.stage {
            ScanStage::Cancelled => {
                return Err(ScanError::Cancelled);
            },
            ScanStage::Complete => {
                return Ok(None);
            },
            _ => {},
        }
        if cancelled {
            self.stage = ScanStage::Cancelled;
            return Err(ScanError::Cancelled);
        }
        let stage = self.stage.next();
        let phase: ScanPhase = match stage {
            ScanStage::Metadata => ScanPhase::BackgroundMetadata,
            ScanStage::Thumbnails => ScanPhase::BackgroundThumbnails,
            ScanStage::Hashing => ScanPhase::BackgroundHashing,
            ScanStage::Complete => ScanPhase::Complete,
            _ => ScanPhase::QuickScan,
        };
        let done: bool = match stage {
            ScanStage::Complete => true,
            _ => false,
        };
        let processed: usize = if done {
            self.total
        } else {
            0
        };
        *self = ScanRun { stage, phase, total: self.total, processed };
        let line: Option<&str> = match stage {
            ScanStage::Discovery => Some("Starting quick scan..."),
            ScanStage::Metadata => Some("Extracting metadata..."),
            ScanStage::Thumbnails => Some("Setting up thumbnail paths..."),
            ScanStage::Hashing => Some("Computing hashes..."),
            ScanStage::Complete => Some("All processing complete"),
            _ => None,
        };
        let quick_scan_complete: bool = match stage {
            ScanStage::Discovery => false,
            _ => true,
        };
        match line {
            Some(text) => Ok(
                Some(
                    ScanProgress {
                        files_processed: processed,
                        total_files: self.total,
                        current_file: text.to_owned(),
                        estimated_time_remaining: if done {
                            Some(0)
                        } else {
                            None
                        },
                        phase,
                        bytes_processed: if done {
                            None
                        } else {
                            Some(0)
                        },
                        quick_scan_complete,
                    },
                ),
            ),
            None => Ok(None),
        }
    }

    /// Takes note of the number of files that discovery found: from then on
    /// the scan has that many files, none of them dealt with. Only a scan in
    /// discovery takes the number; any other stays as it is. Returns whether
    /// the number was taken.
    pub fn discovered(&mut self, count: usize) -> (taken: bool)
        ensures
            taken == (old(self).stage() == ScanStage::Discovery),
            taken ==> final(self).stage() == ScanStage::Discovery && final(self).phase() == old(
                self,
            ).phase() && final(self).total() == count && final(self).processed() == 0,
            !taken ==> *final(self) == *old(self),
            final(self).well_formed(),
            final(self).in_step(),
    {
        proof {
            use_type_invariant(&*self);
        }
        match self.stage {
            ScanStage::Discovery => {
                *self = ScanRun {
                    stage: ScanStage::Discovery,
                    phase: self.phase,
                    total: count,
                    processed: 0,
                };
                true
            },
            _ => false,
        }
    }

    /// Takes note that `count` more files have been dealt with in the stage
    /// at hand. The count of files dealt with never passes the number of
    /// files found, and never falls.
    pub fn record(&mut self, count: usize)
        ensures
            old(self).well_formed(),
            final(self).well_formed(),
            final(self).in_step(),
            final(self).stage() == old(self).stage(),
            final(self).phase() == old(self).phase(),
            final(self).total() == old(self).total(),
            final(self).processed() == if old(self).processed() + count <= old(self).total() {
                old(self).processed() + count
            } else {
                old(self).total() as int
            },
            final(self).processed() >= old(self).processed(),
    {
        proof {
            use_type_invariant(&*self);
        }
        let room: usize = self.total - self.processed;
        if count <= room {
            self.processed = self.processed + count;
        } else {
            self.processed = self.total;
        }
    }

    /// The report on the file at hand, after `elapsed` seconds in the stage.
    /// It goes under the phase of the scan: after a stop that is the phase in
    /// which the scan was stopped, with the files dealt with until then. A
    /// report under the phase `Complete` has every file dealt with.
    pub fn report(&self, current_file: &str, elapsed: u64) -> (p: ScanProgress)
        ensures
            self.in_step(),
            p.files_processed == self.processed(),
            p.total_files == self.total(),
            p.files_processed <= p.total_files,
            p.current_file@ == current_file@,
            p.phase == self.phase(),
            p.phase == ScanPhase::Complete ==> p.files_processed == p.total_files,
            p.estimated_time_remaining is Some == remaining_estimate(
                self.processed() as nat,
                self.total() as nat,
                elapsed as nat,
            ) is Some,
            p.estimated_time_remaining matches Some(s) ==> remaining_estimate(
                self.processed() as nat,
                self.total() as nat,
                elapsed as nat,
            ) == Some(s as nat),
            p.bytes_processed == if self.phase() == ScanPhase::QuickScan {
                Some(0u64)
            } else {
                None
            },
            p.quick_scan_complete == (self.phase() != ScanPhase::QuickScan),
    {
        proof {
            use_type_invariant(self);
        }
        let phase = self.phase;
        let quick: bool = match phase {
            ScanPhase::QuickScan => true,
            _ => false,
        };
        ScanProgress {
            files_processed: self.processed,
            total_files: self.total,
            current_file: current_file.to_owned(),
            estimated_time_remaining: estimate_remaining(self.processed, self.total, elapsed),
            phase,
            bytes_processed: if quick {
                Some(0)
            } else {
                None
            },
            quick_scan_complete: !quick,
        }
    }

    /// Ends the stage at hand: all files count as dealt with. Returns the
    /// report on the end of the stage, where the stage has one. A scan that
    /// has been stopped stays as it is.
    pub fn close_stage(&mut self) -> (report: Option<ScanProgress>)
        ensures
            final(self).well_formed(),
            final(self).in_step(),
            final(self).stage() == old(self).stage(),
            final(self).phase() == old(self).phase(),
            final(self).total() == old(self).total(),
            final(self).processed() == if old(self).stage() == ScanStage::Cancelled {
                old(self).processed()
            } else {
                old(self).total()
            },
            report is Some == old(self).stage().closing_line() is Some,
            report matches Some(p) ==> closes(p, old(self).stage(), old(self).total()),
    {
        proof {
            use_type_invariant(&*self);
        }
        let (line, phase, quick): (Option<&str>, ScanPhase, bool) = match self.stage {
            ScanStage::Cancelled => {
                return None;
            },
            ScanStage::QuickIndex => (
                Some("Quick scan complete - assets available in UI"),
                ScanPhase::QuickScan,
                true,
            ),
            ScanStage::Thumbnails => (
                Some("Thumbnail paths configured"),
                ScanPhase::BackgroundThumbnails,
                false,
            ),
            _ => (None, self.phase, false),
        };
        self.processed = self.total;
        match line {
            Some(text) => Some(
                ScanProgress {
                    files_processed: self.total,
                    total_files: self.total,
                    current_file: text.to_owned(),
                    estimated_time_remaining: Some(0),
                    phase,
                    bytes_processed: if quick {
                        Some(0)
                    } else {
                        None
                    },
                    quick_scan_complete: true,
                },
            ),
            None => None,
        }
    }
}

/// Where the batches of a stage begin and end: batch `index` of `total`
/// items in batches of `size`.
pub open spec fn batch_of(total: nat, size: nat, index: nat) -> (nat, nat) {
    let start = if index * size <= total {
        index * size
    } else {
        total
    };
    let end = if start + size <= total {
        start + size
    } else {
        total
    };
    (start, end)
}

/// Number of batches of `size` that `total` items make.
pub open spec fn batches_of(total: nat, size: nat) -> nat {
    if size == 0 {
        0
    } else {
        (total + size - 1) as nat / size
    }
}

/// Number of batches of `size` that `total` items make.
pub fn batch_count(total: usize, size: usize) -> (count: usize)
    requires
        size > 0,
    ensures
        count == batches_of(total as nat, size as nat),
{
    let whole: usize = total / size;
    assert(total % size != 0 ==> total / size < total) by (nonlinear_arith)
        requires
            size > 0,
    ;
    let count: usize = if total % size == 0 {
        whole
    } else {
        whole + 1
    };
    proof {
        let t = total as int;
        let s = size as int;
        assert((t + s - 1) / s == count as int) by (nonlinear_arith)
            requires
                s > 0,
                t >= 0,
                count as int == if t % s == 0 {
                    t / s
                } else {
                    t / s + 1
                },
        ;
    }
    count
}

/// The positions at which batch `index` begins and ends.
pub fn batch_bounds(total: usize, size: usize, index: usize) -> (bounds: (usize, usize))
    requires
        size > 0,
    ensures
        bounds.0 as nat == batch_of(total as nat, size as nat, index as nat).0,
        bounds.1 as nat == batch_of(total as nat, size as nat, index as nat).1,
        bounds.0 <= bounds.1 <= total,
        bounds.1 - bounds.0 <= size,
{
    assert(index <= total / size <==> index * size <= total) by (nonlinear_arith)
        requires
            size > 0,
    ;
    let start: usize = if index <= total / size {
        let s: usize = index * size;
        s
    } else {
        total
    };
    let end: usize = if size <= total - start {
        start + size
    } else {
        total
    };
    (start, end)
}

} // verus!
