//! The records that a catalog holds, and the text forms of their enumerated
//! fields.

use vstd::prelude::*;
use crate::text::{chars_of, has_prefix, join2, same_text, starts_with_chars, string_of};

verus! {

/// A catalog entry: one image file of a project.
#[derive(Debug, Clone, PartialEq, Eq)]
pub struct Asset {
    /// Assigned once, when the file is discovered.
    pub id: String,
    pub project_id: String,
    pub path: String,
    pub thumbnail_path: Option<String>,
    /// Content hash, once it has been computed.
    pub hash: Option<String>,
    /// Perceptual fingerprint, once it has been computed.
    pub perceptual_hash: Option<u64>,
    /// Size in bytes.
    pub size: u64,
    pub width: u32,
    pub height: u32,
    /// Descriptive metadata, serialized; the catalog does not look inside.
    pub exif_data: Option<String>,
    pub created_at: String,
    pub updated_at: String,
}

/// A date and a time of day, as a camera writes them: without a time zone.
#[derive(Debug, Clone, Copy, PartialEq, Eq, Structural)]
pub struct ExifTimestamp {
    pub year: i32,
    pub month: u32,
    pub day: u32,
    pub hour: u32,
    pub minute: u32,
    pub second: u32,
}

/// A fraction with a denominator other than zero.
#[derive(Debug, Clone, Copy, PartialEq, Eq, Structural)]
pub struct Ratio {
    pub num: i64,
    pub denom: i64,
}

/// What the metadata of an image tells of how it was taken.
#[derive(Debug, Clone, PartialEq, Eq)]
pub struct ExifData {
    pub taken_at: Option<ExifTimestamp>,
    pub camera: Option<String>,
    pub lens: Option<String>,
    pub iso: Option<u32>,
    /// The f-number.
    pub aperture: Option<Ratio>,
    pub shutter_speed: Option<String>,
}

/// A project: a source directory that is scanned, and where its results go.
#[derive(Debug, Clone, PartialEq, Eq)]
pub struct Project {
    pub id: String,
    pub name: String,
    pub source_path: String,
    pub output_path: String,
    /// The exclude patterns, serialized.
    pub exclude_patterns: String,
    /// The file types, serialized.
    pub file_types: String,
    pub scan_status: String,
    pub created_at: String,
    pub updated_at: String,
}

/// A stored group of variants of one image.
#[derive(Debug, Clone, PartialEq, Eq)]
pub struct VariantGroup {
    pub id: String,
    pub project_id: String,
    pub group_type: String,
    /// Similarity of the members in thousandths; 1000 for identical files.
    pub similarity: u32,
    pub suggested_keep: Option<String>,
    pub created_at: String,
}

/// Membership of an asset in a group.
#[derive(Debug, Clone, PartialEq, Eq)]
pub struct AssetGroup {
    pub asset_id: String,
    pub group_id: String,
}

/// The decision taken on one asset. An asset has at most one.
#[derive(Debug, Clone, PartialEq, Eq)]
pub struct Decision {
    pub asset_id: String,
    /// Text form of a `DecisionState`.
    pub state: String,
    /// Text form of a `ReasonCode`.
    pub reason: String,
    pub notes: Option<String>,
    pub decided_at: String,
}

/// How far the scan of a project has got.
#[derive(Debug, Clone, PartialEq, Eq)]
pub enum ScanStatus {
    NotStarted,
    InProgress,
    Completed,
    Cancelled,
    Failed(String),
}

impl ScanStatus {
    /// The text form of the status.
    pub open spec fn text(self) -> Seq<char> {
        match self {
            ScanStatus::NotStarted => "not_started"@,
            ScanStatus::InProgress => "in_progress"@,
            ScanStatus::Completed => "completed"@,
            ScanStatus::Cancelled => "cancelled"@,
            ScanStatus::Failed(msg) => "failed:"@ + msg@,
        }
    }

    /// Whether `self` is what the text `s` stands for. A text that names no
    /// status stands for `NotStarted`.
    pub open spec fn reads(self, s: Seq<char>) -> bool {
        if s == "not_started"@ {
            self == ScanStatus::NotStarted
        } else if s == "in_progress"@ {
            self == ScanStatus::InProgress
        } else if s == "completed"@ {
            self == ScanStatus::Completed
        } else if s == "cancelled"@ {
            self == ScanStatus::Cancelled
        } else if has_prefix(s, "failed:"@) {
            self matches ScanStatus::Failed(msg) && msg@ == s.skip("failed:"@.len() as int)
        } else {
            self == ScanStatus::NotStarted
        }
    }

    /// Reads a status from its text form.
    pub fn from_text(s: &str) -> (status: Self)
        ensures
            status.reads(s@),
    {
        if same_text(s, "not_started") {
            ScanStatus::NotStarted
        } else if same_text(s, "in_progress") {
            ScanStatus::InProgress
        } else if same_text(s, "completed") {
            ScanStatus::Completed
        } else if same_text(s, "cancelled") {
            ScanStatus::Cancelled
        } else {
            let chars = chars_of(s);
            let prefix = chars_of("failed:");
            if starts_with_chars(&chars, &prefix) {
                let mut rest: Vec<char> = Vec::new();
                let mut i: usize = prefix.len();
                while i < chars.len()
                    invariant
                        prefix.len() <= i <= chars.len(),
                        rest@ == chars@.subrange(prefix.len() as int, i as int),
                    decreases chars.len() - i,
                {
                    rest.push(chars[i]);
                    i += 1;
                    assert(chars@.subrange(prefix.len() as int, i as int) == chars@.subrange(
                        prefix.len() as int,
                        i as int - 1,
                    ).push(chars@[i as int - 1]));
                }
                assert(chars@.subrange(prefix.len() as int, chars.len() as int) == chars@.skip(
                    prefix.len() as int,
                ));
                ScanStatus::Failed(string_of(&rest))
            } else {
                ScanStatus::NotStarted
            }
        }
    }

    /// Writes the status in its text form.
    pub fn to_text(&self) -> (out: String)
        ensures
            out@ == self.text(),
    {
        match self {
            ScanStatus::NotStarted => "not_started".to_owned(),
            ScanStatus::InProgress => "in_progress".to_owned(),
            ScanStatus::Completed => "completed".to_owned(),
            ScanStatus::Cancelled => "cancelled".to_owned(),
            ScanStatus::Failed(msg) => join2("failed:", msg.as_str()),
        }
    }
}

/// Reading the text form of a status gives the status back.
pub proof fn lemma_scan_status_round_trip(status: ScanStatus, read: ScanStatus)
    requires
        read.reads(status.text()),
    ensures
        match status {
            ScanStatus::Failed(msg) => read matches ScanStatus::Failed(m) && m@ == msg@,
            _ => read == status,
        },
{
    reveal_strlit("not_started");
    reveal_strlit("in_progress");
    reveal_strlit("completed");
    reveal_strlit("cancelled");
    reveal_strlit("failed:");
    match status {
        ScanStatus::NotStarted => {},
        ScanStatus::InProgress => {
            assert("in_progress"@[0] != "not_started"@[0]);
        },
        ScanStatus::Completed => {
            assert("completed"@.len() != "not_started"@.len());
        },
        ScanStatus::Cancelled => {
            assert("cancelled"@.len() != "not_started"@.len());
            assert("cancelled"@[1] != "completed"@[1]);
        },
        ScanStatus::Failed(msg) => {
            let s = "failed:"@ + msg@;
            assert(s[0] == 'f');
            assert(s.take(7) =~= "failed:"@);
            assert(s.skip(7) =~= msg@);
            assert(s != "not_started"@) by {
                assert("not_started"@[0] == 'n');
            }
            assert(s != "in_progress"@) by {
                assert("in_progress"@[0] == 'i');
            }
            assert(s != "completed"@) by {
                assert("completed"@[0] == 'c');
            }
            assert(s != "cancelled"@) by {
                assert("cancelled"@[0] == 'c');
            }
        },
    }
}

/// The kind of a stored group.
#[derive(Debug, Clone, Copy, PartialEq, Eq, Structural)]
pub enum GroupType {
    Exact,
    Similar,
}

impl GroupType {
    /// The text form of the kind.
    pub open spec fn text(self) -> Seq<char> {
        match self {
            GroupType::Exact => "exact"@,
            GroupType::Similar => "similar"@,
        }
    }

    /// The kind that the text `s` stands for; `Exact` where it names none.
    pub open spec fn read(s: Seq<char>) -> Self {
        if s == "similar"@ {
            GroupType::Similar
        } else {
            GroupType::Exact
        }
    }

    /// Reads a kind from its text form.
    pub fn from_text(s: &str) -> (kind: Self)
        ensures
            kind == Self::read(s@),
    {
        if same_text(s, "similar") {
            GroupType::Similar
        } else {
            GroupType::Exact
        }
    }

    /// Writes the kind in its text form.
    pub fn to_text(&self) -> (out: String)
        ensures
            out@ == self.text(),
    {
        match self {
            GroupType::Exact => "exact".to_owned(),
            GroupType::Similar => "similar".to_owned(),
        }
    }
}

/// Reading the text form of a group kind gives the kind back.
pub proof fn lemma_group_type_round_trip(kind: GroupType)
    ensures
        GroupType::read(kind.text()) == kind,
{
    reveal_strlit("exact");
    reveal_strlit("similar");
    assert("exact"@.len() != "similar"@.len());
}

/// What was decided about an asset.
#[derive(Debug, Clone, Copy, PartialEq, Eq, Structural)]
pub enum DecisionState {
    Keep,
    Remove,
    Undecided,
}

impl DecisionState {
    /// The text form of the state.
    pub open spec fn text(self) -> Seq<char> {
        match self {
            DecisionState::Keep => "keep"@,
            DecisionState::Remove => "remove"@,
            DecisionState::Undecided => "undecided"@,
        }
    }

    /// The state that the text `s` stands for; `Undecided` where it names
    /// none.
    pub open spec fn read(s: Seq<char>) -> Self {
        if s == "keep"@ {
            DecisionState::Keep
        } else if s == "remove"@ {
            DecisionState::Remove
        } else {
            DecisionState::Undecided
        }
    }

    /// Reads a state from its text form.
    pub fn from_text(s: &str) -> (state: Self)
        ensures
            state == Self::read(s@),
    {
        if same_text(s, "keep") {
            DecisionState::Keep
        } else if same_text(s, "remove") {
            DecisionState::Remove
        } else {
            DecisionState::Undecided
        }
    }

    /// Writes the state in its text form.
    pub fn to_text(&self) -> (out: String)
        ensures
            out@ == self.text(),
    {
        match self {
            DecisionState::Keep => "keep".to_owned(),
            DecisionState::Remove => "remove".to_owned(),
            DecisionState::Undecided => "undecided".to_owned(),
        }
    }
}

/// Reading the text form of a decision state gives the state back.
pub proof fn lemma_decision_state_round_trip(state: DecisionState)
    ensures
        DecisionState::read(state.text()) == state,
{
    reveal_strlit("keep");
    reveal_strlit("remove");
    reveal_strlit("undecided");
    assert("keep"@.len() != "remove"@.len());
    assert("keep"@.len() != "undecided"@.len());
    assert("remove"@.len() != "undecided"@.len());
}

/// Why a decision was taken.
#[derive(Debug, Clone, Copy, PartialEq, Eq, Structural)]
pub enum ReasonCode {
    ExactDuplicate,
    HigherResolution,
    NewerTimestamp,
    LargerFilesize,
    UserOverrideKeep,
    UserOverrideRemove,
    ManualNoReason,
}

impl ReasonCode {
    /// The text form of the reason.
    pub open spec fn text(self) -> Seq<char> {
        match self {
            ReasonCode::ExactDuplicate => "exact_duplicate"@,
            ReasonCode::HigherResolution => "higher_resolution"@,
            ReasonCode::NewerTimestamp => "newer_timestamp"@,
            ReasonCode::LargerFilesize => "larger_filesize"@,
            ReasonCode::UserOverrideKeep => "user_override_keep"@,
            ReasonCode::UserOverrideRemove => "user_override_remove"@,
            ReasonCode::ManualNoReason => "manual_no_reason"@,
        }
    }

    /// The reason that the text `s` stands for; `ManualNoReason` where it
    /// names none.
    pub open spec fn read(s: Seq<char>) -> Self {
        if s == "exact_duplicate"@ {
            ReasonCode::ExactDuplicate
        } else if s == "higher_resolution"@ {
            ReasonCode::HigherResolution
        } else if s == "newer_timestamp"@ {
            ReasonCode::NewerTimestamp
        } else if s == "larger_filesize"@ {
            ReasonCode::LargerFilesize
        } else if s == "user_override_keep"@ {
            ReasonCode::UserOverrideKeep
        } else if s == "user_override_remove"@ {
            ReasonCode::UserOverrideRemove
        } else {
            ReasonCode::ManualNoReason
        }
    }

    /// Reads a reason from its text form.
    pub fn from_text(s: &str) -> (reason: Self)
        ensures
            reason == Self::read(s@),
    {
        if same_text(s, "exact_duplicate") {
            ReasonCode::ExactDuplicate
        } else if same_text(s, "higher_resolution") {
            ReasonCode::HigherResolution
        } else if same_text(s, "newer_timestamp") {
            ReasonCode::NewerTimestamp
        } else if same_text(s, "larger_filesize") {
            ReasonCode::LargerFilesize
        } else if same_text(s, "user_override_keep") {
            ReasonCode::UserOverrideKeep
        } else if same_text(s, "user_override_remove") {
            ReasonCode::UserOverrideRemove
        } else {
            ReasonCode::ManualNoReason
        }
    }

    /// Writes the reason in its text form.
    pub fn to_text(&self) -> (out: String)
        ensures
            out@ == self.text(),
    {
        match self {
            ReasonCode::ExactDuplicate => "exact_duplicate".to_owned(),
            ReasonCode::HigherResolution => "higher_resolution".to_owned(),
            ReasonCode::NewerTimestamp => "newer_timestamp".to_owned(),
            ReasonCode::LargerFilesize => "larger_filesize".to_owned(),
            ReasonCode::UserOverrideKeep => "user_override_keep".to_owned(),
            ReasonCode::UserOverrideRemove => "user_override_remove".to_owned(),
            ReasonCode::ManualNoReason => "manual_no_reason".to_owned(),
        }
    }
}

/// Reading the text form of a reason gives the reason back.
pub proof fn lemma_reason_code_round_trip(reason: ReasonCode)
    ensures
        ReasonCode::read(reason.text()) == reason,
{
    reveal_strlit("exact_duplicate");
    reveal_strlit("higher_resolution");
    reveal_strlit("newer_timestamp");
    reveal_strlit("larger_filesize");
    reveal_strlit("user_override_keep");
    reveal_strlit("user_override_remove");
    reveal_strlit("manual_no_reason");
    assert("exact_duplicate"@[0] == 'e');
    assert("higher_resolution"@[0] == 'h');
    assert("newer_timestamp"@[0] == 'n');
    assert("larger_filesize"@[0] == 'l');
    assert("user_override_keep"@[0] == 'u');
    assert("user_override_remove"@[0] == 'u');
    assert("manual_no_reason"@[0] == 'm');
    assert("user_override_keep"@.len() != "user_override_remove"@.len());
}

} // verus!
