//! Cataloguing of image libraries: content identity, duplicate grouping and a
//! reversible cull workflow.
//!
//! The library decides and computes on plain values; reading files, walking
//! directories, decoding images and storing the catalog are left to its
//! caller.
//!
//! - Content identity: [`hash`], [`hashers`], [`fingerprint`], [`image_id`].
//! - Scanning: [`scanner`] picks the files and makes their first entries,
//!   [`orchestrator`] keeps the order of the stages, [`enrich`] applies what
//!   each stage found, [`progress`] holds what is reported, [`pattern`] the
//!   exclude patterns, [`thumbnail`] and [`exif`] the two kinds of derived
//!   data.
//! - Duplicates: [`duplicate`] clusters codes, [`grouping`] groups catalog
//!   entries, [`selection`] chooses the keeper of a group.
//! - Decisions and history: [`decision`], [`cull`], [`history`], [`logfile`].
//! - Records and helpers: [`records`], [`project`], [`services`], [`ident`],
//!   [`paths`], [`text`], [`numbers`].

mod clock;
pub mod cull;
pub mod decision;
pub mod duplicate;
pub mod enrich;
pub mod exif;
pub mod fingerprint;
pub mod grouping;
pub mod hash;
pub mod hashers;
pub mod history;
pub mod ident;
pub mod image_id;
pub mod logfile;
pub mod numbers;
pub mod orchestrator;
pub mod paths;
pub mod pattern;
pub mod progress;
pub mod project;
pub mod records;
pub mod scanner;
pub mod selection;
pub mod services;
pub mod text;
pub mod thumbnail;
