//! Projects: a source directory, an output directory, and a name.

use vstd::prelude::*;
use crate::clock::now_rfc3339;
use crate::paths::{folded_extension, folded_extension_of};
use crate::text::{join2, same_text};

verus! {

/// The settings of a project.
#[derive(Debug, Clone, PartialEq, Eq)]
pub struct ProjectConfig {
    pub name: String,
    pub source_dir: String,
    pub output_dir: String,
    pub created_at: String,
    pub version: String,
}

impl ProjectConfig {
    /// The settings of a new project. `source_exists` tells whether the
    /// source directory exists: where it does not, the project is refused
    /// with a message that names the directory.
    pub fn new(source_dir: &str, output_dir: &str, name: &str, source_exists: bool) -> (out: Result<
        ProjectConfig,
        String,
    >)
        ensures
            out is Ok <==> source_exists,
            out matches Ok(config) ==> config.name@ == name@ && config.source_dir@ == source_dir@
                && config.output_dir@ == output_dir@ && config.version@ == "1.0.0"@,
            out matches Err(message) ==> message@ == "Source directory does not exist: "@
                + source_dir@,
    {
        if !source_exists {
            return Err(join2("Source directory does not exist: ", source_dir));
        }
        Ok(
            ProjectConfig {
                name: name.to_owned(),
                source_dir: source_dir.to_owned(),
                output_dir: output_dir.to_owned(),
                created_at: now_rfc3339(),
                version: "1.0.0".to_owned(),
            },
        )
    }
}

/// Whether `extension`, in lower case, is that of an image that the
/// command line tool takes.
pub open spec fn is_image_extension(extension: Seq<char>) -> bool {
    ||| extension == "jpg"@
    ||| extension == "jpeg"@
    ||| extension == "png"@
    ||| extension == "gif"@
    ||| extension == "bmp"@
    ||| extension == "tiff"@
    ||| extension == "webp"@
}

/// Whether the extension of the file, in lower case, is that of an image.
pub fn is_image_file(path: &str) -> (r: bool)
    ensures
        r == match folded_extension_of(path@) {
            Some(e) => is_image_extension(e),
            None => false,
        },
{
    match folded_extension(path) {
        Some(e) => {
            let ext = e.as_str();
            same_text(ext, "jpg") || same_text(ext, "jpeg") || same_text(ext, "png") || same_text(
                ext,
                "gif",
            ) || same_text(ext, "bmp") || same_text(ext, "tiff") || same_text(ext, "webp")
        },
        None => false,
    }
}

/// Whether `extension`, in lower case, is that of an image that a project
/// lists.
pub open spec fn is_listed_extension(extension: Seq<char>) -> bool {
    ||| extension == "jpg"@
    ||| extension == "jpeg"@
    ||| extension == "png"@
    ||| extension == "tiff"@
    ||| extension == "tif"@
    ||| extension == "bmp"@
    ||| extension == "gif"@
    ||| extension == "webp"@
    ||| extension == "raw"@
    ||| extension == "cr2"@
    ||| extension == "nef"@
    ||| extension == "arw"@
}

/// Whether a project lists the file among its images: it does where the
/// extension of the file, in lower case, is that of an image or of a raw
/// format.
pub fn is_listed_image(path: &str) -> (r: bool)
    ensures
        r == match folded_extension_of(path@) {
            Some(e) => is_listed_extension(e),
            None => false,
        },
{
    match folded_extension(path) {
        Some(e) => {
            let ext = e.as_str();
            same_text(ext, "jpg") || same_text(ext, "jpeg") || same_text(ext, "png") || same_text(
                ext,
                "tiff",
            ) || same_text(ext, "tif") || same_text(ext, "bmp") || same_text(ext, "gif")
                || same_text(ext, "webp") || same_text(ext, "raw") || same_text(ext, "cr2")
                || same_text(ext, "nef") || same_text(ext, "arw")
        },
        None => false,
    }
}

} // verus!
