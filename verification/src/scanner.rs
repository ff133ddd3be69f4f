//! The scanner: which files of a directory tree belong to the catalog, and
//! the bare catalog entries that they are given at once.

use vstd::prelude::*;
use std::collections::HashSet;
use crate::clock::now_rfc3339;
use crate::exif::ExifService;
use crate::hash::{content_hash_of, HashService};
use crate::ident::{
    draw_identifier, fresh_identifier, hex_fixed, is_identifier, lemma_bits_fit,
    lemma_hex_fixed_injective,
};
use crate::paths::{folded_extension, folded_extension_of, join, joined, lowercase, lowercase_of};
use crate::pattern::{check_patterns, excluded_by, first_invalid, is_excluded};
use crate::progress::ScanError;
use crate::records::Asset;
use crate::text::{join2, same_text, texts};
use crate::thumbnail::{thumbnail_path_of, ThumbnailService};

verus! {

/// What the caller found out about a root of a scan.
#[derive(Debug, Clone, PartialEq, Eq)]
pub struct RootStatus {
    pub path: String,
    pub exists: bool,
    pub is_dir: bool,
}

/// An entry that the walk of a root came upon.
#[derive(Debug, Clone, PartialEq, Eq)]
pub struct WalkEntry {
    pub path: String,
    pub is_file: bool,
}

/// A file that was discovered, and its size in bytes.
#[derive(Debug, Clone, PartialEq, Eq)]
pub struct FoundFile {
    pub path: String,
    pub size: u64,
}

/// The extensions of the formats that the scanner knows, in lower case.
pub open spec fn known_formats() -> Seq<Seq<char>> {
    seq![
        "jpg"@,
        "jpeg"@,
        "png"@,
        "heic"@,
        "tiff"@,
        "tif"@,
        "webp"@,
        "cr3"@,
        "nef"@,
        "arw"@,
        "dng"@,
    ]
}

/// Position of the first root that cannot be scanned, or the number of
/// roots where all can.
pub open spec fn first_bad_root(roots: Seq<RootStatus>) -> int
    decreases roots.len(),
{
    if roots.len() == 0 {
        0
    } else if first_bad_root(roots.drop_last()) < roots.len() - 1 {
        first_bad_root(roots.drop_last())
    } else if roots.last().exists && roots.last().is_dir {
        roots.len() as int
    } else {
        roots.len() - 1
    }
}

/// Every root before the first bad one exists and is a directory; the first
/// bad one does not or is not.
pub proof fn lemma_first_bad_root(roots: Seq<RootStatus>)
    ensures
        0 <= first_bad_root(roots) <= roots.len(),
        forall|k: int|
            0 <= k < first_bad_root(roots) ==> (#[trigger] roots[k]).exists && roots[k].is_dir,
        first_bad_root(roots) < roots.len() ==> !(roots[first_bad_root(roots)].exists
            && roots[first_bad_root(roots)].is_dir),
    decreases roots.len(),
{
    if roots.len() > 0 {
        lemma_first_bad_root(roots.drop_last());
        assert forall|k: int| 0 <= k < first_bad_root(roots) implies (#[trigger] roots[k]).exists
            && roots[k].is_dir by {
            if k < roots.len() - 1 {
                assert(roots.drop_last()[k] == roots[k]);
            }
        }
        if first_bad_root(roots) < roots.len() - 1 {
            assert(roots.drop_last()[first_bad_root(roots)] == roots[first_bad_root(roots)]);
        }
    }
}

/// The path that the error on a bad root names: the root's own path where
/// it does not exist, else the path with the remark that it is not a
/// directory.
pub open spec fn bad_root_text(root: RootStatus) -> Seq<char> {
    if !root.exists {
        root.path@
    } else {
        root.path@ + " is not a directory"@
    }
}

/// Of the first `k` of `file_types`, those whose lower-case form is among
/// `supported`, in that form and in order.
pub open spec fn usable_types(file_types: Seq<String>, supported: Seq<Seq<char>>, k: int) -> Seq<
    Seq<char>,
>
    decreases k,
{
    if k <= 0 {
        Seq::empty()
    } else {
        let before = usable_types(file_types, supported, k - 1);
        let folded = lowercase_of(file_types[k - 1]@);
        if supported.contains(folded) {
            before.push(folded)
        } else {
            before
        }
    }
}

/// Whether the walk entry is a candidate of the scan: a file that no
/// exclude pattern matches and whose extension, in lower case, is among the
/// file types.
pub open spec fn is_candidate(
    entry: WalkEntry,
    file_types: Seq<Seq<char>>,
    exclude_patterns: Seq<String>,
) -> bool {
    &&& entry.is_file
    &&& !excluded_by(exclude_patterns, entry.path@)
    &&& folded_extension_of(entry.path@) matches Some(e) && file_types.contains(e)
}

/// Of the first `k` walk entries, the paths of the candidates, in order.
pub open spec fn candidates(
    entries: Seq<WalkEntry>,
    file_types: Seq<Seq<char>>,
    exclude_patterns: Seq<String>,
    k: int,
) -> Seq<Seq<char>>
    decreases k,
{
    if k <= 0 {
        Seq::empty()
    } else {
        let before = candidates(entries, file_types, exclude_patterns, k - 1);
        if is_candidate(entries[k - 1], file_types, exclude_patterns) {
            before.push(entries[k - 1].path@)
        } else {
            before
        }
    }
}

/// A bare catalog entry for `file` in the project: it has its path and its
/// size, a fresh id, and nothing else yet.
pub open spec fn is_bare_entry(asset: Asset, project_id: Seq<char>, path: Seq<char>, size: u64) -> bool {
    &&& is_identifier(asset.id@, "ast_"@)
    &&& asset.project_id@ == project_id
    &&& asset.path@ == path
    &&& asset.size == size
    &&& asset.thumbnail_path is None
    &&& asset.hash is None
    &&& asset.perceptual_hash is None
    &&& asset.width == 0
    &&& asset.height == 0
    &&& asset.exif_data is None
    &&& asset.created_at == asset.updated_at
}

/// No two of the entries have the same id.
pub open spec fn distinct_ids(assets: Seq<Asset>) -> bool {
    forall|i: int, j: int|
        0 <= i < j < assets.len() ==> (#[trigger] assets[i]).id@ != (#[trigger] assets[j]).id@
}

/// The directory in which the cache of a project lies: `.cullrs` under its
/// output path, or under its source path where it has no output path.
pub open spec fn cache_dir_of(output_path: Seq<char>, source_path: Seq<char>) -> Seq<char> {
    if output_path.len() > 0 {
        joined(output_path, ".cullrs"@)
    } else {
        joined(source_path, ".cullrs"@)
    }
}

/// Whether `list` holds the text `text`.
pub fn holds_text(list: &Vec<String>, text: &str) -> (r: bool)
    ensures
        r == texts(list@).contains(text@),
{
    let mut i: usize = 0;
    while i < list.len()
        invariant
            i <= list.len(),
            forall|k: int| 0 <= k < i ==> texts(list@)[k] != text@,
        decreases list.len() - i,
    {
        if same_text(list[i].as_str(), text) {
            assert(texts(list@)[i as int] == text@);
            return true;
        }
        i += 1;
    }
    false
}

/// Finds the files of a scan and makes their first catalog entries.
pub struct ScannerService {
    supported_formats: Vec<String>,
    thumbnail_service: ThumbnailService,
    hash_service: HashService,
    exif_service: ExifService,
}

impl ScannerService {
    /// The extensions of the formats that the scanner reads, in lower case.
    pub closed spec fn formats(&self) -> Seq<Seq<char>> {
        texts(self.supported_formats@)
    }

    /// The service with which the scanner places thumbnails.
    pub closed spec fn thumbnails(&self) -> ThumbnailService {
        self.thumbnail_service
    }

    /// A scanner for the known formats, whose thumbnails fit a square of
    /// 512 pixels.
    pub fn new() -> (service: Self)
        ensures
            service.formats() == known_formats(),
            service.thumbnails().size() == 512,
            service.thumbnails().encoding_quality() == 85,
    {
        let mut supported_formats: Vec<String> = Vec::new();
        supported_formats.push("jpg".to_owned());
        supported_formats.push("jpeg".to_owned());
        supported_formats.push("png".to_owned());
        supported_formats.push("heic".to_owned());
        supported_formats.push("tiff".to_owned());
        supported_formats.push("tif".to_owned());
        supported_formats.push("webp".to_owned());
        supported_formats.push("cr3".to_owned());
        supported_formats.push("nef".to_owned());
        supported_formats.push("arw".to_owned());
        supported_formats.push("dng".to_owned());
        assert(texts(supported_formats@) =~= known_formats());
        ScannerService {
            supported_formats,
            thumbnail_service: ThumbnailService::new(),
            hash_service: HashService::new(),
            exif_service: ExifService::new(),
        }
    }

    /// Whether `extension`, given in lower case, is that of a format that the
    /// scanner reads.
    pub fn supports(&self, extension: &str) -> (r: bool)
        ensures
            r == self.formats().contains(extension@),
    {
        holds_text(&self.supported_formats, extension)
    }

    /// Whether the file is of a format that the scanner reads: it is where
    /// its extension, in lower case, is that of such a format.
    pub fn is_supported_format(&self, file_path: &str) -> (r: bool)
        ensures
            r == match folded_extension_of(file_path@) {
                Some(e) => self.formats().contains(e),
                None => false,
            },
    {
        match folded_extension(file_path) {
            Some(e) => self.supports(e.as_str()),
            None => false,
        }
    }

    /// Checks the roots of a scan. Fails on the first root that does not
    /// exist or is not a directory.
    pub fn validate_roots(&self, roots: &Vec<RootStatus>) -> (out: Result<(), ScanError>)
        ensures
            out is Ok <==> first_bad_root(roots@) == roots@.len(),
            out matches Err(e) ==> e matches ScanError::InvalidPath { path } && path@
                == bad_root_text(roots@[first_bad_root(roots@)]),
    {
        proof {
            lemma_first_bad_root(roots@);
        }
        let mut i: usize = 0;
        while i < roots.len()
            invariant
                i <= roots.len(),
                i <= first_bad_root(roots@) <= roots@.len(),
                forall|k: int|
                    0 <= k < first_bad_root(roots@) ==> (#[trigger] roots@[k]).exists
                        && roots@[k].is_dir,
                first_bad_root(roots@) < roots@.len() ==> !(roots@[first_bad_root(roots@)].exists
                    && roots@[first_bad_root(roots@)].is_dir),
            decreases roots.len() - i,
        {
            if !roots[i].exists {
                return Err(ScanError::InvalidPath { path: roots[i].path.clone() });
            }
            if !roots[i].is_dir {
                return Err(
                    ScanError::InvalidPath {
                        path: join2(roots[i].path.as_str(), " is not a directory"),
                    },
                );
            }
            i += 1;
        }
        Ok(())
    }

    /// The file types that a scan looks for: those of `file_types` that the
    /// scanner reads, in lower case.
    pub fn effective_file_types(&self, file_types: &Vec<String>) -> (out: Vec<String>)
        ensures
            texts(out@) == usable_types(file_types@, self.formats(), file_types@.len() as int),
    {
        let mut out: Vec<String> = Vec::new();
        let mut i: usize = 0;
        assert(texts(out@) =~= Seq::<Seq<char>>::empty());
        while i < file_types.len()
            invariant
                i <= file_types.len(),
                texts(out@) == usable_types(file_types@, self.formats(), i as int),
            decreases file_types.len() - i,
        {
            let folded = lowercase(file_types[i].as_str());
            if self.supports(folded.as_str()) {
                let ghost before = out@;
                out.push(folded);
                assert(texts(out@) =~= texts(before).push(lowercase_of(file_types@[i as int]@)));
            }
            i += 1;
        }
        out
    }

    /// What a scan settles before any file is looked at. The scan fails,
    /// in this order: with `Cancelled` where it has been told to stop; with
    /// `InvalidPath` on the first root that does not exist or is not a
    /// directory; with `Io` on the first exclude pattern that does not
    /// compile. Otherwise the file types that the scan looks for are
    /// returned.
    pub fn prepare_scan(
        &self,
        roots: &Vec<RootStatus>,
        file_types: &Vec<String>,
        exclude_patterns: &Vec<String>,
        cancelled: bool,
    ) -> (out: Result<Vec<String>, ScanError>)
        ensures
            out is Ok <==> !cancelled && first_bad_root(roots@) == roots@.len() && first_invalid(
                exclude_patterns@,
            ) == exclude_patterns@.len(),
            out matches Ok(types) ==> texts(types@) == usable_types(
                file_types@,
                self.formats(),
                file_types@.len() as int,
            ),
            out matches Err(e) ==> if cancelled {
                e is Cancelled
            } else if first_bad_root(roots@) < roots@.len() {
                e matches ScanError::InvalidPath { path } && path@ == bad_root_text(
                    roots@[first_bad_root(roots@)],
                )
            } else {
                e is Io
            },
    {
        if cancelled {
            return Err(ScanError::Cancelled);
        }
        proof {
            lemma_first_bad_root(roots@);
        }
        match self.validate_roots(roots) {
            Err(e) => {
                return Err(e);
            },
            Ok(_) => {},
        }
        match check_patterns(exclude_patterns) {
            Err(problem) => {
                return Err(ScanError::Io(problem.1));
            },
            Ok(_) => {},
        }
        Ok(self.effective_file_types(file_types))
    }

    /// Picks the candidates of a scan from what the walk of its roots came
    /// upon: the files that no exclude pattern matches and whose extension,
    /// in lower case, is among `file_types`. The order of the walk is kept.
    /// Fails with `Cancelled` where the scan has been told to stop.
    pub fn discover_files(
        &self,
        entries: &Vec<WalkEntry>,
        file_types: &Vec<String>,
        exclude_patterns: &Vec<String>,
        cancelled: bool,
    ) -> (out: Result<Vec<String>, ScanError>)
        ensures
            out is Err <==> cancelled,
            out matches Err(e) ==> e is Cancelled,
            out matches Ok(found) ==> texts(found@) == candidates(
                entries@,
                texts(file_types@),
                exclude_patterns@,
                entries@.len() as int,
            ),
    {
        if cancelled {
            return Err(ScanError::Cancelled);
        }
        let mut found: Vec<String> = Vec::new();
        let mut i: usize = 0;
        assert(texts(found@) =~= Seq::<Seq<char>>::empty());
        while i < entries.len()
            invariant
                i <= entries.len(),
                texts(found@) == candidates(
                    entries@,
                    texts(file_types@),
                    exclude_patterns@,
                    i as int,
                ),
            decreases entries.len() - i,
        {
            let entry = &entries[i];
            if entry.is_file && !is_excluded(exclude_patterns, entry.path.as_str()) {
                match folded_extension(entry.path.as_str()) {
                    Some(e) => {
                        if holds_text(file_types, e.as_str()) {
                            let ghost before = found@;
                            found.push(entry.path.clone());
                            assert(texts(found@) =~= texts(before).push(entry.path@));
                        }
                    },
                    None => {},
                }
            }
            i += 1;
        }
        Ok(found)
    }

    /// The first catalog entry of a file: its path and size under a fresh
    /// id, stamped with the time of the call.
    pub fn create_minimal_asset(&self, project_id: &str, file_path: &str, size: u64) -> (asset:
        Asset)
        ensures
            is_bare_entry(asset, project_id@, file_path@, size),
    {
        let id = fresh_identifier("ast_");
        let now = now_rfc3339();
        Asset {
            id,
            project_id: project_id.to_owned(),
            path: file_path.to_owned(),
            thumbnail_path: None,
            hash: None,
            perceptual_hash: None,
            size,
            width: 0,
            height: 0,
            exif_data: None,
            created_at: now.clone(),
            updated_at: now,
        }
    }

    /// The first catalog entries of the files of a scan: one for each file,
    /// in order, and no two with the same id. The ids are drawn at random; a
    /// draw that is in use already gives way to the next value that is free.
    pub fn quick_index_files(&self, project_id: &str, files: &Vec<FoundFile>) -> (assets: Vec<
        Asset,
    >)
        ensures
            assets@.len() == files@.len(),
            forall|k: int|
                0 <= k < assets@.len() ==> is_bare_entry(
                    #[trigger] assets@[k],
                    project_id@,
                    files@[k].path@,
                    files@[k].size,
                ),
            distinct_ids(assets@),
    {
        let mut used: HashSet<u128> = HashSet::new();
        let ghost mut drawn: Seq<u128> = Seq::empty();
        let mut assets: Vec<Asset> = Vec::new();
        let mut i: usize = 0;
        while i < files.len()
            invariant
                i <= files.len(),
                assets@.len() == i,
                drawn.len() == i,
                used@.finite(),
                forall|k: int|
                    0 <= k < i ==> (#[trigger] assets@[k]).id@ == "ast_"@ + hex_fixed(
                        drawn[k] as nat,
                        32,
                    ),
                forall|k: int| 0 <= k < i ==> used@.contains(#[trigger] drawn[k]),
                forall|k: int|
                    0 <= k < i ==> is_bare_entry(
                        #[trigger] assets@[k],
                        project_id@,
                        files@[k].path@,
                        files@[k].size,
                    ),
                distinct_ids(assets@),
            decreases files.len() - i,
        {
            let ghost before = used@;
            let id = draw_identifier(&mut used, "ast_");
            proof {
                let bits = choose|bits: u128|
                    !before.contains(bits) && id@ == "ast_"@ + #[trigger] hex_fixed(bits as nat, 32)
                        && used@ == before.insert(bits);
                assert forall|k: int| 0 <= k < i implies (#[trigger] assets@[k]).id@ != id@ by {
                    let other = drawn[k];
                    assert(before.contains(other));
                    if assets@[k].id@ == id@ {
                        let x = hex_fixed(other as nat, 32);
                        let y = hex_fixed(bits as nat, 32);
                        assert(("ast_"@ + x).skip("ast_"@.len() as int) =~= x);
                        assert(("ast_"@ + y).skip("ast_"@.len() as int) =~= y);
                        lemma_bits_fit(other);
                        lemma_bits_fit(bits);
                        lemma_hex_fixed_injective(other as nat, bits as nat, 32);
                    }
                }
                drawn = drawn.push(bits);
            }
            let now = now_rfc3339();
            let asset = Asset {
                id,
                project_id: project_id.to_owned(),
                path: files[i].path.clone(),
                thumbnail_path: None,
                hash: None,
                perceptual_hash: None,
                size: files[i].size,
                width: 0,
                height: 0,
                exif_data: None,
                created_at: now.clone(),
                updated_at: now,
            };
            assets.push(asset);
            i += 1;
        }
        assets
    }

    /// The directory in which the cache of a project lies.
    pub fn project_cache_dir(&self, output_path: &str, source_path: &str) -> (dir: String)
        ensures
            dir@ == cache_dir_of(output_path@, source_path@),
    {
        if !output_path.is_empty() {
            join(output_path, ".cullrs")
        } else {
            join(source_path, ".cullrs")
        }
    }

    /// The path of the thumbnail of an asset of a project whose cache lies in
    /// `project_cache_dir`.
    pub fn get_thumbnail_path(&self, project_cache_dir: &str, asset_id: &str) -> (path: String)
        ensures
            path@ == thumbnail_path_of(project_cache_dir@, asset_id@),
    {
        self.thumbnail_service.get_thumbnail_path(project_cache_dir, asset_id)
    }

    /// Gives the asset the content hash of its file, whose bytes are `data`.
    /// Nothing else of the asset changes.
    pub fn compute_asset_hash(&self, asset: &mut Asset, data: &[u8])
        ensures
            final(asset).hash matches Some(h) && h@ == content_hash_of(data@),
            *final(asset) == (Asset { hash: final(asset).hash, ..*old(asset) }),
    {
        asset.hash = Some(self.hash_service.compute_content_hash(data));
    }

    /// Whether the content hash that the asset holds is that of its file,
    /// whose bytes are `data`. An asset without a hash is not verified.
    pub fn verify_asset_hash(&self, asset: &Asset, data: &[u8]) -> (same: bool)
        ensures
            same == match asset.hash {
                Some(stored) => stored@ == content_hash_of(data@),
                None => false,
            },
    {
        match &asset.hash {
            Some(stored) => {
                let current = self.hash_service.compute_content_hash(data);
                same_text(stored.as_str(), current.as_str())
            },
            None => false,
        }
    }

    /// The service that computes content hashes.
    pub fn hash_service(&self) -> (service: &HashService)
        ensures
            *service == HashService,
    {
        &self.hash_service
    }

    /// The service that reads metadata fields.
    pub fn exif_service(&self) -> (service: &ExifService)
        ensures
            *service == ExifService,
    {
        &self.exif_service
    }

    /// The service that places thumbnails.
    pub fn thumbnail_service(&self) -> (service: &ThumbnailService)
        ensures
            *service == self.thumbnails(),
    {
        &self.thumbnail_service
    }
}

} // verus!
