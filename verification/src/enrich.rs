//! Enrichment: what each phase after the first index adds to a catalog
//! entry. A finding that could not be made leaves its field as it was; it
//! never stops the phase.

use vstd::prelude::*;
use crate::records::Asset;
use crate::thumbnail::ThumbnailService;

verus! {

/// What the metadata phase found out about one file.
#[derive(Debug, Clone, PartialEq, Eq)]
pub struct MetadataFinding {
    /// Width and height in pixels, where the image could be read.
    pub dimensions: Option<(u32, u32)>,
    /// The descriptive metadata, serialized, where the file has any.
    pub exif_data: Option<String>,
}

/// What the hash phase found out about one file.
#[derive(Debug, Clone, PartialEq, Eq)]
pub struct HashFinding {
    /// The content hash, where the file could be read.
    pub content_hash: Option<String>,
    /// The perceptual fingerprint, where the image could be decoded.
    pub perceptual_hash: Option<u64>,
}

/// `after` is `before` with the metadata finding applied: the dimensions and
/// the metadata are those found, where they were found, and the entry is
/// stamped with `stamp`.
pub open spec fn with_metadata(
    after: Asset,
    before: Asset,
    finding: MetadataFinding,
    stamp: Seq<char>,
) -> bool {
    &&& after.width == match finding.dimensions {
        Some(d) => d.0,
        None => before.width,
    }
    &&& after.height == match finding.dimensions {
        Some(d) => d.1,
        None => before.height,
    }
    &&& after.exif_data == match finding.exif_data {
        Some(e) => Some(e),
        None => before.exif_data,
    }
    &&& after.updated_at@ == stamp
    &&& after == (Asset {
        width: after.width,
        height: after.height,
        exif_data: after.exif_data,
        updated_at: after.updated_at,
        ..before
    })
}

/// `after` is `before` with the hash finding applied: the hashes are those
/// found, where they were found, and the entry is stamped with `stamp`.
pub open spec fn with_hashes(after: Asset, before: Asset, finding: HashFinding, stamp: Seq<char>) -> bool {
    &&& after.hash == match finding.content_hash {
        Some(h) => Some(h),
        None => before.hash,
    }
    &&& after.perceptual_hash == match finding.perceptual_hash {
        Some(p) => Some(p),
        None => before.perceptual_hash,
    }
    &&& after.updated_at@ == stamp
    &&& after == (Asset {
        hash: after.hash,
        perceptual_hash: after.perceptual_hash,
        updated_at: after.updated_at,
        ..before
    })
}

/// Applies a metadata finding to an entry.
pub fn apply_metadata(asset: &mut Asset, finding: MetadataFinding, stamp: &str)
    ensures
        with_metadata(*final(asset), *old(asset), finding, stamp@),
{
    match finding.dimensions {
        Some(d) => {
            asset.width = d.0;
            asset.height = d.1;
        },
        None => {},
    }
    match finding.exif_data {
        Some(e) => {
            asset.exif_data = Some(e);
        },
        None => {},
    }
    asset.updated_at = stamp.to_owned();
}

/// Applies a hash finding to an entry.
pub fn apply_hashes(asset: &mut Asset, finding: HashFinding, stamp: &str)
    ensures
        with_hashes(*final(asset), *old(asset), finding, stamp@),
{
    match finding.content_hash {
        Some(h) => {
            asset.hash = Some(h);
        },
        None => {},
    }
    match finding.perceptual_hash {
        Some(p) => {
            asset.perceptual_hash = Some(p);
        },
        None => {},
    }
    asset.updated_at = stamp.to_owned();
}

fn reversed<T>(v: Vec<T>) -> (r: Vec<T>)
    ensures
        r@ == v@.reverse(),
{
    let ghost all = v@;
    let mut v = v;
    let mut r: Vec<T> = Vec::new();
    while v.len() > 0
        invariant
            v@.len() <= all.len(),
            v@ == all.take(v@.len() as int),
            r@ == all.skip(v@.len() as int).reverse(),
        decreases v.len(),
    {
        match v.pop() {
            Some(x) => {
                r.push(x);
                assert(r@ =~= all.skip(v@.len() as int).reverse());
            },
            None => {},
        }
    }
    assert(all.skip(0) == all);
    r
}

/// Applies the metadata findings of a batch to the entries from `start` on,
/// one finding to each entry in order. Entries outside the batch stay as they
/// are.
pub fn apply_metadata_batch(
    assets: Vec<Asset>,
    start: usize,
    findings: Vec<MetadataFinding>,
    stamp: &str,
) -> (out: Vec<Asset>)
    requires
        start + findings@.len() <= assets@.len(),
    ensures
        out@.len() == assets@.len(),
        forall|k: int|
            0 <= k < out@.len() ==> if start <= k < start + findings@.len() {
                with_metadata(#[trigger] out@[k], assets@[k], findings@[k - start], stamp@)
            } else {
                out@[k] == assets@[k]
            },
{
    let ghost all = assets@;
    let ghost found = findings@;
    let total: usize = assets.len();
    let mut stack = reversed(findings);
    let mut out: Vec<Asset> = Vec::new();
    let mut position: usize = 0;
    for asset in it: assets
        invariant
            it.seq() == all,
            all.len() == total,
            position == it.index(),
            out@.len() == position,
            start + found.len() <= all.len(),
            stack@.len() == if position <= start {
                found.len() as int
            } else if position - start <= found.len() {
                found.len() - (position - start)
            } else {
                0
            },
            forall|j: int|
                0 <= j < stack@.len() ==> #[trigger] stack@[j] == found[found.len() - 1 - j],
            forall|k: int|
                0 <= k < out@.len() ==> if start <= k < start + found.len() {
                    with_metadata(#[trigger] out@[k], all[k], found[k - start], stamp@)
                } else {
                    out@[k] == all[k]
                },
    {
        let mut asset = asset;
        if position >= start {
            match stack.pop() {
                Some(finding) => {
                    apply_metadata(&mut asset, finding, stamp);
                },
                None => {},
            }
        }
        out.push(asset);
        position += 1;
    }
    out
}

/// Applies the hash findings of a batch to the entries from `start` on, one
/// finding to each entry in order. Entries outside the batch stay as they
/// are.
pub fn apply_hashes_batch(assets: Vec<Asset>, start: usize, findings: Vec<HashFinding>, stamp: &str) -> (out:
    Vec<Asset>)
    requires
        start + findings@.len() <= assets@.len(),
    ensures
        out@.len() == assets@.len(),
        forall|k: int|
            0 <= k < out@.len() ==> if start <= k < start + findings@.len() {
                with_hashes(#[trigger] out@[k], assets@[k], findings@[k - start], stamp@)
            } else {
                out@[k] == assets@[k]
            },
{
    let ghost all = assets@;
    let ghost found = findings@;
    let total: usize = assets.len();
    let mut stack = reversed(findings);
    let mut out: Vec<Asset> = Vec::new();
    let mut position: usize = 0;
    for asset in it: assets
        invariant
            it.seq() == all,
            all.len() == total,
            position == it.index(),
            out@.len() == position,
            start + found.len() <= all.len(),
            stack@.len() == if position <= start {
                found.len() as int
            } else if position - start <= found.len() {
                found.len() - (position - start)
            } else {
                0
            },
            forall|j: int|
                0 <= j < stack@.len() ==> #[trigger] stack@[j] == found[found.len() - 1 - j],
            forall|k: int|
                0 <= k < out@.len() ==> if start <= k < start + found.len() {
                    with_hashes(#[trigger] out@[k], all[k], found[k - start], stamp@)
                } else {
                    out@[k] == all[k]
                },
    {
        let mut asset = asset;
        if position >= start {
            match stack.pop() {
                Some(finding) => {
                    apply_hashes(&mut asset, finding, stamp);
                },
                None => {},
            }
        }
        out.push(asset);
        position += 1;
    }
    out
}

/// Gives every entry the path at which its thumbnail is expected, in the
/// cache directory of the project. Nothing else of the entries changes.
pub fn set_thumbnail_paths(service: &ThumbnailService, assets: Vec<Asset>, project_cache_dir: &str) -> (out:
    Vec<Asset>)
    ensures
        out@.len() == assets@.len(),
        forall|k: int|
            0 <= k < out@.len() ==> {
                &&& (#[trigger] out@[k]).thumbnail_path matches Some(p) && p@
                    == crate::thumbnail::thumbnail_path_of(project_cache_dir@, assets@[k].id@)
                &&& out@[k] == (Asset { thumbnail_path: out@[k].thumbnail_path, ..assets@[k] })
            },
{
    let ghost all = assets@;
    let mut out: Vec<Asset> = Vec::new();
    for asset in it: assets
        invariant
            it.seq() == all,
            out@.len() == it.index(),
            forall|k: int|
                0 <= k < out@.len() ==> {
                    &&& (#[trigger] out@[k]).thumbnail_path matches Some(p) && p@
                        == crate::thumbnail::thumbnail_path_of(project_cache_dir@, all[k].id@)
                    &&& out@[k] == (Asset { thumbnail_path: out@[k].thumbnail_path, ..all[k] })
                },
    {
        let mut asset = asset;
        let path = service.get_thumbnail_path(project_cache_dir, asset.id.as_str());
        asset.thumbnail_path = Some(path);
        out.push(asset);
    }
    out
}

} // verus!
