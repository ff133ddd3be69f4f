//! Duplicate groups of catalog entries: exact groups by content hash, near
//! groups by perceptual fingerprint, and the keeper that is suggested for
//! each.

use vstd::prelude::*;
use crate::duplicate::{
    clusters, find_duplicates, lemma_exact_groups_by_equality, positions, same_group, MatchRule,
};
use crate::fingerprint::{bit_difference, hamming_distance};
use crate::ident::{fresh_identifier, is_identifier};
use crate::records::Asset;
use crate::selection::{is_keeper, select_keep, Candidate, SelectionStrategy};
use crate::text::same_text;

verus! {

/// How the members of a group are alike.
#[derive(Debug, Clone, Copy, PartialEq, Eq, Structural)]
pub enum DuplicateType {
    /// The files have the same bytes.
    Exact,
    /// The images look alike.
    Similar,
    /// The images look alike and were taken in one burst.
    Burst,
}

/// A group of catalog entries that are duplicates of each other.
#[derive(Debug, Clone, PartialEq, Eq)]
pub struct DuplicateGroup {
    pub id: String,
    pub group_type: DuplicateType,
    /// The ids of the members, in catalog order.
    pub members: Vec<String>,
    /// Similarity of the members in thousandths; 1000 for identical files.
    pub similarity: u32,
    /// The id of the member that is suggested to be kept.
    pub recommended_keep: Option<String>,
}

/// Whether the entry has the content hash `hash`.
pub open spec fn hash_is(asset: Asset, hash: Seq<char>) -> bool {
    asset.hash matches Some(h) && h@ == hash
}

/// Position of the first of the first `k` entries whose content hash is
/// `hash`, or `k` where none has it.
pub open spec fn first_with_hash(assets: Seq<Asset>, hash: Seq<char>, k: int) -> int
    decreases k,
{
    if k <= 0 {
        0
    } else {
        let f = first_with_hash(assets, hash, k - 1);
        if f < k - 1 {
            f
        } else if hash_is(assets[k - 1], hash) {
            k - 1
        } else {
            k
        }
    }
}

/// The code by which an entry is grouped exactly: the position of the first
/// entry with the same content hash. An entry without a content hash has
/// none.
pub open spec fn exact_code(assets: Seq<Asset>, i: int) -> Option<u64> {
    match assets[i].hash {
        Some(h) => Some(first_with_hash(assets, h@, i + 1) as u64),
        None => None,
    }
}

/// The codes by which the entries are grouped exactly.
pub open spec fn exact_codes(assets: Seq<Asset>) -> Seq<Option<u64>> {
    Seq::new(assets.len(), |i: int| exact_code(assets, i))
}

/// The codes by which the entries are grouped as near duplicates: their
/// perceptual fingerprints, but none for an entry that is left out.
pub open spec fn near_codes(assets: Seq<Asset>, left_out: Seq<bool>) -> Seq<Option<u64>> {
    Seq::new(
        assets.len(),
        |i: int|
            if 0 <= i < left_out.len() && left_out[i] {
                None
            } else {
                assets[i].perceptual_hash
            },
    )
}

/// What `first_with_hash` finds: the first entry with the hash.
pub proof fn lemma_first_with_hash(assets: Seq<Asset>, hash: Seq<char>, k: int)
    requires
        0 <= k <= assets.len(),
    ensures
        0 <= first_with_hash(assets, hash, k) <= k,
        first_with_hash(assets, hash, k) < k ==> hash_is(
            assets[first_with_hash(assets, hash, k)],
            hash,
        ),
        forall|j: int|
            0 <= j < first_with_hash(assets, hash, k) ==> !hash_is(#[trigger] assets[j], hash),
    decreases k,
{
    if k > 0 {
        lemma_first_with_hash(assets, hash, k - 1);
    }
}

/// Two entries with content hashes have the same exact code exactly when
/// their hashes are the same text.
pub proof fn lemma_exact_code(assets: Seq<Asset>, i: int, j: int)
    requires
        0 <= i < assets.len(),
        0 <= j < assets.len(),
        assets.len() <= u64::MAX,
        assets[i].hash is Some,
        assets[j].hash is Some,
    ensures
        exact_code(assets, i) == exact_code(assets, j) <==> assets[i].hash->0@
            == assets[j].hash->0@,
{
    let hi = assets[i].hash->0@;
    let hj = assets[j].hash->0@;
    lemma_first_with_hash(assets, hi, i + 1);
    lemma_first_with_hash(assets, hj, j + 1);
    let fi = first_with_hash(assets, hi, i + 1);
    let fj = first_with_hash(assets, hj, j + 1);
    assert(fi <= i) by {
        if fi > i {
            assert(hash_is(assets[i], hi));
        }
    }
    assert(fj <= j) by {
        if fj > j {
            assert(hash_is(assets[j], hj));
        }
    }
    if hi == hj {
        if fi < fj {
            assert(hash_is(assets[fi], hj));
        }
        if fj < fi {
            assert(hash_is(assets[fj], hi));
        }
    }
}

/// Two entries with content hashes are in one exact group exactly when
/// their content hashes are equal. Their perceptual fingerprints play no
/// part: files with the same bytes are grouped whether or not their
/// fingerprints are close.
pub proof fn lemma_exact_group_by_hash(assets: Seq<Asset>, i: int, j: int)
    requires
        0 <= i < assets.len(),
        0 <= j < assets.len(),
        assets.len() <= u64::MAX,
        assets[i].hash is Some,
        assets[j].hash is Some,
    ensures
        same_group(exact_codes(assets), MatchRule::Exact, i, j) <==> assets[i].hash->0@
            == assets[j].hash->0@,
{
    lemma_exact_code(assets, i, j);
    lemma_exact_groups_by_equality(exact_codes(assets), i, j);
}

fn has_hash(asset: &Asset, hash: &str) -> (r: bool)
    ensures
        r == hash_is(*asset, hash@),
{
    match &asset.hash {
        Some(h) => same_text(h.as_str(), hash),
        None => false,
    }
}

fn compute_exact_codes(assets: &Vec<Asset>) -> (codes: Vec<Option<u64>>)
    ensures
        codes@ == exact_codes(assets@),
{
    let mut codes: Vec<Option<u64>> = Vec::new();
    let mut i: usize = 0;
    while i < assets.len()
        invariant
            i <= assets.len(),
            codes@.len() == i,
            forall|k: int| 0 <= k < i ==> #[trigger] codes@[k] == exact_code(assets@, k),
        decreases assets.len() - i,
    {
        let code: Option<u64> = match &assets[i].hash {
            Some(h) => {
                let mut first: usize = 0;
                while first < i && !has_hash(&assets[first], h.as_str())
                    invariant
                        first <= i < assets.len(),
                        assets@[i as int].hash == Some(*h),
                        first_with_hash(assets@, h@, first as int) == first,
                    decreases i - first,
                {
                    first += 1;
                }
                proof {
                    lemma_first_with_hash(assets@, h@, i as int + 1);
                    lemma_first_with_hash(assets@, h@, first as int + 1);
                    let f = first_with_hash(assets@, h@, i as int + 1);
                    if f < first {
                        lemma_first_with_hash(assets@, h@, first as int);
                    }
                    if f > first {
                        assert(hash_is(assets@[first as int], h@));
                    }
                }
                Some(first as u64)
            },
            None => None,
        };
        codes.push(code);
        i += 1;
    }
    assert(codes@ =~= exact_codes(assets@));
    codes
}

/// Groups the entries by content hash. Every set of two or more entries
/// with the same content hash makes a group; an entry without a content hash
/// is in none. Each group lists the positions of its members in catalog
/// order; the groups come in the order of their first members.
pub fn group_exact(assets: &Vec<Asset>) -> (groups: Vec<Vec<usize>>)
    ensures
        groups@.len() == clusters(exact_codes(assets@), MatchRule::Exact).len(),
        forall|g: int|
            0 <= g < groups@.len() ==> positions((#[trigger] groups@[g])@) == clusters(
                exact_codes(assets@),
                MatchRule::Exact,
            )[g],
{
    let codes = compute_exact_codes(assets);
    find_duplicates(&codes, &MatchRule::Exact)
}

/// Groups the entries whose perceptual fingerprints are within `threshold`
/// bits of the fingerprint of the seed of their group. `left_out` marks the
/// entries that take no part, such as the members of exact groups; an entry
/// without a fingerprint takes no part either.
pub fn group_near(assets: &Vec<Asset>, threshold: u32, left_out: &Vec<bool>) -> (groups: Vec<
    Vec<usize>,
>)
    ensures
        groups@.len() == clusters(
            near_codes(assets@, left_out@),
            MatchRule::Near { threshold },
        ).len(),
        forall|g: int|
            0 <= g < groups@.len() ==> positions((#[trigger] groups@[g])@) == clusters(
                near_codes(assets@, left_out@),
                MatchRule::Near { threshold },
            )[g],
{
    let mut codes: Vec<Option<u64>> = Vec::new();
    let mut i: usize = 0;
    while i < assets.len()
        invariant
            i <= assets.len(),
            codes@.len() == i,
            forall|k: int| 0 <= k < i ==> #[trigger] codes@[k] == near_codes(assets@, left_out@)[k],
        decreases assets.len() - i,
    {
        let skip: bool = i < left_out.len() && left_out[i];
        if skip {
            codes.push(None);
        } else {
            codes.push(assets[i].perceptual_hash);
        }
        i += 1;
    }
    assert(codes@ =~= near_codes(assets@, left_out@));
    find_duplicates(&codes, &MatchRule::Near { threshold })
}

/// Whether position `i` is a member of one of `groups`.
pub open spec fn is_grouped(groups: Seq<Vec<usize>>, i: int) -> bool {
    exists|g: int, m: int|
        0 <= g < groups.len() && 0 <= m < groups[g]@.len() && #[trigger] groups[g]@[m] == i
}

/// Marks the positions below `count` that are members of one of `groups`.
pub fn grouped_mask(groups: &Vec<Vec<usize>>, count: usize) -> (mask: Vec<bool>)
    ensures
        mask@.len() == count,
        forall|i: int| 0 <= i < count ==> #[trigger] mask@[i] == is_grouped(groups@, i),
{
    let mut mask: Vec<bool> = Vec::new();
    let mut i: usize = 0;
    while i < count
        invariant
            i <= count,
            mask@.len() == i,
            forall|k: int| 0 <= k < i ==> !#[trigger] mask@[k],
        decreases count - i,
    {
        mask.push(false);
        i += 1;
    }
    let mut g: usize = 0;
    while g < groups.len()
        invariant
            g <= groups.len(),
            mask@.len() == count,
            forall|i: int|
                0 <= i < count ==> #[trigger] mask@[i] == (exists|h: int, m: int|
                    0 <= h < g && 0 <= m < groups@[h]@.len() && #[trigger] groups@[h]@[m] == i),
        decreases groups.len() - g,
    {
        let mut m: usize = 0;
        while m < groups[g].len()
            invariant
                g < groups.len(),
                m <= groups@[g as int]@.len(),
                mask@.len() == count,
                forall|i: int|
                    0 <= i < count ==> #[trigger] mask@[i] == ((exists|h: int, n: int|
                        0 <= h < g && 0 <= n < groups@[h]@.len() && #[trigger] groups@[h]@[n] == i)
                        || (exists|n: int| 0 <= n < m && #[trigger] groups@[g as int]@[n] == i)),
            decreases groups@[g as int]@.len() - m,
        {
            let position: usize = groups[g][m];
            let ghost before = mask@;
            if position < count {
                mask.set(position, true);
            }
            proof {
                assert forall|i: int| 0 <= i < count implies #[trigger] mask@[i] == ((exists|
                    h: int,
                    n: int,
                |
                    0 <= h < g && 0 <= n < groups@[h]@.len() && #[trigger] groups@[h]@[n] == i)
                    || (exists|n: int| 0 <= n < m + 1 && #[trigger] groups@[g as int]@[n] == i)) by {
                    if i == position {
                        assert(groups@[g as int]@[m as int] == i);
                    } else {
                        assert(mask@[i] == before[i]);
                        if exists|n: int| 0 <= n < m + 1 && #[trigger] groups@[g as int]@[n] == i {
                            let n = choose|n: int|
                                0 <= n < m + 1 && #[trigger] groups@[g as int]@[n] == i;
                            assert(n < m);
                        }
                    }
                }
            }
            m += 1;
        }
        proof {
            assert forall|i: int| 0 <= i < count implies #[trigger] mask@[i] == (exists|
                h: int,
                n: int,
            |
                0 <= h < g + 1 && 0 <= n < groups@[h]@.len() && #[trigger] groups@[h]@[n] == i) by {
                if mask@[i] {
                    if exists|n: int|
                        0 <= n < groups@[g as int]@.len() && #[trigger] groups@[g as int]@[n] == i {
                        let n = choose|n: int|
                            0 <= n < groups@[g as int]@.len() && #[trigger] groups@[g as int]@[n]
                                == i;
                        assert(groups@[g as int]@[n] == i);
                    } else {
                        let (h, n) = choose|h: int, n: int|
                            0 <= h < g && 0 <= n < groups@[h]@.len() && #[trigger] groups@[h]@[n]
                                == i;
                        assert(groups@[h]@[n] == i);
                    }
                } else {
                    if exists|h: int, n: int|
                        0 <= h < g + 1 && 0 <= n < groups@[h]@.len() && #[trigger] groups@[h]@[n]
                            == i {
                        let (h, n) = choose|h: int, n: int|
                            0 <= h < g + 1 && 0 <= n < groups@[h]@.len()
                                && #[trigger] groups@[h]@[n] == i;
                        if h < g {
                            assert(groups@[h]@[n] == i);
                        } else {
                            assert(groups@[g as int]@[n] == i);
                        }
                    }
                }
            }
        }
        g += 1;
    }
    mask
}

/// The largest of the distances between the fingerprint `seed` and the
/// fingerprints of the first `k` of `members`.
pub open spec fn widest_gap(seed: u64, members: Seq<u64>, k: int) -> nat
    decreases k,
{
    if k <= 0 {
        0
    } else {
        let before = widest_gap(seed, members, k - 1);
        let gap = bit_difference(seed, members[k - 1]);
        if gap > before {
            gap
        } else {
            before
        }
    }
}

/// Similarity in thousandths of fingerprints that are at most `gap` bits
/// apart: the share of the 64 bits that agree.
pub open spec fn similarity_of(gap: nat) -> nat {
    if gap >= 64 {
        0
    } else {
        ((64 - gap) * 1000 / 64) as nat
    }
}

/// The similarity, in thousandths, of a group of fingerprints to the first
/// of them: 1000 where all are the same, less by the share of bits in which
/// the farthest member differs. No fingerprints are as good as equal ones.
pub open spec fn group_similarity(fingerprints: Seq<u64>) -> nat {
    if fingerprints.len() == 0 {
        1000
    } else {
        similarity_of(widest_gap(fingerprints[0], fingerprints, fingerprints.len() as int))
    }
}

/// Of the first `k` members of a group, the fingerprints of those that have
/// one, in order.
pub open spec fn member_fingerprints(assets: Seq<Asset>, positions: Seq<usize>, k: int) -> Seq<u64>
    decreases k,
{
    if k <= 0 {
        Seq::empty()
    } else {
        let before = member_fingerprints(assets, positions, k - 1);
        match assets[positions[k - 1] as int].perceptual_hash {
            Some(p) => before.push(p),
            None => before,
        }
    }
}

/// The similarity, in thousandths, of a group of fingerprints to the first
/// of them.
pub fn similarity(fingerprints: &Vec<u64>) -> (out: u32)
    ensures
        out == group_similarity(fingerprints@),
        out <= 1000,
{
    if fingerprints.len() == 0 {
        return 1000;
    }
    let seed: u64 = fingerprints[0];
    let mut widest: u32 = 0;
    let mut i: usize = 0;
    while i < fingerprints.len()
        invariant
            i <= fingerprints.len(),
            widest == widest_gap(seed, fingerprints@, i as int),
            widest <= 64,
        decreases fingerprints.len() - i,
    {
        let gap = hamming_distance(seed, fingerprints[i]);
        if gap > widest {
            widest = gap;
        }
        i += 1;
    }
    if widest >= 64 {
        0
    } else {
        (64 - widest) * 1000 / 64
    }
}

/// Describes one group of a grouping run: its members by id, in catalog
/// order, under a fresh id, with its similarity and the suggested keeper. An
/// exact group has the similarity 1000; another group has that of the
/// fingerprints of its members.
/// `positions` are the catalog positions of the members, and `candidates`
/// what the selection strategy reads of each member.
pub fn describe_group(
    assets: &Vec<Asset>,
    positions: &Vec<usize>,
    candidates: &Vec<Candidate>,
    group_type: DuplicateType,
    strategy: &SelectionStrategy,
) -> (group: DuplicateGroup)
    requires
        positions@.len() == candidates@.len(),
        forall|m: int| 0 <= m < positions@.len() ==> #[trigger] positions@[m] < assets@.len(),
    ensures
        is_identifier(group.id@, "grp_"@),
        group.group_type == group_type,
        group.members@.len() == positions@.len(),
        forall|m: int|
            0 <= m < positions@.len() ==> #[trigger] group.members@[m] == assets@[positions@[m] as int].id,
        positions@.len() == 0 ==> group.recommended_keep is None,
        positions@.len() > 0 ==> exists|k: int|
            is_keeper(candidates@, *strategy, k) && group.recommended_keep == Some(
                assets@[positions@[k] as int].id,
            ),
        group.similarity <= 1000,
        group.similarity == if group_type == DuplicateType::Exact {
            1000
        } else {
            group_similarity(member_fingerprints(assets@, positions@, positions@.len() as int))
        },
{
    let mut members: Vec<String> = Vec::new();
    let mut fingerprints: Vec<u64> = Vec::new();
    let mut m: usize = 0;
    while m < positions.len()
        invariant
            m <= positions.len(),
            members@.len() == m,
            forall|k: int| 0 <= k < positions@.len() ==> #[trigger] positions@[k] < assets@.len(),
            forall|k: int| 0 <= k < m ==> #[trigger] members@[k] == assets@[positions@[k] as int].id,
            fingerprints@ == member_fingerprints(assets@, positions@, m as int),
        decreases positions.len() - m,
    {
        let asset = &assets[positions[m]];
        members.push(asset.id.clone());
        match asset.perceptual_hash {
            Some(p) => {
                fingerprints.push(p);
            },
            None => {},
        }
        m += 1;
    }
    let recommended_keep: Option<String> = if positions.len() > 0 {
        let k = select_keep(candidates, strategy);
        Some(assets[positions[k]].id.clone())
    } else {
        None
    };
    let similarity: u32 = match group_type {
        DuplicateType::Exact => 1000,
        _ => similarity(&fingerprints),
    };
    DuplicateGroup {
        id: fresh_identifier("grp_"),
        group_type,
        members,
        similarity,
        recommended_keep,
    }
}

} // verus!
