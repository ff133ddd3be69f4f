//! Duplicate detection: greedy clustering of entries by their codes.
//!
//! Entries are visited in input order. An entry that belongs to no group yet
//! opens a group of its own and becomes its seed; every later entry that is
//! still free and that matches the seed joins that group. Later entries are
//! compared with the seed only, never with the other members, so the result
//! depends on the order of the input.

use vstd::prelude::*;
use crate::fingerprint::{bit_difference, hamming_distance, lemma_bit_difference_symmetric};

verus! {

/// When two codes count as duplicates of each other.
#[derive(Clone, Copy, Debug, PartialEq, Eq, Structural)]
pub enum MatchRule {
    /// The codes are equal.
    Exact,
    /// The codes differ in at most `threshold` bit positions.
    Near { threshold: u32 },
}

impl MatchRule {
    /// Whether codes `a` and `b` are duplicates under this rule.
    pub open spec fn accepts(self, a: u64, b: u64) -> bool {
        match self {
            MatchRule::Exact => a == b,
            MatchRule::Near { threshold } => bit_difference(a, b) <= threshold,
        }
    }

    /// Decides whether codes `a` and `b` are duplicates under this rule.
    pub fn is_duplicate(&self, a: u64, b: u64) -> (r: bool)
        ensures
            r == self.accepts(a, b),
    {
        match self {
            MatchRule::Exact => a == b,
            MatchRule::Near { threshold } => hamming_distance(a, b) <= *threshold,
        }
    }
}

/// Entries `s` and `j` both carry a code, and the two codes are duplicates.
pub open spec fn linked(codes: Seq<Option<u64>>, rule: MatchRule, s: int, j: int) -> bool {
    &&& 0 <= s < codes.len()
    &&& 0 <= j < codes.len()
    &&& codes[s] is Some
    &&& codes[j] is Some
    &&& rule.accepts(codes[s]->0, codes[j]->0)
}

/// The positions that a vector of indices holds.
pub open spec fn positions(v: Seq<usize>) -> Seq<int> {
    v.map_values(|x: usize| x as int)
}

/// The seed that entry `j` ends up with when only the entries from `s` on are
/// tried as seeds: the first of them that is itself a seed and is linked to
/// `j`, or `j` itself where there is none.
pub open spec fn seed_scan(codes: Seq<Option<u64>>, rule: MatchRule, j: int, s: int) -> int
    decreases j, j - s,
{
    if j < 0 || s < 0 {
        -1
    } else if s >= j {
        j
    } else if seed_scan(codes, rule, s, 0) == s && linked(codes, rule, s, j) {
        s
    } else {
        seed_scan(codes, rule, j, s + 1)
    }
}

/// The seed of the group that entry `j` belongs to, or -1 for an entry
/// without a code, which belongs to no group.
pub open spec fn seed_of(codes: Seq<Option<u64>>, rule: MatchRule, j: int) -> int {
    if 0 <= j < codes.len() && codes[j] is Some {
        seed_scan(codes, rule, j, 0)
    } else {
        -1
    }
}

/// Entry `s` opens a group.
pub open spec fn is_seed(codes: Seq<Option<u64>>, rule: MatchRule, s: int) -> bool {
    seed_of(codes, rule, s) == s
}

/// The members, in input order, that the group seeded by `s` has among the
/// first `k` entries.
pub open spec fn members_upto(codes: Seq<Option<u64>>, rule: MatchRule, s: int, k: int) -> Seq<
    int,
>
    decreases k,
{
    if k <= 0 {
        Seq::empty()
    } else {
        let before = members_upto(codes, rule, s, k - 1);
        if seed_of(codes, rule, k - 1) == s {
            before.push(k - 1)
        } else {
            before
        }
    }
}

/// The members of the group seeded by `s`, in input order.
pub open spec fn members(codes: Seq<Option<u64>>, rule: MatchRule, s: int) -> Seq<int> {
    members_upto(codes, rule, s, codes.len() as int)
}

/// The groups with more than one member whose seed is among the first `k`
/// entries, in the order of their seeds.
pub open spec fn clusters_upto(codes: Seq<Option<u64>>, rule: MatchRule, k: int) -> Seq<
    Seq<int>,
>
    decreases k,
{
    if k <= 0 {
        Seq::empty()
    } else {
        let before = clusters_upto(codes, rule, k - 1);
        if is_seed(codes, rule, k - 1) && members(codes, rule, k - 1).len() > 1 {
            before.push(members(codes, rule, k - 1))
        } else {
            before
        }
    }
}

/// All duplicate groups: each has at least two members, listed in input
/// order; the groups come in the order of their seeds.
pub open spec fn clusters(codes: Seq<Option<u64>>, rule: MatchRule) -> Seq<Seq<int>> {
    clusters_upto(codes, rule, codes.len() as int)
}

/// What `seed_scan` finds: the first seed from `s` on that is linked to `j`.
pub proof fn lemma_seed_scan(codes: Seq<Option<u64>>, rule: MatchRule, j: int, s: int)
    requires
        0 <= s <= j,
    ensures
        s <= seed_scan(codes, rule, j, s) <= j,
        seed_scan(codes, rule, j, s) < j ==> seed_scan(codes, rule, seed_scan(codes, rule, j, s), 0)
            == seed_scan(codes, rule, j, s) && linked(
            codes,
            rule,
            seed_scan(codes, rule, j, s),
            j,
        ),
        forall|k: int|
            s <= k < seed_scan(codes, rule, j, s) ==> !(#[trigger] seed_scan(codes, rule, k, 0) == k
                && linked(codes, rule, k, j)),
    decreases j - s,
{
    if s < j && !(seed_scan(codes, rule, s, 0) == s && linked(codes, rule, s, j)) {
        lemma_seed_scan(codes, rule, j, s + 1);
    }
}

/// The seed of an entry with a code is an entry at or before it, is a seed
/// itself, is linked to the entry, and is the first seed linked to it.
pub proof fn lemma_seed_of(codes: Seq<Option<u64>>, rule: MatchRule, j: int)
    requires
        0 <= j < codes.len(),
        codes[j] is Some,
    ensures
        0 <= seed_of(codes, rule, j) <= j,
        is_seed(codes, rule, seed_of(codes, rule, j)),
        seed_of(codes, rule, j) < j ==> linked(codes, rule, seed_of(codes, rule, j), j),
        forall|k: int|
            0 <= k < seed_of(codes, rule, j) ==> !(#[trigger] is_seed(codes, rule, k) && linked(
                codes,
                rule,
                k,
                j,
            )),
{
    lemma_seed_scan(codes, rule, j, 0);
    let r = seed_scan(codes, rule, j, 0);
    if r < j {
        assert(codes[r] is Some);
    }
    assert forall|k: int| 0 <= k < r implies !(#[trigger] is_seed(codes, rule, k) && linked(
        codes,
        rule,
        k,
        j,
    )) by {
        if linked(codes, rule, k, j) {
            assert(!(seed_scan(codes, rule, k, 0) == k));
        }
    }
}

/// Every entry's seed lies at or before it and opens a group.
pub proof fn lemma_seed_bounds(codes: Seq<Option<u64>>, rule: MatchRule)
    ensures
        forall|j: int| 0 <= j < codes.len() ==> -1 <= #[trigger] seed_of(codes, rule, j) <= j,
        forall|j: int|
            0 <= j < codes.len() && #[trigger] seed_of(codes, rule, j) >= 0 ==> is_seed(
                codes,
                rule,
                seed_of(codes, rule, j),
            ),
{
    assert forall|j: int| 0 <= j < codes.len() implies -1 <= #[trigger] seed_of(codes, rule, j)
        <= j && (seed_of(codes, rule, j) >= 0 ==> is_seed(codes, rule, seed_of(codes, rule, j))) by {
        if codes[j] is Some {
            lemma_seed_of(codes, rule, j);
        }
    }
}

/// A free entry that is linked to the seed being grown joins it; one that is
/// not linked to it stays free.
proof fn lemma_join(codes: Seq<Option<u64>>, rule: MatchRule, i: int, j: int)
    requires
        0 <= i < j < codes.len(),
        is_seed(codes, rule, i),
        codes[j] is Some,
        seed_of(codes, rule, j) >= i,
    ensures
        linked(codes, rule, i, j) ==> seed_of(codes, rule, j) == i,
        !linked(codes, rule, i, j) ==> seed_of(codes, rule, j) > i,
{
    lemma_seed_of(codes, rule, j);
}

/// No group has a member before its seed.
proof fn lemma_members_start(codes: Seq<Option<u64>>, rule: MatchRule, s: int, k: int)
    requires
        0 <= s < codes.len(),
        k <= s,
    ensures
        members_upto(codes, rule, s, k) == Seq::<int>::empty(),
    decreases k,
{
    if k > 0 {
        lemma_members_start(codes, rule, s, k - 1);
        if codes[k - 1] is Some {
            lemma_seed_of(codes, rule, k - 1);
        }
    }
}

/// Entries `i` and `j` are members of one group.
pub open spec fn same_group(codes: Seq<Option<u64>>, rule: MatchRule, i: int, j: int) -> bool {
    seed_of(codes, rule, i) >= 0 && seed_of(codes, rule, i) == seed_of(codes, rule, j)
}

/// Being linked does not depend on the order of the two entries, and every
/// entry with a code is linked to itself.
pub proof fn lemma_linked_symmetric(codes: Seq<Option<u64>>, rule: MatchRule, i: int, j: int)
    ensures
        linked(codes, rule, i, j) == linked(codes, rule, j, i),
        0 <= i < codes.len() && codes[i] is Some ==> linked(codes, rule, i, i),
{
    if 0 <= i < codes.len() && codes[i] is Some {
        lemma_bit_difference_symmetric(codes[i]->0, codes[i]->0);
        if 0 <= j < codes.len() && codes[j] is Some {
            lemma_bit_difference_symmetric(codes[i]->0, codes[j]->0);
        }
    }
}

/// The group seeded by `s` has among the first `k` entries exactly those
/// whose seed is `s`, in rising order.
pub proof fn lemma_members_upto(codes: Seq<Option<u64>>, rule: MatchRule, s: int, k: int)
    requires
        0 <= k <= codes.len(),
    ensures
        forall|m: int|
            0 <= m < members_upto(codes, rule, s, k).len() ==> 0 <= (#[trigger] members_upto(
                codes,
                rule,
                s,
                k,
            )[m]) < k && seed_of(codes, rule, members_upto(codes, rule, s, k)[m]) == s,
        forall|m: int, n: int|
            0 <= m < n < members_upto(codes, rule, s, k).len() ==> members_upto(codes, rule, s, k)[m]
                < members_upto(codes, rule, s, k)[n],
        forall|j: int|
            0 <= j < k && seed_of(codes, rule, j) == s ==> members_upto(codes, rule, s, k).contains(
                j,
            ),
    decreases k,
{
    if k > 0 {
        lemma_members_upto(codes, rule, s, k - 1);
        let before = members_upto(codes, rule, s, k - 1);
        let now = members_upto(codes, rule, s, k);
        assert forall|j: int| 0 <= j < k && seed_of(codes, rule, j) == s implies now.contains(
            j,
        ) by {
            if j < k - 1 {
                let m = choose|m: int| 0 <= m < before.len() && before[m] == j;
                assert(now[m] == j);
            } else {
                assert(now[now.len() - 1] == j);
            }
        }
    }
}

/// A group holds exactly the entries whose seed is the group's seed.
pub proof fn lemma_members(codes: Seq<Option<u64>>, rule: MatchRule, s: int, j: int)
    requires
        0 <= j < codes.len(),
        0 <= s,
    ensures
        members(codes, rule, s).contains(j) <==> seed_of(codes, rule, j) == s,
{
    lemma_members_upto(codes, rule, s, codes.len() as int);
    if members(codes, rule, s).contains(j) {
        let m = choose|m: int|
            0 <= m < members(codes, rule, s).len() && members(codes, rule, s)[m] == j;
        assert(seed_of(codes, rule, members(codes, rule, s)[m]) == s);
    }
}

/// An entry linked to a seed before it joins that seed's group, unless an
/// earlier seed is linked to the entry as well and takes it first.
pub proof fn lemma_linked_to_seed(codes: Seq<Option<u64>>, rule: MatchRule, i: int, j: int)
    requires
        0 <= i < j < codes.len(),
        is_seed(codes, rule, i),
        linked(codes, rule, i, j),
        forall|k: int| 0 <= k < i ==> !(is_seed(codes, rule, k) && linked(codes, rule, k, j)),
    ensures
        same_group(codes, rule, i, j),
        seed_of(codes, rule, j) == i,
{
    lemma_seed_of(codes, rule, j);
    let r = seed_of(codes, rule, j);
    if r > i {
        assert(is_seed(codes, rule, i) && linked(codes, rule, i, j));
    }
    if r < i {
        assert(is_seed(codes, rule, r));
    }
}

/// Two entries whose codes are not duplicates of each other, and that are
/// not both linked to any one entry, are in different groups.
pub proof fn lemma_unlinked_apart(codes: Seq<Option<u64>>, rule: MatchRule, i: int, j: int)
    requires
        0 <= i < codes.len(),
        0 <= j < codes.len(),
        codes[i] is Some,
        codes[j] is Some,
        !rule.accepts(codes[i]->0, codes[j]->0),
        forall|k: int|
            0 <= k < codes.len() ==> !(linked(codes, rule, k, i) && linked(codes, rule, k, j)),
    ensures
        !same_group(codes, rule, i, j),
{
    lemma_seed_of(codes, rule, i);
    lemma_seed_of(codes, rule, j);
    let r = seed_of(codes, rule, i);
    lemma_linked_symmetric(codes, rule, i, j);
    lemma_linked_symmetric(codes, rule, i, i);
    lemma_linked_symmetric(codes, rule, j, j);
    if r == seed_of(codes, rule, j) {
        assert(linked(codes, rule, r, i));
        assert(linked(codes, rule, r, j));
    }
}

/// Of two entries with codes and nothing else, the second joins the first
/// exactly when their codes are duplicates of each other.
pub proof fn lemma_pair(codes: Seq<Option<u64>>, rule: MatchRule)
    requires
        codes.len() == 2,
        codes[0] is Some,
        codes[1] is Some,
    ensures
        same_group(codes, rule, 0, 1) <==> rule.accepts(codes[0]->0, codes[1]->0),
        rule.accepts(codes[0]->0, codes[1]->0) ==> clusters(codes, rule) == seq![seq![0int, 1int]],
        !rule.accepts(codes[0]->0, codes[1]->0) ==> clusters(codes, rule) == Seq::<
            Seq<int>,
        >::empty(),
{
    lemma_seed_of(codes, rule, 0);
    lemma_seed_of(codes, rule, 1);
    assert(is_seed(codes, rule, 0));
    reveal_with_fuel(members_upto, 3);
    reveal_with_fuel(clusters_upto, 3);
    if rule.accepts(codes[0]->0, codes[1]->0) {
        lemma_linked_to_seed(codes, rule, 0, 1);
        assert(members(codes, rule, 0) =~= seq![0int, 1int]);
        assert(members(codes, rule, 1) =~= Seq::<int>::empty());
        assert(clusters(codes, rule) =~= seq![seq![0int, 1int]]);
    } else {
        assert(!linked(codes, rule, 0, 1));
        assert(seed_of(codes, rule, 1) == 1);
        assert(members(codes, rule, 0) =~= seq![0int]);
        assert(members(codes, rule, 1) =~= seq![1int]);
        assert(clusters(codes, rule) =~= Seq::<Seq<int>>::empty());
    }
}

/// Under the exact rule two entries are in one group exactly when their
/// codes are equal; nothing else about the entries plays a part.
pub proof fn lemma_exact_groups_by_equality(codes: Seq<Option<u64>>, i: int, j: int)
    requires
        0 <= i < codes.len(),
        0 <= j < codes.len(),
        codes[i] is Some,
        codes[j] is Some,
    ensures
        same_group(codes, MatchRule::Exact, i, j) <==> codes[i] == codes[j],
{
    let rule = MatchRule::Exact;
    lemma_seed_of(codes, rule, i);
    lemma_seed_of(codes, rule, j);
    let ri = seed_of(codes, rule, i);
    let rj = seed_of(codes, rule, j);
    if codes[i] == codes[j] {
        assert(codes[ri] == codes[i]);
        assert(codes[rj] == codes[j]);
        if ri < rj {
            assert(is_seed(codes, rule, ri) && linked(codes, rule, ri, j));
        }
        if rj < ri {
            assert(is_seed(codes, rule, rj) && linked(codes, rule, rj, i));
        }
    }
}

/// Finds the duplicate groups among `codes`. An entry without a code joins
/// no group. Each group lists the positions of its members in input order,
/// the seed first; groups of one are left out.
pub fn find_duplicates(codes: &Vec<Option<u64>>, rule: &MatchRule) -> (groups: Vec<Vec<usize>>)
    ensures
        groups@.len() == clusters(codes@, *rule).len(),
        forall|g: int|
            0 <= g < groups@.len() ==> positions((#[trigger] groups@[g])@) == clusters(
                codes@,
                *rule,
            )[g],
{
    let n: usize = codes.len();
    let mut used: Vec<bool> = Vec::new();
    let mut k: usize = 0;
    while k < n
        invariant
            k <= n,
            n == codes.len(),
            used.len() == k,
            forall|j: int| 0 <= j < k ==> used@[j] == (seed_of(codes@, *rule, j) < 0),
        decreases n - k,
    {
        proof {
            if codes@[k as int] is Some {
                lemma_seed_of(codes@, *rule, k as int);
            }
        }
        used.push(codes[k].is_none());
        k += 1;
    }
    let mut groups: Vec<Vec<usize>> = Vec::new();
    let mut i: usize = 0;
    proof {
        lemma_seed_bounds(codes@, *rule);
    }
    while i < n
        invariant
            i <= n,
            n == codes.len(),
            used.len() == n,
            forall|j: int| 0 <= j < n ==> used@[j] == (seed_of(codes@, *rule, j) < i),
            groups@.len() == clusters_upto(codes@, *rule, i as int).len(),
            forall|g: int|
                0 <= g < groups@.len() ==> positions((#[trigger] groups@[g])@) == clusters_upto(
                    codes@,
                    *rule,
                    i as int,
                )[g],
        decreases n - i,
    {
        proof {
            lemma_seed_bounds(codes@, *rule);
        }
        if !used[i] {
            proof {
                lemma_seed_of(codes@, *rule, i as int);
                lemma_members_start(codes@, *rule, i as int, i as int);
            }
            let seed_code: u64 = match codes[i] {
                Some(c) => c,
                None => 0,
            };
            used.set(i, true);
            let mut group: Vec<usize> = Vec::new();
            group.push(i);
            assert(positions(group@) =~= seq![i as int]);
            let mut j: usize = i + 1;
            while j < n
                invariant
                    i < j <= n,
                    n == codes.len(),
                    used.len() == n,
                    is_seed(codes@, *rule, i as int),
                    codes@[i as int] == Some(seed_code),
                    forall|k: int| 0 <= k < j ==> used@[k] == (seed_of(codes@, *rule, k) < i + 1),
                    forall|k: int| j <= k < n ==> used@[k] == (seed_of(codes@, *rule, k) < i),
                    positions(group@) == members_upto(codes@, *rule, i as int, j as int),
                decreases n - j,
            {
                if !used[j] {
                    match codes[j] {
                        Some(c) => {
                            proof {
                                lemma_join(codes@, *rule, i as int, j as int);
                            }
                            if rule.is_duplicate(seed_code, c) {
                                let ghost before = group@;
                                group.push(j);
                                used.set(j, true);
                                assert(positions(group@) =~= positions(before).push(j as int));
                            }
                        },
                        None => {},
                    }
                }
                j += 1;
            }
            if group.len() > 1 {
                groups.push(group);
            }
        }
        i += 1;
    }
    groups
}

} // verus!
