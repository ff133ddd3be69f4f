//! Choice of the member of a duplicate group that is kept.

use vstd::prelude::*;

verus! {

/// The rule by which the keeper of a group is chosen.
#[derive(Clone, Copy, Debug, PartialEq, Eq, Structural)]
pub enum SelectionStrategy {
    /// Keep the file that was created first.
    Oldest,
    /// Keep the file that was created last.
    Newest,
    /// Keep the file with the most bytes.
    Largest,
    /// Keep the file with the fewest bytes.
    Smallest,
}

/// What a selection strategy reads of one group member.
#[derive(Clone, Copy, Debug, PartialEq, Eq, Structural)]
pub struct Candidate {
    /// Creation time in nanoseconds since the Unix epoch, where it is known.
    pub created: Option<i128>,
    /// Size in bytes, where it is known.
    pub size: Option<u64>,
}

impl SelectionStrategy {
    /// The sort key of a candidate: members are ordered by rising key. An
    /// unknown creation time counts as the Unix epoch. An unknown size counts
    /// as zero under `Largest` and as the largest size under `Smallest`, so
    /// that a member of unknown size is never preferred for its size.
    pub open spec fn key(self, c: Candidate) -> int {
        match self {
            SelectionStrategy::Oldest => match c.created {
                Some(t) => t as int,
                None => 0,
            },
            SelectionStrategy::Newest => match c.created {
                Some(t) => -(t as int),
                None => 0,
            },
            SelectionStrategy::Largest => match c.size {
                Some(s) => -(s as int),
                None => 0,
            },
            SelectionStrategy::Smallest => match c.size {
                Some(s) => s as int,
                None => u64::MAX as int,
            },
        }
    }

    /// Whether `a` comes strictly before `b` by key alone.
    pub fn precedes(&self, a: &Candidate, b: &Candidate) -> (r: bool)
        ensures
            r == (self.key(*a) < self.key(*b)),
    {
        match self {
            SelectionStrategy::Oldest => {
                let x: i128 = match a.created {
                    Some(t) => t,
                    None => 0,
                };
                let y: i128 = match b.created {
                    Some(t) => t,
                    None => 0,
                };
                x < y
            },
            SelectionStrategy::Newest => {
                let x: i128 = match a.created {
                    Some(t) => t,
                    None => 0,
                };
                let y: i128 = match b.created {
                    Some(t) => t,
                    None => 0,
                };
                x > y
            },
            SelectionStrategy::Largest => {
                let x: u64 = match a.size {
                    Some(s) => s,
                    None => 0,
                };
                let y: u64 = match b.size {
                    Some(s) => s,
                    None => 0,
                };
                x > y
            },
            SelectionStrategy::Smallest => {
                let x: u64 = match a.size {
                    Some(s) => s,
                    None => u64::MAX,
                };
                let y: u64 = match b.size {
                    Some(s) => s,
                    None => u64::MAX,
                };
                x < y
            },
        }
    }
}

/// Position `k` holds the keeper of `group`: no member has a smaller key, and
/// every member before `k` has a larger one.
pub open spec fn is_keeper(group: Seq<Candidate>, strategy: SelectionStrategy, k: int) -> bool {
    &&& 0 <= k < group.len()
    &&& forall|i: int| 0 <= i < group.len() ==> strategy.key(group[k]) <= strategy.key(#[trigger] group[i])
    &&& forall|i: int| 0 <= i < k ==> strategy.key(group[k]) < strategy.key(#[trigger] group[i])
}

/// A group has one keeper only.
pub proof fn lemma_keeper_unique(
    group: Seq<Candidate>,
    strategy: SelectionStrategy,
    a: int,
    b: int,
)
    requires
        is_keeper(group, strategy, a),
        is_keeper(group, strategy, b),
    ensures
        a == b,
{
    if a < b {
        assert(strategy.key(group[b]) < strategy.key(group[a]));
        assert(strategy.key(group[a]) <= strategy.key(group[b]));
    }
    if b < a {
        assert(strategy.key(group[a]) < strategy.key(group[b]));
        assert(strategy.key(group[b]) <= strategy.key(group[a]));
    }
}

/// The position of the member of `group` that is kept: the first in input
/// order among those with the smallest key.
pub fn select_keep(group: &Vec<Candidate>, strategy: &SelectionStrategy) -> (k: usize)
    requires
        group.len() > 0,
    ensures
        is_keeper(group@, *strategy, k as int),
{
    let mut best: usize = 0;
    let mut i: usize = 1;
    while i < group.len()
        invariant
            1 <= i <= group.len(),
            is_keeper(group@.take(i as int), *strategy, best as int),
        decreases group.len() - i,
    {
        let ghost before = group@.take(i as int);
        let ghost now = group@.take(i as int + 1);
        proof {
            assert forall|m: int| 0 <= m < i implies now[m] == #[trigger] before[m] by {}
        }
        if strategy.precedes(&group[i], &group[best]) {
            proof {
                assert forall|m: int| 0 <= m < now.len() implies strategy.key(now[i as int])
                    <= strategy.key(#[trigger] now[m]) by {
                    if m < i {
                        assert(strategy.key(before[best as int]) <= strategy.key(before[m]));
                    }
                }
                assert forall|m: int| 0 <= m < i implies strategy.key(now[i as int])
                    < strategy.key(#[trigger] now[m]) by {
                    assert(strategy.key(before[best as int]) <= strategy.key(before[m]));
                }
            }
            best = i;
        } else {
            proof {
                assert forall|m: int| 0 <= m < now.len() implies strategy.key(now[best as int])
                    <= strategy.key(#[trigger] now[m]) by {
                    if m < i {
                        assert(strategy.key(before[best as int]) <= strategy.key(before[m]));
                    }
                }
                assert forall|m: int| 0 <= m < best implies strategy.key(now[best as int])
                    < strategy.key(#[trigger] now[m]) by {
                    assert(strategy.key(before[best as int]) < strategy.key(before[m]));
                }
            }
        }
        i += 1;
    }
    assert(group@.take(group.len() as int) == group@);
    best
}

/// The creation time that a strategy reads of a candidate: the Unix epoch
/// where the time is unknown.
pub open spec fn creation_of(c: Candidate) -> int {
    match c.created {
        Some(t) => t as int,
        None => 0,
    }
}

/// The size that `Largest` reads of a candidate: zero where the size is
/// unknown.
pub open spec fn size_of(c: Candidate) -> int {
    match c.size {
        Some(s) => s as int,
        None => 0,
    }
}

/// Under `Oldest` the keeper is the member that was created first, and of
/// several that were created first the one that comes first in the group.
pub proof fn lemma_oldest_keeps_earliest(group: Seq<Candidate>, k: int)
    requires
        is_keeper(group, SelectionStrategy::Oldest, k),
    ensures
        forall|i: int| 0 <= i < group.len() ==> creation_of(group[k]) <= creation_of(#[trigger] group[i]),
        forall|i: int| 0 <= i < k ==> creation_of(group[k]) < creation_of(#[trigger] group[i]),
{
    assert forall|i: int| 0 <= i < group.len() implies creation_of(group[k]) <= creation_of(
        #[trigger] group[i],
    ) by {
        assert(SelectionStrategy::Oldest.key(group[k]) <= SelectionStrategy::Oldest.key(group[i]));
    }
    assert forall|i: int| 0 <= i < k implies creation_of(group[k]) < creation_of(
        #[trigger] group[i],
    ) by {
        assert(SelectionStrategy::Oldest.key(group[k]) < SelectionStrategy::Oldest.key(group[i]));
    }
}

/// Under `Largest` the keeper is the member with the most bytes, and of
/// several with the most bytes the one that comes first in the group.
pub proof fn lemma_largest_keeps_biggest(group: Seq<Candidate>, k: int)
    requires
        is_keeper(group, SelectionStrategy::Largest, k),
    ensures
        forall|i: int| 0 <= i < group.len() ==> size_of(group[k]) >= size_of(#[trigger] group[i]),
        forall|i: int| 0 <= i < k ==> size_of(group[k]) > size_of(#[trigger] group[i]),
{
    assert forall|i: int| 0 <= i < group.len() implies size_of(group[k]) >= size_of(
        #[trigger] group[i],
    ) by {
        assert(SelectionStrategy::Largest.key(group[k]) <= SelectionStrategy::Largest.key(
            group[i],
        ));
    }
    assert forall|i: int| 0 <= i < k implies size_of(group[k]) > size_of(#[trigger] group[i]) by {
        assert(SelectionStrategy::Largest.key(group[k]) < SelectionStrategy::Largest.key(group[i]));
    }
}

/// Whether member `a` comes before member `b` in the order of a strategy:
/// it does where its key is smaller, and where the keys are equal and `a`
/// comes first in the group.
pub open spec fn comes_before(group: Seq<Candidate>, strategy: SelectionStrategy, a: int, b: int) -> bool {
    strategy.key(group[a]) < strategy.key(group[b]) || (strategy.key(group[a]) == strategy.key(
        group[b],
    ) && a < b)
}

/// `order` lists the first `count` members of the group, each once, in the
/// order of the strategy.
pub open spec fn is_ordering(
    order: Seq<usize>,
    group: Seq<Candidate>,
    strategy: SelectionStrategy,
    count: int,
) -> bool {
    &&& order.len() == count
    &&& forall|p: int| 0 <= p < order.len() ==> #[trigger] order[p] < count
    &&& forall|j: usize| j < count ==> #[trigger] order.contains(j)
    &&& forall|p: int, q: int|
        0 <= p < q < order.len() ==> comes_before(
            group,
            strategy,
            #[trigger] order[p] as int,
            #[trigger] order[q] as int,
        )
}

/// The member that comes first in the order of a strategy is the keeper.
pub proof fn lemma_first_is_keeper(
    order: Seq<usize>,
    group: Seq<Candidate>,
    strategy: SelectionStrategy,
)
    requires
        0 < group.len() <= usize::MAX,
        is_ordering(order, group, strategy, group.len() as int),
    ensures
        is_keeper(group, strategy, order[0] as int),
{
    let k = order[0] as int;
    assert forall|i: int| 0 <= i < group.len() implies strategy.key(group[k]) <= strategy.key(
        #[trigger] group[i],
    ) && (i < k ==> strategy.key(group[k]) < strategy.key(group[i])) by {
        let target: usize = i as usize;
        assert(order.contains(target));
        let p = choose|p: int| 0 <= p < order.len() && order[p] == target;
        if p > 0 {
            assert(comes_before(group, strategy, order[0] as int, order[p] as int));
        }
    }
}

/// The members of a group in the order of a strategy: by rising key, and
/// members with equal keys in the order in which the group lists them.
pub fn order_by_strategy(group: &Vec<Candidate>, strategy: &SelectionStrategy) -> (order: Vec<
    usize,
>)
    ensures
        is_ordering(order@, group@, *strategy, group@.len() as int),
{
    let mut order: Vec<usize> = Vec::new();
    let mut i: usize = 0;
    while i < group.len()
        invariant
            i <= group.len(),
            is_ordering(order@, group@, *strategy, i as int),
        decreases group.len() - i,
    {
        let mut at: usize = 0;
        while at < order.len() && !strategy.precedes(&group[i], &group[order[at]])
            invariant
                at <= order.len(),
                i < group.len(),
                is_ordering(order@, group@, *strategy, i as int),
                forall|p: int|
                    0 <= p < at ==> strategy.key(group@[#[trigger] order@[p] as int])
                        <= strategy.key(group@[i as int]),
            decreases order.len() - at,
        {
            at += 1;
        }
        let ghost before = order@;
        order.insert(at, i);
        proof {
            let now = order@;
            assert forall|j: usize| j < i + 1 implies #[trigger] now.contains(j) by {
                if j < i {
                    assert(before.contains(j));
                    let p = choose|p: int| 0 <= p < before.len() && before[p] == j;
                    if p < at {
                        assert(now[p] == j);
                    } else {
                        assert(now[p + 1] == j);
                    }
                } else {
                    assert(now[at as int] == j);
                }
            }
            assert forall|p: int, q: int| 0 <= p < q < now.len() implies comes_before(
                group@,
                *strategy,
                #[trigger] now[p] as int,
                #[trigger] now[q] as int,
            ) by {
                if q < at {
                    assert(now[p] == before[p] && now[q] == before[q]);
                } else if q == at {
                    assert(now[p] == before[p]);
                    assert(before[p] < i);
                } else if p < at {
                    assert(now[p] == before[p] && now[q] == before[q - 1]);
                    if p < q - 1 {
                        assert(comes_before(
                            group@,
                            *strategy,
                            before[p] as int,
                            before[q - 1] as int,
                        ));
                    }
                } else if p == at {
                    assert(now[q] == before[q - 1]);
                    assert(strategy.key(group@[i as int]) < strategy.key(
                        group@[before[at as int] as int],
                    ));
                    if q - 1 > at {
                        assert(comes_before(
                            group@,
                            *strategy,
                            before[at as int] as int,
                            before[q - 1] as int,
                        ));
                    }
                } else {
                    assert(now[p] == before[p - 1] && now[q] == before[q - 1]);
                }
            }
        }
        i += 1;
    }
    order
}

/// The keeper of a group, or `None` for an empty group.
pub fn suggest_keep(group: &Vec<Candidate>, strategy: &SelectionStrategy) -> (k: Option<usize>)
    ensures
        k is None <==> group@.len() == 0,
        k matches Some(i) ==> is_keeper(group@, *strategy, i as int),
{
    if group.len() == 0 {
        None
    } else {
        Some(select_keep(group, strategy))
    }
}

} // verus!
