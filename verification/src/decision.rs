//! Decisions: what is to happen to each asset. An asset has at most one
//! decision; recording another for it replaces the first.

use vstd::prelude::*;
use crate::records::{Asset, Decision, DecisionState, ReasonCode};
use crate::text::same_text;

verus! {

/// Why a decision could not be recorded.
#[derive(Debug, Clone, Copy, PartialEq, Eq, Structural)]
pub enum DecisionError {
    /// The catalog holds no asset with the given id.
    UnknownAsset,
}

/// How many decisions of each state a set of decisions holds.
#[derive(Debug, Clone, Copy, PartialEq, Eq, Structural)]
pub struct DecisionStats {
    pub keep: usize,
    pub remove: usize,
    pub undecided: usize,
    pub total: usize,
}

/// Whether the catalog holds an asset with the id `id`.
pub open spec fn catalog_holds(catalog: Seq<Asset>, id: Seq<char>) -> bool {
    exists|i: int| 0 <= i < catalog.len() && (#[trigger] catalog[i]).id@ == id
}

/// Position of the decision on the asset `id`, if there is one.
pub open spec fn decided(decisions: Seq<Decision>, id: Seq<char>) -> bool {
    exists|i: int| 0 <= i < decisions.len() && (#[trigger] decisions[i]).asset_id@ == id
}

/// No two decisions are on the same asset.
pub open spec fn one_per_asset(decisions: Seq<Decision>) -> bool {
    forall|i: int, j: int|
        0 <= i < j < decisions.len() ==> (#[trigger] decisions[i]).asset_id@ != (
        #[trigger] decisions[j]).asset_id@
}

/// How many of `decisions` are in the state `state`.
pub open spec fn count_in_state(decisions: Seq<Decision>, state: DecisionState) -> nat
    decreases decisions.len(),
{
    if decisions.len() == 0 {
        0
    } else {
        count_in_state(decisions.drop_last(), state) + if DecisionState::read(
            decisions.last().state@,
        ) == state {
            1nat
        } else {
            0nat
        }
    }
}

/// The asset ids of the decisions that are in the state `state`, in order.
pub open spec fn ids_in_state(decisions: Seq<Decision>, state: DecisionState) -> Seq<Seq<char>>
    decreases decisions.len(),
{
    if decisions.len() == 0 {
        Seq::empty()
    } else {
        let before = ids_in_state(decisions.drop_last(), state);
        if DecisionState::read(decisions.last().state@) == state {
            before.push(decisions.last().asset_id@)
        } else {
            before
        }
    }
}

/// There are no more decisions in a state than there are decisions, and the
/// three states share all decisions between them.
pub proof fn lemma_counts_add_up(decisions: Seq<Decision>)
    ensures
        count_in_state(decisions, DecisionState::Keep) + count_in_state(
            decisions,
            DecisionState::Remove,
        ) + count_in_state(decisions, DecisionState::Undecided) == decisions.len(),
    decreases decisions.len(),
{
    if decisions.len() > 0 {
        lemma_counts_add_up(decisions.drop_last());
    }
}

/// Counts decisions by state.
pub fn decision_stats(decisions: &Vec<Decision>) -> (stats: DecisionStats)
    ensures
        stats.keep == count_in_state(decisions@, DecisionState::Keep),
        stats.remove == count_in_state(decisions@, DecisionState::Remove),
        stats.undecided == count_in_state(decisions@, DecisionState::Undecided),
        stats.total == decisions@.len(),
        stats.keep + stats.remove + stats.undecided == stats.total,
{
    let mut keep: usize = 0;
    let mut remove: usize = 0;
    let mut undecided: usize = 0;
    let mut i: usize = 0;
    while i < decisions.len()
        invariant
            i <= decisions.len(),
            keep == count_in_state(decisions@.take(i as int), DecisionState::Keep),
            remove == count_in_state(decisions@.take(i as int), DecisionState::Remove),
            undecided == count_in_state(decisions@.take(i as int), DecisionState::Undecided),
            keep + remove + undecided == i,
        decreases decisions.len() - i,
    {
        proof {
            assert(decisions@.take(i as int + 1).drop_last() == decisions@.take(i as int));
        }
        match DecisionState::from_text(decisions[i].state.as_str()) {
            DecisionState::Keep => {
                keep += 1;
            },
            DecisionState::Remove => {
                remove += 1;
            },
            DecisionState::Undecided => {
                undecided += 1;
            },
        }
        i += 1;
    }
    assert(decisions@.take(decisions.len() as int) == decisions@);
    DecisionStats { keep, remove, undecided, total: decisions.len() }
}

/// The ids of the assets whose decision is in the state `state`, in order.
pub fn assets_in_state(decisions: &Vec<Decision>, state: DecisionState) -> (ids: Vec<String>)
    ensures
        ids@.len() == ids_in_state(decisions@, state).len(),
        forall|k: int| 0 <= k < ids@.len() ==> (#[trigger] ids@[k])@ == ids_in_state(decisions@, state)[k],
{
    let mut ids: Vec<String> = Vec::new();
    let mut i: usize = 0;
    while i < decisions.len()
        invariant
            i <= decisions.len(),
            ids@.len() == ids_in_state(decisions@.take(i as int), state).len(),
            forall|k: int|
                0 <= k < ids@.len() ==> (#[trigger] ids@[k])@ == ids_in_state(
                    decisions@.take(i as int),
                    state,
                )[k],
        decreases decisions.len() - i,
    {
        proof {
            assert(decisions@.take(i as int + 1).drop_last() == decisions@.take(i as int));
        }
        if DecisionState::from_text(decisions[i].state.as_str()) == state {
            ids.push(decisions[i].asset_id.clone());
        }
        i += 1;
    }
    assert(decisions@.take(decisions.len() as int) == decisions@);
    ids
}

/// The decisions of a project, at most one per asset.
pub struct DecisionBook {
    decisions: Vec<Decision>,
}

impl DecisionBook {
    /// The decisions held, in the order in which their assets were first
    /// decided.
    pub closed spec fn view(&self) -> Seq<Decision> {
        self.decisions@
    }

    /// The book holds at most one decision per asset.
    pub open spec fn well_formed(&self) -> bool {
        one_per_asset(self@)
    }

    /// A book without decisions.
    pub fn new() -> (book: Self)
        ensures
            book@.len() == 0,
            book.well_formed(),
    {
        DecisionBook { decisions: Vec::new() }
    }

    /// A book with the given decisions, provided that no two of them are
    /// on the same asset.
    pub fn from_decisions(decisions: Vec<Decision>) -> (book: Option<Self>)
        ensures
            book is Some <==> one_per_asset(decisions@),
            book matches Some(b) ==> b@ == decisions@ && b.well_formed(),
    {
        let mut j: usize = 0;
        while j < decisions.len()
            invariant
                j <= decisions.len(),
                forall|a: int, b: int|
                    0 <= a < b < j ==> (#[trigger] decisions@[a]).asset_id@ != (
                    #[trigger] decisions@[b]).asset_id@,
            decreases decisions.len() - j,
        {
            let mut i: usize = 0;
            while i < j
                invariant
                    i <= j < decisions.len(),
                    forall|a: int|
                        0 <= a < i ==> (#[trigger] decisions@[a]).asset_id@
                            != decisions@[j as int].asset_id@,
                decreases j - i,
            {
                if same_text(decisions[i].asset_id.as_str(), decisions[j].asset_id.as_str()) {
                    return None;
                }
                i += 1;
            }
            j += 1;
        }
        Some(DecisionBook { decisions })
    }

    /// The decisions held.
    pub fn decisions(&self) -> (out: &Vec<Decision>)
        ensures
            out@ == self@,
    {
        &self.decisions
    }

    /// Position of the decision on the asset `asset_id`.
    pub fn position(&self, asset_id: &str) -> (at: Option<usize>)
        ensures
            at is None <==> !decided(self@, asset_id@),
            at matches Some(i) ==> i < self@.len() && self@[i as int].asset_id@ == asset_id@,
    {
        let mut i: usize = 0;
        while i < self.decisions.len()
            invariant
                i <= self.decisions.len(),
                forall|k: int| 0 <= k < i ==> (#[trigger] self.decisions@[k]).asset_id@ != asset_id@,
            decreases self.decisions.len() - i,
        {
            if same_text(self.decisions[i].asset_id.as_str(), asset_id) {
                return Some(i);
            }
            i += 1;
        }
        None
    }

    /// Records a decision on an asset of `catalog`. Where the asset has a
    /// decision already, the new one takes its place; otherwise it is added at
    /// the end. Decisions on other assets stay as they are. The call fails,
    /// and changes nothing, exactly when `catalog` holds no asset with the id.
    pub fn record_decision(
        &mut self,
        catalog: &Vec<Asset>,
        asset_id: &str,
        state: DecisionState,
        reason: ReasonCode,
        notes: Option<String>,
        decided_at: &str,
    ) -> (done: Result<usize, DecisionError>)
        requires
            old(self).well_formed(),
        ensures
            final(self).well_formed(),
            done is Err <==> !catalog_holds(catalog@, asset_id@),
            done is Err ==> final(self)@ == old(self)@,
            done matches Ok(at) ==> {
                &&& at < final(self)@.len()
                &&& final(self)@[at as int].asset_id@ == asset_id@
                &&& final(self)@[at as int].state@ == state.text()
                &&& final(self)@[at as int].reason@ == reason.text()
                &&& final(self)@[at as int].notes == notes
                &&& final(self)@[at as int].decided_at@ == decided_at@
                &&& if decided(old(self)@, asset_id@) {
                    final(self)@.len() == old(self)@.len()
                } else {
                    final(self)@.len() == old(self)@.len() + 1 && at == old(self)@.len()
                }
                &&& forall|k: int|
                    0 <= k < old(self)@.len() && k != at ==> final(self)@[k] == old(self)@[k]
            },
    {
        let mut known: bool = false;
        let mut c: usize = 0;
        while c < catalog.len()
            invariant
                c <= catalog.len(),
                !known ==> forall|k: int| 0 <= k < c ==> (#[trigger] catalog@[k]).id@ != asset_id@,
                known ==> catalog_holds(catalog@, asset_id@),
            decreases catalog.len() - c,
        {
            if same_text(catalog[c].id.as_str(), asset_id) {
                known = true;
            }
            c += 1;
        }
        if !known {
            return Err(DecisionError::UnknownAsset);
        }
        let decision = Decision {
            asset_id: asset_id.to_owned(),
            state: state.to_text(),
            reason: reason.to_text(),
            notes,
            decided_at: decided_at.to_owned(),
        };
        match self.position(asset_id) {
            Some(at) => {
                self.decisions.set(at, decision);
                Ok(at)
            },
            None => {
                let at: usize = self.decisions.len();
                self.decisions.push(decision);
                Ok(at)
            },
        }
    }

    /// Takes back the decision on the asset `asset_id`. Returns whether there
    /// was one; the other decisions keep their order.
    pub fn delete_by_asset_id(&mut self, asset_id: &str) -> (removed: bool)
        requires
            old(self).well_formed(),
        ensures
            final(self).well_formed(),
            removed == decided(old(self)@, asset_id@),
            !decided(final(self)@, asset_id@),
            !removed ==> final(self)@ == old(self)@,
            removed ==> exists|at: int|
                0 <= at < old(self)@.len() && old(self)@[at].asset_id@ == asset_id@ && final(self)@
                    == old(self)@.remove(at),
    {
        match self.position(asset_id) {
            Some(at) => {
                self.decisions.remove(at);
                proof {
                    let before = old(self)@;
                    let after = self@;
                    assert(after == before.remove(at as int));
                    assert forall|k: int| 0 <= k < after.len() implies (#[trigger] after[k]).asset_id@
                        != asset_id@ by {
                        if k < at {
                            assert(after[k] == before[k]);
                        } else {
                            assert(after[k] == before[k + 1]);
                        }
                    }
                }
                true
            },
            None => false,
        }
    }
}

} // verus!
