//! The history ledger: an append-only log of cull actions, of which the
//! moves can be reversed.

use vstd::prelude::*;
use crate::text::same_text;

verus! {

/// What a cull did with the files it removed from their place.
#[derive(Debug, Clone, Copy, PartialEq, Eq, Structural)]
pub enum HistoryAction {
    /// The files were moved into a target directory; this can be reversed.
    Moved,
    /// The files were deleted; this cannot be reversed.
    Deleted,
}

/// A file that a cull took out of its place.
#[derive(Debug, Clone, PartialEq, Eq)]
pub struct CulledFile {
    /// The path that the file had before the cull.
    pub path: String,
    /// The path to which the file was moved; `None` where it was deleted.
    pub moved_to: Option<String>,
}

/// One cull of one group: the file that was kept and the files that were
/// moved away or deleted.
#[derive(Debug, Clone, PartialEq, Eq)]
pub struct HistoryRecord {
    pub timestamp: String,
    /// The path of the file that was kept.
    pub kept: String,
    /// The files that were culled, in the order of the group.
    pub culled: Vec<CulledFile>,
    pub action: HistoryAction,
}

/// Why a record could not be restored.
#[derive(Debug, Clone, Copy, PartialEq, Eq, Structural)]
pub enum HistoryError {
    /// The log has no record at the given position.
    NoSuchRecord,
    /// The record is of a deletion.
    NotReversible,
}

/// One file to move back: from the place to which the cull moved it to the
/// path it had before the cull.
#[derive(Debug, Clone, PartialEq, Eq)]
pub struct RestoreStep {
    pub from: String,
    pub to: String,
}

/// Whether restoring the file moves anything: the file was moved, and to
/// another place than the one it had.
pub open spec fn restorable(file: CulledFile) -> bool {
    file.moved_to matches Some(place) && place@ != file.path@
}

/// The moves that bring the files `culled` back, as pairs of the place to
/// move from and the path to move to, in the order of `culled`.
pub open spec fn restore_moves(culled: Seq<CulledFile>) -> Seq<(Seq<char>, Seq<char>)>
    decreases culled.len(),
{
    if culled.len() == 0 {
        Seq::empty()
    } else {
        let before = restore_moves(culled.drop_last());
        let file = culled.last();
        if restorable(file) {
            before.push((file.moved_to->0@, file.path@))
        } else {
            before
        }
    }
}

/// Where every culled file was moved to another place than the one it had,
/// restoring brings back every one of them: there is one move for each
/// file, in order, from the place it was moved to, to the path that the
/// record holds for it.
pub proof fn lemma_restore_brings_all_back(culled: Seq<CulledFile>)
    requires
        forall|k: int| 0 <= k < culled.len() ==> restorable(#[trigger] culled[k]),
    ensures
        restore_moves(culled).len() == culled.len(),
        forall|k: int|
            0 <= k < culled.len() ==> (#[trigger] restore_moves(culled)[k]) == (
                culled[k].moved_to->0@,
                culled[k].path@,
            ),
    decreases culled.len(),
{
    if culled.len() > 0 {
        let front = culled.drop_last();
        assert forall|k: int| 0 <= k < front.len() implies restorable(#[trigger] front[k]) by {
            assert(front[k] == culled[k]);
        }
        lemma_restore_brings_all_back(front);
        assert(restorable(culled[culled.len() - 1]));
        assert forall|k: int| 0 <= k < culled.len() implies (#[trigger] restore_moves(culled)[k])
            == (culled[k].moved_to->0@, culled[k].path@) by {
            if k < culled.len() - 1 {
                assert(restore_moves(culled)[k] == restore_moves(front)[k]);
                assert(front[k] == culled[k]);
            }
        }
    }
}

/// `steps` are the moves `moves`.
pub open spec fn steps_are(steps: Seq<RestoreStep>, moves: Seq<(Seq<char>, Seq<char>)>) -> bool {
    &&& steps.len() == moves.len()
    &&& forall|k: int|
        0 <= k < steps.len() ==> (#[trigger] steps[k]).from@ == moves[k].0 && steps[k].to@
            == moves[k].1
}

/// The records of `records` with the action `action`, in order.
pub open spec fn with_action(records: Seq<HistoryRecord>, action: HistoryAction) -> Seq<
    HistoryRecord,
>
    decreases records.len(),
{
    if records.len() == 0 {
        Seq::empty()
    } else {
        let before = with_action(records.drop_last(), action);
        if records.last().action == action {
            before.push(records.last())
        } else {
            before
        }
    }
}

/// One after the other, the restore moves of every move record of
/// `records`.
pub open spec fn restore_moves_of_all(records: Seq<HistoryRecord>) -> Seq<(Seq<char>, Seq<char>)>
    decreases records.len(),
{
    if records.len() == 0 {
        Seq::empty()
    } else {
        let before = restore_moves_of_all(records.drop_last());
        if records.last().action == HistoryAction::Moved {
            before + restore_moves(records.last().culled@)
        } else {
            before
        }
    }
}

/// Plans the restoring of one record: one step for each culled file that
/// was moved to another place than the one it had, in the record's order,
/// from that place back to the path it had. A record of a deletion is
/// refused.
pub fn plan_restore(record: &HistoryRecord) -> (plan: Result<Vec<RestoreStep>, HistoryError>)
    ensures
        plan is Err <==> record.action == HistoryAction::Deleted,
        plan matches Err(e) ==> e == HistoryError::NotReversible,
        plan matches Ok(steps) ==> steps_are(steps@, restore_moves(record.culled@)),
{
    match record.action {
        HistoryAction::Deleted => Err(HistoryError::NotReversible),
        HistoryAction::Moved => {
            let mut steps: Vec<RestoreStep> = Vec::new();
            let mut i: usize = 0;
            while i < record.culled.len()
                invariant
                    i <= record.culled.len(),
                    steps_are(steps@, restore_moves(record.culled@.take(i as int))),
                decreases record.culled.len() - i,
            {
                proof {
                    assert(record.culled@.take(i as int + 1).drop_last() == record.culled@.take(
                        i as int,
                    ));
                }
                let file: &CulledFile = &record.culled[i];
                match &file.moved_to {
                    Some(place) => {
                        if !same_text(place.as_str(), file.path.as_str()) {
                            steps.push(RestoreStep { from: place.clone(), to: file.path.clone() });
                        }
                    },
                    None => {},
                }
                i += 1;
            }
            assert(record.culled@.take(record.culled.len() as int) == record.culled@);
            Ok(steps)
        },
    }
}

/// The log of cull actions, oldest first.
pub struct HistoryLog {
    records: Vec<HistoryRecord>,
}

impl HistoryLog {
    /// The records of the log, oldest first.
    pub closed spec fn view(&self) -> Seq<HistoryRecord> {
        self.records@
    }

    /// An empty log.
    pub fn new() -> (log: Self)
        ensures
            log@.len() == 0,
    {
        HistoryLog { records: Vec::new() }
    }

    /// A log with the given records.
    pub fn from_records(records: Vec<HistoryRecord>) -> (log: Self)
        ensures
            log@ == records@,
    {
        HistoryLog { records }
    }

    /// The records of the log, oldest first.
    pub fn records(&self) -> (out: &Vec<HistoryRecord>)
        ensures
            out@ == self@,
    {
        &self.records
    }

    /// Number of records.
    pub fn len(&self) -> (n: usize)
        ensures
            n == self@.len(),
    {
        self.records.len()
    }

    /// Adds a record at the end of the log.
    pub fn append(&mut self, record: HistoryRecord)
        ensures
            final(self)@ == old(self)@.push(record),
    {
        self.records.push(record);
    }

    /// Restores the record at `index`: takes it out of the log and returns
    /// the moves that bring its files back from where the cull moved them.
    /// The other records keep their order. Where there is no such record, or
    /// it is of a deletion, the call fails and the log stays as it is.
    pub fn restore(&mut self, index: usize) -> (plan: Result<
        Vec<RestoreStep>,
        HistoryError,
    >)
        ensures
            plan is Ok <==> index < old(self)@.len() && old(self)@[index as int].action
                == HistoryAction::Moved,
            plan matches Err(e) ==> final(self)@ == old(self)@ && e == if index >= old(self)@.len() {
                HistoryError::NoSuchRecord
            } else {
                HistoryError::NotReversible
            },
            plan matches Ok(steps) ==> final(self)@ == old(self)@.remove(index as int) && steps_are(
                steps@,
                restore_moves(old(self)@[index as int].culled@),
            ),
    {
        if index >= self.records.len() {
            return Err(HistoryError::NoSuchRecord);
        }
        match plan_restore(&self.records[index]) {
            Ok(steps) => {
                self.records.remove(index);
                Ok(steps)
            },
            Err(e) => Err(e),
        }
    }

    /// Restores every record of a move: takes them out of the log and
    /// returns, in the order of the log, the moves that bring their files
    /// back. The records of deletions stay, in their order.
    pub fn restore_all(&mut self) -> (steps: Vec<RestoreStep>)
        ensures
            final(self)@ == with_action(old(self)@, HistoryAction::Deleted),
            steps_are(steps@, restore_moves_of_all(old(self)@)),
    {
        let mut source: Vec<HistoryRecord> = Vec::new();
        std::mem::swap(&mut source, &mut self.records);
        let ghost all = source@;
        let mut kept: Vec<HistoryRecord> = Vec::new();
        let mut steps: Vec<RestoreStep> = Vec::new();
        for record in it: source
            invariant
                it.seq() == all,
                kept@ == with_action(all.take(it.index() as int), HistoryAction::Deleted),
                steps_are(steps@, restore_moves_of_all(all.take(it.index() as int))),
        {
            proof {
                assert(all.take(it.index() + 1).drop_last() == all.take(it.index() as int));
            }
            match plan_restore(&record) {
                Ok(more) => {
                    let mut more = more;
                    steps.append(&mut more);
                },
                Err(_) => {
                    kept.push(record);
                },
            }
        }
        assert(all.take(all.len() as int) == all);
        self.records = kept;
        steps
    }
}

/// Taking one record out of a log leaves every other record in it, and any
/// two of them in the order they had.
pub proof fn lemma_removal_keeps_order(log: Seq<HistoryRecord>, index: int, a: int, b: int)
    requires
        0 <= index < log.len(),
        0 <= a < b < log.len(),
        a != index,
        b != index,
    ensures
        log.remove(index).len() == log.len() - 1,
        ({
            let at = |k: int|
                if k < index {
                    k
                } else {
                    k - 1
                };
            &&& 0 <= at(a) < at(b) < log.remove(index).len()
            &&& log.remove(index)[at(a)] == log[a]
            &&& log.remove(index)[at(b)] == log[b]
        }),
{
}

} // verus!
