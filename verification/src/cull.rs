//! Culling: which member of a duplicate group stays, where the others go,
//! and the history record that a cull leaves behind.

use vstd::prelude::*;
use crate::history::{restore_moves, CulledFile, HistoryAction, HistoryRecord};
use crate::numbers::lemma_decimal_round_trip;
use crate::paths::{
    extension_in, file_name, file_name_of, join, joined, lemma_stem_and_extension, lowercase,
    lowercase_of, split_file_name, stem_in,
};
use crate::selection::{is_keeper, select_keep, Candidate, SelectionStrategy};
use crate::text::{decimal_of, join2, join3, same_text, texts, to_decimal, trim, trimmed};

verus! {

/// What a cull does with the files that are not kept.
#[derive(Debug, Clone, Copy, PartialEq, Eq, Structural)]
pub enum CullMode {
    /// Report what would be done, and touch nothing.
    DryRun,
    /// Move the files into a target directory.
    Move,
    /// Delete the files.
    Delete,
}

/// Whether an answer to a question agrees: it does where it is `y` or
/// `yes`, in any case and with any white space around it.
pub open spec fn agrees(answer: Seq<char>) -> bool {
    lowercase_of(trimmed(answer)) == "y"@ || lowercase_of(trimmed(answer)) == "yes"@
}

/// Whether an answer to a question agrees.
pub fn is_confirmation(answer: &str) -> (yes: bool)
    ensures
        yes == agrees(answer@),
{
    let trimmed = trim(answer);
    let folded = lowercase(trimmed.as_str());
    same_text(folded.as_str(), "y") || same_text(folded.as_str(), "yes")
}

/// Why no destination could be found for a file.
#[derive(Debug, Clone, Copy, PartialEq, Eq, Structural)]
pub enum CullError {
    /// The path of the file has no file name.
    NoFileName,
}

/// The `attempt`-th name that is tried for a file called `name`: first the
/// name itself, then the stem with `_1`, `_2`, and so on before the
/// extension.
pub open spec fn numbered_name(name: Seq<char>, attempt: nat) -> Seq<char> {
    if attempt == 0 {
        name
    } else {
        let numbered = stem_in(name) + seq!['_'] + decimal_of(attempt);
        match extension_in(name) {
            Some(e) => numbered + seq!['.'] + e,
            None => numbered,
        }
    }
}

/// The first attempt from `from` up to `limit` whose name is free, or
/// `limit + 1` where there is none.
pub open spec fn first_free(name: Seq<char>, taken: Seq<Seq<char>>, from: nat, limit: nat) -> nat
    decreases limit + 1 - from,
{
    if from > limit {
        from
    } else if !taken.contains(numbered_name(name, from)) {
        from
    } else {
        first_free(name, taken, from + 1, limit)
    }
}

/// The name under which a file called `name` goes into a directory in which
/// the names `taken` are in use: the first of the names tried that is free.
pub open spec fn free_name_of(name: Seq<char>, taken: Seq<Seq<char>>) -> Seq<char> {
    numbered_name(name, first_free(name, taken, 0, taken.len()))
}

/// The destination of `source` in `target`, where the names `taken` are in
/// use: the target joined with the free name of the file. A path without a
/// file name has none.
pub open spec fn destination_of(target: Seq<char>, source: Seq<char>, taken: Seq<Seq<char>>) -> Result<
    Seq<char>,
    CullError,
> {
    match file_name_of(source) {
        None => Err(CullError::NoFileName),
        Some(name) => Ok(joined(target, free_name_of(name, taken))),
    }
}

/// What `first_free` finds is free, and every attempt before it is taken.
pub proof fn lemma_first_free(name: Seq<char>, taken: Seq<Seq<char>>, from: nat, limit: nat)
    requires
        from <= limit + 1,
    ensures
        from <= first_free(name, taken, from, limit) <= limit + 1,
        first_free(name, taken, from, limit) <= limit ==> !taken.contains(
            numbered_name(name, first_free(name, taken, from, limit)),
        ),
        forall|k: nat|
            from <= k < first_free(name, taken, from, limit) ==> taken.contains(
                #[trigger] numbered_name(name, k),
            ),
    decreases limit + 1 - from,
{
    if from <= limit && taken.contains(numbered_name(name, from)) {
        lemma_first_free(name, taken, from + 1, limit);
    }
}

/// The names that are tried for a file differ from each other.
pub proof fn lemma_numbered_names_differ(name: Seq<char>, a: nat, b: nat)
    requires
        a < b,
    ensures
        numbered_name(name, a) != numbered_name(name, b),
{
    lemma_stem_and_extension(name);
    lemma_decimal_round_trip(a);
    lemma_decimal_round_trip(b);
    let stem = stem_in(name);
    let head = stem + seq!['_'];
    let tail = match extension_in(name) {
        Some(e) => seq!['.'] + e,
        None => Seq::<char>::empty(),
    };
    let second = numbered_name(name, b);
    assert(second =~= head + decimal_of(b) + tail);
    if a == 0 {
        assert(name =~= stem + tail);
        assert(second.len() > name.len());
    } else {
        let first = numbered_name(name, a);
        assert(first =~= head + decimal_of(a) + tail);
        if first == second {
            assert(decimal_of(a).len() == decimal_of(b).len());
            assert forall|i: int| 0 <= i < decimal_of(a).len() implies decimal_of(a)[i]
                == decimal_of(b)[i] by {
                assert(first[head.len() + i] == decimal_of(a)[i]);
                assert(second[head.len() + i] == decimal_of(b)[i]);
            }
            assert(decimal_of(a) =~= decimal_of(b));
        }
    }
}

/// The first `k` names that are tried for a file.
pub open spec fn tried(name: Seq<char>, k: nat) -> Set<Seq<char>>
    decreases k,
{
    if k == 0 {
        Set::empty()
    } else {
        tried(name, (k - 1) as nat).insert(numbered_name(name, (k - 1) as nat))
    }
}

/// The first `k` names that are tried are `k` names.
pub proof fn lemma_tried(name: Seq<char>, k: nat)
    ensures
        tried(name, k).finite(),
        tried(name, k).len() == k,
        forall|c: Seq<char>|
            tried(name, k).contains(c) <==> exists|j: nat|
                j < k && c == #[trigger] numbered_name(name, j),
    decreases k,
{
    if k > 0 {
        let before = (k - 1) as nat;
        lemma_tried(name, before);
        let last = numbered_name(name, before);
        if tried(name, before).contains(last) {
            let j = choose|j: nat| j < before && last == #[trigger] numbered_name(name, j);
            lemma_numbered_names_differ(name, j, before);
        }
        assert forall|c: Seq<char>| tried(name, k).contains(c) <==> exists|j: nat|
            j < k && c == #[trigger] numbered_name(name, j) by {
            if tried(name, k).contains(c) {
                if c == last {
                    assert(before < k && c == numbered_name(name, before));
                } else {
                    let j = choose|j: nat| j < before && c == #[trigger] numbered_name(name, j);
                    assert(j < k && c == numbered_name(name, j));
                }
            }
            if exists|j: nat| j < k && c == #[trigger] numbered_name(name, j) {
                let j = choose|j: nat| j < k && c == #[trigger] numbered_name(name, j);
                if j < before {
                    assert(tried(name, before).contains(c));
                }
            }
        }
    }
}

/// No more of the names that are tried can be in use than names are in
/// use: where the first `k` are all in use, `k` is at most the number of
/// names in use.
pub proof fn lemma_names_in_use(name: Seq<char>, taken: Seq<Seq<char>>, k: nat)
    requires
        forall|j: nat| j < k ==> taken.contains(#[trigger] numbered_name(name, j)),
    ensures
        k <= taken.len(),
{
    broadcast use vstd::seq_lib::seq_to_set_is_finite;

    lemma_tried(name, k);
    assert(tried(name, k).subset_of(taken.to_set())) by {
        assert forall|c: Seq<char>| tried(name, k).contains(c) implies taken.to_set().contains(
            c,
        ) by {
            let j = choose|j: nat| j < k && c == #[trigger] numbered_name(name, j);
            assert(taken.contains(numbered_name(name, j)));
        }
    }
    vstd::set_lib::lemma_len_subset(tried(name, k), taken.to_set());
    taken.lemma_cardinality_of_set();
}

/// One of the names that are tried is free: the free name of a file is not
/// in use, and every name tried before it is.
pub proof fn lemma_free_name(name: Seq<char>, taken: Seq<Seq<char>>)
    ensures
        first_free(name, taken, 0, taken.len()) <= taken.len(),
        !taken.contains(free_name_of(name, taken)),
        forall|k: nat|
            k < first_free(name, taken, 0, taken.len()) ==> taken.contains(
                #[trigger] numbered_name(name, k),
            ),
{
    lemma_first_free(name, taken, 0, taken.len());
    let found = first_free(name, taken, 0, taken.len());
    if found > taken.len() {
        lemma_names_in_use(name, taken, found);
    }
}

fn is_taken(taken: &Vec<String>, name: &str) -> (r: bool)
    ensures
        r == texts(taken@).contains(name@),
{
    let mut i: usize = 0;
    while i < taken.len()
        invariant
            i <= taken.len(),
            forall|k: int| 0 <= k < i ==> texts(taken@)[k] != name@,
        decreases taken.len() - i,
    {
        if same_text(taken[i].as_str(), name) {
            assert(texts(taken@)[i as int] == name@);
            return true;
        }
        i += 1;
    }
    false
}

fn build_numbered_name(stem: &str, extension: &Option<String>, attempt: usize) -> (out: String)
    requires
        attempt > 0,
    ensures
        out@ == stem@ + seq!['_'] + decimal_of(attempt as nat) + match *extension {
            Some(e) => seq!['.'] + e@,
            None => Seq::<char>::empty(),
        },
{
    proof {
        reveal_strlit("_");
        reveal_strlit(".");
        assert("_"@ =~= seq!['_']);
        assert("."@ =~= seq!['.']);
    }
    let number = to_decimal(attempt as u64);
    let numbered = join3(stem, "_", number.as_str());
    match extension {
        Some(e) => join3(numbered.as_str(), ".", e.as_str()),
        None => {
            assert(numbered@ + Seq::<char>::empty() =~= numbered@);
            numbered
        },
    }
}

/// Finds a name for a file called `name` that is not among the names
/// `taken`: the name itself if it is free, else the name with `_1`, `_2`,
/// ... before its extension, the first that is free.
pub fn free_name(name: &str, taken: &Vec<String>) -> (out: String)
    ensures
        out@ == free_name_of(name@, texts(taken@)),
        !texts(taken@).contains(out@),
{
    proof {
        lemma_free_name(name@, texts(taken@));
    }
    if !is_taken(taken, name) {
        return name.to_owned();
    }
    let parts = split_file_name(name);
    let limit: usize = taken.len();
    assert(texts(taken@).len() == limit);
    let mut attempt: usize = 0;
    loop
        invariant
            limit == taken.len(),
            texts(taken@).len() == limit,
            parts.0@ == stem_in(name@),
            parts.1 is Some == extension_in(name@) is Some,
            parts.1 matches Some(e) ==> extension_in(name@) == Some(e@),
            forall|j: nat| j <= attempt ==> texts(taken@).contains(#[trigger] numbered_name(name@, j)),
            first_free(name@, texts(taken@), 0, limit as nat) == first_free(
                name@,
                texts(taken@),
                attempt as nat + 1,
                limit as nat,
            ),
            !texts(taken@).contains(free_name_of(name@, texts(taken@))),
        decreases limit - attempt,
    {
        proof {
            lemma_names_in_use(name@, texts(taken@), attempt as nat + 1);
        }
        attempt += 1;
        let candidate = build_numbered_name(parts.0.as_str(), &parts.1, attempt);
        assert(candidate@ =~= numbered_name(name@, attempt as nat));
        if !is_taken(taken, candidate.as_str()) {
            return candidate;
        }
        proof {
            assert forall|j: nat| j <= attempt implies texts(taken@).contains(
                #[trigger] numbered_name(name@, j),
            ) by {
                if j == attempt {
                    assert(texts(taken@).contains(candidate@));
                }
            }
        }
    }
}

/// Finds a path in `target` for the file `source`, where the names `taken`
/// are in use in `target`: the target joined with the file's own name if
/// that is free, else with its name with `_1`, `_2`, ... before the
/// extension, the first that is free. Only a path without a file name has no
/// destination.
pub fn get_unique_destination(target: &str, source: &str, taken: &Vec<String>) -> (out: Result<
    String,
    CullError,
>)
    ensures
        out is Ok <==> file_name_of(source@) is Some,
        out matches Ok(d) ==> destination_of(target@, source@, texts(taken@)) == Ok::<
            Seq<char>,
            CullError,
        >(d@),
        out matches Err(e) ==> e == CullError::NoFileName,
{
    match file_name(source) {
        Some(name) => {
            let free = free_name(name.as_str(), taken);
            Ok(join(target, free.as_str()))
        },
        None => Err(CullError::NoFileName),
    }
}

/// Which member of a group stays and which go.
#[derive(Debug, Clone, PartialEq, Eq)]
pub struct CullPlan {
    /// Position of the keeper in the group.
    pub keep_index: usize,
    /// The path of the keeper.
    pub keep: String,
    /// The paths of the other members, in the group's order.
    pub remove: Vec<String>,
}

/// Plans the cull of one group, whose members are given by their paths and
/// by what the strategy reads of them: the keeper is the one that
/// `strategy` selects, and every other member is removed.
pub fn plan_cull(paths: &Vec<String>, members: &Vec<Candidate>, strategy: &SelectionStrategy) -> (plan:
    CullPlan)
    requires
        paths.len() == members.len(),
        paths.len() > 0,
    ensures
        is_keeper(members@, *strategy, plan.keep_index as int),
        plan.keep == paths@[plan.keep_index as int],
        plan.remove@ == paths@.remove(plan.keep_index as int),
{
    let keep_index = select_keep(members, strategy);
    let mut remove: Vec<String> = Vec::new();
    let mut i: usize = 0;
    while i < paths.len()
        invariant
            i <= paths.len(),
            keep_index < paths.len(),
            remove@ == if i <= keep_index {
                paths@.take(i as int)
            } else {
                paths@.take(i as int).remove(keep_index as int)
            },
        decreases paths.len() - i,
    {
        if i != keep_index {
            remove.push(paths[i].clone());
        }
        i += 1;
        proof {
            let now = paths@.take(i as int);
            if i <= keep_index {
                assert(remove@ =~= now);
            } else {
                assert(remove@ =~= now.remove(keep_index as int));
            }
        }
    }
    assert(paths@.take(paths.len() as int) == paths@);
    CullPlan { keep_index, keep: paths[keep_index].clone(), remove }
}

/// One file to take out of its place, and where it goes in a move.
#[derive(Debug, PartialEq, Eq)]
pub struct CullStep {
    pub source: String,
    pub destination: Result<String, CullError>,
}

/// The names in use in the target directory after the first `k` of
/// `sources` have been given their destinations: those in use before, and
/// after them the name of each destination that was given, in order.
pub open spec fn taken_after(sources: Seq<String>, taken: Seq<Seq<char>>, k: int) -> Seq<Seq<char>>
    decreases k,
{
    if k <= 0 {
        taken
    } else {
        let before = taken_after(sources, taken, k - 1);
        match file_name_of(sources[k - 1]@) {
            Some(name) => before.push(free_name_of(name, before)),
            None => before,
        }
    }
}

/// The name under which the `k`-th of `sources` goes into the target
/// directory: the first free one, counting as taken the names given to the
/// sources before it. A source without a file name has none.
pub open spec fn planned_name(sources: Seq<String>, taken: Seq<Seq<char>>, k: int) -> Option<
    Seq<char>,
> {
    match file_name_of(sources[k]@) {
        Some(name) => Some(free_name_of(name, taken_after(sources, taken, k))),
        None => None,
    }
}

/// The destination that the `k`-th of `sources` is given.
pub open spec fn planned_destination(
    target: Seq<char>,
    sources: Seq<String>,
    taken: Seq<Seq<char>>,
    k: int,
) -> Result<Seq<char>, CullError> {
    destination_of(target, sources[k]@, taken_after(sources, taken, k))
}

/// What is in use after `k` sources holds all that was in use after fewer.
pub proof fn lemma_taken_grows(sources: Seq<String>, taken: Seq<Seq<char>>, j: int, k: int)
    requires
        0 <= j <= k,
    ensures
        forall|p: Seq<char>|
            taken_after(sources, taken, j).contains(p) ==> taken_after(sources, taken, k).contains(
                p,
            ),
        j < k && planned_name(sources, taken, j) is Some ==> taken_after(
            sources,
            taken,
            k,
        ).contains(planned_name(sources, taken, j)->0),
    decreases k - j,
{
    if j < k {
        lemma_taken_grows(sources, taken, j, k - 1);
        let before = taken_after(sources, taken, k - 1);
        let now = taken_after(sources, taken, k);
        assert forall|p: Seq<char>| before.contains(p) implies now.contains(p) by {
            let i = choose|i: int| 0 <= i < before.len() && before[i] == p;
            assert(now[i] == p);
        }
        if j == k - 1 {
            if let Some(name) = planned_name(sources, taken, j) {
                assert(now[now.len() - 1] == name);
            }
        }
    }
}

/// No two files of one plan go into the target directory under the same
/// name, and none under a name that was in use.
pub proof fn lemma_names_distinct(sources: Seq<String>, taken: Seq<Seq<char>>, j: int, k: int)
    requires
        0 <= j < k < sources.len(),
        planned_name(sources, taken, j) is Some,
        planned_name(sources, taken, k) is Some,
    ensures
        planned_name(sources, taken, j) != planned_name(sources, taken, k),
        !taken.contains(planned_name(sources, taken, k)->0),
{
    lemma_taken_grows(sources, taken, j, k);
    lemma_taken_grows(sources, taken, 0, k);
    lemma_free_name(file_name_of(sources[k]@)->0, taken_after(sources, taken, k));
}

/// Gives each of `sources` its destination in `target`, in order. `taken`
/// lists the names in use there. A name that was given counts as taken for
/// the files after it. Every source with a file name is given a
/// destination.
pub fn plan_moves(sources: &Vec<String>, target: &str, taken: &Vec<String>) -> (steps: Vec<
    CullStep,
>)
    ensures
        steps@.len() == sources@.len(),
        forall|k: int|
            0 <= k < steps@.len() ==> {
                &&& (#[trigger] steps@[k]).source == sources@[k]
                &&& steps@[k].destination is Ok <==> file_name_of(sources@[k]@) is Some
                &&& match steps@[k].destination {
                    Ok(d) => planned_destination(target@, sources@, texts(taken@), k) == Ok::<
                        Seq<char>,
                        CullError,
                    >(d@),
                    Err(e) => e == CullError::NoFileName,
                }
            },
{
    let mut in_use: Vec<String> = Vec::new();
    let mut t: usize = 0;
    while t < taken.len()
        invariant
            t <= taken.len(),
            texts(in_use@) == texts(taken@).take(t as int),
        decreases taken.len() - t,
    {
        let ghost before = in_use@;
        in_use.push(taken[t].clone());
        t += 1;
        assert(texts(in_use@) =~= texts(before).push(taken@[t as int - 1]@));
        assert(texts(taken@).take(t as int) =~= texts(taken@).take(t as int - 1).push(
            taken@[t as int - 1]@,
        ));
    }
    assert(texts(taken@).take(taken.len() as int) == texts(taken@));
    let mut steps: Vec<CullStep> = Vec::new();
    let mut i: usize = 0;
    while i < sources.len()
        invariant
            i <= sources.len(),
            steps@.len() == i,
            texts(in_use@) == taken_after(sources@, texts(taken@), i as int),
            forall|k: int|
                0 <= k < i ==> {
                    &&& (#[trigger] steps@[k]).source == sources@[k]
                    &&& steps@[k].destination is Ok <==> file_name_of(sources@[k]@) is Some
                    &&& match steps@[k].destination {
                        Ok(d) => planned_destination(target@, sources@, texts(taken@), k) == Ok::<
                            Seq<char>,
                            CullError,
                        >(d@),
                        Err(e) => e == CullError::NoFileName,
                    }
                },
        decreases sources.len() - i,
    {
        let destination: Result<String, CullError> = match file_name(sources[i].as_str()) {
            Some(name) => {
                let free = free_name(name.as_str(), &in_use);
                let place = join(target, free.as_str());
                let ghost before = in_use@;
                in_use.push(free);
                assert(texts(in_use@) =~= texts(before).push(free_name_of(name@, texts(before))));
                Ok(place)
            },
            None => Err(CullError::NoFileName),
        };
        steps.push(CullStep { source: sources[i].clone(), destination });
        i += 1;
    }
    steps
}

/// How many files a cull took out of their place, and on how many it failed.
#[derive(Debug, Clone, Copy, PartialEq, Eq, Structural)]
pub struct CullReport {
    pub succeeded: usize,
    pub failed: usize,
}

/// How many of the first `k` outcomes are successes.
pub open spec fn successes(outcomes: Seq<bool>, k: int) -> nat
    decreases k,
{
    if k <= 0 {
        0
    } else {
        successes(outcomes, k - 1) + if outcomes[k - 1] {
            1nat
        } else {
            0nat
        }
    }
}

/// Counts the successes and failures of a cull, one outcome per file.
pub fn summarize(outcomes: &Vec<bool>) -> (report: CullReport)
    ensures
        report.succeeded == successes(outcomes@, outcomes@.len() as int),
        report.succeeded + report.failed == outcomes@.len(),
{
    let mut succeeded: usize = 0;
    let mut failed: usize = 0;
    let mut i: usize = 0;
    while i < outcomes.len()
        invariant
            i <= outcomes.len(),
            succeeded == successes(outcomes@, i as int),
            succeeded + failed == i,
        decreases outcomes.len() - i,
    {
        if outcomes[i] {
            succeeded += 1;
        } else {
            failed += 1;
        }
        i += 1;
    }
    CullReport { succeeded, failed }
}

/// Whether the `k`-th file of a plan was in fact moved: the move succeeded,
/// and the file had a destination.
pub open spec fn was_moved(steps: Seq<CullStep>, outcomes: Seq<bool>, k: int) -> bool {
    outcomes[k] && steps[k].destination is Ok
}

/// Of the first `k` files of a plan, those that were in fact moved, each
/// with the place to which it was moved, in order.
pub open spec fn moved_files(steps: Seq<CullStep>, outcomes: Seq<bool>, k: int) -> Seq<CulledFile>
    decreases k,
{
    if k <= 0 {
        Seq::empty()
    } else {
        let before = moved_files(steps, outcomes, k - 1);
        if was_moved(steps, outcomes, k - 1) {
            before.push(
                CulledFile {
                    path: steps[k - 1].source,
                    moved_to: Some(steps[k - 1].destination->Ok_0),
                },
            )
        } else {
            before
        }
    }
}

/// Of the first `k` of `sources`, those that were in fact deleted, in order.
pub open spec fn deleted_files(sources: Seq<String>, outcomes: Seq<bool>, k: int) -> Seq<CulledFile>
    decreases k,
{
    if k <= 0 {
        Seq::empty()
    } else {
        let before = deleted_files(sources, outcomes, k - 1);
        if outcomes[k - 1] {
            before.push(CulledFile { path: sources[k - 1], moved_to: None })
        } else {
            before
        }
    }
}

/// Of the first `k` files of a plan, the moves that succeeded and changed
/// the place of a file, as pairs of the path moved from and the place moved
/// to, in order.
pub open spec fn moves_made(steps: Seq<CullStep>, outcomes: Seq<bool>, k: int) -> Seq<
    (Seq<char>, Seq<char>),
>
    decreases k,
{
    if k <= 0 {
        Seq::empty()
    } else {
        let before = moves_made(steps, outcomes, k - 1);
        if was_moved(steps, outcomes, k - 1) && steps[k - 1].destination->Ok_0@ != steps[k
            - 1].source@ {
            before.push((steps[k - 1].source@, steps[k - 1].destination->Ok_0@))
        } else {
            before
        }
    }
}

/// Each of the moves, the other way round.
pub open spec fn inverses(moves: Seq<(Seq<char>, Seq<char>)>) -> Seq<(Seq<char>, Seq<char>)> {
    Seq::new(moves.len(), |i: int| (moves[i].1, moves[i].0))
}

/// Restoring undoes the cull: the moves that restore the files of a record
/// of a move are the moves that the cull made, each the other way round and
/// in the same order.
pub proof fn lemma_restore_inverts_moves(steps: Seq<CullStep>, outcomes: Seq<bool>, k: int)
    requires
        0 <= k <= steps.len(),
        k <= outcomes.len(),
    ensures
        restore_moves(moved_files(steps, outcomes, k)) == inverses(moves_made(steps, outcomes, k)),
    decreases k,
{
    if k > 0 {
        lemma_restore_inverts_moves(steps, outcomes, k - 1);
        let files = moved_files(steps, outcomes, k);
        let before = moved_files(steps, outcomes, k - 1);
        if was_moved(steps, outcomes, k - 1) {
            assert(files.drop_last() =~= before);
        }
        assert(restore_moves(files) =~= inverses(moves_made(steps, outcomes, k)));
    } else {
        assert(restore_moves(moved_files(steps, outcomes, k)) =~= inverses(
            moves_made(steps, outcomes, k),
        ));
    }
}

/// The history record of a cull of one group. A dry run leaves none. A
/// move or a deletion leaves one record for the whole group, which lists the
/// kept path and, in order, the files that were in fact moved or deleted;
/// `outcomes` tells for each file of the plan whether it was. The record of
/// a move holds for each file the place to which it was moved, as `steps`
/// gives it.
pub fn record_cull(
    plan: &CullPlan,
    steps: &Vec<CullStep>,
    outcomes: &Vec<bool>,
    mode: CullMode,
    timestamp: &str,
) -> (record: Option<HistoryRecord>)
    requires
        outcomes.len() == plan.remove.len(),
        mode == CullMode::Move ==> steps.len() == plan.remove.len(),
    ensures
        record is None <==> mode == CullMode::DryRun,
        record matches Some(r) ==> {
            &&& r.timestamp@ == timestamp@
            &&& r.kept == plan.keep
            &&& r.culled@ == if mode == CullMode::Move {
                moved_files(steps@, outcomes@, outcomes@.len() as int)
            } else {
                deleted_files(plan.remove@, outcomes@, outcomes@.len() as int)
            }
            &&& r.action == if mode == CullMode::Move {
                HistoryAction::Moved
            } else {
                HistoryAction::Deleted
            }
        },
{
    let mut culled: Vec<CulledFile> = Vec::new();
    let mut i: usize = 0;
    match mode {
        CullMode::DryRun => {
            return None;
        },
        CullMode::Move => {
            while i < outcomes.len()
                invariant
                    i <= outcomes.len(),
                    outcomes.len() == steps.len(),
                    culled@ == moved_files(steps@, outcomes@, i as int),
                decreases outcomes.len() - i,
            {
                if outcomes[i] {
                    match &steps[i].destination {
                        Ok(place) => {
                            culled.push(
                                CulledFile {
                                    path: steps[i].source.clone(),
                                    moved_to: Some(place.clone()),
                                },
                            );
                        },
                        Err(_) => {},
                    }
                }
                i += 1;
            }
            Some(
                HistoryRecord {
                    timestamp: timestamp.to_owned(),
                    kept: plan.keep.clone(),
                    culled,
                    action: HistoryAction::Moved,
                },
            )
        },
        CullMode::Delete => {
            while i < outcomes.len()
                invariant
                    i <= outcomes.len(),
                    outcomes.len() == plan.remove.len(),
                    culled@ == deleted_files(plan.remove@, outcomes@, i as int),
                decreases outcomes.len() - i,
            {
                if outcomes[i] {
                    culled.push(CulledFile { path: plan.remove[i].clone(), moved_to: None });
                }
                i += 1;
            }
            Some(
                HistoryRecord {
                    timestamp: timestamp.to_owned(),
                    kept: plan.keep.clone(),
                    culled,
                    action: HistoryAction::Deleted,
                },
            )
        },
    }
}

} // verus!
