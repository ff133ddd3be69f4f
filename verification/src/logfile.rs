//! The history log as a file: one record to a line. This module frames the
//! lines; what a line says is for the caller to read and write, and a line
//! that cannot be read is passed over.

use vstd::prelude::*;
use crate::history::HistoryRecord;
use crate::text::{chars_of, fields_of, scan_fields, split_fields, string_of, texts};

verus! {

/// The lines of `text`. Lines end at a line feed; what follows the last
/// line feed is a line too, unless it is empty.
pub open spec fn lines_of(text: Seq<char>) -> Seq<Seq<char>> {
    let (lines, pending) = scan_fields(text, '\n');
    if pending.len() > 0 {
        lines.push(pending)
    } else {
        lines
    }
}

/// The first `k` of `lines`, each closed by a line feed.
pub open spec fn framed(lines: Seq<Seq<char>>, k: int) -> Seq<char>
    decreases k,
{
    if k <= 0 {
        Seq::empty()
    } else {
        framed(lines, k - 1) + lines[k - 1] + seq!['\n']
    }
}

/// Whether a line has no line feed in it.
pub open spec fn is_single_line(line: Seq<char>) -> bool {
    forall|i: int| 0 <= i < line.len() ==> line[i] != '\n'
}

/// Splits a text into its lines.
pub fn split_lines(text: &str) -> (lines: Vec<String>)
    ensures
        texts(lines@) == lines_of(text@),
{
    let mut lines = split_fields(text, '\n');
    let last: usize = lines.len() - 1;
    assert(texts(lines@)[last as int] == lines@[last as int]@);
    if lines[last].as_str().is_empty() {
        let ghost before = lines@;
        lines.pop();
        assert(texts(lines@) =~= texts(before).drop_last());
        assert(fields_of(text@, '\n').drop_last() =~= scan_fields(text@, '\n').0);
    }
    lines
}

/// Writes the lines one after the other, each closed by a line feed.
pub fn join_lines(lines: &Vec<String>) -> (text: String)
    ensures
        text@ == framed(texts(lines@), lines@.len() as int),
{
    let mut out: Vec<char> = Vec::new();
    let mut i: usize = 0;
    while i < lines.len()
        invariant
            i <= lines.len(),
            out@ == framed(texts(lines@), i as int),
        decreases lines.len() - i,
    {
        let chars = chars_of(lines[i].as_str());
        let ghost before = out@;
        let mut k: usize = 0;
        while k < chars.len()
            invariant
                k <= chars.len(),
                out@ == before + chars@.take(k as int),
            decreases chars.len() - k,
        {
            out.push(chars[k]);
            k += 1;
            assert(before + chars@.take(k as int) =~= (before + chars@.take(k as int - 1)).push(
                chars@[k as int - 1],
            ));
        }
        assert(chars@.take(chars.len() as int) == chars@);
        out.push('\n');
        i += 1;
        assert(out@ =~= framed(texts(lines@), i as int));
    }
    string_of(&out)
}

/// Scanning a text that is followed by a line without a line feed leaves
/// that line pending after what was pending.
pub proof fn lemma_scan_append(text: Seq<char>, line: Seq<char>)
    requires
        is_single_line(line),
    ensures
        scan_fields(text + line, '\n') == (
            scan_fields(text, '\n').0,
            scan_fields(text, '\n').1 + line,
        ),
    decreases line.len(),
{
    if line.len() == 0 {
        assert(text + line =~= text);
        assert(scan_fields(text, '\n').1 + line =~= scan_fields(text, '\n').1);
    } else {
        lemma_scan_append(text, line.drop_last());
        assert((text + line).drop_last() =~= text + line.drop_last());
        assert(scan_fields(text, '\n').1 + line =~= (scan_fields(text, '\n').1
            + line.drop_last()).push(line.last()));
    }
}

/// Lines that are written to a file are read back as they were, provided
/// that none of them has a line feed in it.
pub proof fn lemma_lines_round_trip(lines: Seq<Seq<char>>, k: int)
    requires
        0 <= k <= lines.len(),
        forall|i: int| 0 <= i < lines.len() ==> is_single_line(#[trigger] lines[i]),
    ensures
        scan_fields(framed(lines, k), '\n') == (lines.take(k), Seq::<char>::empty()),
        lines_of(framed(lines, k)) == lines.take(k),
    decreases k,
{
    if k > 0 {
        lemma_lines_round_trip(lines, k - 1);
        let head = framed(lines, k - 1);
        lemma_scan_append(head, lines[k - 1]);
        let whole = head + lines[k - 1] + seq!['\n'];
        assert(whole.drop_last() =~= head + lines[k - 1]);
        assert(Seq::<char>::empty() + lines[k - 1] =~= lines[k - 1]);
        assert(lines.take(k - 1).push(lines[k - 1]) =~= lines.take(k));
    } else {
        assert(lines.take(0) =~= Seq::<Seq<char>>::empty());
    }
}

/// Of the first `k` lines as they were read, the records of those that
/// could be read, in order.
pub open spec fn readable(parsed: Seq<Option<HistoryRecord>>, k: int) -> Seq<HistoryRecord>
    decreases k,
{
    if k <= 0 {
        Seq::empty()
    } else {
        let before = readable(parsed, k - 1);
        match parsed[k - 1] {
            Some(record) => before.push(record),
            None => before,
        }
    }
}

/// Gathers the records of a log from its lines as they were read, `None`
/// standing for a line that could not be read: such a line is passed over,
/// and the lines after it are read all the same.
pub fn collect_records(parsed: Vec<Option<HistoryRecord>>) -> (records: Vec<HistoryRecord>)
    ensures
        records@ == readable(parsed@, parsed@.len() as int),
{
    let ghost all = parsed@;
    let mut records: Vec<HistoryRecord> = Vec::new();
    for entry in it: parsed
        invariant
            it.seq() == all,
            records@ == readable(all, it.index() as int),
    {
        match entry {
            Some(record) => {
                records.push(record);
            },
            None => {},
        }
    }
    records
}

} // verus!
