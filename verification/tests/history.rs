use cullrs::history::{
    plan_restore, CulledFile, HistoryAction, HistoryError, HistoryLog, HistoryRecord, RestoreStep,
};
use cullrs::logfile::{collect_records, join_lines, split_lines};

fn strings(items: &[&str]) -> Vec<String> {
    items.iter().map(|s| s.to_string()).collect()
}

fn record(stamp: &str, culled: &[&str], action: HistoryAction) -> HistoryRecord {
    HistoryRecord {
        timestamp: stamp.to_string(),
        kept: "/p/kept.jpg".to_string(),
        culled: culled
            .iter()
            .map(|path| CulledFile {
                path: path.to_string(),
                moved_to: match action {
                    HistoryAction::Moved => Some(format!("/target/moved_{}", path.len())),
                    HistoryAction::Deleted => None,
                },
            })
            .collect(),
        action,
    }
}

fn sample_log() -> HistoryLog {
    HistoryLog::from_records(vec![
        record("t0", &["/p/a.jpg", "/q/b.jpg"], HistoryAction::Moved),
        record("t1", &["/p/c.jpg"], HistoryAction::Deleted),
        record("t2", &["/p/d.jpg"], HistoryAction::Moved),
        record("t3", &["/p/e.jpg"], HistoryAction::Deleted),
    ])
}

#[test]
fn restoring_a_move_brings_every_file_back() {
    let mut log = sample_log();
    let steps = log.restore(0).unwrap();
    assert_eq!(
        steps,
        vec![
            RestoreStep { from: "/target/moved_8".to_string(), to: "/p/a.jpg".to_string() },
            RestoreStep { from: "/target/moved_8".to_string(), to: "/q/b.jpg".to_string() },
        ]
    );
    let stamps: Vec<&str> = log.records().iter().map(|r| r.timestamp.as_str()).collect();
    assert_eq!(stamps, vec!["t1", "t2", "t3"]);
}

#[test]
fn restoring_from_the_middle_keeps_the_order_of_the_rest() {
    let mut log = sample_log();
    log.restore(2).unwrap();
    let stamps: Vec<&str> = log.records().iter().map(|r| r.timestamp.as_str()).collect();
    assert_eq!(stamps, vec!["t0", "t1", "t3"]);
    assert_eq!(log.len(), 3);
}

#[test]
fn a_deletion_cannot_be_restored() {
    let mut log = sample_log();
    assert_eq!(log.restore(1), Err(HistoryError::NotReversible));
    assert_eq!(log.len(), 4);
    assert_eq!(log.records(), sample_log().records());
    assert_eq!(
        plan_restore(&record("t", &["/p/a.jpg"], HistoryAction::Deleted)),
        Err(HistoryError::NotReversible)
    );
}

#[test]
fn a_record_that_is_not_there_cannot_be_restored() {
    let mut log = sample_log();
    assert_eq!(log.restore(4), Err(HistoryError::NoSuchRecord));
    assert_eq!(log.len(), 4);
    assert_eq!(HistoryLog::new().restore(0), Err(HistoryError::NoSuchRecord));
}

#[test]
fn files_that_are_in_their_place_are_skipped() {
    let held = HistoryRecord {
        timestamp: "t".to_string(),
        kept: "/p/kept.jpg".to_string(),
        culled: vec![
            CulledFile { path: "/t/a.jpg".to_string(), moved_to: Some("/t/a.jpg".to_string()) },
            CulledFile { path: "/p/b.jpg".to_string(), moved_to: Some("/t/b_1.jpg".to_string()) },
            CulledFile { path: "/p/c.jpg".to_string(), moved_to: None },
        ],
        action: HistoryAction::Moved,
    };
    assert_eq!(
        plan_restore(&held),
        Ok(vec![RestoreStep { from: "/t/b_1.jpg".to_string(), to: "/p/b.jpg".to_string() }])
    );
}

#[test]
fn restoring_all_takes_every_move_and_leaves_the_deletions() {
    let mut log = sample_log();
    let steps = log.restore_all();
    let targets: Vec<&str> = steps.iter().map(|s| s.to.as_str()).collect();
    assert_eq!(targets, vec!["/p/a.jpg", "/q/b.jpg", "/p/d.jpg"]);
    let stamps: Vec<&str> = log.records().iter().map(|r| r.timestamp.as_str()).collect();
    assert_eq!(stamps, vec!["t1", "t3"]);

    let mut empty = HistoryLog::new();
    assert!(empty.restore_all().is_empty());
    assert_eq!(empty.len(), 0);
}

#[test]
fn the_log_grows_at_its_end() {
    let mut log = HistoryLog::new();
    assert_eq!(log.len(), 0);
    log.append(record("t0", &[], HistoryAction::Moved));
    log.append(record("t1", &[], HistoryAction::Deleted));
    assert_eq!(log.len(), 2);
    assert_eq!(log.records()[0].timestamp, "t0");
    assert_eq!(log.records()[1].timestamp, "t1");
}

#[test]
fn lines_are_split_at_line_feeds() {
    assert_eq!(split_lines(""), Vec::<String>::new());
    assert_eq!(split_lines("a"), strings(&["a"]));
    assert_eq!(split_lines("a\n"), strings(&["a"]));
    assert_eq!(split_lines("a\n\nb"), strings(&["a", "", "b"]));
    assert_eq!(split_lines("\n"), strings(&[""]));
    assert_eq!(split_lines("one\ntwo\nthree\n"), strings(&["one", "two", "three"]));
}

#[test]
fn lines_are_written_and_read_back() {
    let lines = strings(&["{\"a\":1}", "", "third line"]);
    let text = join_lines(&lines);
    assert_eq!(text, "{\"a\":1}\n\nthird line\n");
    assert_eq!(split_lines(&text), lines);
    assert_eq!(join_lines(&vec![]), "");
}

#[test]
fn unreadable_lines_are_passed_over() {
    let first = record("t0", &["/p/a.jpg"], HistoryAction::Moved);
    let second = record("t1", &[], HistoryAction::Deleted);
    let records =
        collect_records(vec![None, Some(first.clone()), None, None, Some(second.clone())]);
    assert_eq!(records, vec![first, second]);
    assert!(collect_records(vec![None, None]).is_empty());
}
