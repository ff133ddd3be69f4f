use cullrs::selection::{order_by_strategy, select_keep, suggest_keep, Candidate, SelectionStrategy};

fn candidate(created: i128, size: u64) -> Candidate {
    Candidate { created: Some(created), size: Some(size) }
}

#[test]
fn oldest_keeps_the_first_created() {
    let group = vec![candidate(30, 1), candidate(10, 2), candidate(20, 3)];
    assert_eq!(select_keep(&group, &SelectionStrategy::Oldest), 1);
}

#[test]
fn newest_keeps_the_last_created() {
    let group = vec![candidate(30, 1), candidate(10, 2), candidate(40, 3)];
    assert_eq!(select_keep(&group, &SelectionStrategy::Newest), 2);
}

#[test]
fn largest_keeps_the_most_bytes() {
    let group = vec![candidate(1, 100), candidate(2, 300), candidate(3, 200)];
    assert_eq!(select_keep(&group, &SelectionStrategy::Largest), 1);
}

#[test]
fn smallest_keeps_the_fewest_bytes() {
    let group = vec![candidate(1, 100), candidate(2, 300), candidate(3, 50)];
    assert_eq!(select_keep(&group, &SelectionStrategy::Smallest), 2);
}

#[test]
fn ties_keep_the_first_in_discovery_order() {
    let group = vec![candidate(10, 5), candidate(10, 5), candidate(10, 5)];
    assert_eq!(select_keep(&group, &SelectionStrategy::Oldest), 0);
    assert_eq!(select_keep(&group, &SelectionStrategy::Newest), 0);
    assert_eq!(select_keep(&group, &SelectionStrategy::Largest), 0);
    assert_eq!(select_keep(&group, &SelectionStrategy::Smallest), 0);

    let later = vec![candidate(30, 1), candidate(10, 9), candidate(10, 9)];
    assert_eq!(select_keep(&later, &SelectionStrategy::Oldest), 1);
    assert_eq!(select_keep(&later, &SelectionStrategy::Largest), 1);
}

#[test]
fn unknown_creation_time_counts_as_the_epoch() {
    let group = vec![candidate(5, 1), Candidate { created: None, size: Some(1) }, candidate(-3, 1)];
    assert_eq!(select_keep(&group, &SelectionStrategy::Oldest), 2);
    assert_eq!(select_keep(&group, &SelectionStrategy::Newest), 0);
    let epoch_first = vec![Candidate { created: None, size: None }, candidate(0, 1)];
    assert_eq!(select_keep(&epoch_first, &SelectionStrategy::Oldest), 0);
}

#[test]
fn unknown_size_is_never_preferred() {
    let group = vec![Candidate { created: Some(1), size: None }, candidate(2, 0), candidate(3, 7)];
    assert_eq!(select_keep(&group, &SelectionStrategy::Largest), 2);
    assert_eq!(select_keep(&group, &SelectionStrategy::Smallest), 1);
}

#[test]
fn empty_group_has_no_keeper() {
    assert_eq!(suggest_keep(&vec![], &SelectionStrategy::Oldest), None);
    assert_eq!(suggest_keep(&vec![candidate(1, 1)], &SelectionStrategy::Largest), Some(0));
}

#[test]
fn ordering_is_stable() {
    let group = vec![
        candidate(30, 1),
        candidate(10, 2),
        candidate(20, 3),
        candidate(10, 4),
        candidate(30, 5),
    ];
    assert_eq!(order_by_strategy(&group, &SelectionStrategy::Oldest), vec![1, 3, 2, 0, 4]);
    assert_eq!(order_by_strategy(&group, &SelectionStrategy::Newest), vec![0, 4, 2, 1, 3]);
    assert_eq!(order_by_strategy(&group, &SelectionStrategy::Largest), vec![4, 3, 2, 1, 0]);
    assert_eq!(order_by_strategy(&group, &SelectionStrategy::Smallest), vec![0, 1, 2, 3, 4]);
    assert!(order_by_strategy(&vec![], &SelectionStrategy::Oldest).is_empty());
}

#[test]
fn keeper_is_first_in_the_ordering() {
    let group = vec![candidate(7, 3), candidate(7, 9), candidate(2, 9), candidate(2, 1)];
    for strategy in [
        SelectionStrategy::Oldest,
        SelectionStrategy::Newest,
        SelectionStrategy::Largest,
        SelectionStrategy::Smallest,
    ] {
        let order = order_by_strategy(&group, &strategy);
        assert_eq!(order[0], select_keep(&group, &strategy));
    }
}
