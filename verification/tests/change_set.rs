use genesis_tools::change_set::{
    copy_op, delta_eq, deltas_eq, merge, op_eq, ChangeSet, DeltaOp, MergeError, WriteEntry,
    WriteOp, WriteSet,
};
use genesis_tools::events::{new_epoch_event_key, ContractEvent, EventKey};

fn write(bytes: &[u8]) -> WriteOp {
    WriteOp::Write(bytes.to_vec())
}

fn writes(entries: &[(&[u8], WriteOp)]) -> WriteSet {
    let mut set = WriteSet::new();
    for (key, op) in entries {
        set.insert(key.to_vec(), copy_op(op));
    }
    set
}

fn new_epoch(sequence_number: u64) -> ContractEvent {
    ContractEvent {
        key: new_epoch_event_key(),
        sequence_number,
        type_tag: b"NewEpochEvent".to_vec(),
        data: vec![1],
    }
}

fn other_event(data: u8) -> ContractEvent {
    ContractEvent {
        key: EventKey { creation_number: 0, account: [7u8; 32] },
        sequence_number: 0,
        type_tag: b"Other".to_vec(),
        data: vec![data],
    }
}

fn delta(key: &[u8]) -> DeltaOp {
    DeltaOp { key: key.to_vec(), increase: true, amount: 5 }
}

fn initialization() -> ChangeSet {
    ChangeSet {
        write_set: writes(&[(b"chain_id", write(&[4])), (b"validator_set", write(&[1, 0]))]),
        events: vec![other_event(1), new_epoch(0)],
        deltas: Vec::new(),
    }
}

fn publication() -> ChangeSet {
    ChangeSet {
        write_set: writes(&[(b"code/coin", write(&[0xa1])), (b"code/stake", write(&[0xeb]))]),
        events: Vec::new(),
        deltas: Vec::new(),
    }
}

#[test]
fn a_new_write_set_is_empty() {
    let set = WriteSet::new();
    assert_eq!(set.len(), 0);
    assert!(set.entries().is_empty());
    assert_eq!(set.get(b"chain_id"), None);
    assert!(!set.has_deletion());
}

#[test]
fn an_inserted_operation_is_found_under_its_key() {
    let mut set = WriteSet::new();
    set.insert(b"a".to_vec(), write(&[1]));
    set.insert(b"b".to_vec(), WriteOp::Deletion);
    assert_eq!(set.len(), 2);
    assert_eq!(set.get(b"a"), Some(&write(&[1])));
    assert_eq!(set.get(b"b"), Some(&WriteOp::Deletion));
    assert_eq!(set.get(b"c"), None);
    assert_eq!(set.get(b""), None);
}

#[test]
fn inserting_under_a_held_key_replaces_the_operation() {
    let mut set = WriteSet::new();
    set.insert(b"a".to_vec(), write(&[1]));
    set.insert(b"b".to_vec(), write(&[2]));
    set.insert(b"a".to_vec(), write(&[3]));
    assert_eq!(set.len(), 2);
    assert_eq!(set.get(b"a"), Some(&write(&[3])));
    assert_eq!(set.get(b"b"), Some(&write(&[2])));
    assert_eq!(
        set.entries(),
        &vec![
            WriteEntry { key: b"a".to_vec(), op: write(&[3]) },
            WriteEntry { key: b"b".to_vec(), op: write(&[2]) },
        ]
    );
}

#[test]
fn a_deletion_is_noticed_until_it_is_overwritten() {
    let mut set = writes(&[(b"a", write(&[1])), (b"b", WriteOp::Deletion)]);
    assert!(set.has_deletion());
    set.insert(b"b".to_vec(), write(&[2]));
    assert!(!set.has_deletion());
    set.insert(b"a".to_vec(), WriteOp::Deletion);
    assert!(set.has_deletion());
}

#[test]
fn absorbing_lets_the_later_set_win() {
    let mut set = writes(&[(b"a", write(&[1])), (b"b", write(&[2]))]);
    let later = writes(&[(b"b", write(&[20])), (b"c", write(&[30]))]);
    set.absorb(&later);
    assert_eq!(set.len(), 3);
    assert_eq!(set.get(b"a"), Some(&write(&[1])));
    assert_eq!(set.get(b"b"), Some(&write(&[20])));
    assert_eq!(set.get(b"c"), Some(&write(&[30])));
    assert_eq!(later.len(), 2);
}

#[test]
fn absorbing_an_empty_set_changes_nothing() {
    let mut set = writes(&[(b"a", write(&[1]))]);
    set.absorb(&WriteSet::new());
    assert!(set.same_as(&writes(&[(b"a", write(&[1]))])));
    let mut empty = WriteSet::new();
    empty.absorb(&set);
    assert!(empty.same_as(&set));
}

#[test]
fn write_sets_compare_as_mappings() {
    let one = writes(&[(b"a", write(&[1])), (b"b", write(&[2]))]);
    let other_order = writes(&[(b"b", write(&[2])), (b"a", write(&[1]))]);
    let smaller = writes(&[(b"a", write(&[1]))]);
    let other_bytes = writes(&[(b"a", write(&[1])), (b"b", write(&[3]))]);
    let deleting = writes(&[(b"a", write(&[1])), (b"b", WriteOp::Deletion)]);
    assert!(one.same_as(&other_order));
    assert!(!one.same_as(&smaller));
    assert!(!smaller.same_as(&one));
    assert!(!one.same_as(&other_bytes));
    assert!(!one.same_as(&deleting));
    assert!(one.includes(&smaller));
    assert!(!smaller.includes(&one));
    assert!(one.includes(&WriteSet::new()));
    assert!(!one.includes(&other_bytes));
}

#[test]
fn operations_compare_by_kind_and_bytes() {
    assert!(op_eq(&write(&[1, 2]), &write(&[1, 2])));
    assert!(!op_eq(&write(&[1, 2]), &write(&[1])));
    assert!(!op_eq(&write(&[]), &WriteOp::Deletion));
    assert!(op_eq(&WriteOp::Deletion, &WriteOp::Deletion));
    assert_eq!(copy_op(&write(&[9, 8])), write(&[9, 8]));
    assert_eq!(copy_op(&WriteOp::Deletion), WriteOp::Deletion);
}

#[test]
fn deltas_compare_field_by_field() {
    assert!(delta_eq(&delta(b"supply"), &delta(b"supply")));
    assert!(!delta_eq(&delta(b"supply"), &delta(b"other")));
    let decrease = DeltaOp { increase: false, ..delta(b"supply") };
    assert!(!delta_eq(&delta(b"supply"), &decrease));
    let larger = DeltaOp { amount: 6, ..delta(b"supply") };
    assert!(!delta_eq(&delta(b"supply"), &larger));
    assert!(deltas_eq(&Vec::new(), &Vec::new()));
    assert!(deltas_eq(&vec![delta(b"a"), delta(b"b")], &vec![delta(b"a"), delta(b"b")]));
    assert!(!deltas_eq(&vec![delta(b"a"), delta(b"b")], &vec![delta(b"b"), delta(b"a")]));
    assert!(!deltas_eq(&vec![delta(b"a")], &Vec::new()));
}

#[test]
fn merging_two_clean_sessions_joins_writes_and_events() {
    let merged = merge(initialization(), publication()).unwrap();
    assert_eq!(merged.write_set.len(), 4);
    assert_eq!(merged.write_set.get(b"chain_id"), Some(&write(&[4])));
    assert_eq!(merged.write_set.get(b"validator_set"), Some(&write(&[1, 0])));
    assert_eq!(merged.write_set.get(b"code/coin"), Some(&write(&[0xa1])));
    assert_eq!(merged.write_set.get(b"code/stake"), Some(&write(&[0xeb])));
    assert_eq!(merged.events, vec![other_event(1), new_epoch(0)]);
    assert!(merged.deltas.is_empty());
    assert!(!merged.write_set.has_deletion());
}

#[test]
fn merging_keeps_the_events_of_the_first_session_first() {
    let mut second = publication();
    second.events = vec![other_event(2), other_event(3)];
    let merged = merge(initialization(), second).unwrap();
    assert_eq!(
        merged.events,
        vec![other_event(1), new_epoch(0), other_event(2), other_event(3)]
    );
}

#[test]
fn merging_lets_the_publication_overwrite_the_initialization() {
    let mut second = publication();
    second.write_set.insert(b"chain_id".to_vec(), write(&[9, 9]));
    let merged = merge(initialization(), second).unwrap();
    assert_eq!(merged.write_set.len(), 4);
    assert_eq!(merged.write_set.get(b"chain_id"), Some(&write(&[9, 9])));
}

#[test]
fn merging_is_order_significant() {
    let mut first = initialization();
    first.write_set.insert(b"shared".to_vec(), write(&[1]));
    let mut second = publication();
    second.write_set.insert(b"shared".to_vec(), write(&[2]));
    second.events = vec![];
    let forward = merge(first, second).unwrap();
    assert_eq!(forward.write_set.get(b"shared"), Some(&write(&[2])));

    let mut first = initialization();
    first.write_set.insert(b"shared".to_vec(), write(&[1]));
    let mut second = publication();
    second.write_set.insert(b"shared".to_vec(), write(&[2]));
    let backward = merge(second, first).unwrap();
    assert_eq!(backward.write_set.get(b"shared"), Some(&write(&[1])));
    assert!(!forward.same_as(&backward));
}

#[test]
fn deltas_in_the_first_change_set_are_refused() {
    let mut first = initialization();
    first.deltas.push(delta(b"supply"));
    assert_eq!(merge(first, publication()).unwrap_err(), MergeError::UnmaterializedDeltas);
}

#[test]
fn deltas_in_the_second_change_set_are_refused() {
    let mut second = publication();
    second.deltas.push(delta(b"supply"));
    assert_eq!(merge(initialization(), second).unwrap_err(), MergeError::UnmaterializedDeltas);
}

#[test]
fn a_deletion_in_the_merged_writes_is_refused() {
    let mut first = initialization();
    first.write_set.insert(b"gone".to_vec(), WriteOp::Deletion);
    assert_eq!(merge(first, publication()).unwrap_err(), MergeError::UnexpectedDeletion);
    let mut second = publication();
    second.write_set.insert(b"chain_id".to_vec(), WriteOp::Deletion);
    assert_eq!(merge(initialization(), second).unwrap_err(), MergeError::UnexpectedDeletion);
}

#[test]
fn a_deletion_that_the_publication_overwrites_is_no_deletion() {
    let mut first = initialization();
    first.write_set.insert(b"code/coin".to_vec(), WriteOp::Deletion);
    let merged = merge(first, publication()).unwrap();
    assert_eq!(merged.write_set.get(b"code/coin"), Some(&write(&[0xa1])));
}

#[test]
fn events_without_a_reconfiguration_are_refused() {
    let mut first = initialization();
    first.events = vec![other_event(1)];
    assert_eq!(merge(first, publication()).unwrap_err(), MergeError::InvalidEvents);
}

#[test]
fn a_second_reconfiguration_is_refused() {
    let mut second = publication();
    second.events = vec![new_epoch(0)];
    assert_eq!(merge(initialization(), second).unwrap_err(), MergeError::InvalidEvents);
}

#[test]
fn a_reconfiguration_later_in_its_stream_is_refused() {
    let mut first = initialization();
    first.events = vec![new_epoch(1)];
    assert_eq!(merge(first, publication()).unwrap_err(), MergeError::InvalidEvents);
}

#[test]
fn deltas_are_reported_before_deletions_and_deletions_before_events() {
    let mut first = initialization();
    first.deltas.push(delta(b"supply"));
    first.write_set.insert(b"gone".to_vec(), WriteOp::Deletion);
    first.events = Vec::new();
    assert_eq!(merge(first, publication()).unwrap_err(), MergeError::UnmaterializedDeltas);
    let mut first = initialization();
    first.write_set.insert(b"gone".to_vec(), WriteOp::Deletion);
    first.events = Vec::new();
    assert_eq!(merge(first, publication()).unwrap_err(), MergeError::UnexpectedDeletion);
}

#[test]
fn change_sets_compare_by_what_they_hold() {
    assert!(initialization().same_as(&initialization()));
    assert!(!initialization().same_as(&publication()));
    let mut other_events = initialization();
    other_events.events.push(other_event(2));
    assert!(!initialization().same_as(&other_events));
    let mut other_deltas = initialization();
    other_deltas.deltas.push(delta(b"supply"));
    assert!(!initialization().same_as(&other_deltas));
    let reordered = ChangeSet {
        write_set: writes(&[(b"validator_set", write(&[1, 0])), (b"chain_id", write(&[4]))]),
        events: vec![other_event(1), new_epoch(0)],
        deltas: Vec::new(),
    };
    assert!(initialization().same_as(&reordered));
}

#[test]
fn merging_the_same_change_sets_twice_gives_the_same_result() {
    let once = merge(initialization(), publication()).unwrap();
    let again = merge(initialization(), publication()).unwrap();
    assert!(once.same_as(&again));
}
