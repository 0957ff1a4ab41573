use rsground::document::{generate_unique_replica_id, Action, Document, ReplicaIdCounter};

fn ts(a: &Action) -> u64 {
    match a {
        Action::Insertion { timestamp, .. } => *timestamp,
        Action::Deletion { timestamp, .. } => *timestamp,
    }
}

#[test]
fn new_document_has_no_history() {
    let d = Document::new("hello".to_owned(), 7);
    assert_eq!(d.text(), "hello");
    assert_eq!(d.replica_id(), 7);
    assert_eq!(d.current_timestamp(), 0);
    assert!(d.get_operations_since(0).is_empty());
}

#[test]
fn insert_and_delete_edit_buffer_and_history() {
    let mut d = Document::new("hello".to_owned(), 1);
    let ins = d.insert(5, " world".to_owned());
    assert_eq!(ins.text, " world");
    assert_eq!(d.text(), "hello world");
    let _ = d.delete(0..6);
    assert_eq!(d.text(), "world");
    assert_eq!(d.current_timestamp(), 2);
    let ops = d.get_operations_since(0);
    assert_eq!(ops.len(), 2);
    match &ops[0] {
        Action::Insertion { pos, text, timestamp } => {
            assert_eq!((*pos, text.as_str(), *timestamp), (5, " world", 1));
        }
        _ => panic!("insertion expected"),
    }
    match &ops[1] {
        Action::Deletion { range_start, range_end, timestamp } => {
            assert_eq!((*range_start, *range_end, *timestamp), (0, 6, 2));
        }
        _ => panic!("deletion expected"),
    }
}

#[test]
fn operations_since_return_only_newer_edits() {
    let mut d = Document::new(String::new(), 3);
    let _ = d.insert(0, "a".to_owned());
    let seen = d.current_timestamp();
    let _ = d.insert(1, "b".to_owned());
    let newer = d.get_operations_since(seen);
    assert_eq!(newer.len(), 1);
    assert_eq!(ts(&newer[0]), seen + 1);
    assert!(d.get_operations_since(d.current_timestamp()).is_empty());
}

#[test]
fn delete_undoes_insert_in_buffer() {
    let mut d = Document::new("abcdef".to_owned(), 2);
    let _ = d.insert(3, "XYZ".to_owned());
    let _ = d.delete(3..6);
    assert_eq!(d.text(), "abcdef");
}

#[test]
fn fork_keeps_text_and_history() {
    let mut d = Document::new("ab".to_owned(), 5);
    let _ = d.insert(2, "c".to_owned());
    let f = d.fork(9, 11);
    assert_eq!(f.replica_id(), 9);
    assert_eq!(f.text(), "abc");
    assert_eq!(f.get_operations_since(0).len(), 1);
    let g = d.fork(5, 11);
    assert_eq!(g.replica_id(), 11);
}

#[test]
fn replica_ids_count_up() {
    let mut counter = ReplicaIdCounter::new();
    assert_eq!(generate_unique_replica_id(&mut counter), 1);
    assert_eq!(generate_unique_replica_id(&mut counter), 2);
    assert_eq!(generate_unique_replica_id(&mut counter), 3);
}

#[test]
fn many_calls_hand_out_consecutive_ids() {
    let mut counter = ReplicaIdCounter::new();
    let ids: Vec<u64> = (0..100).map(|_| generate_unique_replica_id(&mut counter)).collect();
    assert_eq!(ids, (1..=100).collect::<Vec<u64>>());
}
