use banlist::block_list::AppendStatus;
use banlist::store::{append, load_all};

#[test]
fn load_all_without_record_is_empty() {
    let list = load_all(None);
    assert_eq!(list.len(), 0);
    assert!(!list.contains("alice"));
    assert!(!list.contains(""));
}

#[test]
fn load_all_reads_the_record() {
    let list = load_all(Some("alice\nbob"));
    assert_eq!(list.len(), 2);
    assert_eq!(list.names()[0], "alice");
    assert_eq!(list.names()[1], "bob");
}

#[test]
fn load_all_of_empty_record_is_empty() {
    assert_eq!(load_all(Some("")).len(), 0);
}

#[test]
fn append_to_missing_record_writes_the_name() {
    let outcome = append(None, "alice");
    assert_eq!(outcome.status, AppendStatus::Added);
    assert_eq!(outcome.record.as_deref(), Some("alice"));
}

#[test]
fn append_to_record_writes_the_whole_list() {
    let outcome = append(Some("alice\nbob"), "carol");
    assert_eq!(outcome.status, AppendStatus::Added);
    assert_eq!(outcome.record.as_deref(), Some("alice\nbob\ncarol"));
}

#[test]
fn append_after_trailing_newline_adds_no_empty_line() {
    let outcome = append(Some("alice\n"), "bob");
    assert_eq!(outcome.status, AppendStatus::Added);
    assert_eq!(outcome.record.as_deref(), Some("alice\nbob"));
}

#[test]
fn append_of_stored_name_writes_nothing() {
    let outcome = append(Some("alice\nbob"), "bob");
    assert_eq!(outcome.status, AppendStatus::AlreadyPresent);
    assert_eq!(outcome.record, None);
}

#[test]
fn append_twice_is_idempotent() {
    let first = append(None, "alice");
    assert_eq!(first.status, AppendStatus::Added);
    let record = first.record.expect("the first append writes the record");
    let second = append(Some(&record), "alice");
    assert_eq!(second.status, AppendStatus::AlreadyPresent);
    assert_eq!(second.record, None);
    let list = load_all(Some(&record));
    assert_eq!(list.names().iter().filter(|name| name.as_str() == "alice").count(), 1);
}

#[test]
fn append_then_load_all_keeps_append_order() {
    let mut record: Option<String> = None;
    for name in ["mallory", "alice", "trent", "alice", "bob"] {
        if let Some(text) = append(record.as_deref(), name).record {
            record = Some(text);
        }
    }
    let list = load_all(record.as_deref());
    let names: Vec<&str> = list.names().iter().map(|name| name.as_str()).collect();
    assert_eq!(names, vec!["mallory", "alice", "trent", "bob"]);
    assert_eq!(record.as_deref(), Some("mallory\nalice\ntrent\nbob"));
}

#[test]
fn append_keeps_a_doubled_name_of_the_record() {
    let outcome = append(Some("eve\neve"), "bob");
    assert_eq!(outcome.record.as_deref(), Some("eve\neve\nbob"));
}

#[test]
fn name_with_newline_is_read_back_as_two_names() {
    let outcome = append(None, "al\nice");
    assert_eq!(outcome.status, AppendStatus::Added);
    let record = outcome.record.expect("a new name is written");
    assert_eq!(record, "al\nice");
    let list = load_all(Some(&record));
    assert_eq!(list.len(), 2);
    assert!(!list.contains("al\nice"));
    assert!(list.contains("al"));
    assert!(list.contains("ice"));
}

#[test]
fn empty_name_is_not_read_back() {
    let outcome = append(Some("alice"), "");
    assert_eq!(outcome.status, AppendStatus::Added);
    let record = outcome.record.expect("a new name is written");
    assert_eq!(record, "alice\n");
    let list = load_all(Some(&record));
    assert_eq!(list.len(), 1);
    assert!(!list.contains(""));
}

#[test]
fn append_never_takes_a_name_away() {
    for name in ["carol", "alice", "", "x\ny", "\n", "bob\n"] {
        let before = load_all(Some("alice\nbob"));
        let outcome = append(Some("alice\nbob"), name);
        let after = match &outcome.record {
            Some(text) => load_all(Some(text)),
            None => load_all(Some("alice\nbob")),
        };
        assert!(after.len() >= before.len());
        assert_eq!(&after.names()[..before.len()], &before.names()[..]);
    }
}
