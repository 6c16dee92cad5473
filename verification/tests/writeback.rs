use wishlist::list_id::ListId;
use wishlist::records::{List, User};
use wishlist::remote::FileWrite;
use wishlist::store::RecordStore;
use wishlist::writeback::{
    next_push, record_edit, record_push, FlushStep, QueueError, WriteBack,
};

fn list_id() -> ListId {
    ListId { owner: "alice".to_string(), id: "xmas".to_string() }
}

fn store_with_list() -> RecordStore {
    let mut store = RecordStore::open(1).unwrap();
    store.put_user(User {
        login: "alice".to_string(),
        file_id: Some("fu".to_string()),
        kdl: "user".to_string(),
        root_tree_id: "tree".to_string(),
        local_version: "c1".to_string(),
        remote_version: "c1".to_string(),
    });
    store.put_list(List {
        id: list_id(),
        file_id: Some("f1".to_string()),
        kdl: "v0".to_string(),
        local_version: "c1".to_string(),
        pending_changes: Vec::new(),
    });
    store
}

fn queue(store: &RecordStore) -> Vec<(String, String)> {
    store.get_list(&list_id()).unwrap().pending_changes
}

fn push_of(step: FlushStep) -> FileWrite {
    match step {
        FlushStep::Push(write) => write,
        other => panic!("expected a push, got {:?}", other),
    }
}

#[test]
fn edit_is_persisted_at_once_and_queued() {
    let mut store = store_with_list();
    assert!(record_edit(&mut store, &list_id(), "Add item", "v1"));
    let list = store.get_list(&list_id()).unwrap();
    assert_eq!(list.kdl, "v1");
    assert_eq!(list.pending_changes, vec![("Add item".to_string(), "v1".to_string())]);
    assert!(list.is_dirty());
    assert_eq!(list.local_version, "c1");
    assert_eq!(list.file_id, Some("f1".to_string()));
}

#[test]
fn edit_of_a_missing_list_writes_nothing() {
    let mut store = RecordStore::open(1).unwrap();
    assert!(!record_edit(&mut store, &list_id(), "Add item", "v1"));
    assert!(store.lists().is_empty());
}

#[test]
fn next_push_is_the_oldest_edit() {
    let mut store = store_with_list();
    assert!(next_push(&store, "alice", &list_id()).is_none());
    record_edit(&mut store, &list_id(), "first", "v1");
    record_edit(&mut store, &list_id(), "second", "v2");
    let write = next_push(&store, "alice", &list_id()).unwrap();
    assert_eq!(write.owner, "alice");
    assert_eq!(write.repository, "wishlist-app-data");
    assert_eq!(write.path, "xmas.kdl");
    assert_eq!(write.message, "first");
    assert_eq!(write.content, "v1");
    assert_eq!(write.file_id, Some("f1".to_string()));
}

#[test]
fn record_push_takes_the_oldest_edit_and_stamps_versions() {
    let mut store = store_with_list();
    record_edit(&mut store, &list_id(), "first", "v1");
    record_edit(&mut store, &list_id(), "second", "v2");
    assert!(record_push(&mut store, "alice", &list_id(), "f2".to_string(), "c2".to_string()));
    let list = store.get_list(&list_id()).unwrap();
    assert_eq!(list.pending_changes, vec![("second".to_string(), "v2".to_string())]);
    assert_eq!(list.file_id, Some("f2".to_string()));
    assert_eq!(list.local_version, "c2");
    assert_eq!(list.kdl, "v2");
    let user = store.get_user("alice").unwrap();
    assert_eq!(user.local_version, "c2");
    assert_eq!(user.remote_version, "c2");
}

#[test]
fn record_push_without_queue_or_user_writes_nothing() {
    let mut store = store_with_list();
    assert!(!record_push(&mut store, "alice", &list_id(), "f2".to_string(), "c2".to_string()));
    assert_eq!(store.get_list(&list_id()).unwrap().local_version, "c1");
    record_edit(&mut store, &list_id(), "first", "v1");
    assert!(!record_push(&mut store, "bob", &list_id(), "f2".to_string(), "c2".to_string()));
    assert_eq!(queue(&store).len(), 1);
    assert_eq!(store.get_user("alice").unwrap().local_version, "c1");
}

#[test]
fn edits_in_the_quiet_period_are_flushed_once_in_order() {
    let mut store = store_with_list();
    let mut write_back = WriteBack::new("alice".to_string(), list_id());
    let tokens: Vec<u64> = ["one", "two", "three"]
        .iter()
        .map(|m| write_back.edit(&mut store, m, &format!("doc {}", m)).unwrap())
        .collect();
    assert_eq!(tokens, vec![0, 1, 2]);
    assert!(matches!(write_back.timer_fired(&store, tokens[0]), FlushStep::Skipped));
    assert!(matches!(write_back.timer_fired(&store, tokens[1]), FlushStep::Skipped));
    let mut pushed = Vec::new();
    let mut step = write_back.timer_fired(&store, tokens[2]);
    let mut commit = 1;
    loop {
        match step {
            FlushStep::Push(write) => {
                pushed.push((write.message.clone(), write.content.clone(), write.file_id.clone()));
                commit += 1;
                step = write_back.push_succeeded(
                    &mut store,
                    format!("f{}", commit),
                    format!("c{}", commit),
                );
            }
            FlushStep::Idle => break,
            other => panic!("unexpected step: {:?}", other),
        }
    }
    assert_eq!(
        pushed,
        vec![
            ("one".to_string(), "doc one".to_string(), Some("f1".to_string())),
            ("two".to_string(), "doc two".to_string(), Some("f2".to_string())),
            ("three".to_string(), "doc three".to_string(), Some("f3".to_string())),
        ]
    );
    assert!(!write_back.is_flushing());
    assert!(queue(&store).is_empty());
    assert_eq!(store.get_list(&list_id()).unwrap().local_version, "c4");
    assert_eq!(store.get_user("alice").unwrap().local_version, "c4");
    assert!(matches!(write_back.timer_fired(&store, tokens[2]), FlushStep::Skipped));
}

#[test]
fn interrupted_flush_keeps_what_was_not_pushed() {
    let mut store = store_with_list();
    let mut write_back = WriteBack::new("alice".to_string(), list_id());
    write_back.edit(&mut store, "message 1", "doc 1");
    let token = write_back.edit(&mut store, "message 2", "doc 2").unwrap();
    let first = push_of(write_back.timer_fired(&store, token));
    assert_eq!(first.message, "message 1");
    let second = push_of(write_back.push_succeeded(&mut store, "f2".to_string(), "c2".to_string()));
    assert_eq!(second.message, "message 2");
    write_back.push_failed();
    assert!(!write_back.is_flushing());
    assert_eq!(queue(&store), vec![("message 2".to_string(), "doc 2".to_string())]);
    assert_eq!(store.get_list(&list_id()).unwrap().local_version, "c2");
    let retry = push_of(write_back.force_flush(&store));
    assert_eq!(retry.message, "message 2");
    assert_eq!(retry.content, "doc 2");
    assert_eq!(retry.file_id, Some("f2".to_string()));
    assert!(matches!(
        write_back.push_succeeded(&mut store, "f3".to_string(), "c3".to_string()),
        FlushStep::Idle
    ));
    assert!(queue(&store).is_empty());
    assert_eq!(store.get_list(&list_id()).unwrap().local_version, "c3");
}

#[test]
fn forced_flush_cancels_the_pending_timer() {
    let mut store = store_with_list();
    let mut write_back = WriteBack::new("alice".to_string(), list_id());
    let token = write_back.edit(&mut store, "only", "doc").unwrap();
    assert!(write_back.debounce().is_scheduled());
    let write = push_of(write_back.force_flush(&store));
    assert_eq!(write.message, "only");
    assert!(!write_back.debounce().is_scheduled());
    assert!(matches!(
        write_back.push_succeeded(&mut store, "f2".to_string(), "c2".to_string()),
        FlushStep::Idle
    ));
    assert!(matches!(write_back.timer_fired(&store, token), FlushStep::Skipped));
    assert!(queue(&store).is_empty());
}

#[test]
fn flush_request_during_a_flush_is_skipped() {
    let mut store = store_with_list();
    let mut write_back = WriteBack::new("alice".to_string(), list_id());
    let token = write_back.edit(&mut store, "one", "doc 1").unwrap();
    let _ = push_of(write_back.timer_fired(&store, token));
    assert!(write_back.is_flushing());
    let later = write_back.edit(&mut store, "two", "doc 2").unwrap();
    assert!(matches!(write_back.force_flush(&store), FlushStep::Skipped));
    assert!(matches!(write_back.timer_fired(&store, later), FlushStep::Skipped));
    let next = push_of(write_back.push_succeeded(&mut store, "f2".to_string(), "c2".to_string()));
    assert_eq!(next.message, "two");
}

#[test]
fn flush_with_empty_queue_is_idle() {
    let store = store_with_list();
    let mut write_back = WriteBack::new("alice".to_string(), list_id());
    assert!(matches!(write_back.force_flush(&store), FlushStep::Idle));
    assert!(!write_back.is_flushing());
}

#[test]
fn flush_without_records_fails_benignly() {
    let mut store = RecordStore::open(1).unwrap();
    let mut write_back = WriteBack::new("alice".to_string(), list_id());
    assert!(write_back.edit(&mut store, "one", "doc").is_none());
    assert!(matches!(
        write_back.force_flush(&store),
        FlushStep::Failed(QueueError::UserMissing)
    ));
    let mut store = store_with_list();
    store.delete_list(&list_id());
    assert!(matches!(
        write_back.force_flush(&store),
        FlushStep::Failed(QueueError::ListMissing)
    ));
}

#[test]
fn list_deleted_during_a_flush_ends_it() {
    let mut store = store_with_list();
    let mut write_back = WriteBack::new("alice".to_string(), list_id());
    let token = write_back.edit(&mut store, "one", "doc 1").unwrap();
    let _ = push_of(write_back.timer_fired(&store, token));
    store.delete_list(&list_id());
    assert!(matches!(
        write_back.push_succeeded(&mut store, "f2".to_string(), "c2".to_string()),
        FlushStep::Failed(QueueError::ListMissing)
    ));
    assert!(!write_back.is_flushing());
    assert_eq!(store.get_user("alice").unwrap().local_version, "c1");
}

#[test]
fn push_answer_without_a_flush_is_skipped() {
    let mut store = store_with_list();
    let mut write_back = WriteBack::new("alice".to_string(), list_id());
    write_back.edit(&mut store, "one", "doc 1");
    assert!(matches!(
        write_back.push_succeeded(&mut store, "f2".to_string(), "c2".to_string()),
        FlushStep::Skipped
    ));
    assert_eq!(queue(&store).len(), 1);
    assert_eq!(store.get_list(&list_id()).unwrap().local_version, "c1");
}
