use wishlist::list_id::ListId;
use wishlist::records::{List, User};
use wishlist::remote::{ChangedFile, ChangedFileStatus, RepositoryMetadata, TreeEntry};
use wishlist::store::{RecordStore, StoreError};
use wishlist::sync::{Action, Event, Phase, Reconciler, SyncError};

struct FakeRemote {
    login: String,
    repository: Option<RepositoryMetadata>,
    created_tree: Option<String>,
    tree: Vec<TreeEntry>,
    changed: Vec<ChangedFile>,
    contents: Vec<(String, String)>,
    fail_fetch_of: Option<String>,
    log: Vec<String>,
}

fn repo(version: &str) -> RepositoryMetadata {
    RepositoryMetadata {
        owner: "alice".to_string(),
        name: "wishlist-app-data".to_string(),
        version: version.to_string(),
        tree_id: "tree-1".to_string(),
    }
}

fn remote(version: &str) -> FakeRemote {
    FakeRemote {
        login: "alice".to_string(),
        repository: Some(repo(version)),
        created_tree: None,
        tree: Vec::new(),
        changed: Vec::new(),
        contents: Vec::new(),
        fail_fetch_of: None,
        log: Vec::new(),
    }
}

fn answer(remote: &mut FakeRemote, store: &mut RecordStore, action: Action) -> Option<Event> {
    match action {
        Action::QueryViewer(search) => {
            remote.log.push(format!("viewer {}", search.query()));
            let repositories = match &remote.repository {
                Some(found) => vec![found.clone()],
                None => Vec::new(),
            };
            Some(Event::Viewer { login: remote.login.clone(), repositories })
        }
        Action::CreateRepository(request) => {
            remote.log.push(format!("create {} private={}", request.name, request.private));
            Some(Event::RepositoryCreated { owner: remote.login.clone() })
        }
        Action::SetTopics(request) => {
            remote.log.push(format!(
                "topics {}/{} {:?}",
                request.owner, request.repository, request.topics
            ));
            Some(Event::TopicsSet)
        }
        Action::WriteFile(write) => {
            remote.log.push(format!(
                "write {}/{} {} {:?} {:?} {:?}",
                write.owner, write.repository, write.path, write.message, write.content,
                write.file_id
            ));
            Some(Event::FileWritten {
                file_id: "seed-file".to_string(),
                version: "c-seed".to_string(),
            })
        }
        Action::FindRepository(search) => {
            remote.log.push(format!("find {}", search.query()));
            let found = match &remote.created_tree {
                Some(tree_id) => vec![RepositoryMetadata {
                    owner: search.user.clone(),
                    name: search.name.clone(),
                    version: "stale".to_string(),
                    tree_id: tree_id.clone(),
                }],
                None => Vec::new(),
            };
            Some(Event::RepositoryFound(found))
        }
        Action::LoadUser { login } => Some(Event::UserLoaded(store.get_user(&login))),
        Action::GetTree { owner, repository, tree_id } => {
            remote.log.push(format!("tree {}/{} {}", owner, repository, tree_id));
            let entries = remote
                .tree
                .iter()
                .map(|e| TreeEntry { path: e.path.clone(), id: e.id.clone(), is_tree: e.is_tree })
                .collect();
            Some(Event::Tree(entries))
        }
        Action::Compare { owner, repository, from, to } => {
            remote.log.push(format!("compare {}/{} {}..{}", owner, repository, from, to));
            let changed = remote
                .changed
                .iter()
                .map(|c| ChangedFile {
                    path: c.path.clone(),
                    file_id: c.file_id.clone(),
                    status: c.status,
                })
                .collect();
            Some(Event::Changes(changed))
        }
        Action::GetFileContent { owner, repository, path, version } => {
            remote.log.push(format!("fetch {}/{} {}@{}", owner, repository, path, version));
            if remote.fail_fetch_of.as_deref() == Some(path.as_str()) {
                return Some(Event::RemoteFailed("not found".to_string()));
            }
            let content = remote
                .contents
                .iter()
                .find(|(p, _)| *p == path)
                .map(|(_, c)| c.clone())
                .unwrap();
            Some(Event::FileContent(content))
        }
        Action::Commit(changes) => {
            remote.log.push("commit".to_string());
            store.commit(&changes);
            Some(Event::Committed)
        }
        Action::Done => None,
        Action::Failed(_) => None,
    }
}

fn run(sync: &mut Reconciler, remote: &mut FakeRemote, store: &mut RecordStore) -> Action {
    let mut action = sync.step(Event::Start);
    loop {
        match action {
            Action::Done | Action::Failed(_) => return action,
            other => {
                let event = answer(remote, store, other).unwrap();
                action = sync.step(event);
            }
        }
    }
}

fn file(path: &str, id: &str) -> TreeEntry {
    TreeEntry { path: path.to_string(), id: id.to_string(), is_tree: false }
}

fn changed(path: &str, id: &str, status: ChangedFileStatus) -> ChangedFile {
    ChangedFile { path: path.to_string(), file_id: id.to_string(), status }
}

fn list_id(id: &str) -> ListId {
    ListId { owner: "alice".to_string(), id: id.to_string() }
}

fn stored_user(version: &str) -> User {
    User {
        login: "alice".to_string(),
        file_id: Some("fu".to_string()),
        kdl: "user at start".to_string(),
        root_tree_id: "tree-1".to_string(),
        local_version: version.to_string(),
        remote_version: version.to_string(),
    }
}

fn stored_list(id: &str, kdl: &str, version: &str) -> List {
    List {
        id: list_id(id),
        file_id: Some(format!("f-{}", id)),
        kdl: kdl.to_string(),
        local_version: version.to_string(),
        pending_changes: Vec::new(),
    }
}

fn titles(sync: &Reconciler) -> Vec<String> {
    sync.status().stages().iter().map(|s| s.title.clone()).collect()
}

#[test]
fn new_engine_is_idle_and_shows_nothing() {
    let sync = Reconciler::new("user".to_string());
    assert_eq!(sync.phase(), Phase::Idle);
    assert!(!sync.status().is_active());
}

#[test]
fn fresh_user_is_installed_completely() {
    let mut remote = remote("c7");
    remote.tree = vec![
        file("user.kdl", "fu"),
        file("xmas.kdl", "f1"),
        TreeEntry { path: "notes".to_string(), id: "d1".to_string(), is_tree: true },
        file("README.md", "f2"),
        file("birthday.kdl", "f3"),
        file("wedding.kdl", "f4"),
    ];
    remote.contents = vec![
        ("user.kdl".to_string(), "the user".to_string()),
        ("xmas.kdl".to_string(), "list xmas".to_string()),
        ("birthday.kdl".to_string(), "list birthday".to_string()),
        ("wedding.kdl".to_string(), "list wedding".to_string()),
    ];
    let mut store = RecordStore::open(1).unwrap();
    let mut sync = Reconciler::new("seed".to_string());
    let end = run(&mut sync, &mut remote, &mut store);
    assert!(matches!(end, Action::Done));
    assert_eq!(sync.phase(), Phase::Done);
    assert!(!sync.status().is_active());
    assert_eq!(store.users().len(), 1);
    assert_eq!(store.lists().len(), 3);
    let user = store.get_user("alice").unwrap();
    assert_eq!(user.kdl, "the user");
    assert_eq!(user.local_version, "c7");
    assert_eq!(user.root_tree_id, "tree-1");
    for list in store.lists().iter() {
        assert_eq!(list.local_version, "c7");
        assert!(list.pending_changes.is_empty());
    }
    assert_eq!(store.get_list(&list_id("birthday")).unwrap().kdl, "list birthday");
    assert_eq!(
        remote.log,
        vec![
            "viewer user:@me wishlist-app-data in:name",
            "tree alice/wishlist-app-data tree-1",
            "fetch alice/wishlist-app-data user.kdl@c7",
            "fetch alice/wishlist-app-data xmas.kdl@c7",
            "fetch alice/wishlist-app-data birthday.kdl@c7",
            "fetch alice/wishlist-app-data wedding.kdl@c7",
            "commit",
        ]
    );
}

#[test]
fn modified_list_is_refreshed_and_removed_list_is_deleted() {
    let mut remote = remote("c3");
    remote.changed = vec![
        changed("x.kdl", "fx3", ChangedFileStatus::Modified),
        changed("y.kdl", "fy3", ChangedFileStatus::Removed),
    ];
    remote.contents = vec![("x.kdl".to_string(), "x at c3".to_string())];
    let mut store = RecordStore::open(1).unwrap();
    store.put_user(stored_user("c1"));
    store.put_list(stored_list("x", "x at c1", "c1"));
    store.put_list(stored_list("y", "y at c1", "c1"));
    let mut sync = Reconciler::new("seed".to_string());
    let end = run(&mut sync, &mut remote, &mut store);
    assert!(matches!(end, Action::Done));
    let x = store.get_list(&list_id("x")).unwrap();
    assert_eq!(x.kdl, "x at c3");
    assert_eq!(x.local_version, "c3");
    assert_eq!(x.file_id, Some("fx3".to_string()));
    assert!(store.get_list(&list_id("y")).is_none());
    assert_eq!(store.get_user("alice").unwrap().local_version, "c3");
    assert_eq!(
        remote.log,
        vec![
            "viewer user:@me wishlist-app-data in:name",
            "compare alice/wishlist-app-data c1..c3",
            "fetch alice/wishlist-app-data x.kdl@c3",
            "commit",
        ]
    );
}

#[test]
fn modified_removed_and_added_files_are_applied() {
    let mut remote = remote("v1");
    remote.changed = vec![
        changed("a.kdl", "fa", ChangedFileStatus::Modified),
        changed("b.kdl", "fb", ChangedFileStatus::Removed),
        changed("c.kdl", "fc", ChangedFileStatus::Added),
    ];
    remote.contents = vec![
        ("a.kdl".to_string(), "a at v1".to_string()),
        ("c.kdl".to_string(), "c at v1".to_string()),
    ];
    let mut store = RecordStore::open(1).unwrap();
    store.put_user(stored_user("v0"));
    store.put_list(stored_list("a", "a at v0", "v0"));
    store.put_list(stored_list("b", "b at v0", "v0"));
    let mut sync = Reconciler::new("seed".to_string());
    assert!(matches!(run(&mut sync, &mut remote, &mut store), Action::Done));
    assert_eq!(store.get_list(&list_id("a")).unwrap().kdl, "a at v1");
    assert!(store.get_list(&list_id("b")).is_none());
    assert_eq!(store.get_list(&list_id("c")).unwrap().kdl, "c at v1");
    assert_eq!(store.get_list(&list_id("c")).unwrap().local_version, "v1");
    assert_eq!(store.get_user("alice").unwrap().local_version, "v1");
}

#[test]
fn sync_without_remote_changes_is_idempotent() {
    let mut remote = remote("c2");
    remote.tree = vec![file("user.kdl", "fu"), file("a.kdl", "fa")];
    remote.contents = vec![
        ("user.kdl".to_string(), "the user".to_string()),
        ("a.kdl".to_string(), "list a".to_string()),
    ];
    let mut store = RecordStore::open(1).unwrap();
    let mut sync = Reconciler::new("seed".to_string());
    assert!(matches!(run(&mut sync, &mut remote, &mut store), Action::Done));
    let users_before: Vec<(String, String, String)> = store
        .users()
        .iter()
        .map(|u| (u.login.clone(), u.kdl.clone(), u.local_version.clone()))
        .collect();
    let lists_before: Vec<(ListId, String, String)> = store
        .lists()
        .iter()
        .map(|l| (l.id.clone(), l.kdl.clone(), l.local_version.clone()))
        .collect();
    remote.log.clear();
    assert!(matches!(run(&mut sync, &mut remote, &mut store), Action::Done));
    assert_eq!(remote.log, vec!["viewer user:@me wishlist-app-data in:name"]);
    let users_after: Vec<(String, String, String)> = store
        .users()
        .iter()
        .map(|u| (u.login.clone(), u.kdl.clone(), u.local_version.clone()))
        .collect();
    let lists_after: Vec<(ListId, String, String)> = store
        .lists()
        .iter()
        .map(|l| (l.id.clone(), l.kdl.clone(), l.local_version.clone()))
        .collect();
    assert_eq!(users_before, users_after);
    assert_eq!(lists_before, lists_after);
}

#[test]
fn missing_repository_is_created_and_seeded() {
    let mut remote = remote("unused");
    remote.repository = None;
    remote.created_tree = Some("tree-new".to_string());
    remote.tree = vec![file("user.kdl", "seed-file")];
    remote.contents = vec![("user.kdl".to_string(), "seed document".to_string())];
    let mut store = RecordStore::open(1).unwrap();
    let mut sync = Reconciler::new("seed document".to_string());
    assert!(matches!(run(&mut sync, &mut remote, &mut store), Action::Done));
    assert_eq!(
        remote.log,
        vec![
            "viewer user:@me wishlist-app-data in:name".to_string(),
            "create wishlist-app-data private=false".to_string(),
            "topics alice/wishlist-app-data [\"wishlist-app-data\"]".to_string(),
            "write alice/wishlist-app-data user.kdl \"Initialize user data\" \"seed document\" None"
                .to_string(),
            "find user:alice wishlist-app-data in:name".to_string(),
            "tree alice/wishlist-app-data tree-new".to_string(),
            "fetch alice/wishlist-app-data user.kdl@c-seed".to_string(),
            "commit".to_string(),
        ]
    );
    let user = store.get_user("alice").unwrap();
    assert_eq!(user.kdl, "seed document");
    assert_eq!(user.local_version, "c-seed");
    assert_eq!(user.root_tree_id, "tree-new");
    assert!(store.lists().is_empty());
}

#[test]
fn created_repository_missing_from_search_is_an_invalid_response() {
    let mut remote = remote("unused");
    remote.repository = None;
    remote.created_tree = None;
    let mut store = RecordStore::open(1).unwrap();
    let mut sync = Reconciler::new("seed".to_string());
    match run(&mut sync, &mut remote, &mut store) {
        Action::Failed(SyncError::InvalidResponse(message)) => {
            assert_eq!(message, "Empty repository metadata")
        }
        other => panic!("unexpected end: {:?}", other),
    }
    assert_eq!(sync.phase(), Phase::Failed);
    assert!(!sync.status().is_active());
    assert!(store.users().is_empty());
}

#[test]
fn remote_failure_leaves_the_store_unchanged() {
    let mut remote = remote("c3");
    remote.changed = vec![
        changed("x.kdl", "fx", ChangedFileStatus::Modified),
        changed("z.kdl", "fz", ChangedFileStatus::Added),
    ];
    remote.contents = vec![("x.kdl".to_string(), "x at c3".to_string())];
    remote.fail_fetch_of = Some("z.kdl".to_string());
    let mut store = RecordStore::open(1).unwrap();
    store.put_user(stored_user("c1"));
    store.put_list(stored_list("x", "x at c1", "c1"));
    let mut sync = Reconciler::new("seed".to_string());
    match run(&mut sync, &mut remote, &mut store) {
        Action::Failed(SyncError::RemoteHost(message)) => assert_eq!(message, "not found"),
        other => panic!("unexpected end: {:?}", other),
    }
    assert!(!sync.status().is_active());
    assert_eq!(store.get_user("alice").unwrap().local_version, "c1");
    assert_eq!(store.get_list(&list_id("x")).unwrap().kdl, "x at c1");
    assert!(store.get_list(&list_id("z")).is_none());
}

#[test]
fn store_failure_is_reported_as_local_error() {
    let mut sync = Reconciler::new("seed".to_string());
    let _ = sync.step(Event::Start);
    let _ = sync.step(Event::Viewer { login: "alice".to_string(), repositories: vec![repo("c1")] });
    match sync.step(Event::StoreFailed(StoreError::BackendUnavailable)) {
        Action::Failed(SyncError::LocalStore(error)) => {
            assert_eq!(error, StoreError::BackendUnavailable)
        }
        other => panic!("unexpected action: {:?}", other),
    }
    assert_eq!(sync.phase(), Phase::Failed);
}

#[test]
fn unexpected_event_ends_the_run() {
    let mut sync = Reconciler::new("seed".to_string());
    match sync.step(Event::Committed) {
        Action::Failed(SyncError::InvalidResponse(message)) => {
            assert_eq!(message, "Unexpected event")
        }
        other => panic!("unexpected action: {:?}", other),
    }
    assert_eq!(sync.phase(), Phase::Failed);
    assert!(matches!(sync.step(Event::Start), Action::QueryViewer(_)));
    assert_eq!(sync.phase(), Phase::AwaitViewer);
}

#[test]
fn stages_follow_the_phases_of_an_install() {
    let mut sync = Reconciler::new("seed".to_string());
    let _ = sync.step(Event::Start);
    assert_eq!(titles(&sync), vec!["Checking authentiation", "Finding module owners"]);
    let _ = sync.step(Event::Viewer { login: "alice".to_string(), repositories: vec![repo("c1")] });
    assert_eq!(sync.phase(), Phase::AwaitUser);
    assert!(titles(&sync).is_empty());
    let _ = sync.step(Event::UserLoaded(None));
    assert_eq!(titles(&sync), vec!["Scanning Storage"]);
    let _ = sync.step(Event::Tree(vec![file("user.kdl", "fu"), file("a.kdl", "fa")]));
    assert_eq!(titles(&sync), vec!["Downloading Storage"]);
    let progress = sync.status().stages()[0].progress.unwrap();
    assert_eq!((progress.progress, progress.max), (0, 2));
    let _ = sync.step(Event::FileContent("the user".to_string()));
    let progress = sync.status().stages()[0].progress.unwrap();
    assert_eq!((progress.progress, progress.max), (1, 2));
    let action = sync.step(Event::FileContent("list a".to_string()));
    assert!(matches!(action, Action::Commit(_)));
    assert_eq!(titles(&sync), vec!["Installing Downloaded Files"]);
    assert!(matches!(sync.step(Event::Committed), Action::Done));
    assert!(titles(&sync).is_empty());
}

#[test]
fn stages_follow_the_phases_of_an_update() {
    let mut sync = Reconciler::new("seed".to_string());
    let _ = sync.step(Event::Start);
    let _ = sync.step(Event::Viewer { login: "alice".to_string(), repositories: vec![repo("c3")] });
    let action = sync.step(Event::UserLoaded(Some(stored_user("c1"))));
    assert!(matches!(action, Action::Compare { .. }));
    assert_eq!(titles(&sync), vec!["Downloading Updates"]);
    let action = sync.step(Event::Changes(vec![changed(
        "y.kdl",
        "fy",
        ChangedFileStatus::Removed,
    )]));
    match action {
        Action::Commit(changes) => {
            assert_eq!(changes.users.len(), 1);
            assert_eq!(changes.users[0].local_version, "c3");
            assert_eq!(changes.removed_lists, vec![list_id("y")]);
            assert!(changes.lists.is_empty());
        }
        other => panic!("unexpected action: {:?}", other),
    }
    assert_eq!(titles(&sync), vec!["Installing Downloaded Files"]);
}

#[test]
fn install_of_an_empty_tree_commits_nothing() {
    let mut remote = remote("c1");
    let mut store = RecordStore::open(1).unwrap();
    let mut sync = Reconciler::new("seed".to_string());
    assert!(matches!(run(&mut sync, &mut remote, &mut store), Action::Done));
    assert!(!remote.log.contains(&"commit".to_string()));
    assert!(store.users().is_empty());
    assert!(store.lists().is_empty());
}

#[test]
fn list_whose_name_ends_like_the_user_document_is_installed_as_a_list() {
    let mut remote = remote("c1");
    remote.login = "u".to_string();
    remote.repository = Some(RepositoryMetadata {
        owner: "u".to_string(),
        name: "wishlist-app-data".to_string(),
        version: "c1".to_string(),
        tree_id: "tree-1".to_string(),
    });
    remote.tree = vec![file("user.kdl", "fu"), file("poweruser.kdl", "fp")];
    remote.contents = vec![
        ("user.kdl".to_string(), "U".to_string()),
        ("poweruser.kdl".to_string(), "P".to_string()),
    ];
    let mut store = RecordStore::open(1).unwrap();
    let mut sync = Reconciler::new("seed".to_string());
    assert!(matches!(run(&mut sync, &mut remote, &mut store), Action::Done));
    assert_eq!(store.users().len(), 1);
    let user = store.get_user("u").unwrap();
    assert_eq!(user.kdl, "U");
    assert_eq!(user.local_version, "c1");
    assert_eq!(store.lists().len(), 1);
    let list = &store.lists()[0];
    assert_eq!(list.key(), "u/poweruser");
    assert_eq!(list.kdl, "P");
    assert_eq!(list.local_version, "c1");
}

#[test]
fn changed_file_without_a_name_is_an_invalid_response() {
    let mut remote = remote("c3");
    remote.changed = vec![
        changed("x.kdl", "fx", ChangedFileStatus::Modified),
        changed("lists/", "fd", ChangedFileStatus::Removed),
    ];
    remote.contents = vec![("x.kdl".to_string(), "x at c3".to_string())];
    let mut store = RecordStore::open(1).unwrap();
    store.put_user(stored_user("c1"));
    store.put_list(stored_list("x", "x at c1", "c1"));
    let mut sync = Reconciler::new("seed".to_string());
    match run(&mut sync, &mut remote, &mut store) {
        Action::Failed(SyncError::InvalidResponse(message)) => {
            assert_eq!(message, "Changed file without a name")
        }
        other => panic!("unexpected end: {:?}", other),
    }
    assert_eq!(sync.phase(), Phase::Failed);
    assert!(!sync.status().is_active());
    assert_eq!(store.get_user("alice").unwrap().local_version, "c1");
    assert_eq!(store.get_list(&list_id("x")).unwrap().kdl, "x at c1");
    assert!(!remote.log.iter().any(|line| line.starts_with("fetch")));
}
