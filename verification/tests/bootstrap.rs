use wishlist::bootstrap::{GenerateDataRepo, QueryViewer};
use wishlist::remote::{
    list_file_path, names_document, names_user_file, RepositoryMetadata, DATA_REPO_TOPIC,
    USER_DATA_REPO_NAME,
};

fn found(owner: &str, version: &str, tree_id: &str) -> RepositoryMetadata {
    RepositoryMetadata {
        owner: owner.to_string(),
        name: USER_DATA_REPO_NAME.to_string(),
        version: version.to_string(),
        tree_id: tree_id.to_string(),
    }
}

#[test]
fn reserved_names_are_fixed() {
    assert_eq!(USER_DATA_REPO_NAME, "wishlist-app-data");
    assert_eq!(DATA_REPO_TOPIC, "wishlist-app-data");
}

#[test]
fn viewer_search_asks_for_the_reserved_repository() {
    let search = QueryViewer::search();
    assert_eq!(search.user, "@me");
    assert_eq!(search.name, "wishlist-app-data");
    assert_eq!(search.page_size, 1);
    assert_eq!(search.query(), "user:@me wishlist-app-data in:name");
}

#[test]
fn viewer_resolves_to_the_last_repository_found() {
    let (login, repository) = QueryViewer::resolve(
        "alice".to_string(),
        vec![found("alice", "c1", "t1"), found("alice", "c2", "t2")],
    );
    assert_eq!(login, "alice");
    assert_eq!(repository.unwrap().version, "c2");
    let (login, repository) = QueryViewer::resolve("bob".to_string(), Vec::new());
    assert_eq!(login, "bob");
    assert!(repository.is_none());
}

#[test]
fn generate_asks_for_a_public_repository_with_topic_and_seed() {
    let generate = GenerateDataRepo { seed: "user".to_string() };
    let create = generate.create_repository();
    assert_eq!(create.name, "wishlist-app-data");
    assert!(!create.private);
    let topics = generate.set_topics("alice");
    assert_eq!(topics.owner, "alice");
    assert_eq!(topics.repository, "wishlist-app-data");
    assert_eq!(topics.topics, vec!["wishlist-app-data".to_string()]);
    let write = generate.write_seed("alice");
    assert_eq!(write.owner, "alice");
    assert_eq!(write.repository, "wishlist-app-data");
    assert_eq!(write.path, "user.kdl");
    assert_eq!(write.message, "Initialize user data");
    assert_eq!(write.content, "user");
    assert_eq!(write.file_id, None);
}

#[test]
fn response_takes_the_tree_of_the_first_repository_found() {
    let generate = GenerateDataRepo { seed: "user".to_string() };
    let response = generate.response("alice".to_string(), "f1".to_string(), "c1".to_string());
    assert_eq!(response.owner, "alice");
    assert_eq!(response.name, "wishlist-app-data");
    assert_eq!(response.user_file_id, "f1");
    assert_eq!(response.user_content, "user");
    assert_eq!(response.remote_version, "c1");
    let search = response.search();
    assert_eq!(search.query(), "user:alice wishlist-app-data in:name");
    let metadata = response
        .metadata(&vec![found("alice", "other", "tree-a"), found("alice", "x", "tree-b")])
        .unwrap();
    assert_eq!(metadata.owner, "alice");
    assert_eq!(metadata.name, "wishlist-app-data");
    assert_eq!(metadata.version, "c1");
    assert_eq!(metadata.tree_id, "tree-a");
    assert!(response.metadata(&Vec::new()).is_none());
}

#[test]
fn paths_name_documents_by_their_ending() {
    assert!(names_user_file("user.kdl"));
    assert!(!names_user_file("some/user.kdl"));
    assert!(!names_user_file("poweruser.kdl"));
    assert!(!names_user_file("users.kdl"));
    assert!(!names_user_file("user.kdl "));
    assert!(!names_user_file(""));
    assert!(names_document("xmas.kdl"));
    assert!(!names_document("xmas.kdl.txt"));
    assert_eq!(list_file_path("xmas"), "xmas.kdl");
}
