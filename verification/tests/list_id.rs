use wishlist::list_id::{ListId, ListIdParserError};

#[test]
fn list_id_text_form_joins_owner_and_slug() {
    let id = ListId { owner: "alice".to_string(), id: "birthday".to_string() };
    assert_eq!(id.to_string(), "alice/birthday");
}

#[test]
fn list_id_is_read_from_its_text_form() {
    let id = ListId::from_str("alice/birthday").unwrap();
    assert_eq!(id.owner, "alice");
    assert_eq!(id.id, "birthday");
}

#[test]
fn list_id_reads_only_the_first_two_segments() {
    let id = ListId::from_str("alice/birthday/extra").unwrap();
    assert_eq!(id.owner, "alice");
    assert_eq!(id.id, "birthday");
}

#[test]
fn list_id_without_slash_misses_its_name() {
    match ListId::from_str("alice") {
        Err(ListIdParserError::MissingName(text)) => assert_eq!(text, "alice"),
        other => panic!("unexpected result: {:?}", other),
    }
}

#[test]
fn list_id_from_path_takes_the_file_stem() {
    let id = ListId::from_path("alice", "birthday.kdl");
    assert_eq!(id.owner, "alice");
    assert_eq!(id.id, "birthday");
}

#[test]
fn list_id_from_path_ignores_directories_and_inner_dots() {
    assert_eq!(ListId::from_path("bob", "lists/xmas.2024.kdl").id, "xmas.2024");
    assert_eq!(ListId::from_path("bob", ".hidden").id, ".hidden");
    assert_eq!(ListId::from_path("bob", "plain").id, "plain");
}

#[test]
fn list_id_from_path_inverts_the_naming_of_list_files() {
    for slug in ["birthday", "a.b", "x", "with space", "caf\u{e9}", "abc_-9"] {
        let path = wishlist::remote::list_file_path(slug);
        let id = ListId::from_path("alice", &path);
        assert_eq!(id, ListId { owner: "alice".to_string(), id: slug.to_string() });
    }
    assert_eq!(ListId::from_path("", "a.kdl").owner, "");
}
