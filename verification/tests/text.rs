use wishlist::text::{
    ends_with, find_char, has_file_name, path_stem, rfind_char, starts_with, text_eq,
};

#[test]
fn ends_with_tests_the_suffix() {
    assert!(ends_with("lists/a.kdl", ".kdl"));
    assert!(ends_with(".kdl", ".kdl"));
    assert!(ends_with("anything", ""));
    assert!(!ends_with("kdl", ".kdl"));
    assert!(!ends_with("a.kdl.bak", ".kdl"));
}

#[test]
fn starts_with_tests_the_prefix() {
    assert!(starts_with("wishlist::document - Mine", "wishlist::document"));
    assert!(starts_with("abc", ""));
    assert!(!starts_with("wish", "wishlist"));
    assert!(!starts_with("a wishlist", "wishlist"));
}

#[test]
fn find_char_gives_the_first_position() {
    assert_eq!(find_char("a/b/c", '/'), Some(1));
    assert_eq!(find_char("abc", '/'), None);
    assert_eq!(find_char("", '/'), None);
    assert_eq!(find_char("/", '/'), Some(0));
}

#[test]
fn rfind_char_gives_the_last_position() {
    assert_eq!(rfind_char("a/b/c", '/'), Some(3));
    assert_eq!(rfind_char("abc", '/'), None);
    assert_eq!(rfind_char("", '.'), None);
    assert_eq!(rfind_char("x.tar.gz", '.'), Some(5));
}

#[test]
fn positions_count_characters_not_bytes() {
    assert_eq!(find_char("\u{e9}t\u{e9}/x", '/'), Some(3));
    assert_eq!(path_stem("caf\u{e9}.kdl"), "caf\u{e9}");
}

#[test]
fn path_stem_drops_directories_and_extension() {
    assert_eq!(path_stem("birthday.kdl"), "birthday");
    assert_eq!(path_stem("lists/birthday.kdl"), "birthday");
    assert_eq!(path_stem("a/b/c.d.e"), "c.d");
    assert_eq!(path_stem("noext"), "noext");
    assert_eq!(path_stem(".hidden"), ".hidden");
    assert_eq!(path_stem("user.kdl"), "user");
    assert_eq!(path_stem("..kdl"), ".");
    assert_eq!(path_stem("a//b.kdl"), "b");
}

#[test]
fn path_stem_agrees_with_std_on_paths_that_name_a_file() {
    for path in [
        "birthday.kdl", "lists/birthday.kdl", "a/b/c.d.e", "noext", ".hidden", "x/.hidden.kdl",
        "..kdl", "a//b.kdl", "/abs/file.txt", "dots...", "a/..b",
    ] {
        assert!(has_file_name(path), "{:?}", path);
        let stem = std::path::Path::new(path).file_stem().unwrap().to_str().unwrap();
        assert_eq!(path_stem(path), stem, "{:?}", path);
    }
}

#[test]
fn has_file_name_tells_paths_without_a_file() {
    assert!(!has_file_name(""));
    assert!(!has_file_name("dir/"));
    assert!(!has_file_name("/"));
    assert!(!has_file_name(".."));
    assert!(!has_file_name("a/.."));
    assert!(!has_file_name("."));
    assert!(!has_file_name("a/."));
    assert!(has_file_name("a"));
    assert!(has_file_name("..."));
    assert!(has_file_name(".a"));
    assert!(has_file_name("dir/x.kdl"));
}

#[test]
fn text_eq_compares_whole_texts() {
    assert!(text_eq("Idea", "Idea"));
    assert!(!text_eq("Idea", "idea"));
    assert!(!text_eq("Idea", "Ideas"));
    assert!(text_eq("", ""));
}
