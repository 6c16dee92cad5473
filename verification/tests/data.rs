use wishlist::data::{Bundle, Entry, EntryPath, Idea, Kind, List, Specific};
use wishlist::kind::KindId;
use wishlist::tags::TagSet;
use wishlist::text::precedes;

fn entry(name: &str, kind: Kind) -> Entry {
    let mut entry = Entry::default();
    entry.name = name.to_string();
    entry.kind = kind;
    entry
}

fn specific(image: Option<&str>) -> Kind {
    Kind::Specific(Specific {
        image_url: image.map(str::to_string),
        offer_url: "https://shop.example/offer".to_string(),
        cost_per_unit: 10,
    })
}

fn idea(image: Option<&str>) -> Kind {
    Kind::Idea(Idea {
        image_url: image.map(str::to_string),
        estimated_cost: 30,
        example_urls: Vec::new(),
    })
}

fn bundle(entries: Vec<Entry>) -> Kind {
    Kind::Bundle(Bundle { entries })
}

fn sample() -> List {
    List {
        name: "Birthday".to_string(),
        invitees: vec!["bob".to_string()],
        entries: vec![
            entry("Poster", specific(Some("poster.png"))),
            entry(
                "Framed poster",
                bundle(vec![
                    entry("Print", specific(Some("print.png"))),
                    entry("Frame", idea(None)),
                ]),
            ),
            entry("Book", idea(Some("book.png"))),
        ],
    }
}

fn names(entries: &[Entry]) -> Vec<&str> {
    entries.iter().map(|e| e.name.as_str()).collect()
}

fn bundle_names(list: &List, root: usize) -> Vec<&str> {
    match &list.entries[root].kind {
        Kind::Bundle(bundle) => names(&bundle.entries),
        other => panic!("not a bundle: {:?}", other),
    }
}

#[test]
fn texts_are_ordered_as_strings_are() {
    let samples = [
        "", "a", "A", "ab", "abc", "abd", "b", "Zebra", "apple", "\u{e9}clair", "eclair",
        "z\u{e9}", "zz", "10", "9", "a b", "a-b", "\u{1f600}", "\u{ffff}",
    ];
    for a in samples {
        for b in samples {
            assert_eq!(precedes(a, b), a < b, "{:?} before {:?}", a, b);
        }
    }
}

#[test]
fn tag_set_keeps_tags_sorted_and_unique() {
    let mut tags = TagSet::new();
    assert_eq!(tags.len(), 0);
    assert!(tags.insert("kitchen".to_string()));
    assert!(tags.insert("books".to_string()));
    assert!(tags.insert("travel".to_string()));
    assert!(!tags.insert("books".to_string()));
    assert!(tags.insert("Home".to_string()));
    assert_eq!(tags.as_vec(), &vec!["Home", "books", "kitchen", "travel"]);
    assert_eq!(tags.len(), 4);
    assert!(tags.contains("kitchen"));
    assert!(!tags.contains("garden"));
    assert!(!tags.contains(""));
}

#[test]
fn tag_set_removes_only_the_named_tag() {
    let mut tags = TagSet::new();
    for tag in ["c", "a", "b"] {
        tags.insert(tag.to_string());
    }
    assert!(tags.remove("b"));
    assert!(!tags.remove("b"));
    assert!(!tags.remove("z"));
    assert_eq!(tags.as_vec(), &vec!["a", "c"]);
    let copy = tags.clone();
    assert_eq!(copy.as_vec(), tags.as_vec());
}

#[test]
fn default_entry_is_one_specific_gift() {
    let entry = Entry::default();
    assert_eq!(entry.name, "");
    assert_eq!(entry.description, "");
    assert_eq!(entry.quantity, 1);
    assert!(entry.reservations.is_empty());
    assert_eq!(entry.tags.len(), 0);
    assert_eq!(entry.kind.id(), KindId::Specific);
}

#[test]
fn kind_from_id_is_blank() {
    match Kind::from(KindId::Specific) {
        Kind::Specific(s) => {
            assert_eq!(s.image_url, None);
            assert_eq!(s.offer_url, "");
            assert_eq!(s.cost_per_unit, 0);
        }
        other => panic!("unexpected kind: {:?}", other),
    }
    match Kind::from(KindId::Idea) {
        Kind::Idea(i) => {
            assert_eq!(i.image_url, None);
            assert_eq!(i.estimated_cost, 0);
            assert!(i.example_urls.is_empty());
        }
        other => panic!("unexpected kind: {:?}", other),
    }
    match Kind::from(KindId::Bundle) {
        Kind::Bundle(b) => assert!(b.entries.is_empty()),
        other => panic!("unexpected kind: {:?}", other),
    }
    assert_eq!(Kind::default().id(), KindId::Specific);
    assert_eq!(idea(None).id(), KindId::Idea);
    assert_eq!(bundle(Vec::new()).id(), KindId::Bundle);
}

#[test]
fn image_urls_walk_bundles_in_order() {
    assert_eq!(specific(Some("a.png")).image_urls(), vec!["a.png"]);
    assert!(specific(None).image_urls().is_empty());
    assert_eq!(idea(Some("i.png")).image_urls(), vec!["i.png"]);
    let nested = bundle(vec![
        entry("one", specific(Some("1.png"))),
        entry("two", idea(None)),
        entry("three", bundle(vec![entry("deep", idea(Some("deep.png")))])),
        entry("four", specific(Some("4.png"))),
    ]);
    assert_eq!(nested.image_urls(), vec!["1.png", "deep.png", "4.png"]);
    assert!(bundle(Vec::new()).image_urls().is_empty());
}

#[test]
fn paths_resolve_to_entries() {
    let list = sample();
    assert_eq!(EntryPath::root(2), EntryPath { root: 2, bundle_idx: None });
    assert_eq!(EntryPath::root(1).bundled(0), EntryPath { root: 1, bundle_idx: Some(0) });
    assert_eq!(EntryPath::root(0).resolve_entry(&list).unwrap().name, "Poster");
    assert_eq!(EntryPath::root(1).bundled(1).resolve_entry(&list).unwrap().name, "Frame");
    assert!(EntryPath::root(3).resolve_entry(&list).is_none());
    assert!(EntryPath::root(1).bundled(2).resolve_entry(&list).is_none());
    assert!(EntryPath::root(0).bundled(0).resolve_entry(&list).is_none());
}

#[test]
fn crumbs_name_the_way_to_an_entry() {
    let list = sample();
    assert_eq!(
        EntryPath::root(2).resolve_crumbs(&list).unwrap(),
        vec![("Birthday".to_string(), None), ("Book".to_string(), Some(EntryPath::root(2)))]
    );
    assert_eq!(
        EntryPath::root(1).bundled(0).resolve_crumbs(&list).unwrap(),
        vec![
            ("Birthday".to_string(), None),
            ("Framed poster".to_string(), Some(EntryPath::root(1))),
            ("Print".to_string(), Some(EntryPath::root(1).bundled(0))),
        ]
    );
    assert!(EntryPath::root(9).resolve_crumbs(&list).is_none());
    assert!(EntryPath::root(0).bundled(0).resolve_crumbs(&list).is_none());
}

#[test]
fn add_entry_puts_the_entry_at_its_place() {
    let mut list = sample();
    let message = list.add_entry(EntryPath::root(0), entry("First", specific(None)));
    assert_eq!(message, Some("Add item".to_string()));
    assert_eq!(names(&list.entries), vec!["First", "Poster", "Framed poster", "Book"]);
    let message = list.add_entry(EntryPath::root(99), entry("Last", specific(None)));
    assert_eq!(message, Some("Add item".to_string()));
    assert_eq!(names(&list.entries), vec!["First", "Poster", "Framed poster", "Book", "Last"]);
    assert_eq!(list.name, "Birthday");
    assert_eq!(list.invitees, vec!["bob".to_string()]);
}

#[test]
fn add_entry_to_a_bundle() {
    let mut list = sample();
    let message = list.add_entry(EntryPath::root(1).bundled(1), entry("Glass", idea(None)));
    assert_eq!(message, Some("Add item to bundle".to_string()));
    assert_eq!(bundle_names(&list, 1), vec!["Print", "Glass", "Frame"]);
    let message = list.add_entry(EntryPath::root(1).bundled(7), entry("Hook", idea(None)));
    assert_eq!(message, Some("Add item to bundle".to_string()));
    assert_eq!(bundle_names(&list, 1), vec!["Print", "Glass", "Frame", "Hook"]);
    assert_eq!(names(&list.entries), vec!["Poster", "Framed poster", "Book"]);
}

#[test]
fn add_entry_to_what_is_no_bundle_does_nothing() {
    let mut list = sample();
    assert_eq!(list.add_entry(EntryPath::root(0).bundled(0), entry("x", idea(None))), None);
    assert_eq!(list.add_entry(EntryPath::root(5).bundled(0), entry("x", idea(None))), None);
    assert_eq!(names(&list.entries), vec!["Poster", "Framed poster", "Book"]);
    assert_eq!(bundle_names(&list, 1), vec!["Print", "Frame"]);
    assert_eq!(list.entries[0].kind.image_urls(), vec!["poster.png"]);
}

#[test]
fn remove_entry_names_what_it_removed() {
    let mut list = sample();
    assert_eq!(list.remove_entry(EntryPath::root(0)), Some("Remove item Poster".to_string()));
    assert_eq!(names(&list.entries), vec!["Framed poster", "Book"]);
    assert_eq!(
        list.remove_entry(EntryPath::root(0).bundled(1)),
        Some("Remove item Frame from bundle Framed poster".to_string())
    );
    assert_eq!(bundle_names(&list, 0), vec!["Print"]);
    assert_eq!(names(&list.entries), vec!["Framed poster", "Book"]);
}

#[test]
fn remove_entry_at_a_missing_place_does_nothing() {
    let mut list = sample();
    assert_eq!(list.remove_entry(EntryPath::root(3)), None);
    assert_eq!(list.remove_entry(EntryPath::root(1).bundled(2)), None);
    assert_eq!(list.remove_entry(EntryPath::root(2).bundled(0)), None);
    assert_eq!(names(&list.entries), vec!["Poster", "Framed poster", "Book"]);
    assert_eq!(bundle_names(&list, 1), vec!["Print", "Frame"]);
    assert_eq!(list.entries[2].kind.image_urls(), vec!["book.png"]);
}
