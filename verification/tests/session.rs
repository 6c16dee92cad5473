use wishlist::gist::{
    description, name_prefix, parse_name_from, AppUserData, FetchCurrentUser, FetchProfile, Gist,
    GistClass, GistDocument, GistId, GistSummary, List, Visibility,
};
use wishlist::kind::{KindId, KindName};
use wishlist::session::{AuthStatus, Profile, User};
use wishlist::storage::get;

#[test]
fn auth_status_starts_signed_out() {
    assert!(matches!(AuthStatus::default(), AuthStatus::SignedOut));
}

#[test]
fn modal_shows_while_signing_in_and_after_failure() {
    assert!(!AuthStatus::SignedOut.should_show_modal());
    assert!(AuthStatus::Authorizing.should_show_modal());
    assert!(AuthStatus::ExchangingTokens.should_show_modal());
    assert!(!AuthStatus::Successful("t".to_string()).should_show_modal());
    assert!(AuthStatus::Failed("e".to_string()).should_show_modal());
}

#[test]
fn progress_shows_unless_signed_out_or_failed() {
    assert!(!AuthStatus::SignedOut.should_show_progress());
    assert!(AuthStatus::Authorizing.should_show_progress());
    assert!(AuthStatus::ExchangingTokens.should_show_progress());
    assert!(AuthStatus::Successful("t".to_string()).should_show_progress());
    assert!(!AuthStatus::Failed("e".to_string()).should_show_progress());
}

#[test]
fn byline_names_each_state() {
    assert_eq!(AuthStatus::SignedOut.byline(), "");
    assert_eq!(AuthStatus::Authorizing.byline(), "Establishing handshake");
    assert_eq!(AuthStatus::ExchangingTokens.byline(), "Shaking hands");
    assert_eq!(AuthStatus::Successful("t".to_string()).byline(), "Greetings completed");
    assert_eq!(AuthStatus::Failed("e".to_string()).byline(), "Failed to authenticate");
}

#[test]
fn info_is_the_failure_text() {
    assert_eq!(AuthStatus::Failed("denied".to_string()).info(), Some("denied".to_string()));
    assert_eq!(AuthStatus::Successful("t".to_string()).info(), None);
    assert_eq!(AuthStatus::SignedOut.info(), None);
    assert!(matches!(AuthStatus::Failed("x".to_string()).clone(), AuthStatus::Failed(e) if e == "x"));
}

#[test]
fn credential_exists_only_when_signed_in() {
    let credential = get(&AuthStatus::Successful("token-1".to_string())).unwrap();
    assert_eq!(credential.token, "token-1");
    assert_eq!(credential.user_agent, "wishlist/0.1.0");
    assert!(get(&AuthStatus::SignedOut).is_none());
    assert!(get(&AuthStatus::Authorizing).is_none());
    assert!(get(&AuthStatus::Failed("t".to_string())).is_none());
}

#[test]
fn session_defaults_are_empty() {
    let user = User::default();
    assert_eq!(user.login, "");
    let profile = Profile::default();
    assert_eq!(profile.app_user_data.as_str(), "");
    assert!(profile.lists.is_empty());
}

#[test]
fn gist_id_builds_its_addresses() {
    let id = GistId::from("abc123".to_string());
    assert_eq!(id.get_url(), "https://api.github.com/gists/abc123");
    assert_eq!(id.endpoint(), "/gists/abc123");
    assert_eq!(id.to_string(), "abc123");
    assert_eq!(GistId::from_str("xyz").unwrap().as_str(), "xyz");
    assert_eq!(id.clone().as_str(), "abc123");
}

#[test]
fn visibility_values_round_trip() {
    assert_eq!(Visibility::Public.value(), "public");
    assert_eq!(Visibility::Private.value(), "private");
    assert_eq!(Visibility::from_str("public"), Ok(Visibility::Public));
    assert_eq!(Visibility::from_str("private"), Ok(Visibility::Private));
    assert_eq!(Visibility::from_str("Public"), Err(()));
    assert_eq!(Visibility::from(true), Visibility::Public);
    assert_eq!(Visibility::from(false), Visibility::Private);
    assert!(Visibility::Public.into());
    assert!(!Visibility::Private.into());
    assert_eq!(Visibility::default(), Visibility::Private);
    assert_eq!(Visibility::Public.to_string(), "Anyone with link");
    assert_eq!(Visibility::Private.to_string(), "Only me");
}

#[test]
fn description_is_prefix_separator_and_name() {
    assert_eq!(AppUserData::prefix(), "wishlist::private");
    assert_eq!(List::prefix(), "wishlist::document");
    assert_eq!(name_prefix::<List>(), "wishlist::document - ");
    let list = List::new("Birthday".to_string());
    assert_eq!(list.name(), "Birthday");
    assert_eq!(description(&list), "wishlist::document - Birthday");
    assert_eq!(description(&AppUserData {}), "wishlist::private - App User Data");
    assert_eq!(parse_name_from::<List>("wishlist::document - Birthday"), "Birthday");
    assert_eq!(parse_name_from::<List>("wishlist::document - "), "");
}

#[test]
fn new_gist_is_private_and_unsaved() {
    let gist = Gist::from(List::new("Birthday".to_string()));
    assert!(gist.id.is_none());
    assert_eq!(gist.description, "wishlist::document - Birthday");
    assert_eq!(gist.visibility, Visibility::Private);
    assert_eq!(gist.owner_login, "");
    assert_eq!(gist.save_endpoint(), "/gists");
    let gist = gist.with_visibility(Visibility::Public).with_owner("alice".to_string());
    assert_eq!(gist.visibility, Visibility::Public);
    assert_eq!(gist.owner_login, "alice");
    assert_eq!(gist.file.name, "Birthday");
    assert_eq!(gist.description, "wishlist::document - Birthday");
    let mut saved = gist;
    saved.id = Some(GistId::from("g1".to_string()));
    assert_eq!(saved.save_endpoint(), "/gists/g1");
}

#[test]
fn gists_are_classified_by_description() {
    let gist = |description: &str, public: bool| GistSummary {
        id: "g1".to_string(),
        description: description.to_string(),
        owner_login: "alice".to_string(),
        public,
    };
    match FetchProfile::classify(false, &gist("wishlist::private - App User Data", false)) {
        GistClass::UserData(id) => assert_eq!(id.as_str(), "g1"),
        other => panic!("unexpected class: {:?}", other),
    }
    assert!(matches!(
        FetchProfile::classify(true, &gist("wishlist::private - App User Data", false)),
        GistClass::Other
    ));
    match FetchProfile::classify(true, &gist("wishlist::document - Xmas", true)) {
        GistClass::Wishlist(info) => {
            assert_eq!(info.id.as_str(), "g1");
            assert_eq!(info.title, "Xmas");
            assert_eq!(info.owner_login, "alice");
            assert_eq!(info.visibility, Visibility::Public);
        }
        other => panic!("unexpected class: {:?}", other),
    }
    assert!(matches!(
        FetchProfile::classify(false, &gist("shopping list", true)),
        GistClass::Other
    ));
    assert!(matches!(
        FetchProfile::classify(false, &gist("wishlist::document", true)),
        GistClass::Other
    ));
}

#[test]
fn short_page_is_the_last_page() {
    assert!(FetchProfile::is_last_page(0));
    assert!(FetchProfile::is_last_page(9));
    assert!(!FetchProfile::is_last_page(10));
    assert_eq!(FetchCurrentUser::query(), "query { viewer { login name avatarUrl } }");
}

#[test]
fn kind_names_round_trip() {
    assert_eq!(KindName::all(), [KindName::Specific, KindName::Idea, KindName::Bundle]);
    for kind in KindName::all() {
        assert_eq!(KindName::from(kind.value()), kind);
        assert_eq!(KindName::from_str(kind.value()), Ok(kind));
    }
    assert_eq!(KindName::Specific.value(), "Specific");
    assert_eq!(KindName::Idea.value(), "Idea");
    assert_eq!(KindName::Bundle.value(), "Bundle");
    assert_eq!(KindName::from_str("bundle"), Err(()));
    assert_eq!(KindName::from_str(""), Err(()));
}

#[test]
fn kind_ids_round_trip_and_explain_themselves() {
    for kind in KindId::all() {
        assert_eq!(KindId::from_str(&kind.to_string()).unwrap(), kind);
    }
    assert_eq!(KindId::Idea.to_string(), "Idea");
    match KindId::from_str("Gadget") {
        Err(error) => assert_eq!(error.0, "Gadget"),
        Ok(kind) => panic!("unexpected kind: {:?}", kind),
    }
    assert!(KindId::Specific.help_info().starts_with("A specific offer found at the provided url."));
    assert!(KindId::Idea.help_info().starts_with("An idea for a gift."));
    assert!(KindId::Bundle.help_info().starts_with("A set of items."));
}

#[test]
fn wishlists_are_sorted_by_title_keeping_ties_in_order() {
    let info = |id: &str, title: &str| wishlist::gist::GistInfo {
        id: GistId::from(id.to_string()),
        title: title.to_string(),
        owner_login: "alice".to_string(),
        visibility: Visibility::Private,
    };
    let lists = vec![
        info("1", "Xmas"),
        info("2", "Birthday"),
        info("3", "wedding"),
        info("4", "Birthday"),
        info("5", ""),
        info("6", "Anniversary"),
    ];
    let sorted = FetchProfile::sort_by_title(&lists);
    let order: Vec<(&str, &str)> =
        sorted.iter().map(|l| (l.id.as_str(), l.title.as_str())).collect();
    assert_eq!(
        order,
        vec![
            ("5", ""),
            ("6", "Anniversary"),
            ("2", "Birthday"),
            ("4", "Birthday"),
            ("1", "Xmas"),
            ("3", "wedding"),
        ]
    );
    assert!(FetchProfile::sort_by_title(&Vec::new()).is_empty());
}

#[test]
fn visibility_tag_classes_mark_private_gists() {
    assert_eq!(Visibility::Public.tag_classes(), vec!["is-info"]);
    assert_eq!(Visibility::Private.tag_classes(), vec!["is-danger", "is-light"]);
}

#[test]
fn signing_in_is_noticed_once() {
    let signed_in = AuthStatus::Successful("t".to_string());
    assert!(wishlist::auth::signed_in_now(&signed_in, false));
    assert!(!wishlist::auth::signed_in_now(&signed_in, true));
    assert!(!wishlist::auth::signed_in_now(&AuthStatus::Authorizing, false));
    assert!(!wishlist::auth::signed_in_now(&AuthStatus::SignedOut, true));
}
