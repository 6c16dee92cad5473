use wishlist::auth::{
    authorize_url, exchange_outcome, exchange_url, proxied_url, route_step, status_after,
    AuthRoute, AuthStep, ExchangeNext, MAX_ATTEMPTS,
};
use wishlist::list_id::ListId;
use wishlist::records::List;
use wishlist::session::AuthStatus;
use wishlist::slug::{claim_list_id, LIST_SLUG_LENGTH};
use wishlist::store::RecordStore;

#[test]
fn exchange_url_goes_through_the_proxy_with_the_target_encoded() {
    assert_eq!(
        exchange_url(),
        "https://corsproxy.io/?https%3A%2F%2Fgithub.com%2Flogin%2Foauth%2Faccess_token"
    );
}

#[test]
fn proxied_url_appends_the_target() {
    assert_eq!(proxied_url("https://proxy/?", "a%2Fb"), "https://proxy/?a%2Fb");
}

#[test]
fn authorize_url_names_client_scope_and_return_page() {
    assert_eq!(
        authorize_url("abc", "https://wish.example/"),
        "https://github.com/login/oauth/authorize?client_id=abc&scope=gist&redirect_uri=https://wish.example/api/auth/login_token"
    );
}

#[test]
fn login_page_starts_signing_in_only_when_signed_out() {
    assert_eq!(route_step(AuthRoute::Login, &AuthStatus::SignedOut), AuthStep::Authorize);
    assert_eq!(route_step(AuthRoute::Login, &AuthStatus::Authorizing), AuthStep::Stay);
    assert_eq!(
        route_step(AuthRoute::Login, &AuthStatus::Successful("t".to_string())),
        AuthStep::Stay
    );
}

#[test]
fn logout_page_signs_out_unless_signed_out() {
    assert_eq!(route_step(AuthRoute::Logout, &AuthStatus::SignedOut), AuthStep::Stay);
    assert_eq!(
        route_step(AuthRoute::Logout, &AuthStatus::Successful("t".to_string())),
        AuthStep::SignOut
    );
    assert_eq!(
        route_step(AuthRoute::Logout, &AuthStatus::Failed("e".to_string())),
        AuthStep::SignOut
    );
}

#[test]
fn token_page_exchanges_only_while_authorizing() {
    assert_eq!(
        route_step(AuthRoute::TokenExchange, &AuthStatus::Authorizing),
        AuthStep::ExchangeTokens
    );
    assert_eq!(route_step(AuthRoute::TokenExchange, &AuthStatus::SignedOut), AuthStep::Stay);
    assert_eq!(
        route_step(AuthRoute::TokenExchange, &AuthStatus::ExchangingTokens),
        AuthStep::Stay
    );
}

#[test]
fn steps_move_the_session_state() {
    assert!(matches!(
        status_after(AuthStep::Authorize, AuthStatus::SignedOut),
        AuthStatus::Authorizing
    ));
    assert!(matches!(
        status_after(AuthStep::SignOut, AuthStatus::Successful("t".to_string())),
        AuthStatus::SignedOut
    ));
    assert!(matches!(
        status_after(AuthStep::ExchangeTokens, AuthStatus::Authorizing),
        AuthStatus::ExchangingTokens
    ));
    assert!(matches!(
        status_after(AuthStep::Stay, AuthStatus::Failed("e".to_string())),
        AuthStatus::Failed(e) if e == "e"
    ));
}

#[test]
fn exchange_is_tried_twice() {
    assert_eq!(MAX_ATTEMPTS, 2);
    let (status, next) = exchange_outcome(0, Err("timeout".to_string()));
    assert!(matches!(status, AuthStatus::Failed(e) if e == "timeout"));
    assert_eq!(next, ExchangeNext::Retry);
    let (status, next) = exchange_outcome(1, Err("again".to_string()));
    assert!(matches!(status, AuthStatus::Failed(e) if e == "again"));
    assert_eq!(next, ExchangeNext::GiveUp);
    let (status, next) = exchange_outcome(1, Ok("token".to_string()));
    assert!(matches!(status, AuthStatus::Successful(t) if t == "token"));
    assert_eq!(next, ExchangeNext::FetchProfile);
}

#[test]
fn new_list_id_is_a_fresh_slug_of_the_owner() {
    let mut store = RecordStore::open(1).unwrap();
    let mut seen = Vec::new();
    for _ in 0..20 {
        let id = loop {
            if let Some(id) = store.new_list_id("alice") {
                break id;
            }
        };
        assert_eq!(id.owner, "alice");
        assert_eq!(id.id.chars().count(), LIST_SLUG_LENGTH);
        assert!(id.id.chars().all(|c| c.is_ascii_alphanumeric() || c == '-' || c == '_'));
        assert!(store.get_list(&id).is_none());
        assert!(!seen.contains(&id.id));
        seen.push(id.id.clone());
        store.put_list(List {
            id,
            file_id: None,
            kdl: String::new(),
            local_version: String::new(),
            pending_changes: Vec::new(),
        });
    }
    assert_eq!(store.lists().len(), 20);
}

#[test]
fn taken_slug_is_not_claimed() {
    let mut store = RecordStore::open(1).unwrap();
    let id = ListId { owner: "alice".to_string(), id: "abcdefghij".to_string() };
    assert_eq!(claim_list_id(&store, "alice", "abcdefghij".to_string()), Some(id.clone()));
    store.put_list(List {
        id: id.clone(),
        file_id: None,
        kdl: String::new(),
        local_version: String::new(),
        pending_changes: Vec::new(),
    });
    assert_eq!(claim_list_id(&store, "alice", "abcdefghij".to_string()), None);
    assert!(claim_list_id(&store, "bob", "abcdefghij".to_string()).is_some());
}

#[test]
fn new_list_id_succeeds_where_the_owner_has_no_lists() {
    let mut store = RecordStore::open(1).unwrap();
    assert!(store.new_list_id("alice").is_some());
    store.put_list(List {
        id: ListId { owner: "bob".to_string(), id: "abcdefghij".to_string() },
        file_id: None,
        kdl: String::new(),
        local_version: String::new(),
        pending_changes: Vec::new(),
    });
    store.put_list(List {
        id: ListId { owner: "alice".to_string(), id: "short".to_string() },
        file_id: None,
        kdl: String::new(),
        local_version: String::new(),
        pending_changes: Vec::new(),
    });
    for _ in 0..10 {
        let id = store.new_list_id("alice").unwrap();
        assert_eq!(id.owner, "alice");
        assert_eq!(id.id.chars().count(), LIST_SLUG_LENGTH);
    }
}
