use basic_activitypub_server::discovery::{actor_id, actor_identity, key_id, webfinger_document};
use basic_activitypub_server::AppState;

fn state() -> AppState {
    AppState { user: "alice".to_string(), domain: "example.org".to_string() }
}

#[test]
fn webfinger_document_links_the_account_to_the_actor() {
    let document = webfinger_document(&state());
    assert_eq!(document.subject, "acct:alice@example.org");
    assert_eq!(document.links.len(), 1);
    assert_eq!(document.links[0].rel, "self");
    assert_eq!(document.links[0].kind, "application/activity+json");
    assert_eq!(document.links[0].href, "https://example.org/actor");
}

#[test]
fn actor_identity_names_actor_and_key() {
    let identity = actor_identity(&state());
    assert_eq!(identity.canonical_id, "https://example.org/actor");
    assert_eq!(identity.key_id, "https://example.org/actor#main-key");
    assert_eq!(identity.preferred_name, "alice");
    assert_eq!(identity.key_id, format!("{}#main-key", identity.canonical_id));
}

#[test]
fn key_id_is_the_actor_id_with_a_fragment() {
    assert_eq!(actor_id("a.example"), "https://a.example/actor");
    assert_eq!(key_id("a.example"), "https://a.example/actor#main-key");
    assert_eq!(actor_id(""), "https:///actor");
}

#[test]
fn app_state_is_cloned_field_by_field() {
    let first = state();
    let copy = first.clone();
    assert_eq!(copy.user, "alice");
    assert_eq!(copy.domain, "example.org");
    assert_eq!(copy, first);
}
