use basic_activitypub_server::cache::{copy_key, KeyCache};
use basic_activitypub_server::discovery::ActorPublicKey;

fn public_pem() -> String {
    [
        "-----BEGIN PUBLIC KEY-----\n",
        "MIIBIjANBgkqhkiG9w0BAQEFAAOCAQ8AMIIBCgKCAQEAqFNjuKcsvI2l25ufDS9v\n",
        "SO6Z2lU5pjPctUH9j0oEceUSKPPcaqAz34nzmJ88xFbVhIPc4LbvqJUvcdLo827g\n",
        "8jj+G3n9/9DkPHIe0A55+zV7h0w03I7VYAtRO20nW6vY8YoXEGA7pqFXFQxiDuDR\n",
        "bPhfSCPZ7i/6rHjf494bRfCm95w7VVixZe/t4EbUNJQ9yNIhfoDh9gPmM07ZyZTq\n",
        "FwP9JNJ15iT0FkeunhRwfHgaARzf9DmadnNNJSobfiruExH47VuiJL/6elgSITWW\n",
        "ss3LuHG9lRwqVrM3Mvbnk9kv5fS9QPB0Yg6mA6KrzWk35d8R71hYqk4y21s/Qj6k\n",
        "qQIDAQAB\n",
        "-----END PUBLIC KEY-----\n",
    ]
    .concat()
}

fn key(id: &str, owner: &str) -> ActorPublicKey {
    ActorPublicKey { id: id.to_string(), owner: owner.to_string(), public_key_pem: public_pem() }
}

#[test]
fn new_cache_is_empty() {
    let cache = KeyCache::new(60, 4);
    assert_eq!(cache.len(), 0);
    assert_eq!(cache.lookup("a", 0), None);
}

#[test]
fn stored_key_is_found_while_it_is_alive() {
    let mut cache = KeyCache::new(60, 4);
    assert!(cache.remember("a", key("a", "A"), 1000));
    assert_eq!(cache.len(), 1);
    assert_eq!(cache.lookup("a", 1000), Some(key("a", "A")));
    assert_eq!(cache.lookup("a", 1030), Some(key("a", "A")));
    assert_eq!(cache.lookup("a", 1060), Some(key("a", "A")));
    assert_eq!(cache.lookup("a", 1061), None);
    assert_eq!(cache.lookup("a", 999), None);
    assert_eq!(cache.lookup("b", 1000), None);
    assert_eq!(cache.len(), 1);
}

#[test]
fn storing_an_identifier_again_replaces_its_entry() {
    let mut cache = KeyCache::new(60, 4);
    assert!(cache.remember("a", key("a", "old"), 1000));
    assert!(cache.remember("b", key("b", "B"), 1001));
    assert!(cache.remember("a", key("a", "new"), 1100));
    assert_eq!(cache.len(), 2);
    assert_eq!(cache.lookup("a", 1100), Some(key("a", "new")));
    assert_eq!(cache.lookup("a", 1160), Some(key("a", "new")));
    assert_eq!(cache.lookup("b", 1050), Some(key("b", "B")));
}

#[test]
fn full_cache_lets_the_earliest_entry_go() {
    let mut cache = KeyCache::new(1000, 2);
    assert!(cache.remember("a", key("a", "A"), 5));
    assert!(cache.remember("b", key("b", "B"), 2));
    assert!(cache.remember("c", key("c", "C"), 6));
    assert_eq!(cache.len(), 2);
    assert_eq!(cache.lookup("a", 6), Some(key("a", "A")));
    assert_eq!(cache.lookup("b", 6), None);
    assert_eq!(cache.lookup("c", 6), Some(key("c", "C")));
    assert!(cache.remember("d", key("d", "D"), 7));
    assert_eq!(cache.len(), 2);
    assert_eq!(cache.lookup("a", 7), None);
    assert_eq!(cache.lookup("c", 7), Some(key("c", "C")));
    assert_eq!(cache.lookup("d", 7), Some(key("d", "D")));
}

#[test]
fn of_two_equally_old_entries_the_first_goes() {
    let mut cache = KeyCache::new(1000, 2);
    assert!(cache.remember("a", key("a", "A"), 5));
    assert!(cache.remember("b", key("b", "B"), 5));
    assert!(cache.remember("c", key("c", "C"), 5));
    assert_eq!(cache.lookup("a", 5), None);
    assert_eq!(cache.lookup("b", 5), Some(key("b", "B")));
    assert_eq!(cache.lookup("c", 5), Some(key("c", "C")));
}

#[test]
fn cache_without_room_stores_nothing() {
    let mut cache = KeyCache::new(1000, 0);
    assert!(cache.remember("a", key("a", "A"), 5));
    assert_eq!(cache.len(), 0);
    assert_eq!(cache.lookup("a", 5), None);
}

#[test]
fn full_cache_still_replaces_a_known_identifier() {
    let mut cache = KeyCache::new(1000, 2);
    assert!(cache.remember("a", key("a", "A"), 1));
    assert!(cache.remember("b", key("b", "B"), 2));
    assert!(cache.remember("a", key("a", "A2"), 3));
    assert_eq!(cache.len(), 2);
    assert_eq!(cache.lookup("a", 3), Some(key("a", "A2")));
    assert_eq!(cache.lookup("b", 3), Some(key("b", "B")));
}

#[test]
fn entry_without_lifetime_answers_for_its_own_moment_only() {
    let mut cache = KeyCache::new(0, 1);
    assert!(cache.remember("a", key("a", "A"), 10));
    assert_eq!(cache.lookup("a", 10), Some(key("a", "A")));
    assert_eq!(cache.lookup("a", 11), None);
}

#[test]
fn lookup_at_the_limits_of_the_integers() {
    let mut cache = KeyCache::new(u64::MAX, 2);
    assert!(cache.remember("a", key("a", "A"), i64::MIN));
    assert!(cache.remember("b", key("b", "B"), i64::MAX));
    assert_eq!(cache.lookup("a", i64::MAX), Some(key("a", "A")));
    assert_eq!(cache.lookup("b", i64::MIN), None);
    assert_eq!(cache.lookup("b", i64::MAX), Some(key("b", "B")));
    let mut short = KeyCache::new(1, 1);
    assert!(short.remember("a", key("a", "A"), i64::MIN));
    assert_eq!(short.lookup("a", i64::MAX), None);
    assert_eq!(short.lookup("a", i64::MIN + 1), Some(key("a", "A")));
}

#[test]
fn key_fetched_for_another_identifier_is_not_stored() {
    let mut cache = KeyCache::new(1000, 2);
    assert!(cache.remember("a", key("a", "A"), 1));
    assert!(!cache.remember("b", key("a", "planted"), 2));
    assert!(!cache.remember("a", key("b", "planted"), 2));
    assert_eq!(cache.len(), 1);
    assert_eq!(cache.lookup("a", 2), Some(key("a", "A")));
    assert_eq!(cache.lookup("b", 2), None);
}

#[test]
fn copy_key_copies_every_field() {
    let published = key("a", "A");
    assert_eq!(copy_key(&published), published);
}
