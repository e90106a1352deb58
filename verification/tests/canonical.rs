use basic_activitypub_server::canonical::{
    canonical_string, canonical_string_for, default_headers, digest, digest_header_value,
    request_path, SigningContext,
};
use basic_activitypub_server::error::Error;

fn context() -> SigningContext {
    SigningContext {
        method: "POST".to_string(),
        path: "/inbox".to_string(),
        host: "mastodon.online".to_string(),
        date: "Tue, 15 Nov 2022 05:09:59 GMT".to_string(),
        digest: "SHA-256=abc".to_string(),
        body: Vec::new(),
    }
}

fn names(list: &[&str]) -> Vec<String> {
    list.iter().map(|name| name.to_string()).collect()
}

#[test]
fn digest_of_known_body() {
    assert_eq!(digest(b"hello"), "SHA-256=LPJNul+wow4m6DsqxbninhsWHlwfp0JecwQzYpOLmCQ=");
}

#[test]
fn digest_of_empty_body() {
    assert_eq!(digest(b""), "SHA-256=47DEQpj8HBSa+/TImW+5JCeuQeRkm5NMpJWZG3hSuFU=");
}

#[test]
fn digest_is_deterministic() {
    let body = b"{\"type\":\"Create\"}";
    assert_eq!(digest(body), digest(body));
    assert_eq!(digest(&body.to_vec()), digest(body));
}

#[test]
fn digest_changes_with_every_bit_of_the_body() {
    let body = b"The quick brown fox".to_vec();
    let unchanged = digest(&body);
    let mut seen = vec![unchanged.clone()];
    for at in 0..body.len() {
        for bit in 0..8 {
            let mut changed = body.clone();
            changed[at] ^= 1 << bit;
            let other = digest(&changed);
            assert!(!seen.contains(&other));
            seen.push(other);
        }
    }
    assert_eq!(seen.len(), 1 + body.len() * 8);
}

#[test]
fn digest_tells_bodies_of_a_corpus_apart() {
    let corpus: Vec<Vec<u8>> = vec![
        Vec::new(),
        vec![0],
        vec![0, 0],
        b"a".to_vec(),
        b"A".to_vec(),
        b"a ".to_vec(),
        b" a".to_vec(),
        b"{}".to_vec(),
        b"{ }".to_vec(),
        vec![255; 64],
        vec![255; 65],
    ];
    for i in 0..corpus.len() {
        for j in 0..corpus.len() {
            assert_eq!(digest(&corpus[i]) == digest(&corpus[j]), i == j);
        }
    }
}

#[test]
fn digest_header_value_puts_the_algorithm_first() {
    assert_eq!(digest_header_value("abc="), "SHA-256=abc=");
    assert_eq!(digest_header_value(""), "SHA-256=");
}

#[test]
fn canonical_string_has_four_lines_in_order() {
    let text = canonical_string(
        "POST",
        "/inbox",
        "mastodon.online",
        "Tue, 15 Nov 2022 05:09:59 GMT",
        "SHA-256=abc",
    );
    assert_eq!(
        text,
        "(request-target): post /inbox\nhost: mastodon.online\ndate: Tue, 15 Nov 2022 05:09:59 GMT\ndigest: SHA-256=abc"
    );
}

#[test]
fn canonical_string_has_no_trailing_line_feed() {
    let text = canonical_string("get", "/", "h", "d", "g");
    assert_eq!(text, "(request-target): get /\nhost: h\ndate: d\ndigest: g");
    assert!(!text.ends_with('\n'));
    assert_eq!(text.lines().count(), 4);
}

#[test]
fn canonical_string_lowers_the_method_only() {
    let text = canonical_string("PoSt", "/Inbox", "Example.ORG", "D", "G");
    assert_eq!(text, "(request-target): post /Inbox\nhost: Example.ORG\ndate: D\ndigest: G");
}

#[test]
fn canonical_string_for_the_default_list_is_the_fixed_form() {
    let ctx = context();
    let fixed = canonical_string(&ctx.method, &ctx.path, &ctx.host, &ctx.date, &ctx.digest);
    assert_eq!(canonical_string_for(&ctx, &default_headers()).unwrap(), fixed);
}

#[test]
fn default_headers_are_the_four_components() {
    assert_eq!(default_headers(), names(&["(request-target)", "host", "date", "digest"]));
}

#[test]
fn canonical_string_for_follows_the_order_of_the_list() {
    let ctx = context();
    assert_eq!(
        canonical_string_for(&ctx, &names(&["date", "host"])).unwrap(),
        "date: Tue, 15 Nov 2022 05:09:59 GMT\nhost: mastodon.online"
    );
    assert_eq!(
        canonical_string_for(&ctx, &names(&["host", "date"])).unwrap(),
        "host: mastodon.online\ndate: Tue, 15 Nov 2022 05:09:59 GMT"
    );
    assert_eq!(
        canonical_string_for(&ctx, &names(&["digest", "(request-target)"])).unwrap(),
        "digest: SHA-256=abc\n(request-target): post /inbox"
    );
}

#[test]
fn canonical_string_for_accepts_a_subset_and_repeats() {
    let ctx = context();
    assert_eq!(canonical_string_for(&ctx, &names(&["host"])).unwrap(), "host: mastodon.online");
    assert_eq!(
        canonical_string_for(&ctx, &names(&["host", "host"])).unwrap(),
        "host: mastodon.online\nhost: mastodon.online"
    );
    assert_eq!(canonical_string_for(&ctx, &names(&[])).unwrap(), "");
}

#[test]
fn canonical_string_for_lowers_the_names() {
    let ctx = context();
    assert_eq!(
        canonical_string_for(&ctx, &names(&["Host", "DATE"])).unwrap(),
        "host: mastodon.online\ndate: Tue, 15 Nov 2022 05:09:59 GMT"
    );
}

#[test]
fn canonical_string_for_refuses_an_unknown_component() {
    let ctx = context();
    assert_eq!(
        canonical_string_for(&ctx, &names(&["host", "content-type"])).unwrap_err(),
        Error::MalformedSignatureHeader
    );
    assert_eq!(
        canonical_string_for(&ctx, &names(&[""])).unwrap_err(),
        Error::MalformedSignatureHeader
    );
    assert_eq!(
        canonical_string_for(&ctx, &names(&["host "])).unwrap_err(),
        Error::MalformedSignatureHeader
    );
}

#[test]
fn swapping_two_components_changes_the_canonical_string() {
    let ctx = context();
    let list = default_headers();
    let in_order = canonical_string_for(&ctx, &list).unwrap();
    for i in 0..list.len() {
        for j in 0..list.len() {
            let mut other = list.clone();
            other.swap(i, j);
            let text = canonical_string_for(&ctx, &other).unwrap();
            assert_eq!(text == in_order, i == j);
        }
    }
}

#[test]
fn request_path_leaves_the_query_out() {
    assert_eq!(request_path("/inbox?page=2", false), "/inbox");
    assert_eq!(request_path("/inbox", false), "/inbox");
    assert_eq!(request_path("/a?b?c", false), "/a");
    assert_eq!(request_path("?x", false), "/");
}

#[test]
fn request_path_keeps_the_query_on_demand() {
    assert_eq!(request_path("/inbox?page=2", true), "/inbox?page=2");
    assert_eq!(request_path("/inbox", true), "/inbox");
}

#[test]
fn request_path_starts_with_a_slash() {
    assert_eq!(request_path("inbox", false), "/inbox");
    assert_eq!(request_path("inbox?x=1", true), "/inbox?x=1");
    assert_eq!(request_path("", false), "/");
    assert_eq!(request_path("", true), "/");
    assert_eq!(request_path("/", false), "/");
}
