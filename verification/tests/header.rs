use basic_activitypub_server::error::Error;
use basic_activitypub_server::header::{
    build_header, find_param, format_header, join_names, parse_header, parse_params, split_words,
    Param,
};

fn names(list: &[&str]) -> Vec<String> {
    list.iter().map(|name| name.to_string()).collect()
}

fn param(name: &str, value: &str) -> Param {
    Param { name: name.to_string(), value: value.to_string() }
}

#[test]
fn build_header_writes_three_pairs() {
    let header = build_header(
        "https://example.org/actor#main-key",
        &names(&["(request-target)", "host", "date", "digest"]),
        b"hello",
    );
    assert_eq!(
        header,
        "keyId=\"https://example.org/actor#main-key\",headers=\"(request-target) host date digest\",signature=\"aGVsbG8=\""
    );
}

#[test]
fn build_header_encodes_the_signature_in_base64() {
    assert_eq!(build_header("k", &names(&["date"]), &[]), "keyId=\"k\",headers=\"date\",signature=\"\"");
    assert_eq!(
        build_header("k", &names(&["date"]), &[0xfb, 0xff, 0xfe]),
        "keyId=\"k\",headers=\"date\",signature=\"+//+\""
    );
    assert_eq!(
        build_header("k", &names(&["date"]), &[0]),
        "keyId=\"k\",headers=\"date\",signature=\"AA==\""
    );
}

#[test]
fn format_header_takes_the_encoded_signature_as_it_is() {
    assert_eq!(
        format_header("k", &names(&["host", "date"]), "c2ln"),
        "keyId=\"k\",headers=\"host date\",signature=\"c2ln\""
    );
}

#[test]
fn join_names_puts_single_spaces_between() {
    assert_eq!(join_names(&names(&[])), "");
    assert_eq!(join_names(&names(&["a"])), "a");
    assert_eq!(join_names(&names(&["a", "b", "c"])), "a b c");
}

#[test]
fn split_words_cuts_at_every_space() {
    assert_eq!(split_words("a b c"), names(&["a", "b", "c"]));
    assert_eq!(split_words("abc"), names(&["abc"]));
    assert_eq!(split_words(""), names(&[""]));
    assert_eq!(split_words("a  b"), names(&["a", "", "b"]));
    assert_eq!(split_words(" a "), names(&["", "a", ""]));
}

#[test]
fn parse_header_reads_what_build_header_wrote() {
    let list = names(&["(request-target)", "host", "date", "digest"]);
    let signature: Vec<u8> = (0..=255).collect();
    let text = build_header("https://example.org/actor#main-key", &list, &signature);
    let header = parse_header(&text).unwrap();
    assert_eq!(header.key_id, "https://example.org/actor#main-key");
    assert_eq!(header.headers, list);
    assert_eq!(header.signature, signature);
}

#[test]
fn parse_header_keeps_the_order_of_the_list() {
    let header =
        parse_header("keyId=\"k\",headers=\"digest date host (request-target)\",signature=\"AA==\"")
            .unwrap();
    assert_eq!(header.headers, names(&["digest", "date", "host", "(request-target)"]));
    assert_eq!(header.signature, vec![0]);
}

#[test]
fn parse_header_takes_pairs_in_any_order_and_passes_over_others() {
    let header = parse_header(
        "signature=\"aGVsbG8=\", algorithm=\"rsa-sha256\", headers=\"date\", keyId=\"a,b=c\"",
    )
    .unwrap();
    assert_eq!(header.key_id, "a,b=c");
    assert_eq!(header.headers, names(&["date"]));
    assert_eq!(header.signature, b"hello".to_vec());
}

#[test]
fn parse_header_takes_the_first_of_two_pairs_with_one_name() {
    let header =
        parse_header("keyId=\"one\",keyId=\"two\",headers=\"date\",signature=\"\"").unwrap();
    assert_eq!(header.key_id, "one");
    assert_eq!(header.signature, Vec::<u8>::new());
}

#[test]
fn parse_header_refuses_a_missing_field() {
    let malformed = Error::MalformedSignatureHeader;
    assert_eq!(parse_header("headers=\"date\",signature=\"AA==\"").unwrap_err(), malformed);
    assert_eq!(parse_header("keyId=\"k\",signature=\"AA==\"").unwrap_err(), malformed);
    assert_eq!(parse_header("keyId=\"k\",headers=\"date\"").unwrap_err(), malformed);
    assert_eq!(parse_header("keyid=\"k\",headers=\"date\",signature=\"AA==\"").unwrap_err(), malformed);
}

#[test]
fn parse_header_refuses_invalid_base64() {
    let malformed = Error::MalformedSignatureHeader;
    assert_eq!(parse_header("keyId=\"k\",headers=\"date\",signature=\"a\"").unwrap_err(), malformed);
    assert_eq!(parse_header("keyId=\"k\",headers=\"date\",signature=\"a b=\"").unwrap_err(), malformed);
    assert_eq!(parse_header("keyId=\"k\",headers=\"date\",signature=\"AA\"").unwrap_err(), malformed);
    assert_eq!(parse_header("keyId=\"k\",headers=\"date\",signature=\"A-_=\"").unwrap_err(), malformed);
}

#[test]
fn parse_header_refuses_what_is_no_list_of_pairs() {
    let malformed = Error::MalformedSignatureHeader;
    assert_eq!(parse_header("").unwrap_err(), malformed);
    assert_eq!(parse_header("keyId").unwrap_err(), malformed);
    assert_eq!(parse_header("keyId=k,headers=date,signature=AA==").unwrap_err(), malformed);
    assert_eq!(parse_header("keyId=\"k\",headers=\"date\",signature=\"AA==").unwrap_err(), malformed);
    assert_eq!(parse_header("keyId=\"k\",headers=\"date\",signature=\"AA==\",").unwrap_err(), malformed);
    assert_eq!(parse_header("keyId=\"k\";headers=\"date\";signature=\"AA==\"").unwrap_err(), malformed);
    assert_eq!(parse_header("keyId=\"k\",headers=\"date\",signature=\"AA==\" ").unwrap_err(), malformed);
}

#[test]
fn parse_params_gives_the_pairs_in_order() {
    assert_eq!(
        parse_params("a=\"1\",b=\"\", c=\"x y\"").unwrap(),
        vec![param("a", "1"), param("b", ""), param("c", "x y")]
    );
    assert_eq!(parse_params("=\"\"").unwrap(), vec![param("", "")]);
    assert_eq!(parse_params("a=\"=\"").unwrap(), vec![param("a", "=")]);
    assert!(parse_params("a=\"1\",").is_none());
    assert!(parse_params("a=\"1").is_none());
    assert!(parse_params("a=1").is_none());
    assert!(parse_params("").is_none());
    assert!(parse_params("a=").is_none());
}

#[test]
fn find_param_gives_the_first_value_of_a_name() {
    let params = vec![param("a", "1"), param("b", "2"), param("a", "3")];
    assert_eq!(find_param(&params, "a"), Some(&"1".to_string()));
    assert_eq!(find_param(&params, "b"), Some(&"2".to_string()));
    assert_eq!(find_param(&params, "c"), None);
    assert_eq!(find_param(&Vec::new(), "a"), None);
}
