use basic_activitypub_server::error::Error;
use basic_activitypub_server::text::{
    chars_of, find_char, matches_at, replace_all, same_text, string_of, to_lower, to_lower_char,
};

#[test]
fn to_lower_changes_ascii_capitals_only() {
    assert_eq!(to_lower("POST"), "post");
    assert_eq!(to_lower("PoSt /Inbox"), "post /inbox");
    assert_eq!(to_lower("AZ[`az{@"), "az[`az{@");
    assert_eq!(to_lower("ÀÉ"), "ÀÉ");
    assert_eq!(to_lower(""), "");
    assert_eq!(to_lower_char('A'), 'a');
    assert_eq!(to_lower_char('Z'), 'z');
    assert_eq!(to_lower_char('a'), 'a');
    assert_eq!(to_lower_char('@'), '@');
    assert_eq!(to_lower_char('['), '[');
}

#[test]
fn chars_of_and_string_of_are_inverse() {
    let text = "héllo wörld";
    let chars = chars_of(text);
    assert_eq!(chars.len(), 11);
    assert_eq!(string_of(&chars, 0, chars.len()), text);
    assert_eq!(string_of(&chars, 1, 5), "éllo");
    assert_eq!(string_of(&chars, 3, 3), "");
}

#[test]
fn same_text_compares_character_by_character() {
    assert!(same_text("", ""));
    assert!(same_text("keyId", "keyId"));
    assert!(!same_text("keyId", "keyid"));
    assert!(!same_text("key", "keyId"));
    assert!(!same_text("keyId", "key"));
}

#[test]
fn find_char_gives_the_first_position_or_the_length() {
    let chars = chars_of("a=b=c");
    assert_eq!(find_char(&chars, '=', 0), 1);
    assert_eq!(find_char(&chars, '=', 1), 1);
    assert_eq!(find_char(&chars, '=', 2), 3);
    assert_eq!(find_char(&chars, '=', 4), 5);
    assert_eq!(find_char(&chars, '=', 5), 5);
    assert_eq!(find_char(&chars, 'x', 0), 5);
}

#[test]
fn matches_at_looks_at_one_position() {
    let text = chars_of("abcabc");
    let pattern = chars_of("bc");
    assert!(matches_at(&text, &pattern, 1));
    assert!(matches_at(&text, &pattern, 4));
    assert!(!matches_at(&text, &pattern, 0));
    assert!(!matches_at(&text, &pattern, 5));
    assert!(!matches_at(&text, &pattern, 6));
    assert!(!matches_at(&text, &pattern, usize::MAX));
    assert!(matches_at(&text, &[], 6));
    assert!(!matches_at(&text, &[], 7));
    assert!(!matches_at(&pattern, &text, 0));
}

#[test]
fn replace_all_replaces_from_the_left_without_overlap() {
    assert_eq!(replace_all("a+0000b", "+0000", "GMT"), "aGMTb");
    assert_eq!(replace_all("aaa", "aa", "b"), "ba");
    assert_eq!(replace_all("aaaa", "aa", "b"), "bb");
    assert_eq!(replace_all("abc", "x", "y"), "abc");
    assert_eq!(replace_all("abc", "", "y"), "abc");
    assert_eq!(replace_all("", "a", "b"), "");
    assert_eq!(replace_all("abc", "abc", ""), "");
    assert_eq!(replace_all("ab", "abc", "x"), "ab");
}

#[test]
fn each_error_has_its_name() {
    assert_eq!(Error::KeyGenerationError.name(), "KeyGenerationError");
    assert_eq!(Error::KeyFormatError.name(), "KeyFormatError");
    assert_eq!(Error::SigningError.name(), "SigningError");
    assert_eq!(Error::MalformedSignatureHeader.name(), "MalformedSignatureHeader");
    assert_eq!(Error::KeyResolutionError.name(), "KeyResolutionError");
    assert_eq!(Error::SignatureMismatch.name(), "SignatureMismatch");
    assert_eq!(Error::DigestMismatch.name(), "DigestMismatch");
    assert_eq!(Error::StaleTimestamp.name(), "StaleTimestamp");
}

#[test]
fn five_errors_are_rejections() {
    assert!(!Error::KeyGenerationError.is_rejection());
    assert!(!Error::KeyFormatError.is_rejection());
    assert!(!Error::SigningError.is_rejection());
    assert!(Error::MalformedSignatureHeader.is_rejection());
    assert!(Error::KeyResolutionError.is_rejection());
    assert!(Error::SignatureMismatch.is_rejection());
    assert!(Error::DigestMismatch.is_rejection());
    assert!(Error::StaleTimestamp.is_rejection());
}
