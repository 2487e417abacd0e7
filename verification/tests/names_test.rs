use domain_registry::identity::Identity;
use domain_registry::names::{
    byte_length, check_name_syntax, classify, contains_text, has_prefix, is_valid_domain_name,
    matches_lowered, matches_query,
};

#[test]
fn a_plain_name_is_valid() {
    assert!(is_valid_domain_name("test"));
    assert!(is_valid_domain_name("a"));
    assert!(is_valid_domain_name("7"));
    assert!(is_valid_domain_name("my-name-2"));
    assert!(is_valid_domain_name("a--b"));
    assert!(is_valid_domain_name("MixedCase"));
}

#[test]
fn the_empty_name_is_invalid() {
    assert!(!is_valid_domain_name(""));
}

#[test]
fn a_name_has_at_most_63_bytes() {
    let longest = "a".repeat(63);
    let too_long = "a".repeat(64);
    assert!(is_valid_domain_name(&longest));
    assert!(!is_valid_domain_name(&too_long));
    // The limit counts bytes, not characters.
    let mut accented = "é".repeat(31);
    assert_eq!(byte_length(&accented), 62);
    accented.push('a');
    assert!(is_valid_domain_name(&accented));
    accented.push('a');
    assert_eq!(byte_length(&accented), 64);
    assert!(!is_valid_domain_name(&accented));
}

#[test]
fn a_hyphen_at_either_end_is_invalid() {
    assert!(!is_valid_domain_name("-abc"));
    assert!(!is_valid_domain_name("abc-"));
    assert!(!is_valid_domain_name("-"));
    assert!(!is_valid_domain_name("-a-"));
}

#[test]
fn other_characters_are_invalid() {
    assert!(!is_valid_domain_name("a b"));
    assert!(!is_valid_domain_name("a_b"));
    assert!(!is_valid_domain_name("a.b"));
    assert!(!is_valid_domain_name("abc!"));
    assert!(!is_valid_domain_name("/abc"));
    assert!(!is_valid_domain_name("ab\u{2014}c"));
}

#[test]
fn letters_and_digits_of_any_script_are_valid() {
    assert!(is_valid_domain_name("élan"));
    assert!(is_valid_domain_name("名前"));
    assert!(is_valid_domain_name("٣"));
}

#[test]
fn byte_length_counts_the_encoding() {
    assert_eq!(byte_length(""), 0);
    assert_eq!(byte_length("test"), 4);
    assert_eq!(byte_length("é"), 2);
    assert_eq!(byte_length("名前"), 6);
}

#[test]
fn prefixes_are_recognised() {
    assert!(has_prefix("https://example.org", "https://"));
    assert!(has_prefix("https://", "https://"));
    assert!(has_prefix("anything", ""));
    assert!(!has_prefix("http://example.org", "https://"));
    assert!(!has_prefix("https:/", "https://"));
    assert!(!has_prefix("", "https://"));
    assert!(!has_prefix("HTTPS://example.org", "https://"));
    assert!(has_prefix("étoile", "ét"));
}

#[test]
fn a_query_matches_without_regard_to_case() {
    assert!(matches_query("", "anything"));
    assert!(matches_query("est", "test"));
    assert!(matches_query("EST", "test"));
    assert!(matches_query("est", "TeSt"));
    assert!(matches_query("test", "test"));
    assert!(matches_query("É", "café"));
    assert!(!matches_query("tset", "test"));
    assert!(!matches_query("tests", "test"));
    assert!(!matches_query("x", ""));
}

#[test]
fn identities_hold_at_most_29_bytes() {
    assert!(Identity::from_bytes(vec![0; 29]).is_some());
    assert!(Identity::from_bytes(vec![0; 30]).is_none());
    assert!(Identity::from_bytes(vec![]).is_some());
    let id = Identity::from_bytes(vec![1, 2, 3]).unwrap();
    assert_eq!(id.as_bytes(), &vec![1, 2, 3]);
}

#[test]
fn identities_are_compared_by_their_bytes() {
    let a = Identity::from_bytes(vec![1, 2, 3]).unwrap();
    let b = Identity::from_bytes(vec![1, 2, 3]).unwrap();
    let c = Identity::from_bytes(vec![1, 2, 4]).unwrap();
    let d = Identity::from_bytes(vec![1, 2]).unwrap();
    let e = Identity::from_bytes(vec![1, 2, 3, 0]).unwrap();
    assert!(a.same_as(&b));
    assert!(a.same_as(&a.clone()));
    assert!(!a.same_as(&c));
    assert!(!a.same_as(&d));
    assert!(!d.same_as(&a));
    assert!(!a.same_as(&e));
    assert_eq!(a, b);
    assert_ne!(a, c);
}

#[test]
fn identities_have_their_canonical_text() {
    assert_eq!(Identity::from_bytes(vec![]).unwrap().to_text(), "aaaaa-aa");
    assert_eq!(Identity::from_bytes(vec![4]).unwrap().to_text(), "2vxsx-fae");
    assert_eq!(
        Identity::from_bytes(vec![0xef, 0xcd, 0xab, 0, 0, 0, 0, 0, 1]).unwrap().to_text(),
        "2chl6-4hpzw-vqaaa-aaaaa-c"
    );
}

#[test]
fn the_main_types_are_found_at_the_root() {
    let admin = domain_registry::Identity::from_bytes(vec![1]).unwrap();
    let registry = domain_registry::Registry::init(admin);
    assert_eq!(registry.get_short_name_mode(), domain_registry::RegistrationMode::WhitelistOnly);
    assert!(registry.get_all_seasons().is_empty());
    assert_eq!(registry.domain_count(), 0);
}

#[test]
fn a_text_contains_its_contiguous_parts() {
    assert!(contains_text("test", ""));
    assert!(contains_text("", ""));
    assert!(contains_text("test", "t"));
    assert!(contains_text("test", "te"));
    assert!(contains_text("test", "st"));
    assert!(contains_text("test", "es"));
    assert!(contains_text("test", "test"));
    assert!(contains_text("aab", "ab"));
    assert!(contains_text("café-名前", "é-名"));
    assert!(!contains_text("test", "ts"));
    assert!(!contains_text("test", "tests"));
    assert!(!contains_text("test", "T"));
    assert!(!contains_text("", "a"));
    assert!(!contains_text("abab", "abb"));
}

#[test]
fn the_syntax_goes_by_the_flags_it_is_given() {
    assert!(check_name_syntax("test", &vec![true, true, true, true]));
    assert!(!check_name_syntax("test", &vec![true, true, false, true]));
    assert!(!check_name_syntax("test", &vec![true, true, true]));
    assert!(check_name_syntax("te-t", &vec![true, true, false, true]));
    assert!(!check_name_syntax("-est", &vec![true, true, true, true]));
    assert!(!check_name_syntax("", &vec![]));
    assert_eq!(classify("a-é!"), vec![true, false, true, false]);
    assert!(classify("").is_empty());
    assert!(matches_lowered("", "x", "name"));
    assert!(matches_lowered("AM", "am", "name"));
    assert!(!matches_lowered("AM", "AM", "name"));
}
