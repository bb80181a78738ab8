use imageconf::os_release::{candidate_paths, select_candidate};
use imageconf::strutil::{parse_u64, trim};
use imageconf::paths::{join_path, parent_of};
use imageconf::{IdentityError, OsRelease};

#[test]
fn double_quoted_value_is_stored_without_quotes() {
    let osr = OsRelease::from_content("GREETING=\"hello world\"\n").unwrap();
    assert_eq!(osr.get_value("GREETING"), Some(String::from("hello world")));
}

#[test]
fn single_quoted_value_is_stored_without_quotes() {
    let osr = OsRelease::from_content("A='a'\n").unwrap();
    assert_eq!(osr.get_value("A"), Some(String::from("a")));
}

#[test]
fn unterminated_quote_fails_the_load() {
    let r = OsRelease::from_content("A=\"unterminated\n");
    assert!(matches!(r, Err(IdentityError::UnmatchedQuote(_))));
}

#[test]
fn mismatched_quote_fails_the_load() {
    let r = OsRelease::from_content("A='mismatched\"\n");
    assert!(matches!(r, Err(IdentityError::UnmatchedQuote(_))));
}

#[test]
fn lone_quote_fails_the_load() {
    let r = OsRelease::from_content("A=\"\n");
    assert!(matches!(r, Err(IdentityError::UnmatchedQuote(_))));
}

#[test]
fn int_value_parses() {
    let osr = OsRelease::from_content("N=42\nS=abc\n").unwrap();
    assert_eq!(osr.get_int_value("N"), Some(42));
}

#[test]
fn non_numeric_value_yields_absent_not_an_error() {
    let osr = OsRelease::from_content("N=42\nS=abc\n").unwrap();
    assert_eq!(osr.get_int_value("S"), None);
    assert_eq!(osr.get_value("S"), Some(String::from("abc")));
}

#[test]
fn missing_key_is_absent() {
    let osr = OsRelease::from_content("A=1\n").unwrap();
    assert_eq!(osr.get_value("B"), None);
    assert_eq!(osr.get_int_value("B"), None);
}

#[test]
fn last_occurrence_of_a_key_wins() {
    let osr = OsRelease::from_content("K=first\nK=second\n").unwrap();
    assert_eq!(osr.get_value("K"), Some(String::from("second")));
}

#[test]
fn line_without_equals_sign_is_skipped() {
    let osr = OsRelease::from_content("JUNK\nK=v\n").unwrap();
    assert_eq!(osr.get_value("K"), Some(String::from("v")));
    assert_eq!(osr.get_value("JUNK"), None);
}

#[test]
fn value_may_contain_equals_signs() {
    let osr = OsRelease::from_content("K=a=b\n").unwrap();
    assert_eq!(osr.get_value("K"), Some(String::from("a=b")));
}

#[test]
fn keys_and_values_are_trimmed() {
    let osr = OsRelease::from_content(" KEY =  spaced value \n").unwrap();
    assert_eq!(osr.get_value("KEY"), Some(String::from("spaced value")));
}

#[test]
fn empty_content_has_no_keys() {
    let osr = OsRelease::from_content("").unwrap();
    assert_eq!(osr.get_value("ANY"), None);
}

#[test]
fn named_lookups_use_their_well_known_keys() {
    let content = "CITADEL_CHANNEL=dev\nCITADEL_IMAGE_PUBKEY=\"base64:dGVzdA==\"\nCITADEL_ROOTFS_VERSION=7\nCITADEL_KERNEL_VERSION=5.10.0\nCITADEL_KERNEL_ID=k1\n";
    let osr = OsRelease::from_content(content).unwrap();
    assert_eq!(osr.citadel_channel(), Some(String::from("dev")));
    assert_eq!(osr.citadel_image_pubkey(), Some(String::from("base64:dGVzdA==")));
    assert_eq!(osr.citadel_rootfs_version(), Some(7));
    assert_eq!(osr.citadel_kernel_version(), Some(String::from("5.10.0")));
    assert_eq!(osr.citadel_kernel_id(), Some(String::from("k1")));
}

#[test]
fn candidates_are_tried_in_priority_order() {
    assert_eq!(select_candidate(&vec![true, false, true]), Some(0));
    assert_eq!(select_candidate(&vec![false, false, true]), Some(2));
    assert_eq!(select_candidate(&vec![false, false, false]), None);
}

#[test]
fn candidate_paths_are_the_three_known_locations() {
    let paths = candidate_paths();
    assert_eq!(paths.len(), 3);
    assert_eq!(paths[0], "/etc/os-release");
    assert_eq!(paths[1], "/sysroot/etc/os-release");
    assert_eq!(paths[2], "/etc/initrd-release");
}

#[test]
fn parse_u64_accepts_plain_and_signed_digits() {
    assert_eq!(parse_u64("42"), Some(42));
    assert_eq!(parse_u64("+7"), Some(7));
    assert_eq!(parse_u64("0"), Some(0));
    assert_eq!(parse_u64("18446744073709551615"), Some(u64::MAX));
}

#[test]
fn parse_u64_rejects_bad_shapes_and_overflow() {
    assert_eq!(parse_u64(""), None);
    assert_eq!(parse_u64("+"), None);
    assert_eq!(parse_u64("-1"), None);
    assert_eq!(parse_u64("4 2"), None);
    assert_eq!(parse_u64("abc"), None);
    assert_eq!(parse_u64("18446744073709551616"), None);
}

#[test]
fn trim_strips_blank_edges_only() {
    assert_eq!(trim("  a b  "), "a b");
    assert_eq!(trim("\t x\r\n"), "x");
    assert_eq!(trim("   "), "");
    assert_eq!(trim(""), "");
}

#[test]
fn trim_matches_std_on_unicode_whitespace() {
    let cases = ["\u{a0}x\u{2003}", "\u{1680}\u{3000}y", "z\u{2028}\u{85}", "a\u{200b}"];
    for s in cases {
        assert_eq!(trim(s), s.trim(), "trim disagrees with std on {:?}", s);
    }
}

#[test]
fn parent_of_strips_the_last_component() {
    assert_eq!(parent_of("/build/area/mkimage.conf"), "/build/area");
    assert_eq!(parent_of("/mkimage.conf"), "/");
    assert_eq!(parent_of("mkimage.conf"), "");
}

#[test]
fn join_path_inserts_exactly_one_separator() {
    assert_eq!(join_path("/a/b", "c"), "/a/b/c");
    assert_eq!(join_path("/a/b/", "c"), "/a/b/c");
    assert_eq!(join_path("", "c"), "c");
    assert_eq!(join_path("/a", "/abs"), "/abs");
}
