use lanzaboote::cmdline::{addon_matches_uki_uname, mangle_stub_cmdline};

#[test]
fn mangles_stub_cmdline() {
    assert_eq!(mangle_stub_cmdline("  foo\tbar\nbaz  "), "foo bar baz");
    assert_eq!(mangle_stub_cmdline(""), "");
    assert_eq!(mangle_stub_cmdline(" \x7f "), "");
}

#[test]
fn addon_uname_matching() {
    assert!(addon_matches_uki_uname(None, None));
    assert!(addon_matches_uki_uname(None, Some("6.12.0")));
    assert!(addon_matches_uki_uname(Some("6.12.0"), None));
    assert!(addon_matches_uki_uname(Some("6.12.0"), Some("6.12.0")));
    assert!(!addon_matches_uki_uname(
        Some("6.12.0"),
        Some("definitely-not-6.12.0"),
    ));
}
