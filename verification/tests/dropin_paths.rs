use lanzaboote::dropin_paths::{
    filename_matches_suffix, image_dropin_directory_path, legacy_image_dropin_directory_path,
    strip_automatic_boot_assessment_counter,
};

#[test]
fn strips_boot_assessment_counter_from_image_name() {
    assert_eq!(
        image_dropin_directory_path("\\EFI\\Linux\\nixos-generation-1+3-1.efi"),
        "\\EFI\\Linux\\nixos-generation-1.efi.extra.d"
    );
}

#[test]
fn keeps_plain_image_name_for_dropin_directory() {
    assert_eq!(
        image_dropin_directory_path("\\EFI\\Linux\\nixos-generation-1.efi"),
        "\\EFI\\Linux\\nixos-generation-1.efi.extra.d"
    );
}

#[test]
fn keeps_legacy_dropin_path_shape_for_compatibility() {
    assert_eq!(
        legacy_image_dropin_directory_path("\\EFI\\Linux\\nixos-generation-1.efi"),
        "\\EFI\\Linux\\nixos-generation-1.efi.extra"
    );
}

#[test]
fn only_strips_valid_automatic_boot_assessment_suffixes() {
    assert_eq!(strip_automatic_boot_assessment_counter("foo+3-0"), "foo");
    assert_eq!(strip_automatic_boot_assessment_counter("foo+3"), "foo");
    assert_eq!(
        strip_automatic_boot_assessment_counter("foo+3-bar"),
        "foo+3-bar"
    );
    assert_eq!(strip_automatic_boot_assessment_counter("foo"), "foo");
}

#[test]
fn excludes_confexts_from_sysext_scan() {
    assert!(filename_matches_suffix(
        "addon.sysext.raw",
        ".raw",
        Some(".confext.raw")
    ));
    assert!(!filename_matches_suffix(
        "addon.confext.raw",
        ".raw",
        Some(".confext.raw")
    ));
}

#[test]
fn suffix_matching_is_case_insensitive() {
    assert!(filename_matches_suffix("KERNEL.CRED", ".cred", None));
    assert!(filename_matches_suffix(
        "addon.CONFEXT.RAW",
        ".confext.raw",
        None
    ));
    assert!(!filename_matches_suffix(
        "addon.CONFEXT.RAW",
        ".raw",
        Some(".confext.raw")
    ));
}

#[test]
fn handles_counters_at_their_edges() {
    assert_eq!(strip_automatic_boot_assessment_counter("+3"), "");
    assert_eq!(strip_automatic_boot_assessment_counter("foo+"), "foo+");
    assert_eq!(strip_automatic_boot_assessment_counter("foo+3-"), "foo+3-");
    assert_eq!(strip_automatic_boot_assessment_counter("foo+-3"), "foo+-3");
    assert_eq!(
        strip_automatic_boot_assessment_counter("foo+1-2-3"),
        "foo+1-2-3"
    );
    assert_eq!(strip_automatic_boot_assessment_counter("a+1+2"), "a+1");
}

#[test]
fn dropin_directory_of_unusual_image_paths() {
    assert_eq!(
        image_dropin_directory_path("bare+3-1.efi"),
        "bare.efi.extra.d"
    );
    assert_eq!(
        image_dropin_directory_path("\\EFI\\plain+3"),
        "\\EFI\\plain.extra.d"
    );
    assert_eq!(image_dropin_directory_path("plain+3"), "plain.extra.d");
    assert_eq!(image_dropin_directory_path(""), ".extra.d");
}
