use lanzaboote::status::Status;
use lanzaboote::unified_sections::{
    ParseUnifiedSectionError, UnifiedSection, UnifiedSectionDataSource, UNIFIED_SECTION_ORDER,
};

#[test]
fn canonical_order_starts_with_linux() {
    assert_eq!(UNIFIED_SECTION_ORDER[0], UnifiedSection::Linux);
    assert_eq!(UNIFIED_SECTION_ORDER[3], UnifiedSection::Initrd);
}

#[test]
fn unified_sections_skips_unmeasurable_sections() {
    assert!(!UnifiedSection::PcrSig.should_be_measured());
    assert!(!UnifiedSection::DtbAuto.should_be_measured());
    assert!(UnifiedSection::Profile.should_be_measured());
    assert!(UnifiedSection::EfiFw.should_be_measured());
}

#[test]
fn skips_unmeasurable_sections() {
    assert!(!UnifiedSection::PcrSig.should_be_measured());
    assert!(!UnifiedSection::DtbAuto.should_be_measured());
    assert!(UnifiedSection::Profile.should_be_measured());
}

#[test]
fn uses_external_data_for_thin_stub_payloads() {
    assert_eq!(
        UnifiedSection::Linux.data_source(),
        UnifiedSectionDataSource::ExternalKernel
    );
    assert_eq!(
        UnifiedSection::Initrd.data_source(),
        UnifiedSectionDataSource::ExternalInitrd
    );
    assert_eq!(
        UnifiedSection::CmdLine.data_source(),
        UnifiedSectionDataSource::Embedded
    );
}

#[test]
fn parses_section_names() {
    assert_eq!(
        UnifiedSection::try_from(".linux"),
        Ok(UnifiedSection::Linux)
    );
    assert_eq!(".initrd".parse(), Ok(UnifiedSection::Initrd));
    assert_eq!(
        UnifiedSection::try_from(".not-a-section"),
        Err(ParseUnifiedSectionError)
    );
}

#[test]
fn every_name_is_parsed_back() {
    for section in UNIFIED_SECTION_ORDER {
        assert_eq!(UnifiedSection::try_from(section.name()), Ok(section));
    }
    assert_eq!(
        UnifiedSection::try_from(".LINUX"),
        Err(ParseUnifiedSectionError)
    );
    assert_eq!(
        ParseUnifiedSectionError.message(),
        "invalid unified section name"
    );
    assert_eq!(ParseUnifiedSectionError.status(), Status::InvalidParameter);
}

#[test]
fn variants_are_ordered_canonically() {
    let mut sorted = UNIFIED_SECTION_ORDER;
    sorted.reverse();
    sorted.sort();
    assert_eq!(sorted, UNIFIED_SECTION_ORDER);
}
