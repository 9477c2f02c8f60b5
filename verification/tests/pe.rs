use lanzaboote::pe::{
    read_data_from_section_table, ParsedPe, PeLayout, SectionTable,
};
use lanzaboote::status::Status;

/// A PE binary without an optional header: one section for each entry, whose
/// data is stored at the given virtual address and file offset.
fn image(sections: &[(&str, u32, u32, u32, u32)], data: &[(usize, &[u8])], len: usize) -> Vec<u8> {
    let mut bytes = vec![0u8; len];
    bytes[0..2].copy_from_slice(b"MZ");
    bytes[0x3c..0x40].copy_from_slice(&0x40u32.to_le_bytes());
    bytes[0x40..0x44].copy_from_slice(b"PE\0\0");
    bytes[0x44..0x46].copy_from_slice(&0x8664u16.to_le_bytes());
    bytes[0x46..0x48].copy_from_slice(&(sections.len() as u16).to_le_bytes());
    let mut at = 0x58;
    for (name, virtual_size, virtual_address, raw_size, raw_pointer) in sections {
        bytes[at..at + name.len()].copy_from_slice(name.as_bytes());
        bytes[at + 8..at + 12].copy_from_slice(&virtual_size.to_le_bytes());
        bytes[at + 12..at + 16].copy_from_slice(&virtual_address.to_le_bytes());
        bytes[at + 16..at + 20].copy_from_slice(&raw_size.to_le_bytes());
        bytes[at + 20..at + 24].copy_from_slice(&raw_pointer.to_le_bytes());
        at += 40;
    }
    for (offset, contents) in data {
        bytes[*offset..*offset + contents.len()].copy_from_slice(contents);
    }
    bytes
}

fn section(name: &str, virtual_size: u32, raw_size: u32) -> SectionTable {
    SectionTable {
        name: Some(name.to_string()),
        virtual_size,
        virtual_address: 8,
        size_of_raw_data: raw_size,
        pointer_to_raw_data: 2,
    }
}

#[test]
fn reads_sections_by_layout() {
    let bytes = image(
        &[(".osrel", 4, 0x300, 4, 0x200), (".cmdline", 2, 0x308, 2, 0x208)],
        &[
            (0x200, b"disk"),
            (0x208, b"dc"),
            (0x300, b"load"),
            (0x308, b"lc"),
        ],
        0x400,
    );
    let disk = ParsedPe::from_disk_data(&bytes).unwrap();
    assert_eq!(disk.section_data(".osrel"), Some(b"disk".to_vec()));
    assert_eq!(disk.section_data(".cmdline"), Some(b"dc".to_vec()));
    let loaded = ParsedPe::from_loaded_data(&bytes).unwrap();
    assert_eq!(loaded.section_data(".osrel"), Some(b"load".to_vec()));
    assert_eq!(loaded.section_data(".linux"), None);
    assert_eq!(loaded.sections(), vec![".osrel", ".cmdline"]);
    assert!(loaded.has_section(".cmdline"));
    assert!(!loaded.has_section(".linux"));
}

#[test]
fn rejects_what_is_not_a_pe_binary() {
    assert!(matches!(
        ParsedPe::from_disk_data(b"not a PE"),
        Err(Status::InvalidParameter)
    ));
    assert!(matches!(
        ParsedPe::from_loaded_data(&[]),
        Err(Status::InvalidParameter)
    ));
}

#[test]
fn pads_and_cuts_section_data() {
    let data = b"0123456789abcdef";
    assert_eq!(
        read_data_from_section_table(data, &section("a", 6, 4), PeLayout::Disk),
        Some(b"2345\0\0".to_vec())
    );
    assert_eq!(
        read_data_from_section_table(data, &section("a", 3, 4), PeLayout::Loaded),
        Some(b"89a".to_vec())
    );
    assert_eq!(
        read_data_from_section_table(data, &section("a", 0, 4), PeLayout::Disk),
        Some(vec![])
    );
}

#[test]
fn refuses_sections_out_of_bounds() {
    let data = b"0123456789abcdef";
    assert_eq!(
        read_data_from_section_table(data, &section("a", 9, 9), PeLayout::Loaded),
        None
    );
    assert_eq!(
        read_data_from_section_table(data, &section("a", 8, 8), PeLayout::Loaded),
        Some(b"89abcdef".to_vec())
    );
    let mut far = section("a", u32::MAX, u32::MAX);
    far.virtual_address = u32::MAX;
    assert_eq!(
        read_data_from_section_table(data, &far, PeLayout::Loaded),
        None
    );
}

#[test]
fn first_section_with_a_name_counts() {
    let data = b"0123456789abcdef";
    let mut unnamed = section("", 1, 1);
    unnamed.name = None;
    let mut second = section(".uname", 2, 2);
    second.virtual_address = 12;
    let pe = ParsedPe::from_section_table(
        data,
        vec![unnamed, section(".uname", 2, 2), second],
        PeLayout::Loaded,
    );
    assert_eq!(pe.section_data(".uname"), Some(b"89".to_vec()));
    assert_eq!(pe.sections(), vec![".uname", ".uname"]);
}

#[test]
fn section_text_ends_before_nuls() {
    let pe = ParsedPe::from_section_table(
        b"6.12\0\0\0\xff",
        vec![
            SectionTable {
                name: Some(".uname".to_string()),
                virtual_size: 7,
                virtual_address: 0,
                size_of_raw_data: 7,
                pointer_to_raw_data: 0,
            },
            SectionTable {
                name: Some(".osrel".to_string()),
                virtual_size: 8,
                virtual_address: 0,
                size_of_raw_data: 8,
                pointer_to_raw_data: 0,
            },
        ],
        PeLayout::Disk,
    );
    assert_eq!(pe.section_text(".uname"), Some("6.12".to_string()));
    assert_eq!(pe.section_text(".osrel"), None);
    assert_eq!(pe.section_text(".linux"), None);
}
