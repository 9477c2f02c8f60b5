use lanzaboote::smbios::{
    find_oem_string, find_structure_table, kernel_cmdline_extra, parse_smbios3_entry_point,
    parse_smbios_entry_point,
};

fn structure(kind: u8, strings: &[&[u8]]) -> Vec<u8> {
    let mut bytes = vec![kind, 5, 0, 0, strings.len() as u8];
    for string in strings {
        bytes.extend_from_slice(string);
        bytes.push(0);
    }
    if strings.is_empty() {
        bytes.push(0);
    }
    bytes.push(0);
    bytes
}

fn end() -> Vec<u8> {
    vec![127, 4, 0, 0, 0, 0]
}

#[test]
fn finds_the_first_matching_oem_string() {
    let table = [
        structure(1, &[b"k=no"]),
        structure(2, &[]),
        structure(11, &[b"other", b"k=yes", b"k=later"]),
        end(),
    ]
    .concat();
    assert_eq!(find_oem_string(&table, "k="), Some("yes".to_string()));
    assert_eq!(find_oem_string(&table, "oth"), Some("er".to_string()));
    assert_eq!(find_oem_string(&table, "missing"), None);
    assert_eq!(find_oem_string(&table, ""), Some("other".to_string()));
}

#[test]
fn searches_all_oem_structures() {
    let table = [
        structure(11, &[b"a=1"]),
        structure(11, &[b"b=2"]),
        end(),
        structure(11, &[b"c=3"]),
    ]
    .concat();
    assert_eq!(find_oem_string(&table, "b="), Some("2".to_string()));
    assert_eq!(find_oem_string(&table, "c="), None);
}

#[test]
fn stops_at_malformed_structures() {
    assert_eq!(find_oem_string(&[], "a"), None);
    assert_eq!(find_oem_string(&[11, 5, 0], "a"), None);
    assert_eq!(find_oem_string(&[11, 9, 0, 0, 1, b'a', 0, 0], "a"), None);
    assert_eq!(find_oem_string(&[1, 4, 0, 0, b'x', b'y'], "x"), None);
    assert_eq!(find_oem_string(&[11, 4, 0, 0, b'a', 0, 0], "a"), None);
    assert_eq!(
        find_oem_string(&[11, 5, 0, 0, 1, b'a', b'b', 0], "a"),
        Some("b".to_string())
    );
    assert_eq!(find_oem_string(&[11, 5, 0, 0, 1, b'a', b'b'], "a"), None);
    let not_text = structure(11, &[b"a\xff", b"ab"]);
    assert_eq!(find_oem_string(&not_text, "a"), Some("b".to_string()));
}

#[test]
fn structures_shorter_than_their_header_end_the_search() {
    for length in 0..4 {
        let mut table = vec![1, length, 0, 0, 0, 0];
        table.extend_from_slice(&structure(11, &[b"p=2"]));
        table.extend_from_slice(&end());
        assert_eq!(find_oem_string(&table, "p="), None);
    }
    let overlapping = [
        1, 0, 0, 11, 5, 0, 0, 1, b'p', b'=', b'2', 0, 0, 127, 4, 1, 0, 0, 0,
    ];
    assert_eq!(find_oem_string(&overlapping, "p="), None);
    let mut table = vec![1, 4, 0, 0, 0, 0];
    table.extend_from_slice(&structure(11, &[b"p=2"]));
    assert_eq!(find_oem_string(&table, "p="), Some("2".to_string()));
    let extra = structure(11, &[b"io.systemd.stub.kernel-cmdline-extra=quiet"]);
    let malformed = [vec![1, 0, 0, 0], extra.clone()].concat();
    assert_eq!(kernel_cmdline_extra(&malformed), None);
    assert_eq!(kernel_cmdline_extra(&extra), Some("quiet".to_string()));
}

#[test]
fn extra_arguments_are_normalised() {
    let table = [
        structure(11, &[b"io.systemd.stub.kernel-cmdline-extra= debug\tquiet "]),
        end(),
    ]
    .concat();
    assert_eq!(
        kernel_cmdline_extra(&table),
        Some("debug quiet".to_string())
    );
    let blank = structure(11, &[b"io.systemd.stub.kernel-cmdline-extra= \t"]);
    assert_eq!(kernel_cmdline_extra(&blank), None);
    assert_eq!(kernel_cmdline_extra(&end()), None);
}

fn smbios3(size: u32, address: u64) -> [u8; 24] {
    let mut ep = [0u8; 24];
    ep[0..5].copy_from_slice(b"_SM3_");
    ep[6] = 24;
    ep[12..16].copy_from_slice(&size.to_le_bytes());
    ep[16..24].copy_from_slice(&address.to_le_bytes());
    ep
}

fn smbios(size: u16, address: u32) -> [u8; 31] {
    let mut ep = [0u8; 31];
    ep[0..4].copy_from_slice(b"_SM_");
    ep[5] = 31;
    ep[22..24].copy_from_slice(&size.to_le_bytes());
    ep[24..28].copy_from_slice(&address.to_le_bytes());
    ep
}

#[test]
fn parses_entry_points() {
    assert_eq!(
        parse_smbios3_entry_point(&smbios3(0x1234_5678, 0x1122_3344_5566_7788)),
        Some((0x1122_3344_5566_7788, 0x1234_5678))
    );
    assert_eq!(
        parse_smbios_entry_point(&smbios(0x1234, 0x5566_7788)),
        Some((0x5566_7788, 0x1234))
    );
    let mut wrong = smbios3(1, 1);
    wrong[4] = b'-';
    assert_eq!(parse_smbios3_entry_point(&wrong), None);
    let mut long = smbios3(1, 1);
    long[6] = 25;
    assert_eq!(parse_smbios3_entry_point(&long), None);
    let mut long = smbios(1, 1);
    long[5] = 32;
    assert_eq!(parse_smbios_entry_point(&long), None);
    let mut wrong = smbios(1, 1);
    wrong[0] = b'-';
    assert_eq!(parse_smbios_entry_point(&wrong), None);
}

#[test]
fn prefers_the_newer_entry_point() {
    assert_eq!(
        find_structure_table(Some(&smbios3(2, 1)), Some(&smbios(4, 3))),
        Some((1, 2))
    );
    assert_eq!(
        find_structure_table(None, Some(&smbios(4, 3))),
        Some((3, 4))
    );
    assert_eq!(
        find_structure_table(Some(&[0u8; 24]), Some(&smbios(4, 3))),
        Some((3, 4))
    );
    assert_eq!(
        find_structure_table(Some(&smbios3(0, 1)), Some(&smbios(4, 3))),
        None
    );
    assert_eq!(find_structure_table(None, Some(&smbios(4, 0))), None);
    assert_eq!(find_structure_table(None, None), None);
}
