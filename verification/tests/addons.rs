use lanzaboote::addons::{
    cmdline_of_addon, cmdline_of_image, discover_cmdline_addons, encode_cmdline_utf16,
    judge_addon, judge_image, AddonDiscovery, AddonReply, AddonRequest, AddonSkip, CmdlineAddon,
};
use lanzaboote::companions::DirectoryEntry;
use lanzaboote::pe::{ParsedPe, PeLayout, SectionTable};
use lanzaboote::status::Status;
use lanzaboote::stub::{combine_addons, join_cmdlines, merge_companions, pcr_signature_files};
use lanzaboote::companions::{CompanionInitrd, CompanionInitrdType};

fn units(text: &str) -> Vec<u16> {
    text.encode_utf16().collect()
}

/// A PE binary whose sections hold the given texts, at the same places in
/// memory and on disk.
fn image(sections: &[(&str, &str)]) -> Vec<u8> {
    let mut bytes = vec![0u8; 0x200];
    bytes[0..2].copy_from_slice(b"MZ");
    bytes[0x3c..0x40].copy_from_slice(&0x40u32.to_le_bytes());
    bytes[0x40..0x44].copy_from_slice(b"PE\0\0");
    bytes[0x44..0x46].copy_from_slice(&0x8664u16.to_le_bytes());
    bytes[0x46..0x48].copy_from_slice(&(sections.len() as u16).to_le_bytes());
    let mut at = 0x58;
    for (name, text) in sections {
        let offset = bytes.len() as u32;
        let len = text.len() as u32;
        bytes[at..at + name.len()].copy_from_slice(name.as_bytes());
        bytes[at + 8..at + 12].copy_from_slice(&len.to_le_bytes());
        bytes[at + 12..at + 16].copy_from_slice(&offset.to_le_bytes());
        bytes[at + 16..at + 20].copy_from_slice(&len.to_le_bytes());
        bytes[at + 20..at + 24].copy_from_slice(&offset.to_le_bytes());
        bytes.extend_from_slice(text.as_bytes());
        at += 40;
    }
    bytes
}

fn cmdline(sections: &[(&str, &str)], uki_uname: Option<&str>) -> Option<String> {
    cmdline_of_image(&image(sections), PeLayout::Disk, uki_uname)
}

#[test]
fn addon_command_lines_are_extracted() {
    assert_eq!(
        cmdline(&[(".cmdline", " debug\tx \0\0")], None),
        Some("debug x".to_string())
    );
    assert_eq!(cmdline(&[(".cmdline", " \t")], None), None);
    assert_eq!(cmdline(&[(".sbat", "x")], None), None);
    assert_eq!(
        cmdline(&[(".linux", "k"), (".cmdline", "debug")], None),
        None
    );
    assert_eq!(cmdline_of_image(b"junk", PeLayout::Loaded, None), None);
}

#[test]
fn images_are_passed_over_for_a_reason() {
    let judge = |sections: &[(&str, &str)], uki_uname: Option<&str>| {
        judge_image(&image(sections), PeLayout::Disk, uki_uname)
    };
    assert_eq!(
        judge_image(b"junk", PeLayout::Disk, None),
        Err(AddonSkip::Unparsable)
    );
    assert_eq!(
        judge(&[(".linux", "x"), (".cmdline", "debug")], None),
        Err(AddonSkip::KernelImage)
    );
    assert_eq!(
        judge(&[(".uname", "6.12"), (".cmdline", "debug")], Some("6.13")),
        Err(AddonSkip::OtherKernel)
    );
    assert_eq!(judge(&[(".text", "x")], None), Err(AddonSkip::NoCmdline));
    assert_eq!(judge(&[(".cmdline", " \t")], None), Ok(String::new()));
    assert_eq!(
        judge(&[(".cmdline", " debug ")], None),
        Ok("debug".to_string())
    );
    let bytes = image(&[(".linux", "x")]);
    let pe = ParsedPe::from_disk_data(&bytes).unwrap();
    assert_eq!(judge_addon(&pe, None), Err(AddonSkip::KernelImage));
}

#[test]
fn addons_are_matched_by_kernel() {
    let addon = [(".uname", "6.12\0"), (".cmdline", "debug")];
    assert_eq!(cmdline(&addon, Some("6.12")), Some("debug".to_string()));
    assert_eq!(cmdline(&addon, Some("6.13")), None);
    assert_eq!(cmdline(&addon, None), Some("debug".to_string()));
    assert_eq!(
        cmdline(&[(".cmdline", "debug")], Some("6.13")),
        Some("debug".to_string())
    );
}

#[test]
fn unreadable_kernel_section_still_makes_a_kernel_image() {
    let section = |name: &str, address: u32| SectionTable {
        name: Some(name.to_string()),
        virtual_size: 5,
        virtual_address: address,
        size_of_raw_data: 5,
        pointer_to_raw_data: address,
    };
    let pe = ParsedPe::from_section_table(
        b"debug",
        vec![section(".linux", 1000), section(".cmdline", 0)],
        PeLayout::Disk,
    );
    assert_eq!(cmdline_of_addon(&pe, None), None);
    let pe = ParsedPe::from_section_table(b"debug", vec![section(".cmdline", 0)], PeLayout::Disk);
    assert_eq!(cmdline_of_addon(&pe, None), Some("debug".to_string()));
}

/// How the firmware treats addons in a test.
struct Firmware {
    loads: bool,
    shim_trusts: bool,
}

fn discover(
    discovery: AddonDiscovery,
    firmware: Firmware,
    directories: &[(&str, &[&str])],
) -> (Vec<String>, Vec<String>) {
    let mut discovery = discovery;
    let mut log = Vec::new();
    loop {
        let request = match discovery.request() {
            AddonRequest::ProbeExists(path) => {
                let path = String::from_utf16(path).unwrap();
                let exists = directories.iter().any(|entry| entry.0 == path);
                log.push(format!("probe {path}"));
                AddonReply::Exists(exists)
            }
            AddonRequest::ListDirectory(path) => {
                let path = String::from_utf16(path).unwrap();
                let names = directories.iter().find(|entry| entry.0 == path).unwrap().1;
                let entries: Vec<Result<DirectoryEntry, Status>> = names
                    .iter()
                    .map(|name| {
                        Ok(DirectoryEntry {
                            regular_file: true,
                            name: units(name),
                        })
                    })
                    .collect();
                discovery = discovery.advance(AddonReply::Entries(&entries));
                continue;
            }
            AddonRequest::SecureLoad(path) => {
                let path = String::from_utf16(path).unwrap();
                log.push(format!("load {path}"));
                if firmware.loads {
                    let bytes = image(&[(".cmdline", &path)]);
                    discovery = discovery.advance(AddonReply::Image(Some(&bytes)));
                    continue;
                }
                AddonReply::Image(None)
            }
            AddonRequest::ReadFile(path) => {
                let path = String::from_utf16(path).unwrap();
                log.push(format!("read {path}"));
                AddonReply::Contents(Some(image(&[(".cmdline", &path)])))
            }
            AddonRequest::ShimVerify(path, data) => {
                let path = String::from_utf16(path).unwrap();
                assert_eq!(data, image(&[(".cmdline", &path)]));
                log.push(format!("verify {path}"));
                AddonReply::Verified(firmware.shim_trusts)
            }
            AddonRequest::Finished => {
                let addons = discovery
                    .into_addons()
                    .into_iter()
                    .map(|addon| addon.cmdline)
                    .collect();
                return (addons, log);
            }
        };
        discovery = discovery.advance(request);
    }
}

const GLOBAL: &str = "\\loader\\addons";

#[test]
fn addons_come_in_a_deterministic_order() {
    let local = units("local");
    let (addons, log) = discover(
        discover_cmdline_addons(Some(&local), None, true),
        Firmware {
            loads: true,
            shim_trusts: false,
        },
        &[
            (GLOBAL, &["b.addon.efi", "x.efi", "a.addon.efi"]),
            ("local", &["l.addon.efi"]),
        ],
    );
    assert_eq!(
        addons,
        vec![
            "\\loader\\addons\\a.addon.efi",
            "\\loader\\addons\\b.addon.efi",
            "local\\l.addon.efi"
        ]
    );
    assert_eq!(log[0], "probe \\loader\\addons");
    assert!(!log.iter().any(|entry| entry.starts_with("read")));
}

#[test]
fn secure_boot_needs_the_shim() {
    let directories: &[(&str, &[&str])] = &[(GLOBAL, &["a.addon.efi"])];
    let (addons, log) = discover(
        discover_cmdline_addons(None, None, true),
        Firmware {
            loads: false,
            shim_trusts: false,
        },
        directories,
    );
    assert!(addons.is_empty());
    assert_eq!(
        log,
        vec![
            "probe \\loader\\addons",
            "load \\loader\\addons\\a.addon.efi",
            "read \\loader\\addons\\a.addon.efi",
            "verify \\loader\\addons\\a.addon.efi",
        ]
    );
    let (addons, _) = discover(
        discover_cmdline_addons(None, None, true),
        Firmware {
            loads: false,
            shim_trusts: true,
        },
        directories,
    );
    assert_eq!(addons.len(), 1);
}

#[test]
fn without_secure_boot_addons_are_read_directly() {
    let (addons, log) = discover(
        discover_cmdline_addons(None, None, false),
        Firmware {
            loads: false,
            shim_trusts: false,
        },
        &[(GLOBAL, &["a.addon.efi"])],
    );
    assert_eq!(addons.len(), 1);
    assert_eq!(log.len(), 3);
}

#[test]
fn unreadable_addons_are_passed_over() {
    let entries = [
        Ok(DirectoryEntry {
            regular_file: true,
            name: units("a.addon.efi"),
        }),
        Ok(DirectoryEntry {
            regular_file: true,
            name: units("b.addon.efi"),
        }),
    ];
    let discovery = discover_cmdline_addons(None, None, false)
        .advance(AddonReply::Exists(true))
        .advance(AddonReply::Entries(&entries))
        .advance(AddonReply::Image(None))
        .advance(AddonReply::Contents(None));
    assert!(matches!(
        discovery.request(),
        AddonRequest::SecureLoad(path) if path == units("\\loader\\addons\\b.addon.efi")
    ));
    let unreadable = [Err(Status::VolumeCorrupted)];
    let discovery = discover_cmdline_addons(None, None, false)
        .advance(AddonReply::Exists(true))
        .advance(AddonReply::Entries(&unreadable));
    assert!(matches!(discovery.request(), AddonRequest::Finished));
}

#[test]
fn command_lines_are_encoded_with_nul() {
    assert_eq!(
        encode_cmdline_utf16("a\u{20ac}"),
        Ok(vec![0x61, 0x20ac, 0])
    );
    assert_eq!(
        encode_cmdline_utf16("a\0b"),
        Err(Status::InvalidParameter)
    );
    assert_eq!(
        encode_cmdline_utf16("\u{1f600}"),
        Err(Status::InvalidParameter)
    );
}

fn addon(cmdline: &str) -> CmdlineAddon {
    CmdlineAddon {
        cmdline: cmdline.to_string(),
    }
}

#[test]
fn addon_command_lines_are_combined() {
    assert_eq!(join_cmdlines(&[]), "");
    assert_eq!(
        join_cmdlines(&[addon("a"), addon("b c"), addon("d")]),
        "a b c d"
    );
    assert!(combine_addons(&[]).is_none());
    let combined = combine_addons(&[addon("a"), addon("b")]).unwrap();
    assert_eq!(combined.cmdline, "a b");
    assert_eq!(combined.load_options, b"a\0 \0b\0\0\0".to_vec());
    assert!(combine_addons(&[addon("a"), addon("\u{1f600}")]).is_none());
}

#[test]
fn pcr_signature_is_delivered_with_its_key() {
    let bytes = image(&[(".pcrpkey", "key"), (".pcrsig", "sig")]);
    let pe = ParsedPe::from_loaded_data(&bytes).unwrap();
    let (signature, key) = pcr_signature_files(&pe);
    let signature = signature.unwrap();
    assert_eq!(signature.contents, b"sig".to_vec());
    assert_eq!(signature.name, "tpm2-pcr-signature.json");
    assert_eq!(signature.target, ".extra");
    assert_eq!((signature.directory_mode, signature.file_mode), (0o555, 0o444));
    let key = key.unwrap();
    assert_eq!(key.contents, b"key".to_vec());
    assert_eq!(key.name, "tpm2-pcr-public-key.pem");
    let bytes = image(&[(".osrel", "x")]);
    let pe = ParsedPe::from_loaded_data(&bytes).unwrap();
    let (signature, key) = pcr_signature_files(&pe);
    assert!(signature.is_none() && key.is_none());
}

#[test]
fn companions_are_merged_in_order() {
    let one = |kind: CompanionInitrdType| {
        vec![CompanionInitrd {
            kind,
            cpio: vec![],
        }]
    };
    let merged = merge_companions(
        Some(one(CompanionInitrdType::Credentials)),
        None,
        Some(one(CompanionInitrdType::ConfigurationExtension)),
    );
    let kinds: Vec<CompanionInitrdType> = merged.iter().map(|initrd| initrd.kind).collect();
    assert_eq!(
        kinds,
        vec![
            CompanionInitrdType::Credentials,
            CompanionInitrdType::ConfigurationExtension
        ]
    );
}
