use lanzaboote::companions::{
    find_files, find_files_filtered, get_default_dropin_directory, CompanionInitrdType,
    CompanionSource, DirectoryEntry, DropinStage,
};
use lanzaboote::discovery::{
    discover_configuration_extensions, discover_credentials, discover_system_extensions,
    Discovery, DiscoveryReply, DiscoveryRequest,
};
use lanzaboote::status::Status;

fn units(text: &str) -> Vec<u16> {
    text.encode_utf16().collect()
}

fn file(name: &str) -> Result<DirectoryEntry, Status> {
    Ok(DirectoryEntry {
        regular_file: true,
        name: units(name),
    })
}

fn directory(name: &str) -> Result<DirectoryEntry, Status> {
    Ok(DirectoryEntry {
        regular_file: false,
        name: units(name),
    })
}

#[test]
fn finds_regular_ascii_files() {
    let entries = [
        file("b.cred"),
        directory("dir.cred"),
        file("\u{fc}.cred"),
        file("other.txt"),
        file("A.CRED"),
    ];
    assert_eq!(
        find_files(&units("\\loader"), &entries, ".cred"),
        Ok(vec![units("\\loader\\b.cred"), units("\\loader\\A.CRED")])
    );
}

#[test]
fn excludes_and_normalises() {
    let entries = [file("a.confext.raw"), file("b.raw")];
    assert_eq!(
        find_files_filtered(&units("a/b"), &entries, ".raw", Some(".confext.raw")),
        Ok(vec![units("a\\b\\b.raw")])
    );
}

#[test]
fn first_unreadable_entry_is_reported() {
    let entries = [
        file("a.cred"),
        Err(Status::VolumeCorrupted),
        Err(Status::NotReady),
    ];
    assert_eq!(
        find_files(&units("d"), &entries, ".cred"),
        Err(Status::VolumeCorrupted)
    );
}

#[test]
fn preferred_dropin_directory_is_probed_first() {
    let search = get_default_dropin_directory(Some("\\EFI\\a+3-1.efi"));
    assert!(matches!(
        &search.stage,
        DropinStage::Probe(path, false) if *path == units("\\EFI\\a.efi.extra.d")
    ));
    let found = search.advance(true);
    assert!(matches!(
        &found.stage,
        DropinStage::Finished(Ok(Some(path))) if *path == units("\\EFI\\a.efi.extra.d")
    ));
    let search = get_default_dropin_directory(Some("/EFI/a.efi")).advance(false);
    assert!(matches!(
        &search.stage,
        DropinStage::Probe(path, true) if *path == units("/EFI/a.efi.extra")
    ));
    let found = search.advance(true);
    assert!(matches!(
        &found.stage,
        DropinStage::Finished(Ok(Some(path))) if *path == units("\\EFI\\a.efi.extra")
    ));
    let none = get_default_dropin_directory(Some("a.efi"))
        .advance(false)
        .advance(false);
    assert!(matches!(none.stage, DropinStage::Finished(Ok(None))));
}

#[test]
fn dropin_search_fails_without_a_usable_path() {
    let search = get_default_dropin_directory(None);
    assert!(matches!(
        search.stage,
        DropinStage::Finished(Err(Status::NotFound))
    ));
    let search = get_default_dropin_directory(Some("\u{1f600}.efi"));
    assert!(matches!(
        search.stage,
        DropinStage::Finished(Err(Status::NotFound))
    ));
}

/// Run a discovery on a file system with the given directories.
fn discover(
    discovery: Discovery,
    local: &[&str],
    global: Option<&[&str]>,
) -> (Result<Vec<(CompanionInitrdType, Vec<u8>)>, Status>, Vec<String>) {
    let mut discovery = discovery;
    let mut log = Vec::new();
    loop {
        let reply = match discovery.request() {
            DiscoveryRequest::ListDirectory(path) => {
                let path = String::from_utf16(path).unwrap();
                let names = if path == "local" {
                    local
                } else {
                    global.unwrap()
                };
                log.push(format!("list {path}"));
                let entries: Vec<Result<DirectoryEntry, Status>> =
                    names.iter().map(|name| file(name)).collect();
                discovery = discovery.advance(DiscoveryReply::Entries(&entries));
                continue;
            }
            DiscoveryRequest::PackFiles {
                files,
                target,
                directory_mode,
                file_mode,
            } => {
                let names: Vec<String> = files
                    .iter()
                    .map(|path| String::from_utf16(path).unwrap())
                    .collect();
                log.push(format!(
                    "pack {} {target} {directory_mode:o} {file_mode:o}",
                    names.join(",")
                ));
                DiscoveryReply::Packed(Some(target.as_bytes().to_vec()))
            }
            DiscoveryRequest::ProbeExists(path) => {
                log.push(format!("exists {}", String::from_utf16(path).unwrap()));
                DiscoveryReply::Exists(global.is_some())
            }
            DiscoveryRequest::QueryMetadata(_) => DiscoveryReply::Directory(Some(true)),
            DiscoveryRequest::Finished(_) => {
                let companions = discovery.into_companions().map(|companions| {
                    companions
                        .into_iter()
                        .map(|initrd| (initrd.kind, initrd.cpio))
                        .collect()
                });
                return (companions, log);
            }
        };
        discovery = discovery.advance(reply);
    }
}

#[test]
fn credentials_come_from_both_directories() {
    let local = units("local");
    let (companions, log) = discover(
        discover_credentials(Some(&local)),
        &["b.cred", "a.cred", "c.raw"],
        Some(&["g.cred"]),
    );
    assert_eq!(
        companions,
        Ok(vec![
            (
                CompanionInitrdType::Credentials,
                b".extra/credentials".to_vec()
            ),
            (
                CompanionInitrdType::GlobalCredentials,
                b".extra/global_credentials".to_vec()
            ),
        ])
    );
    assert_eq!(
        log,
        vec![
            "list local",
            "pack local\\b.cred,local\\a.cred .extra/credentials 500 400",
            "exists \\loader\\credentials",
            "list \\loader\\credentials",
            "pack \\loader\\credentials\\g.cred .extra/global_credentials 500 400",
        ]
    );
}

#[test]
fn extensions_are_packed_in_a_stable_order() {
    let local = units("local");
    let (companions, log) = discover(
        discover_system_extensions(Some(&local)),
        &["b.raw", "a.raw", "c.confext.raw"],
        None,
    );
    assert_eq!(
        companions,
        Ok(vec![(
            CompanionInitrdType::SystemExtension,
            b".extra/sysext".to_vec()
        )])
    );
    assert_eq!(
        log,
        vec![
            "list local",
            "pack local\\a.raw,local\\b.raw .extra/sysext 555 444",
            "exists \\loader\\extensions",
        ]
    );
    let (companions, log) = discover(
        discover_configuration_extensions(None),
        &[],
        Some(&["z.confext.raw", "b.raw"]),
    );
    assert_eq!(
        companions,
        Ok(vec![(
            CompanionInitrdType::GlobalConfigurationExtension,
            b".extra/global_confext".to_vec()
        )])
    );
    assert_eq!(log.len(), 3);
}

#[test]
fn nothing_is_packed_without_files() {
    let local = units("local");
    let (companions, log) =
        discover(discover_credentials(Some(&local)), &["x"], Some(&["y"]));
    assert_eq!(companions, Ok(vec![]));
    assert_eq!(log.len(), 3);
}

#[test]
fn discovery_errors_are_told_apart() {
    let local = units("local");
    let entries = [file("a.raw")];
    let packing = discover_system_extensions(Some(&local)).advance(DiscoveryReply::Entries(&entries));
    let failed = packing.advance(DiscoveryReply::Packed(None));
    assert!(matches!(failed.into_companions(), Err(Status::LoadError)));
    let unreadable = [Err(Status::NotReady)];
    let failed = discover_system_extensions(Some(&local)).advance(DiscoveryReply::Entries(&unreadable));
    assert!(matches!(failed.into_companions(), Err(Status::NotReady)));
    let failed = discover_credentials(None)
        .advance(DiscoveryReply::Exists(true))
        .advance(DiscoveryReply::Directory(None));
    assert!(matches!(
        failed.into_companions(),
        Err(Status::VolumeCorrupted)
    ));
    let plain_file = discover_credentials(None)
        .advance(DiscoveryReply::Exists(true))
        .advance(DiscoveryReply::Directory(Some(false)));
    assert!(matches!(plain_file.into_companions(), Ok(found) if found.is_empty()));
}

#[test]
fn sources_have_fixed_parameters() {
    assert_eq!(CompanionSource::SystemExtensions.suffix(), ".raw");
    assert_eq!(
        CompanionSource::SystemExtensions.excluded_suffix(),
        Some(".confext.raw")
    );
    assert_eq!(CompanionSource::ConfigurationExtensions.excluded_suffix(), None);
    assert_eq!(
        CompanionSource::SystemExtensions.target(true),
        ".extra/global_sysext"
    );
    assert_eq!(
        CompanionSource::ConfigurationExtensions.target(false),
        ".extra/confext"
    );
    assert_eq!(
        CompanionSource::SystemExtensions.kind(true),
        CompanionInitrdType::GlobalSystemExtension
    );
    assert_eq!(
        CompanionSource::ConfigurationExtensions.kind(false),
        CompanionInitrdType::ConfigurationExtension
    );
    assert_eq!(CompanionSource::Credentials.modes(), (0o500, 0o400));
}
