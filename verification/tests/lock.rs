use lanzaboote::digest::{hex_string, sha256};
use lanzaboote::gc::{gc, variant_is_in_log, DigestSet, GcStep, ProcessOutput};
use lanzaboote::lock::{
    generate_records, lock_pe, parse_records, print_event_log, records_of, write_pcrlock,
    LockError, Payload, ProcessCommand, SectionPath, StubSections,
};
use lanzaboote::lock_run::{
    lock_boot_loader, lock_thin_stub, LockReply, LockRequest, LockRun,
};
use lanzaboote::path::UnixPath;
use lanzaboote::pcrlock::{
    resolve_pcrlock_path, GcArgs, LockBootLoaderArgs, LockThinStubArgs,
};
use lanzaboote::unified_sections::UnifiedSection;

fn path(text: &str) -> UnixPath {
    UnixPath::new(text.as_bytes())
}

fn show(path: &UnixPath) -> String {
    String::from_utf8(path.as_bytes().to_vec()).unwrap()
}

fn show_command(command: &ProcessCommand) -> String {
    let arguments: Vec<String> = command
        .arguments
        .iter()
        .chain(&command.file)
        .map(show)
        .collect();
    let stdin = match &command.stdin {
        Some(bytes) => format!(" < {}", String::from_utf8_lossy(bytes)),
        None => String::new(),
    };
    format!("{} {}{stdin}", show(&command.program), arguments.join(" "))
}

fn stub_sections() -> StubSections {
    let mut embedded: Vec<Option<Vec<u8>>> = (0..15).map(|_| None).collect();
    embedded[0] = Some(b"\\kernel".to_vec());
    embedded[1] = Some(b"os".to_vec());
    embedded[9] = Some(b"sig".to_vec());
    StubSections {
        kernel_path: SectionPath::Resolved(path("/esp/kernel")),
        initrd_path: SectionPath::Resolved(path("/esp/initrd")),
        kernel_hash: Some(sha256(b"kernel").to_vec()),
        initrd_hash: Some(sha256(b"initrd").to_vec()),
        embedded,
    }
}

fn thin_stub() -> LockRun {
    lock_thin_stub(LockThinStubArgs {
        systemd: path("/systemd"),
        esp: path("/esp"),
        pcrlock: path("/pcrlock"),
        stub: path("/esp/stub.efi"),
    })
}

fn boot_loader() -> LockRun {
    lock_boot_loader(LockBootLoaderArgs {
        systemd: path("/systemd"),
        esp: path("/esp/"),
        pcrlock: path("/loader.pcrlock"),
    })
}

fn records(n: u32) -> String {
    format!("{{\"records\":[{{\"pcr\":{n}}}]}}")
}

#[test]
fn records_are_parsed() {
    let parsed = parse_records(b"{\"records\":[1,{\"a\":2}],\"x\":0}").unwrap();
    assert_eq!(parsed.len(), 2);
    assert_eq!(parsed[0], serde_json::Value::from(1));
    assert_eq!(parse_records(b"nope"), Err(LockError::InvalidJson));
    assert_eq!(parse_records(b"{}"), Err(LockError::MissingRecords));
    assert_eq!(parse_records(b"[]"), Err(LockError::MissingRecords));
    assert_eq!(
        parse_records(b"{\"records\":{}}"),
        Err(LockError::MissingRecords)
    );
    assert_eq!(
        records_of(serde_json::Value::Null),
        Err(LockError::MissingRecords)
    );
}

#[test]
fn records_are_written() {
    let written = write_pcrlock(&[serde_json::Value::from(1)]).unwrap();
    assert_eq!(
        String::from_utf8(written).unwrap(),
        "{\n  \"records\": [\n    1\n  ]\n}"
    );
    assert_eq!(
        String::from_utf8(write_pcrlock(&[]).unwrap()).unwrap(),
        "{\n  \"records\": []\n}"
    );
}

#[test]
fn written_records_are_read_back() {
    let printed = b"{\"records\":[{\"pcr\":11,\"b\":[null,-3,18446744073709551615],\"a\":\"\\u0001\\\"\\u00e4\"},[]]}";
    let records = parse_records(printed).unwrap();
    let written = write_pcrlock(&records).unwrap();
    assert_eq!(parse_records(&written).unwrap(), records);
    // The deepest records that can be read can also be written and read back.
    let nested = |depth: usize| {
        format!(
            "{{\"records\":[{}1{}]}}",
            "[".repeat(depth),
            "]".repeat(depth)
        )
    };
    let deepest = parse_records(nested(125).as_bytes()).unwrap();
    let written = write_pcrlock(&deepest).unwrap();
    assert_eq!(parse_records(&written).unwrap(), deepest);
    assert_eq!(
        parse_records(nested(126).as_bytes()),
        Err(LockError::InvalidJson)
    );
}

#[test]
fn booted_components_stay_recorded() {
    let digest = "Ab".repeat(32);
    let printed =
        format!("{{\"records\":[{{\"pcr\":4,\"digests\":[{{\"digest\":\"{digest}\"}}]}}]}}");
    let written = write_pcrlock(&parse_records(printed.as_bytes()).unwrap()).unwrap();
    let mut log = DigestSet::new();
    assert!(!variant_is_in_log(Some(&written), &log));
    log.insert("ab".repeat(32));
    assert!(variant_is_in_log(Some(&written), &log));
}

#[test]
fn kept_hashes_keep_their_variants() {
    let hash = hex_string(&sha256(b"binary"));
    let path = resolve_pcrlock_path(&path("/var/lib"), true, &hash);
    let file_name = show(&path).strip_prefix("/var/lib/").unwrap().to_string();
    let kept = |keep: Vec<String>| {
        gc(
            &GcArgs {
                systemd: UnixPath::new(b"/systemd"),
                pcrlock: UnixPath::new(b"/var/lib"),
                keep,
            },
            file_name.as_bytes(),
            None,
        )
    };
    assert_eq!(kept(vec![hash.clone()]), GcStep::Retain);
    assert_eq!(kept(vec![]), GcStep::Remove);
}

#[test]
fn commands_name_their_arguments() {
    assert_eq!(
        show_command(&lock_pe(&path("/a"), &path("/b"))),
        "systemd-pcrlock lock-pe /a --pcrlock /b"
    );
    assert_eq!(
        show_command(&print_event_log(&path("/systemd"))),
        "/systemd/lib/systemd/systemd-pcrlock log --json=short"
    );
}

#[test]
fn stub_records_follow_the_measurements() {
    let commands = generate_records(
        &path("/s"),
        &path("/stub"),
        stub_sections().embedded,
        b"kernel".to_vec(),
        b"initrd".to_vec(),
    );
    let shown: Vec<String> = commands.iter().map(show_command).collect();
    let raw = "/s/lib/systemd/systemd-pcrlock lock-raw --pcr=11 < ";
    assert_eq!(
        shown,
        vec![
            "/s/lib/systemd/systemd-pcrlock lock-pe /stub".to_string(),
            format!("{raw}.linux\0"),
            format!("{raw}kernel"),
            format!("{raw}.osrel\0"),
            format!("{raw}os"),
            format!("{raw}.initrd\0"),
            format!("{raw}initrd"),
        ]
    );
}

#[test]
fn boot_loader_is_looked_for_in_order() {
    let mut run = boot_loader();
    let mut probed = Vec::new();
    for _ in 0..4 {
        match run.request() {
            LockRequest::ProbeFile(path) => probed.push(show(&path)),
            other => panic!("unexpected {other:?}"),
        }
        run = run.advance(LockReply::File(false));
    }
    assert_eq!(
        probed,
        vec![
            "/esp/EFI/BOOT/BOOTX64.EFI",
            "/esp/EFI/BOOT/BOOTAA64.EFI",
            "/esp/EFI/systemd/systemd-bootx64.efi",
            "/esp/EFI/systemd/systemd-bootaa64.efi",
        ]
    );
    assert_eq!(
        run.into_result().map(|result| result.pe_hash),
        Err(LockError::NoBootLoader)
    );
}

#[test]
fn boot_loader_is_locked() {
    let run = boot_loader()
        .advance(LockReply::File(false))
        .advance(LockReply::File(true));
    assert!(matches!(
        run.request(),
        LockRequest::ReadFile(path) if show(path) == "/esp/EFI/BOOT/BOOTAA64.EFI"
    ));
    let run = run
        .advance(LockReply::Contents(Some(b"loader")))
        .advance(LockReply::Directory(false));
    assert!(matches!(
        run.request(),
        LockRequest::ProbeExists(path) if show(path) == "/loader.pcrlock"
    ));
    let run = run.advance(LockReply::Exists(false));
    assert!(matches!(
        run.request(),
        LockRequest::Run(command) if show_command(command)
            == "/systemd/lib/systemd/systemd-pcrlock lock-pe /esp/EFI/BOOT/BOOTAA64.EFI"
    ));
    let run = run.advance(LockReply::Output(Some(ProcessOutput {
        success: true,
        stdout: records(4).as_bytes(),
    })));
    match run.request() {
        LockRequest::WriteFile(path, bytes) => {
            assert_eq!(show(path), "/loader.pcrlock");
            assert_eq!(
                String::from_utf8_lossy(bytes),
                "{\n  \"records\": [\n    {\n      \"pcr\": 4\n    }\n  ]\n}"
            );
        }
        other => panic!("unexpected {other:?}"),
    }
    let result = run.advance(LockReply::Written(true)).into_result().unwrap();
    assert_eq!(result.pe_hash, hex_string(&sha256(b"loader")));
}

#[test]
fn thin_stub_is_locked() {
    let mut run = thin_stub()
        .advance(LockReply::Contents(Some(b"stub")))
        .advance(LockReply::Directory(true));
    let expected = format!("/pcrlock/{}.pcrlock", hex_string(&sha256(b"stub")));
    assert!(matches!(
        run.request(),
        LockRequest::ProbeExists(path) if show(path) == expected
    ));
    run = run.advance(LockReply::Exists(false));
    assert!(matches!(
        run.request(),
        LockRequest::ReadSections { stub, esp }
            if show(stub) == "/esp/stub.efi" && show(esp) == "/esp"
    ));
    run = run.advance(LockReply::Sections(Some(stub_sections())));
    assert!(matches!(
        run.request(),
        LockRequest::ReadPayload(Payload::Kernel, path) if show(path) == "/esp/kernel"
    ));
    run = run.advance(LockReply::Payload(Some(b"kernel".to_vec())));
    assert!(matches!(
        run.request(),
        LockRequest::ReadPayload(Payload::Initrd, path) if show(path) == "/esp/initrd"
    ));
    run = run.advance(LockReply::Payload(Some(b"initrd".to_vec())));
    for i in 0..7 {
        assert!(matches!(run.request(), LockRequest::Run(_)));
        run = run.advance(LockReply::Output(Some(ProcessOutput {
            success: true,
            stdout: records(i).as_bytes(),
        })));
    }
    match run.request() {
        LockRequest::WriteFile(_, bytes) => {
            let value: serde_json::Value = serde_json::from_slice(bytes).unwrap();
            let pcrs: Vec<u64> = value["records"]
                .as_array()
                .unwrap()
                .iter()
                .map(|record| record["pcr"].as_u64().unwrap())
                .collect();
            assert_eq!(pcrs, vec![0, 1, 2, 3, 4, 5, 6]);
        }
        other => panic!("unexpected {other:?}"),
    }
}

#[test]
fn existing_records_are_kept() {
    let run = thin_stub()
        .advance(LockReply::Contents(Some(b"stub")))
        .advance(LockReply::Directory(true))
        .advance(LockReply::Exists(true));
    assert!(matches!(run.request(), LockRequest::Finished(Ok(()))));
    assert_eq!(
        run.into_result().unwrap().pe_hash,
        hex_string(&sha256(b"stub"))
    );
}

fn with_sections(change: fn(&mut StubSections)) -> LockRun {
    let mut sections = stub_sections();
    change(&mut sections);
    thin_stub()
        .advance(LockReply::Contents(Some(b"stub")))
        .advance(LockReply::Directory(true))
        .advance(LockReply::Exists(false))
        .advance(LockReply::Sections(Some(sections)))
}

fn error(run: LockRun) -> Option<LockError> {
    run.into_result().err()
}

#[test]
fn incomplete_stubs_are_refused() {
    assert_eq!(
        error(with_sections(|s| s.kernel_path = SectionPath::Missing)),
        Some(LockError::MissingSection(UnifiedSection::Linux))
    );
    assert_eq!(
        error(with_sections(|s| s.initrd_path = SectionPath::Missing)),
        Some(LockError::MissingSection(UnifiedSection::Initrd))
    );
    assert_eq!(
        error(with_sections(|s| s.initrd_path = SectionPath::Unresolvable)),
        Some(LockError::Unavailable)
    );
    assert_eq!(
        error(with_sections(|s| s.kernel_hash = None)),
        Some(LockError::MissingHash(Payload::Kernel))
    );
    assert_eq!(
        error(
            with_sections(|s| s.initrd_hash = None)
                .advance(LockReply::Payload(Some(b"kernel".to_vec())))
        ),
        Some(LockError::MissingHash(Payload::Initrd))
    );
}

#[test]
fn altered_payloads_are_refused() {
    assert_eq!(
        error(with_sections(|_| ()).advance(LockReply::Payload(Some(b"other".to_vec())))),
        Some(LockError::Mismatch(Payload::Kernel))
    );
    assert_eq!(
        error(
            with_sections(|_| ())
                .advance(LockReply::Payload(Some(b"kernel".to_vec())))
                .advance(LockReply::Payload(Some(b"other".to_vec())))
        ),
        Some(LockError::Mismatch(Payload::Initrd))
    );
    assert_eq!(
        error(with_sections(|_| ()).advance(LockReply::Payload(None))),
        Some(LockError::Unavailable)
    );
}

#[test]
fn failed_commands_end_the_run() {
    let running = || {
        boot_loader()
            .advance(LockReply::File(true))
            .advance(LockReply::Contents(Some(b"loader")))
            .advance(LockReply::Directory(false))
            .advance(LockReply::Exists(false))
    };
    assert_eq!(
        error(running().advance(LockReply::Output(Some(ProcessOutput {
            success: false,
            stdout: b"",
        })))),
        Some(LockError::CommandFailed)
    );
    assert_eq!(
        error(running().advance(LockReply::Output(Some(ProcessOutput {
            success: true,
            stdout: b"",
        })))),
        Some(LockError::InvalidJson)
    );
    assert_eq!(
        error(running().advance(LockReply::Output(None))),
        Some(LockError::Unavailable)
    );
    assert_eq!(
        error(
            running()
                .advance(LockReply::Output(Some(ProcessOutput {
                    success: true,
                    stdout: b"{\"records\":[]}",
                })))
                .advance(LockReply::Written(false))
        ),
        Some(LockError::Unavailable)
    );
}
