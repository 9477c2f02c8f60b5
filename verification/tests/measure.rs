use lanzaboote::companions::{CompanionInitrd, CompanionInitrdType};
use lanzaboote::measure::{
    encode_pcr_index, ensure_utf16_bytes_with_nul, measure_boot_loader, measure_companion_initrds,
    measure_image, measure_load_options, EventDescription, MeasureReply, MeasureRequest,
    MeasureRun,
};
use lanzaboote::pe::{ParsedPe, PeLayout, SectionTable};
use lanzaboote::status::Status;

/// What a run logged and set, given the outcome of each event.
struct Record {
    events: Vec<(u32, Vec<u8>, String)>,
    variables: Vec<(String, Vec<u8>)>,
    result: Result<usize, Status>,
}

fn perform(run: MeasureRun, outcomes: &[Result<bool, Status>]) -> Record {
    let mut run = run;
    let mut events = Vec::new();
    let mut variables = Vec::new();
    loop {
        let reply = match run.request() {
            MeasureRequest::LogEvent(event) => {
                let description = match event.description {
                    EventDescription::Ascii(text) => text.to_string(),
                    EventDescription::Utf16Data => "utf16".to_string(),
                };
                let outcome = outcomes[events.len() % outcomes.len()];
                events.push((event.pcr, event.data.bytes().to_vec(), description));
                MeasureReply::Logged(outcome)
            }
            MeasureRequest::SetVariable(name, value) => {
                variables.push((name.to_string(), value));
                MeasureReply::VariableSet(Ok(()))
            }
            MeasureRequest::Finished(result) => {
                return Record {
                    events,
                    variables,
                    result,
                }
            }
        };
        run = run.advance(reply);
    }
}

fn table(names: &[(&str, u32)]) -> Vec<SectionTable> {
    names
        .iter()
        .map(|(name, address)| SectionTable {
            name: Some(name.to_string()),
            virtual_size: 2,
            virtual_address: *address,
            size_of_raw_data: 2,
            pointer_to_raw_data: 0,
        })
        .collect()
}

#[test]
fn pcr_indices_are_utf16_decimals() {
    assert_eq!(encode_pcr_index(4), b"4\0\0\0".to_vec());
    assert_eq!(encode_pcr_index(11), b"1\x001\0\0\0".to_vec());
    assert_eq!(encode_pcr_index(0), b"0\0\0\0".to_vec());
    assert_eq!(encode_pcr_index(120), b"1\x002\x000\0\0\0".to_vec());
}

#[test]
fn terminates_utf16_once() {
    assert_eq!(ensure_utf16_bytes_with_nul(b"a\0").bytes(), b"a\0\0\0");
    assert_eq!(ensure_utf16_bytes_with_nul(b"a\0\0\0").bytes(), b"a\0\0\0");
    assert_eq!(ensure_utf16_bytes_with_nul(b"\0").bytes(), b"\0\0\0");
    assert_eq!(ensure_utf16_bytes_with_nul(b"").bytes(), b"\0\0");
}

#[test]
fn image_is_measured_in_canonical_order() {
    let data = b"k-i-osclsg";
    let pe = ParsedPe::from_section_table(
        data,
        table(&[
            (".pcrsig", 8),
            (".initrd", 2),
            (".text", 0),
            (".cmdline", 6),
            (".osrel", 4),
            (".linux", 0),
        ]),
        PeLayout::Loaded,
    );
    let record = perform(measure_image(&pe, b"kernel", b"initrd"), &[Ok(true)]);
    let expected: Vec<(u32, Vec<u8>, String)> = vec![
        (11, b".linux\0".to_vec(), ".linux".to_string()),
        (11, b"kernel".to_vec(), ".linux".to_string()),
        (11, b".osrel\0".to_vec(), ".osrel".to_string()),
        (11, b"os".to_vec(), ".osrel".to_string()),
        (11, b".cmdline\0".to_vec(), ".cmdline".to_string()),
        (11, b"cl".to_vec(), ".cmdline".to_string()),
        (11, b".initrd\0".to_vec(), ".initrd".to_string()),
        (11, b"initrd".to_vec(), ".initrd".to_string()),
    ];
    assert_eq!(record.events, expected);
    assert_eq!(
        record.variables,
        vec![("StubPcrKernelImage".to_string(), b"1\x001\0\0\0".to_vec())]
    );
    assert_eq!(record.result, Ok(8));
}

#[test]
fn unreadable_sections_are_not_measured() {
    let pe = ParsedPe::from_section_table(b"", table(&[(".osrel", 100)]), PeLayout::Loaded);
    let record = perform(measure_image(&pe, b"kernel", b"initrd"), &[Ok(true)]);
    assert_eq!(record.events, vec![]);
    assert_eq!(record.variables, vec![]);
    assert_eq!(record.result, Ok(0));
}

#[test]
fn repeated_sections_are_measured_repeatedly() {
    let pe = ParsedPe::from_section_table(
        b"abcd",
        table(&[(".osrel", 0), (".osrel", 2)]),
        PeLayout::Loaded,
    );
    let record = perform(measure_image(&pe, b"", b""), &[Ok(true), Ok(false)]);
    assert_eq!(record.events.len(), 4);
    assert_eq!(record.events[1].1, b"ab".to_vec());
    assert_eq!(record.events[3].1, b"ab".to_vec());
    assert_eq!(record.result, Ok(2));
}

#[test]
fn load_options_are_measured_with_nul() {
    let record = perform(measure_load_options(b"a\0"), &[Ok(true)]);
    assert_eq!(
        record.events,
        vec![(12, b"a\0\0\0".to_vec(), "utf16".to_string())]
    );
    assert_eq!(
        record.variables,
        vec![(
            "StubPcrKernelParameters".to_string(),
            b"1\x002\0\0\0".to_vec()
        )]
    );
    assert_eq!(record.result, Ok(1));
    assert_eq!(perform(measure_load_options(b""), &[Ok(true)]).result, Ok(0));
    let unmeasured = perform(measure_load_options(b"a\0"), &[Ok(false)]);
    assert_eq!(unmeasured.variables, vec![]);
    assert_eq!(unmeasured.result, Ok(0));
}

fn companion(kind: CompanionInitrdType, cpio: &[u8]) -> CompanionInitrd {
    CompanionInitrd {
        kind,
        cpio: cpio.to_vec(),
    }
}

#[test]
fn companions_go_to_their_pcrs() {
    let companions = [
        companion(CompanionInitrdType::Credentials, b"1"),
        companion(CompanionInitrdType::GlobalCredentials, b"2"),
        companion(CompanionInitrdType::SystemExtension, b"3"),
        companion(CompanionInitrdType::GlobalSystemExtension, b"4"),
        companion(CompanionInitrdType::PcrSignature, b"5"),
        companion(CompanionInitrdType::ConfigurationExtension, b"6"),
        companion(CompanionInitrdType::GlobalConfigurationExtension, b"7"),
        companion(CompanionInitrdType::PcrPublicKey, b"8"),
    ];
    let record = perform(measure_companion_initrds(&companions), &[Ok(true)]);
    let expected: Vec<(u32, Vec<u8>, String)> = vec![
        (12, b"1".to_vec(), "Credentials initrd".to_string()),
        (12, b"2".to_vec(), "Global credentials initrd".to_string()),
        (13, b"3".to_vec(), "System extension initrd".to_string()),
        (13, b"4".to_vec(), "Global system extension initrd".to_string()),
        (12, b"6".to_vec(), "Configuration extension initrd".to_string()),
        (
            12,
            b"7".to_vec(),
            "Global configuration extension initrd".to_string(),
        ),
    ];
    assert_eq!(record.events, expected);
    let names: Vec<String> = record.variables.iter().map(|v| v.0.clone()).collect();
    assert_eq!(
        names,
        vec![
            "StubPcrKernelParameters",
            "StubPcrInitRDSysExts",
            "StubPcrInitRDConfExts"
        ]
    );
    assert_eq!(record.variables[1].1, b"1\x003\0\0\0".to_vec());
    assert_eq!(record.result, Ok(6));
}

#[test]
fn only_logged_companions_are_announced() {
    let companions = [
        companion(CompanionInitrdType::Credentials, b"1"),
        companion(CompanionInitrdType::SystemExtension, b"2"),
    ];
    let record = perform(
        measure_companion_initrds(&companions),
        &[Ok(false), Ok(true)],
    );
    assert_eq!(record.variables.len(), 1);
    assert_eq!(record.variables[0].0, "StubPcrInitRDSysExts");
    assert_eq!(record.result, Ok(1));
}

#[test]
fn measurement_errors_end_the_run() {
    let companions = [
        companion(CompanionInitrdType::Credentials, b"1"),
        companion(CompanionInitrdType::SystemExtension, b"2"),
    ];
    let record = perform(
        measure_companion_initrds(&companions),
        &[Ok(true), Err(Status::OutOfResources)],
    );
    assert_eq!(record.events.len(), 2);
    assert_eq!(record.variables, vec![]);
    assert_eq!(record.result, Err(Status::OutOfResources));
    let run = measure_load_options(b"a\0").advance(MeasureReply::Logged(Ok(true)));
    let run = run.advance(MeasureReply::VariableSet(Err(Status::WriteProtected)));
    assert!(matches!(
        run.request(),
        MeasureRequest::Finished(Err(Status::WriteProtected))
    ));
}

#[test]
fn boot_loader_data_goes_to_its_pcr() {
    let record = perform(measure_boot_loader(b"data", "loader"), &[Ok(true)]);
    assert_eq!(
        record.events,
        vec![(4, b"data".to_vec(), "loader".to_string())]
    );
    assert_eq!(record.variables, vec![]);
    assert_eq!(record.result, Ok(1));
}
