//! The commands of `systemd-pcrlock` that lock boot components, and what they
//! print.

use crate::bytes::push_all;
use crate::json::{
    array_member, depth_limit, find_name, integral, json_document, json_of, json_pretty,
    json_trees, member, member_names, member_trees, parse_document, take_apart, within_depth,
    write_document, JsonNode, JsonTree,
};
use crate::measure::terminated_name;
use crate::path::{joined, UnixPath};
use crate::unified_sections::{
    law_canonical_order, UnifiedSection, UnifiedSectionDataSource, UNIFIED_SECTION_ORDER,
};
use serde_json::Value;
use vstd::prelude::*;
use vstd::utf8::*;

verus! {

/// A payload that is kept next to the stub on the boot partition.
#[derive(Debug, Clone, Copy, PartialEq, Eq, Structural)]
pub enum Payload {
    Kernel,
    Initrd,
}

/// Why a boot component could not be locked.
#[derive(Debug, Clone, Copy, PartialEq, Eq, Structural)]
pub enum LockError {
    /// There is no boot loader on the boot partition.
    NoBootLoader,
    /// A request could not be performed.
    Unavailable,
    /// The stub does not say where this section's payload is.
    MissingSection(UnifiedSection),
    /// The stub does not hold the hash of a payload.
    MissingHash(Payload),
    /// A payload does not have the hash that the stub holds.
    Mismatch(Payload),
    /// `systemd-pcrlock` failed.
    CommandFailed,
    /// `systemd-pcrlock` did not print a JSON document.
    InvalidJson,
    /// `systemd-pcrlock` did not print a `records` array.
    MissingRecords,
    /// The records cannot be written as JSON.
    Unserializable,
}

/// A program to be run.
#[derive(Debug)]
pub struct ProcessCommand {
    pub program: UnixPath,
    pub arguments: Vec<UnixPath>,
    /// The file that follows the arguments, if there is one.
    pub file: Option<UnixPath>,
    /// What the program reads from its standard input, if it is to have one.
    pub stdin: Option<Vec<u8>>,
}

/// A program to be run, with its arguments and input as sequences.
#[verifier::ext_equal]
pub struct CommandModel {
    pub program: Seq<u8>,
    pub arguments: Seq<Seq<u8>>,
    pub file: Option<Seq<u8>>,
    pub stdin: Option<Seq<u8>>,
}

/// The bytes of each path.
pub open spec fn paths(paths: Seq<UnixPath>) -> Seq<Seq<u8>> {
    paths.map_values(|path: UnixPath| path@)
}

impl View for ProcessCommand {
    type V = CommandModel;

    open spec fn view(&self) -> CommandModel {
        CommandModel {
            program: self.program@,
            arguments: paths(self.arguments@),
            file: match self.file {
                Some(file) => Some(file@),
                None => None,
            },
            stdin: match self.stdin {
                Some(bytes) => Some(bytes@),
                None => None,
            },
        }
    }
}

/// The models of several commands.
pub open spec fn command_models(commands: Seq<ProcessCommand>) -> Seq<CommandModel> {
    commands.map_values(|command: ProcessCommand| command@)
}

/// Where `systemd-pcrlock` is installed.
pub open spec fn pcrlock_program(systemd: Seq<u8>) -> Seq<u8> {
    joined(systemd, encode_utf8("lib/systemd/systemd-pcrlock"@))
}

/// The command that prints the records of a PE binary.
pub open spec fn lock_pe_command(systemd: Seq<u8>, binary: Seq<u8>) -> CommandModel {
    CommandModel {
        program: pcrlock_program(systemd),
        arguments: seq![encode_utf8("lock-pe"@)],
        file: Some(binary),
        stdin: None,
    }
}

/// The command that prints the record of data that is measured into PCR 11.
pub open spec fn lock_raw_command(systemd: Seq<u8>, data: Seq<u8>) -> CommandModel {
    CommandModel {
        program: pcrlock_program(systemd),
        arguments: seq![encode_utf8("lock-raw"@), encode_utf8("--pcr=11"@)],
        file: None,
        stdin: Some(data),
    }
}

/// The command that prints the TPM event log.
pub open spec fn log_command(systemd: Seq<u8>) -> CommandModel {
    CommandModel {
        program: pcrlock_program(systemd),
        arguments: seq![encode_utf8("log"@), encode_utf8("--json=short"@)],
        file: None,
        stdin: None,
    }
}

/// The command that writes the records of a PE binary to a component file.
pub open spec fn lock_component_command(binary: Seq<u8>, component: Seq<u8>) -> CommandModel {
    CommandModel {
        program: encode_utf8("systemd-pcrlock"@),
        arguments: seq![encode_utf8("lock-pe"@), binary, encode_utf8("--pcrlock"@), component],
        file: None,
        stdin: None,
    }
}

/// A command line argument.
fn argument(text: &str) -> (path: UnixPath)
    ensures
        path@ == encode_utf8(text@),
{
    UnixPath::new(text.as_bytes())
}

pub(crate) fn lock_pe_binary(systemd: &UnixPath, binary: &UnixPath) -> (command: ProcessCommand)
    ensures
        command@ == lock_pe_command(systemd@, binary@),
{
    let mut arguments: Vec<UnixPath> = Vec::new();
    arguments.push(argument("lock-pe"));
    let command = ProcessCommand {
        program: systemd.join("lib/systemd/systemd-pcrlock"),
        arguments,
        file: Some(binary.copy()),
        stdin: None,
    };
    assert(command@ =~= lock_pe_command(systemd@, binary@));
    command
}

fn lock_raw(systemd: &UnixPath, data: Vec<u8>) -> (command: ProcessCommand)
    ensures
        command@ == lock_raw_command(systemd@, data@),
{
    let mut arguments: Vec<UnixPath> = Vec::new();
    arguments.push(argument("lock-raw"));
    arguments.push(argument("--pcr=11"));
    let command = ProcessCommand {
        program: systemd.join("lib/systemd/systemd-pcrlock"),
        arguments,
        file: None,
        stdin: Some(data),
    };
    assert(command@ =~= lock_raw_command(systemd@, data@));
    command
}

/// The command that prints the TPM event log.
pub fn print_event_log(systemd: &UnixPath) -> (command: ProcessCommand)
    ensures
        command@ == log_command(systemd@),
{
    let mut arguments: Vec<UnixPath> = Vec::new();
    arguments.push(argument("log"));
    arguments.push(argument("--json=short"));
    let command = ProcessCommand {
        program: systemd.join("lib/systemd/systemd-pcrlock"),
        arguments,
        file: None,
        stdin: None,
    };
    assert(command@ =~= log_command(systemd@));
    command
}

/// Lock a PE binary with systemd-pcrlock and write the pcrlock component: the
/// command `systemd-pcrlock lock-pe` that does so.
pub fn lock_pe(binary_path: &UnixPath, pcrlock_component: &UnixPath) -> (command: ProcessCommand)
    ensures
        command@ == lock_component_command(binary_path@, pcrlock_component@),
{
    let mut arguments: Vec<UnixPath> = Vec::new();
    arguments.push(argument("lock-pe"));
    arguments.push(binary_path.copy());
    arguments.push(argument("--pcrlock"));
    arguments.push(pcrlock_component.copy());
    let command = ProcessCommand {
        program: argument("systemd-pcrlock"),
        arguments,
        file: None,
        stdin: None,
    };
    assert(command@ =~= lock_component_command(binary_path@, pcrlock_component@));
    command
}

/// The `records` array of a document.
pub open spec fn records_member(tree: JsonTree) -> Option<Seq<JsonTree>> {
    match tree {
        JsonTree::Object(members) => match member(members, "records"@) {
            Some(JsonTree::Array(records)) => Some(records),
            _ => None,
        },
        _ => None,
    }
}

/// What the output of `systemd-pcrlock` means.
pub open spec fn parsed_records(document: Option<JsonTree>) -> Result<Seq<JsonTree>, LockError> {
    match document {
        Some(tree) => match records_member(tree) {
            Some(records) => Ok(records),
            None => Err(LockError::MissingRecords),
        },
        None => Err(LockError::InvalidJson),
    }
}

/// What a list of records holds.
pub open spec fn records_result(records: Result<Vec<Value>, LockError>) -> Result<
    Seq<JsonTree>,
    LockError,
> {
    match records {
        Ok(records) => Ok(json_trees(records@)),
        Err(error) => Err(error),
    }
}

/// Whether records are not nested too deep to be written into a document that
/// can be read back.
pub open spec fn shallow(records: Seq<JsonTree>) -> bool {
    forall|i: int|
        0 <= i < records.len() ==> within_depth(
            #[trigger] records[i],
            (depth_limit() - 2) as nat,
        )
}

/// Whether every number in the records is an integer.
pub open spec fn integral_records(records: Seq<JsonTree>) -> bool {
    forall|i: int| 0 <= i < records.len() ==> integral(#[trigger] records[i])
}

/// The document that holds records.
pub open spec fn records_document(records: Seq<JsonTree>) -> JsonTree {
    array_member("records"@, records)
}

/// The `records` array of a document.
pub fn records_of(value: Value) -> (records: Result<Vec<Value>, LockError>)
    ensures
        records_result(records) == parsed_records(Some(json_of(value))),
{
    match take_apart(value) {
        JsonNode::Object(members) => {
            let ghost trees = member_trees(members@);
            proof {
                assert(member_names(trees) =~= members@.map_values(
                    |member: (String, Value)| member.0@,
                ));
            }
            match find_name(&members, "records") {
                Some(at) => {
                    assert(trees[at as int].1 == json_of(members@[at as int].1));
                    let mut members = members;
                    let (_, records) = members.swap_remove(at);
                    match take_apart(records) {
                        JsonNode::Array(records) => Ok(records),
                        _ => Err(LockError::MissingRecords),
                    }
                },
                None => Err(LockError::MissingRecords),
            }
        },
        _ => Err(LockError::MissingRecords),
    }
}

/// Parse the output of `systemd-pcrlock`.
pub fn parse_records(bytes: &[u8]) -> (records: Result<Vec<Value>, LockError>)
    ensures
        records_result(records) == parsed_records(json_document(bytes@)),
        records matches Ok(records) ==> shallow(json_trees(records@)),
{
    match parse_document(bytes) {
        Ok(value) => {
            proof {
                lemma_parsed_records_are_shallow(json_of(value));
            }
            records_of(value)
        },
        Err(_) => Err(LockError::InvalidJson),
    }
}

proof fn lemma_parsed_records_are_shallow(tree: JsonTree)
    requires
        within_depth(tree, depth_limit()),
    ensures
        records_member(tree) matches Some(records) ==> shallow(records),
{
    if let Some(records) = records_member(tree) {
        let members = tree->Object_0;
        let at = crate::json::name_index(member_names(members), "records"@);
        assert(within_depth(members[at].1, (depth_limit() - 1) as nat));
    }
}

/// The contents of a `.pcrlock` file.
pub open spec fn pcrlock_document(records: Seq<JsonTree>) -> Result<Seq<u8>, LockError> {
    match json_pretty(records_document(records)) {
        Some(bytes) => Ok(bytes),
        None => Err(LockError::Unserializable),
    }
}

/// The contents of a `.pcrlock` file. The records are read back from it.
pub fn write_pcrlock(records: &[Value]) -> (bytes: Result<Vec<u8>, LockError>)
    ensures
        (match bytes {
            Ok(bytes) => Ok(bytes@),
            Err(error) => Err(error),
        }) == pcrlock_document(json_trees(records@)),
        bytes matches Ok(bytes) ==> (shallow(json_trees(records@)) && integral_records(
            json_trees(records@),
        ) ==> json_document(bytes@) == Some(records_document(json_trees(records@)))),
{
    proof {
        let trees = json_trees(records@);
        if shallow(trees) && integral_records(trees) {
            lemma_records_can_be_read_back(trees);
        }
    }
    match write_document("records", records) {
        Ok(bytes) => Ok(bytes),
        Err(_) => Err(LockError::Unserializable),
    }
}

proof fn lemma_records_can_be_read_back(records: Seq<JsonTree>)
    requires
        shallow(records),
        integral_records(records),
    ensures
        within_depth(records_document(records), depth_limit()),
        integral(records_document(records)),
{
    let array = JsonTree::Array(records);
    assert(within_depth(array, (depth_limit() - 1) as nat));
    assert(integral(array));
    let members = records_document(records)->Object_0;
    assert(members =~= seq![("records"@, array)]);
}

/// What the stub says about the location of a payload.
#[derive(Debug)]
pub enum SectionPath {
    /// The section is missing.
    Missing,
    /// The location cannot be resolved.
    Unresolvable,
    /// The payload is kept in this file.
    Resolved(UnixPath),
}

/// What the stub says about the location of a payload.
pub enum SectionPathModel {
    Missing,
    Unresolvable,
    Resolved(Seq<u8>),
}

impl View for SectionPath {
    type V = SectionPathModel;

    open spec fn view(&self) -> SectionPathModel {
        match self {
            SectionPath::Missing => SectionPathModel::Missing,
            SectionPath::Unresolvable => SectionPathModel::Unresolvable,
            SectionPath::Resolved(path) => SectionPathModel::Resolved(path@),
        }
    }
}

/// The sections of a thin stub.
#[derive(Debug)]
pub struct StubSections {
    pub kernel_path: SectionPath,
    pub initrd_path: SectionPath,
    /// The contents of `.linuxh`.
    pub kernel_hash: Option<Vec<u8>>,
    /// The contents of `.initrdh`.
    pub initrd_hash: Option<Vec<u8>>,
    /// The contents of the unified sections, in canonical order.
    pub embedded: Vec<Option<Vec<u8>>>,
}

/// The sections of a thin stub as sequences.
pub struct StubModel {
    pub kernel_path: SectionPathModel,
    pub initrd_path: SectionPathModel,
    pub kernel_hash: Option<Seq<u8>>,
    pub initrd_hash: Option<Seq<u8>>,
    pub embedded: Seq<Option<Seq<u8>>>,
}

/// The bytes of an optional vector.
pub open spec fn bytes_option(bytes: Option<Vec<u8>>) -> Option<Seq<u8>> {
    match bytes {
        Some(bytes) => Some(bytes@),
        None => None,
    }
}

/// The bytes of several optional vectors.
pub open spec fn embedded_views(embedded: Seq<Option<Vec<u8>>>) -> Seq<Option<Seq<u8>>> {
    embedded.map_values(|bytes: Option<Vec<u8>>| bytes_option(bytes))
}

impl View for StubSections {
    type V = StubModel;

    open spec fn view(&self) -> StubModel {
        StubModel {
            kernel_path: self.kernel_path@,
            initrd_path: self.initrd_path@,
            kernel_hash: bytes_option(self.kernel_hash),
            initrd_hash: bytes_option(self.initrd_hash),
            embedded: embedded_views(self.embedded@),
        }
    }
}

/// The data that is recorded for a section, if there is any.
pub open spec fn recorded_data(
    embedded: Seq<Option<Seq<u8>>>,
    kernel: Seq<u8>,
    initrd: Seq<u8>,
    section: UnifiedSection,
) -> Option<Seq<u8>> {
    match section.source() {
        UnifiedSectionDataSource::ExternalKernel => Some(kernel),
        UnifiedSectionDataSource::ExternalInitrd => Some(initrd),
        UnifiedSectionDataSource::Embedded => embedded[section.rank()],
    }
}

/// The data that is recorded for the first `n` sections of the canonical
/// order: for each measured section its name, then its contents.
pub open spec fn recorded_inputs(
    embedded: Seq<Option<Seq<u8>>>,
    kernel: Seq<u8>,
    initrd: Seq<u8>,
    n: nat,
) -> Seq<Seq<u8>>
    decreases n,
{
    if n == 0 {
        Seq::empty()
    } else {
        let section = UNIFIED_SECTION_ORDER@[n - 1];
        let before = recorded_inputs(embedded, kernel, initrd, (n - 1) as nat);
        match recorded_data(embedded, kernel, initrd, section) {
            Some(data) => if section.is_measured() {
                before + seq![terminated_name(section), data]
            } else {
                before
            },
            None => before,
        }
    }
}

/// The commands that print the records of a thin stub: those of the PE binary
/// itself, then those of its sections.
pub open spec fn stub_commands(
    systemd: Seq<u8>,
    stub: Seq<u8>,
    inputs: Seq<Seq<u8>>,
) -> Seq<CommandModel> {
    seq![lock_pe_command(systemd, stub)] + inputs.map_values(
        |data: Seq<u8>| lock_raw_command(systemd, data),
    )
}

fn push_section(
    commands: &mut Vec<ProcessCommand>,
    systemd: &UnixPath,
    section: UnifiedSection,
    data: Vec<u8>,
)
    ensures
        command_models(final(commands)@) == command_models(old(commands)@) + seq![
            lock_raw_command(systemd@, terminated_name(section)),
            lock_raw_command(systemd@, data@),
        ],
{
    let mut name: Vec<u8> = Vec::new();
    push_all(&mut name, section.name().as_bytes());
    name.push(0);
    assert(name@ == terminated_name(section));
    commands.push(lock_raw(systemd, name));
    commands.push(lock_raw(systemd, data));
    assert(command_models(commands@) =~= command_models(old(commands)@) + seq![
        lock_raw_command(systemd@, terminated_name(section)),
        lock_raw_command(systemd@, data@),
    ]);
}

/// The commands that print the records of a thin stub.
pub fn generate_records(
    systemd: &UnixPath,
    stub: &UnixPath,
    embedded: Vec<Option<Vec<u8>>>,
    kernel: Vec<u8>,
    initrd: Vec<u8>,
) -> (commands: Vec<ProcessCommand>)
    requires
        embedded@.len() == 15,
    ensures
        command_models(commands@) == stub_commands(
            systemd@,
            stub@,
            recorded_inputs(embedded_views(embedded@), kernel@, initrd@, 15),
        ),
{
    let ghost sections = embedded_views(embedded@);
    let ghost raw = |data: Seq<u8>| lock_raw_command(systemd@, data);
    let mut kernel = Some(kernel);
    let mut initrd = Some(initrd);
    let ghost kernel_data = kernel->0@;
    let ghost initrd_data = initrd->0@;
    let mut commands: Vec<ProcessCommand> = Vec::new();
    commands.push(lock_pe_binary(systemd, stub));
    assert(command_models(commands@) =~= stub_commands(
        systemd@,
        stub@,
        recorded_inputs(sections, kernel_data, initrd_data, 0),
    ));
    let mut i: usize = 0;
    proof {
        law_canonical_order();
    }
    for contents in it: embedded
        invariant
            it.seq().len() == 15,
            sections == embedded_views(it.seq()),
            i == it.index(),
            i <= 15,
            i <= 0 ==> kernel is Some && kernel->0@ == kernel_data,
            i <= 3 ==> initrd is Some && initrd->0@ == initrd_data,
            command_models(commands@) == stub_commands(
                systemd@,
                stub@,
                recorded_inputs(sections, kernel_data, initrd_data, i as nat),
            ),
    {
        let section = UNIFIED_SECTION_ORDER[i];
        let ghost before = recorded_inputs(sections, kernel_data, initrd_data, i as nat);
        proof {
            law_canonical_order();
            assert(section.rank() == i);
            assert(sections[i as int] == bytes_option(contents));
        }
        if section.should_be_measured() {
            let data = match section.data_source() {
                UnifiedSectionDataSource::ExternalKernel => kernel.take(),
                UnifiedSectionDataSource::ExternalInitrd => initrd.take(),
                UnifiedSectionDataSource::Embedded => contents,
            };
            assert(bytes_option(data) == recorded_data(
                sections,
                kernel_data,
                initrd_data,
                section,
            ));
            if let Some(data) = data {
                push_section(&mut commands, systemd, section, data);
                let ghost after = recorded_inputs(
                    sections,
                    kernel_data,
                    initrd_data,
                    (i + 1) as nat,
                );
                assert(after =~= before + seq![terminated_name(section), data@]);
                assert(command_models(commands@) =~= stub_commands(systemd@, stub@, after));
            }
        }
        i = i + 1;
    }
    commands
}

} // verus!
