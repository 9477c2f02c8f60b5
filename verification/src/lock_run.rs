//! The course of locking a boot component.
//!
//! [`LockRun`] decides what has to be done to record the measurements of a
//! boot component; its caller performs each [`LockRequest`] and reports the
//! outcome as a [`LockReply`].

use crate::bytes::same_bytes;
use crate::digest::{hex, hex_string, sha256, sha256_capacity, sha256_of};
use crate::gc::ProcessOutput;
use crate::json::{json_document, json_trees, JsonTree};
use crate::lock::{
    bytes_option, command_models, generate_records, integral_records, lock_pe_binary,
    lock_pe_command, parse_records, parsed_records, pcrlock_document, recorded_inputs,
    records_document, shallow, stub_commands, write_pcrlock, CommandModel, LockError, Payload,
    ProcessCommand, SectionPath, SectionPathModel, StubModel, StubSections,
};
use crate::path::{joined, UnixPath};
use crate::pcrlock::{
    record_path, resolve_pcrlock_path, LockBootLoaderArgs, LockResult, LockThinStubArgs,
};
use crate::unified_sections::UnifiedSection;
use serde_json::Value;
use vstd::prelude::*;
use vstd::utf8::*;

verus! {

/// The places on the boot partition where a boot loader may be installed, in
/// order of preference.
pub open spec fn boot_loader_candidate(esp: Seq<u8>, i: nat) -> Seq<u8> {
    joined(
        esp,
        encode_utf8(
            if i == 0 {
                "EFI/BOOT/BOOTX64.EFI"@
            } else if i == 1 {
                "EFI/BOOT/BOOTAA64.EFI"@
            } else if i == 2 {
                "EFI/systemd/systemd-bootx64.efi"@
            } else {
                "EFI/systemd/systemd-bootaa64.efi"@
            },
        ),
    )
}

/// One of the places where a boot loader may be installed.
pub fn boot_loader_path(esp: &UnixPath, i: usize) -> (path: UnixPath)
    requires
        i < 4,
    ensures
        path@ == boot_loader_candidate(esp@, i as nat),
{
    if i == 0 {
        esp.join("EFI/BOOT/BOOTX64.EFI")
    } else if i == 1 {
        esp.join("EFI/BOOT/BOOTAA64.EFI")
    } else if i == 2 {
        esp.join("EFI/systemd/systemd-bootx64.efi")
    } else {
        esp.join("EFI/systemd/systemd-bootaa64.efi")
    }
}

/// What a [`LockRun`] is waiting for.
#[derive(Debug, Clone, Copy)]
pub enum LockStage {
    /// Whether the boot loader is installed at this place.
    Discover(usize),
    Hash,
    Directory,
    Exists,
    Sections,
    ReadKernel,
    ReadInitrd,
    Run,
    Write,
    Finished(Result<(), LockError>),
}

/// What has to be done next.
#[derive(Debug)]
pub enum LockRequest<'a> {
    /// Find out whether this is a regular file.
    ProbeFile(UnixPath),
    /// Read this file.
    ReadFile(&'a UnixPath),
    /// Find out whether this is a directory.
    ProbeDirectory(&'a UnixPath),
    /// Find out whether this path exists.
    ProbeExists(&'a UnixPath),
    /// Read the sections of the stub, and resolve the paths in it against the
    /// boot partition.
    ReadSections { stub: &'a UnixPath, esp: &'a UnixPath },
    /// Read this payload from this file.
    ReadPayload(Payload, &'a UnixPath),
    /// Run this program.
    Run(&'a ProcessCommand),
    /// Write these bytes to this file, below directories that may be missing.
    WriteFile(&'a UnixPath, &'a [u8]),
    /// Nothing is left to do.
    Finished(Result<(), LockError>),
}

/// A request with its contents as sequences.
pub enum LockRequestModel {
    ProbeFile(Seq<u8>),
    ReadFile(Seq<u8>),
    ProbeDirectory(Seq<u8>),
    ProbeExists(Seq<u8>),
    ReadSections { stub: Seq<u8>, esp: Seq<u8> },
    ReadPayload(Payload, Seq<u8>),
    Run(CommandModel),
    WriteFile(Seq<u8>, Seq<u8>),
    Finished(Result<(), LockError>),
}

impl<'a> View for LockRequest<'a> {
    type V = LockRequestModel;

    open spec fn view(&self) -> LockRequestModel {
        match *self {
            LockRequest::ProbeFile(path) => LockRequestModel::ProbeFile(path@),
            LockRequest::ReadFile(path) => LockRequestModel::ReadFile(path@),
            LockRequest::ProbeDirectory(path) => LockRequestModel::ProbeDirectory(path@),
            LockRequest::ProbeExists(path) => LockRequestModel::ProbeExists(path@),
            LockRequest::ReadSections { stub, esp } => LockRequestModel::ReadSections {
                stub: stub@,
                esp: esp@,
            },
            LockRequest::ReadPayload(payload, path) => LockRequestModel::ReadPayload(
                payload,
                path@,
            ),
            LockRequest::Run(command) => LockRequestModel::Run(command@),
            LockRequest::WriteFile(path, bytes) => LockRequestModel::WriteFile(path@, bytes@),
            LockRequest::Finished(result) => LockRequestModel::Finished(result),
        }
    }
}

/// The outcome of a request. What could not be performed is missing.
#[derive(Debug)]
pub enum LockReply<'a> {
    /// Of `ProbeFile`: whether it is a regular file.
    File(bool),
    /// Of `ReadFile`: the contents.
    Contents(Option<&'a [u8]>),
    /// Of `ProbeDirectory`: whether it is a directory.
    Directory(bool),
    /// Of `ProbeExists`: whether the path exists.
    Exists(bool),
    /// Of `ReadSections`: the sections.
    Sections(Option<StubSections>),
    /// Of `ReadPayload`: the contents.
    Payload(Option<Vec<u8>>),
    /// Of `Run`: what the program left behind.
    Output(Option<ProcessOutput<'a>>),
    /// Of `WriteFile`: whether the file was written.
    Written(bool),
}

/// A reply with its contents as sequences.
pub enum LockReplyModel {
    File(bool),
    Contents(Option<Seq<u8>>),
    Directory(bool),
    Exists(bool),
    Sections(Option<StubModel>),
    Payload(Option<Seq<u8>>),
    /// Whether the program succeeded, and what it printed.
    Output(Option<(bool, Seq<u8>)>),
    Written(bool),
}

impl<'a> View for LockReply<'a> {
    type V = LockReplyModel;

    open spec fn view(&self) -> LockReplyModel {
        match *self {
            LockReply::File(file) => LockReplyModel::File(file),
            LockReply::Contents(Some(bytes)) => LockReplyModel::Contents(Some(bytes@)),
            LockReply::Contents(None) => LockReplyModel::Contents(None),
            LockReply::Directory(directory) => LockReplyModel::Directory(directory),
            LockReply::Exists(exists) => LockReplyModel::Exists(exists),
            LockReply::Sections(Some(sections)) => LockReplyModel::Sections(Some(sections@)),
            LockReply::Sections(None) => LockReplyModel::Sections(None),
            LockReply::Payload(bytes) => LockReplyModel::Payload(bytes_option(bytes)),
            LockReply::Output(Some(output)) => LockReplyModel::Output(
                Some((output.success, output.stdout@)),
            ),
            LockReply::Output(None) => LockReplyModel::Output(None),
            LockReply::Written(written) => LockReplyModel::Written(written),
        }
    }
}

/// The state of a run.
#[verifier::ext_equal]
pub struct LockState {
    /// Whether a thin stub is locked, as opposed to the boot loader.
    pub thin_stub: bool,
    pub systemd: Seq<u8>,
    pub esp: Seq<u8>,
    pub pcrlock: Seq<u8>,
    /// The PE binary that is locked.
    pub binary: Seq<u8>,
    /// The hash of that binary in hexadecimal.
    pub pe_hash: Seq<char>,
    /// The file that is to hold the records.
    pub path: Seq<u8>,
    /// The sections of the stub, until the commands are known.
    pub stub: Option<StubModel>,
    /// The kernel, until the commands are known.
    pub kernel: Seq<u8>,
    /// The commands that print the records.
    pub commands: Seq<CommandModel>,
    /// How many of them were run.
    pub done: nat,
    /// What they printed.
    pub records: Seq<JsonTree>,
    /// What is to be written.
    pub document: Seq<u8>,
    pub stage: LockStage,
}

impl LockState {
    /// The state in which a run begins.
    pub open spec fn initial(
        thin_stub: bool,
        systemd: Seq<u8>,
        esp: Seq<u8>,
        pcrlock: Seq<u8>,
        binary: Seq<u8>,
    ) -> LockState {
        LockState {
            thin_stub,
            systemd,
            esp,
            pcrlock,
            binary,
            pe_hash: Seq::empty(),
            path: Seq::empty(),
            stub: None,
            kernel: Seq::empty(),
            commands: Seq::empty(),
            done: 0,
            records: Seq::empty(),
            document: Seq::empty(),
            stage: if thin_stub {
                LockStage::Hash
            } else {
                LockStage::Discover(0)
            },
        }
    }

    /// The same state at another stage.
    pub open spec fn at(self, stage: LockStage) -> LockState {
        LockState { stage, ..self }
    }

    /// The same state, given up with an error.
    pub open spec fn failed(self, error: LockError) -> LockState {
        self.at(LockStage::Finished(Err(error)))
    }

    /// The file that holds a payload.
    pub open spec fn payload_path(self, payload: Payload) -> Seq<u8> {
        let path = match payload {
            Payload::Kernel => self.stub->0.kernel_path,
            Payload::Initrd => self.stub->0.initrd_path,
        };
        path->Resolved_0
    }

    /// What has to be done next in this state.
    pub open spec fn request(self) -> LockRequestModel {
        match self.stage {
            LockStage::Discover(i) => LockRequestModel::ProbeFile(
                boot_loader_candidate(self.esp, i as nat),
            ),
            LockStage::Hash => LockRequestModel::ReadFile(self.binary),
            LockStage::Directory => LockRequestModel::ProbeDirectory(self.pcrlock),
            LockStage::Exists => LockRequestModel::ProbeExists(self.path),
            LockStage::Sections => LockRequestModel::ReadSections {
                stub: self.binary,
                esp: self.esp,
            },
            LockStage::ReadKernel => LockRequestModel::ReadPayload(
                Payload::Kernel,
                self.payload_path(Payload::Kernel),
            ),
            LockStage::ReadInitrd => LockRequestModel::ReadPayload(
                Payload::Initrd,
                self.payload_path(Payload::Initrd),
            ),
            LockStage::Run => LockRequestModel::Run(self.commands[self.done as int]),
            LockStage::Write => LockRequestModel::WriteFile(self.path, self.document),
            LockStage::Finished(result) => LockRequestModel::Finished(result),
        }
    }

    /// Whether `reply` is an outcome that the current request can have.
    pub open spec fn awaits(self, reply: LockReplyModel) -> bool {
        match self.stage {
            LockStage::Discover(_) => reply is File,
            LockStage::Hash => reply matches LockReplyModel::Contents(contents) && (contents
                matches Some(bytes) ==> bytes.len() <= sha256_capacity()),
            LockStage::Directory => reply is Directory,
            LockStage::Exists => reply is Exists,
            LockStage::Sections => reply matches LockReplyModel::Sections(sections) && (sections
                matches Some(stub) ==> stub.embedded.len() == 15),
            LockStage::ReadKernel => reply matches LockReplyModel::Payload(contents) && (contents
                matches Some(bytes) ==> bytes.len() <= sha256_capacity()),
            LockStage::ReadInitrd => reply matches LockReplyModel::Payload(contents) && (contents
                matches Some(bytes) ==> bytes.len() <= sha256_capacity()),
            LockStage::Run => reply is Output,
            LockStage::Write => reply is Written,
            LockStage::Finished(_) => false,
        }
    }

    pub open spec fn after_probe(self, i: usize, file: bool) -> LockState {
        if file {
            LockState { binary: boot_loader_candidate(self.esp, i as nat), ..self }.at(
                LockStage::Hash,
            )
        } else if i < 3 {
            self.at(LockStage::Discover((i + 1) as usize))
        } else {
            self.failed(LockError::NoBootLoader)
        }
    }

    pub open spec fn after_hash(self, contents: Option<Seq<u8>>) -> LockState {
        match contents {
            Some(bytes) => LockState { pe_hash: hex(sha256_of(bytes)), ..self }.at(
                LockStage::Directory,
            ),
            None => self.failed(LockError::Unavailable),
        }
    }

    /// A file that exists already is left alone.
    pub open spec fn after_exists(self, exists: bool) -> LockState {
        if exists {
            self.at(LockStage::Finished(Ok(())))
        } else if self.thin_stub {
            self.at(LockStage::Sections)
        } else {
            self.running(seq![lock_pe_command(self.systemd, self.binary)])
        }
    }

    /// The same state, about to run the given commands.
    pub open spec fn running(self, commands: Seq<CommandModel>) -> LockState {
        LockState {
            stub: None,
            kernel: Seq::empty(),
            commands,
            done: 0,
            records: Seq::empty(),
            ..self
        }.at(LockStage::Run)
    }

    /// The stub has to say where its payloads are and what hash the kernel
    /// has.
    pub open spec fn after_sections(self, sections: Option<StubModel>) -> LockState {
        match sections {
            Some(stub) => match (stub.kernel_path, stub.initrd_path) {
                (SectionPathModel::Missing, _) => self.failed(
                    LockError::MissingSection(UnifiedSection::Linux),
                ),
                (SectionPathModel::Unresolvable, _) => self.failed(LockError::Unavailable),
                (_, SectionPathModel::Missing) => self.failed(
                    LockError::MissingSection(UnifiedSection::Initrd),
                ),
                (_, SectionPathModel::Unresolvable) => self.failed(LockError::Unavailable),
                (SectionPathModel::Resolved(_), SectionPathModel::Resolved(_)) =>
                    if stub.kernel_hash is None {
                    self.failed(LockError::MissingHash(Payload::Kernel))
                } else {
                    LockState { stub: Some(stub), ..self }.at(LockStage::ReadKernel)
                },
            },
            None => self.failed(LockError::Unavailable),
        }
    }

    /// The kernel has to have the hash that the stub holds.
    pub open spec fn after_kernel(self, contents: Option<Seq<u8>>) -> LockState {
        match contents {
            Some(kernel) => if self.stub->0.kernel_hash != Some(sha256_of(kernel)) {
                self.failed(LockError::Mismatch(Payload::Kernel))
            } else if self.stub->0.initrd_hash is None {
                self.failed(LockError::MissingHash(Payload::Initrd))
            } else {
                LockState { kernel, ..self }.at(LockStage::ReadInitrd)
            },
            None => self.failed(LockError::Unavailable),
        }
    }

    /// The initrd has to have the hash that the stub holds.
    pub open spec fn after_initrd(self, contents: Option<Seq<u8>>) -> LockState {
        match contents {
            Some(initrd) => if self.stub->0.initrd_hash != Some(sha256_of(initrd)) {
                self.failed(LockError::Mismatch(Payload::Initrd))
            } else {
                self.running(
                    stub_commands(
                        self.systemd,
                        self.binary,
                        recorded_inputs(self.stub->0.embedded, self.kernel, initrd, 15),
                    ),
                )
            },
            None => self.failed(LockError::Unavailable),
        }
    }

    /// The state after one of the commands was run.
    pub open spec fn after_command(self, output: Option<(bool, Seq<u8>)>) -> LockState {
        match output {
            Some((success, stdout)) => if !success {
                self.failed(LockError::CommandFailed)
            } else {
                match parsed_records(json_document(stdout)) {
                    Ok(records) => {
                        let next = LockState {
                            records: self.records + records,
                            done: self.done + 1,
                            ..self
                        };
                        if next.done < next.commands.len() {
                            next
                        } else {
                            next.writing()
                        }
                    },
                    Err(error) => self.failed(error),
                }
            },
            None => self.failed(LockError::Unavailable),
        }
    }

    /// The same state, about to write the records.
    pub open spec fn writing(self) -> LockState {
        match pcrlock_document(self.records) {
            Ok(document) => LockState { document, ..self }.at(LockStage::Write),
            Err(error) => self.failed(error),
        }
    }

    /// The state after the current request had the outcome `reply`.
    pub open spec fn next(self, reply: LockReplyModel) -> LockState {
        match (self.stage, reply) {
            (LockStage::Discover(i), LockReplyModel::File(file)) => self.after_probe(i, file),
            (LockStage::Hash, LockReplyModel::Contents(contents)) => self.after_hash(contents),
            (LockStage::Directory, LockReplyModel::Directory(directory)) => LockState {
                path: record_path(self.pcrlock, directory, self.pe_hash),
                ..self
            }.at(LockStage::Exists),
            (LockStage::Exists, LockReplyModel::Exists(exists)) => self.after_exists(exists),
            (LockStage::Sections, LockReplyModel::Sections(sections)) => self.after_sections(
                sections,
            ),
            (LockStage::ReadKernel, LockReplyModel::Payload(contents)) => self.after_kernel(
                contents,
            ),
            (LockStage::ReadInitrd, LockReplyModel::Payload(contents)) => self.after_initrd(
                contents,
            ),
            (LockStage::Run, LockReplyModel::Output(output)) => self.after_command(output),
            (LockStage::Write, LockReplyModel::Written(written)) => if written {
                self.at(LockStage::Finished(Ok(())))
            } else {
                self.failed(LockError::Unavailable)
            },
            _ => self,
        }
    }

    /// What holds in every state that a run can reach.
    pub open spec fn valid(self) -> bool {
        match self.stage {
            LockStage::Discover(i) => i < 4,
            LockStage::ReadKernel => self.stub matches Some(stub) && stub.embedded.len() == 15
                && stub.kernel_path is Resolved && stub.initrd_path is Resolved
                && stub.kernel_hash is Some,
            LockStage::ReadInitrd => self.stub matches Some(stub) && stub.embedded.len() == 15
                && stub.initrd_path is Resolved && stub.kernel_hash == Some(sha256_of(self.kernel))
                && stub.initrd_hash is Some,
            LockStage::Run => self.done < self.commands.len(),
            LockStage::Write => pcrlock_document(self.records) == Ok::<Seq<u8>, LockError>(
                self.document,
            ),
            _ => true,
        }
    }

    /// The records come from documents that could be read, and can be read
    /// back from what is to be written.
    pub open spec fn faithful(self) -> bool {
        &&& shallow(self.records)
        &&& self.stage is Write && integral_records(self.records) ==> json_document(self.document)
            == Some(records_document(self.records))
    }
}

/// A run in progress.
#[derive(Debug)]
pub struct LockRun {
    thin_stub: bool,
    systemd: UnixPath,
    esp: UnixPath,
    pcrlock: UnixPath,
    binary: UnixPath,
    pe_hash: String,
    path: UnixPath,
    stub: Option<StubSections>,
    kernel: Vec<u8>,
    commands: Vec<ProcessCommand>,
    done: usize,
    records: Vec<Value>,
    document: Vec<u8>,
    stage: LockStage,
}

impl View for LockRun {
    type V = LockState;

    closed spec fn view(&self) -> LockState {
        LockState {
            thin_stub: self.thin_stub,
            systemd: self.systemd@,
            esp: self.esp@,
            pcrlock: self.pcrlock@,
            binary: self.binary@,
            pe_hash: self.pe_hash@,
            path: self.path@,
            stub: match self.stub {
                Some(stub) => Some(stub@),
                None => None,
            },
            kernel: self.kernel@,
            commands: command_models(self.commands@),
            done: self.done as nat,
            records: json_trees(self.records@),
            document: self.document@,
            stage: self.stage,
        }
    }
}

/// Lock the boot loader of a boot partition: record its measurements, unless
/// they are recorded already.
pub fn lock_boot_loader(args: LockBootLoaderArgs) -> (run: LockRun)
    ensures
        run.wf(),
        run@ == LockState::initial(
            false,
            args.systemd@,
            args.esp@,
            args.pcrlock@,
            Seq::<u8>::empty(),
        ),
{
    let empty: [u8; 0] = [];
    assert(empty@ == Seq::<u8>::empty());
    LockRun::start(false, args.systemd, args.esp, args.pcrlock, UnixPath::new(&empty))
}

/// Lock an installed thin stub: record its measurements and those of its
/// sections and payloads, unless they are recorded already.
pub fn lock_thin_stub(args: LockThinStubArgs) -> (run: LockRun)
    ensures
        run.wf(),
        run@ == LockState::initial(true, args.systemd@, args.esp@, args.pcrlock@, args.stub@),
{
    LockRun::start(true, args.systemd, args.esp, args.pcrlock, args.stub)
}

impl LockRun {
    /// The run is in a state that it can reach.
    pub closed spec fn wf(&self) -> bool {
        self@.valid() && self@.faithful()
    }

    /// A well-formed run is in a valid state, and its records can be read
    /// back.
    pub proof fn lemma_valid(self)
        requires
            self.wf(),
        ensures
            self@.valid(),
            self@.faithful(),
    {
    }

    fn start(
        thin_stub: bool,
        systemd: UnixPath,
        esp: UnixPath,
        pcrlock: UnixPath,
        binary: UnixPath,
    ) -> (run: LockRun)
        ensures
            run.wf(),
            run@ == LockState::initial(thin_stub, systemd@, esp@, pcrlock@, binary@),
    {
        let empty: [u8; 0] = [];
        assert(empty@ == Seq::<u8>::empty());
        let run = LockRun {
            thin_stub,
            systemd,
            esp,
            pcrlock,
            binary,
            pe_hash: String::new(),
            path: UnixPath::new(&empty),
            stub: None,
            kernel: Vec::new(),
            commands: Vec::new(),
            done: 0,
            records: Vec::new(),
            document: Vec::new(),
            stage: if thin_stub {
                LockStage::Hash
            } else {
                LockStage::Discover(0)
            },
        };
        assert(run@ =~= LockState::initial(thin_stub, systemd@, esp@, pcrlock@, binary@)) by {
            assert(run@.pe_hash =~= Seq::<char>::empty());
            assert(run@.commands =~= Seq::<CommandModel>::empty());
            assert(run@.records =~= Seq::<JsonTree>::empty());
        }
        run
    }

    /// What has to be done next.
    pub fn request(&self) -> (request: LockRequest<'_>)
        requires
            self.wf(),
        ensures
            request@ == self@.request(),
    {
        match self.stage {
            LockStage::Discover(i) => LockRequest::ProbeFile(boot_loader_path(&self.esp, i)),
            LockStage::Hash => LockRequest::ReadFile(&self.binary),
            LockStage::Directory => LockRequest::ProbeDirectory(&self.pcrlock),
            LockStage::Exists => LockRequest::ProbeExists(&self.path),
            LockStage::Sections => LockRequest::ReadSections { stub: &self.binary, esp: &self.esp },
            LockStage::ReadKernel => match &self.stub {
                Some(stub) => match &stub.kernel_path {
                    SectionPath::Resolved(path) => LockRequest::ReadPayload(Payload::Kernel, path),
                    _ => LockRequest::ReadPayload(Payload::Kernel, &self.path),
                },
                None => LockRequest::ReadPayload(Payload::Kernel, &self.path),
            },
            LockStage::ReadInitrd => match &self.stub {
                Some(stub) => match &stub.initrd_path {
                    SectionPath::Resolved(path) => LockRequest::ReadPayload(Payload::Initrd, path),
                    _ => LockRequest::ReadPayload(Payload::Initrd, &self.path),
                },
                None => LockRequest::ReadPayload(Payload::Initrd, &self.path),
            },
            LockStage::Run => LockRequest::Run(&self.commands[self.done]),
            LockStage::Write => LockRequest::WriteFile(&self.path, &self.document),
            LockStage::Finished(result) => LockRequest::Finished(result),
        }
    }

    fn at(self, stage: LockStage) -> (next: LockRun)
        ensures
            next@ == self@.at(stage),
    {
        let mut next = self;
        next.stage = stage;
        next
    }

    fn failed(self, error: LockError) -> (next: LockRun)
        requires
            shallow(self@.records),
        ensures
            next.wf(),
            next@ == self@.failed(error),
    {
        self.at(LockStage::Finished(Err(error)))
    }

    fn probed(self, i: usize, file: bool) -> (next: LockRun)
        requires
            self.wf(),
            i < 4,
        ensures
            next.wf(),
            next@ == self@.after_probe(i, file),
    {
        if file {
            let mut next = self;
            next.binary = boot_loader_path(&next.esp, i);
            next.at(LockStage::Hash)
        } else if i < 3 {
            self.at(LockStage::Discover(i + 1))
        } else {
            self.failed(LockError::NoBootLoader)
        }
    }

    fn hashed(self, contents: Option<&[u8]>) -> (next: LockRun)
        requires
            self.wf(),
            contents matches Some(bytes) ==> bytes@.len() <= sha256_capacity(),
        ensures
            next.wf(),
            next@ == self@.after_hash(
                match contents {
                    Some(bytes) => Some(bytes@),
                    None => None,
                },
            ),
    {
        match contents {
            Some(bytes) => {
                let mut next = self;
                let digest = sha256(bytes);
                next.pe_hash = hex_string(&digest);
                next.at(LockStage::Directory)
            },
            None => self.failed(LockError::Unavailable),
        }
    }

    fn running(self, commands: Vec<ProcessCommand>) -> (next: LockRun)
        requires
            commands@.len() > 0,
        ensures
            next.wf(),
            next@ == self@.running(command_models(commands@)),
    {
        let mut next = self;
        next.stub = None;
        next.kernel = Vec::new();
        next.commands = commands;
        next.done = 0;
        next.records = Vec::new();
        assert(next@.records =~= Seq::<JsonTree>::empty());
        assert(next@.kernel =~= Seq::<u8>::empty());
        next.at(LockStage::Run)
    }

    fn existing(self, exists: bool) -> (next: LockRun)
        requires
            self.wf(),
        ensures
            next.wf(),
            next@ == self@.after_exists(exists),
    {
        if exists {
            self.at(LockStage::Finished(Ok(())))
        } else if self.thin_stub {
            self.at(LockStage::Sections)
        } else {
            let mut commands: Vec<ProcessCommand> = Vec::new();
            commands.push(lock_pe_binary(&self.systemd, &self.binary));
            assert(command_models(commands@) =~= seq![
                lock_pe_command(self@.systemd, self@.binary),
            ]);
            self.running(commands)
        }
    }

    fn sections(self, sections: Option<StubSections>) -> (next: LockRun)
        requires
            self.wf(),
            sections matches Some(stub) ==> stub.embedded@.len() == 15,
        ensures
            next.wf(),
            next@ == self@.after_sections(
                match sections {
                    Some(stub) => Some(stub@),
                    None => None,
                },
            ),
    {
        let stub = match sections {
            Some(stub) => stub,
            None => {
                return self.failed(LockError::Unavailable);
            },
        };
        match &stub.kernel_path {
            SectionPath::Missing => {
                return self.failed(LockError::MissingSection(UnifiedSection::Linux));
            },
            SectionPath::Unresolvable => {
                return self.failed(LockError::Unavailable);
            },
            SectionPath::Resolved(_) => {},
        }
        match &stub.initrd_path {
            SectionPath::Missing => {
                return self.failed(LockError::MissingSection(UnifiedSection::Initrd));
            },
            SectionPath::Unresolvable => {
                return self.failed(LockError::Unavailable);
            },
            SectionPath::Resolved(_) => {},
        }
        if stub.kernel_hash.is_none() {
            return self.failed(LockError::MissingHash(Payload::Kernel));
        }
        let mut next = self;
        next.stub = Some(stub);
        next.at(LockStage::ReadKernel)
    }

    fn kernel_read(self, contents: Option<Vec<u8>>) -> (next: LockRun)
        requires
            self.wf(),
            self@.stage is ReadKernel,
            contents matches Some(bytes) ==> bytes@.len() <= sha256_capacity(),
        ensures
            next.wf(),
            next@ == self@.after_kernel(bytes_option(contents)),
    {
        let kernel = match contents {
            Some(kernel) => kernel,
            None => {
                return self.failed(LockError::Unavailable);
            },
        };
        let (matches, has_initrd_hash) = match &self.stub {
            Some(stub) => (
                matches_hash(&stub.kernel_hash, &kernel),
                stub.initrd_hash.is_some(),
            ),
            None => (false, false),
        };
        if !matches {
            return self.failed(LockError::Mismatch(Payload::Kernel));
        }
        if !has_initrd_hash {
            return self.failed(LockError::MissingHash(Payload::Initrd));
        }
        let mut next = self;
        next.kernel = kernel;
        next.at(LockStage::ReadInitrd)
    }

    fn initrd_read(self, contents: Option<Vec<u8>>) -> (next: LockRun)
        requires
            self.wf(),
            self@.stage is ReadInitrd,
            contents matches Some(bytes) ==> bytes@.len() <= sha256_capacity(),
        ensures
            next.wf(),
            next@ == self@.after_initrd(bytes_option(contents)),
    {
        let initrd = match contents {
            Some(initrd) => initrd,
            None => {
                return self.failed(LockError::Unavailable);
            },
        };
        let matches = match &self.stub {
            Some(stub) => matches_hash(&stub.initrd_hash, &initrd),
            None => false,
        };
        if !matches {
            return self.failed(LockError::Mismatch(Payload::Initrd));
        }
        let mut next = self;
        let stub = next.stub.take().unwrap();
        let mut kernel: Vec<u8> = Vec::new();
        std::mem::swap(&mut kernel, &mut next.kernel);
        let commands = generate_records(
            &next.systemd,
            &next.binary,
            stub.embedded,
            kernel,
            initrd,
        );
        assert(command_models(commands@).len() > 0);
        let done = next.running(commands);
        assert(done@ =~= self@.after_initrd(bytes_option(contents)));
        done
    }

    fn command_run(self, output: Option<ProcessOutput<'_>>) -> (next: LockRun)
        requires
            self.wf(),
            self@.stage is Run,
        ensures
            next.wf(),
            next@ == self@.after_command(
                match output {
                    Some(output) => Some((output.success, output.stdout@)),
                    None => None,
                },
            ),
    {
        let output = match output {
            Some(output) => output,
            None => {
                return self.failed(LockError::Unavailable);
            },
        };
        if !output.success {
            return self.failed(LockError::CommandFailed);
        }
        match parse_records(output.stdout) {
            Ok(records) => {
                let mut next = self;
                let mut records = records;
                let ghost printed = records@;
                next.records.append(&mut records);
                assert(next.done < next.commands.len());
                next.done = next.done + 1;
                assert(next@.records =~= self@.records + json_trees(printed));
                if next.done < next.commands.len() {
                    next
                } else {
                    next.written()
                }
            },
            Err(error) => self.failed(error),
        }
    }

    fn written(self) -> (next: LockRun)
        requires
            shallow(self@.records),
        ensures
            next.wf(),
            next@ == self@.writing(),
    {
        let mut next = self;
        match write_pcrlock(&next.records) {
            Ok(document) => {
                next.document = document;
                next.at(LockStage::Write)
            },
            Err(error) => next.failed(error),
        }
    }

    /// Take in the outcome of the current request.
    pub fn advance(self, reply: LockReply) -> (next: LockRun)
        requires
            self.wf(),
            self@.awaits(reply@),
        ensures
            next.wf(),
            next@ == self@.next(reply@),
    {
        match (self.stage, reply) {
            (LockStage::Discover(i), LockReply::File(file)) => self.probed(i, file),
            (LockStage::Hash, LockReply::Contents(contents)) => self.hashed(contents),
            (LockStage::Directory, LockReply::Directory(directory)) => {
                let mut next = self;
                next.path = resolve_pcrlock_path(&next.pcrlock, directory, next.pe_hash.as_str());
                next.at(LockStage::Exists)
            },
            (LockStage::Exists, LockReply::Exists(exists)) => self.existing(exists),
            (LockStage::Sections, LockReply::Sections(sections)) => self.sections(sections),
            (LockStage::ReadKernel, LockReply::Payload(contents)) => self.kernel_read(contents),
            (LockStage::ReadInitrd, LockReply::Payload(contents)) => self.initrd_read(contents),
            (LockStage::Run, LockReply::Output(output)) => self.command_run(output),
            (LockStage::Write, LockReply::Written(written)) => {
                if written {
                    self.at(LockStage::Finished(Ok(())))
                } else {
                    self.failed(LockError::Unavailable)
                }
            },
            _ => self,
        }
    }

    /// The result of a finished run.
    pub fn into_result(self) -> (result: Result<LockResult, LockError>)
        requires
            self@.stage is Finished,
        ensures
            match self@.stage {
                LockStage::Finished(Err(error)) => result == Err::<LockResult, LockError>(error),
                _ => result matches Ok(result) && result.pe_hash@ == self@.pe_hash,
            },
    {
        match self.stage {
            LockStage::Finished(Err(error)) => Err(error),
            _ => Ok(LockResult { pe_hash: self.pe_hash }),
        }
    }
}

/// Whether a payload has the expected hash.
fn matches_hash(expected: &Option<Vec<u8>>, payload: &[u8]) -> (matches: bool)
    requires
        payload@.len() <= sha256_capacity(),
    ensures
        matches == (bytes_option(*expected) == Some(sha256_of(payload@))),
{
    match expected {
        Some(expected) => {
            let actual = sha256(payload);
            same_bytes(expected, &actual)
        },
        None => false,
    }
}

} // verus!
