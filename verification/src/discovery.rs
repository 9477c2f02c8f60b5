//! Discovery of credentials and extension images.

use crate::companions::{
    find_files_filtered, found_files, listing, CompanionInitrd, CompanionInitrdType,
    CompanionSource, DirectoryEntry, EntryModel,
};
use crate::status::Status;
use crate::ucs2::{encode, ucs2, unit_views};
use vstd::prelude::*;

verus! {

/// What a [`Discovery`] is waiting for.
#[derive(Debug, Clone, Copy)]
pub enum DiscoveryStage {
    ListLocal,
    PackLocal,
    ProbeGlobal,
    QueryGlobal,
    ListGlobal,
    PackGlobal,
    Finished(Result<(), Status>),
}

/// What has to be done next.
#[derive(Debug)]
pub enum DiscoveryRequest<'a> {
    /// Read the entries of this directory.
    ListDirectory(&'a [u16]),
    /// Pack these files into an archive.
    PackFiles {
        files: &'a [Vec<u16>],
        target: &'static str,
        directory_mode: u32,
        file_mode: u32,
    },
    /// Find out whether this path exists.
    ProbeExists(&'a [u16]),
    /// Find out whether this path is a directory.
    QueryMetadata(&'a [u16]),
    /// Nothing is left to do.
    Finished(Result<(), Status>),
}

/// A request with its paths as sequences.
pub enum DiscoveryRequestModel {
    ListDirectory(Seq<u16>),
    PackFiles {
        files: Seq<Seq<u16>>,
        target: Seq<char>,
        directory_mode: u32,
        file_mode: u32,
    },
    ProbeExists(Seq<u16>),
    QueryMetadata(Seq<u16>),
    Finished(Result<(), Status>),
}

impl<'a> View for DiscoveryRequest<'a> {
    type V = DiscoveryRequestModel;

    open spec fn view(&self) -> DiscoveryRequestModel {
        match *self {
            DiscoveryRequest::ListDirectory(path) => DiscoveryRequestModel::ListDirectory(path@),
            DiscoveryRequest::PackFiles { files, target, directory_mode, file_mode } =>
                DiscoveryRequestModel::PackFiles {
                files: unit_views(files@),
                target: target@,
                directory_mode,
                file_mode,
            },
            DiscoveryRequest::ProbeExists(path) => DiscoveryRequestModel::ProbeExists(path@),
            DiscoveryRequest::QueryMetadata(path) => DiscoveryRequestModel::QueryMetadata(path@),
            DiscoveryRequest::Finished(result) => DiscoveryRequestModel::Finished(result),
        }
    }
}

/// The outcome of a request.
#[derive(Debug)]
pub enum DiscoveryReply<'a> {
    /// Of `ListDirectory`: the entries, each of which may be unreadable.
    Entries(&'a [Result<DirectoryEntry, Status>]),
    /// Of `PackFiles`: the archive, unless it could not be made.
    Packed(Option<Vec<u8>>),
    /// Of `ProbeExists`: whether the path exists.
    Exists(bool),
    /// Of `QueryMetadata`: whether the path is a directory, if that could be
    /// found out.
    Directory(Option<bool>),
}

/// A reply with its contents as sequences.
pub enum DiscoveryReplyModel {
    Entries(Seq<Result<EntryModel, Status>>),
    Packed(Option<Seq<u8>>),
    Exists(bool),
    Directory(Option<bool>),
}

impl<'a> View for DiscoveryReply<'a> {
    type V = DiscoveryReplyModel;

    open spec fn view(&self) -> DiscoveryReplyModel {
        match *self {
            DiscoveryReply::Entries(entries) => DiscoveryReplyModel::Entries(listing(entries@)),
            DiscoveryReply::Packed(Some(cpio)) => DiscoveryReplyModel::Packed(Some(cpio@)),
            DiscoveryReply::Packed(None) => DiscoveryReplyModel::Packed(None),
            DiscoveryReply::Exists(exists) => DiscoveryReplyModel::Exists(exists),
            DiscoveryReply::Directory(directory) => DiscoveryReplyModel::Directory(directory),
        }
    }
}

/// A companion initrd with its archive as a sequence.
pub struct CompanionModel {
    pub kind: CompanionInitrdType,
    pub cpio: Seq<u8>,
}

/// The models of several companion initrds.
pub open spec fn companion_models(companions: Seq<CompanionInitrd>) -> Seq<CompanionModel> {
    companions.map_values(
        |initrd: CompanionInitrd| CompanionModel { kind: initrd.kind, cpio: initrd.cpio@ },
    )
}

/// The state of a discovery.
#[verifier::ext_equal]
pub struct DiscoveryState {
    pub source: CompanionSource,
    /// The drop-in directory of the image, if there is one.
    pub dropin: Option<Seq<u16>>,
    /// The files that are to be packed.
    pub files: Seq<Seq<u16>>,
    /// The initrds so far.
    pub companions: Seq<CompanionModel>,
    pub stage: DiscoveryStage,
}

impl DiscoveryState {
    /// The state in which a discovery begins.
    pub open spec fn initial(source: CompanionSource, dropin: Option<Seq<u16>>) -> DiscoveryState {
        DiscoveryState {
            source,
            dropin,
            files: Seq::empty(),
            companions: Seq::empty(),
            stage: if dropin is Some {
                DiscoveryStage::ListLocal
            } else {
                DiscoveryStage::ProbeGlobal
            },
        }
    }

    /// The same state at another stage.
    pub open spec fn at(self, stage: DiscoveryStage) -> DiscoveryState {
        DiscoveryState { stage, ..self }
    }

    /// The same state, given up with an error.
    pub open spec fn failed(self, status: Status) -> DiscoveryState {
        self.at(DiscoveryStage::Finished(Err(status)))
    }

    /// The same state at its end.
    pub open spec fn finished(self) -> DiscoveryState {
        self.at(DiscoveryStage::Finished(Ok(())))
    }

    /// The directory in which files for all images are kept.
    pub open spec fn global_directory(self) -> Seq<u16> {
        ucs2(self.source.spec_global_directory())->0
    }

    /// The request to pack the files that were found.
    pub open spec fn packing(self, global: bool) -> DiscoveryRequestModel {
        DiscoveryRequestModel::PackFiles {
            files: self.files,
            target: self.source.spec_target(global),
            directory_mode: self.source.spec_modes().0,
            file_mode: self.source.spec_modes().1,
        }
    }

    /// What has to be done next in this state.
    pub open spec fn request(self) -> DiscoveryRequestModel {
        match self.stage {
            DiscoveryStage::ListLocal => DiscoveryRequestModel::ListDirectory(self.dropin->0),
            DiscoveryStage::PackLocal => self.packing(false),
            DiscoveryStage::ProbeGlobal => DiscoveryRequestModel::ProbeExists(
                self.global_directory(),
            ),
            DiscoveryStage::QueryGlobal => DiscoveryRequestModel::QueryMetadata(
                self.global_directory(),
            ),
            DiscoveryStage::ListGlobal => DiscoveryRequestModel::ListDirectory(
                self.global_directory(),
            ),
            DiscoveryStage::PackGlobal => self.packing(true),
            DiscoveryStage::Finished(result) => DiscoveryRequestModel::Finished(result),
        }
    }

    /// Whether `reply` is an outcome that the current request can have.
    pub open spec fn awaits(self, reply: DiscoveryReplyModel) -> bool {
        match self.stage {
            DiscoveryStage::ListLocal => reply is Entries,
            DiscoveryStage::PackLocal => reply is Packed,
            DiscoveryStage::ProbeGlobal => reply is Exists,
            DiscoveryStage::QueryGlobal => reply is Directory,
            DiscoveryStage::ListGlobal => reply is Entries,
            DiscoveryStage::PackGlobal => reply is Packed,
            DiscoveryStage::Finished(_) => false,
        }
    }

    /// The state after a directory was read. Nothing is packed if it holds no
    /// matching file.
    pub open spec fn after_listing(
        self,
        directory: Seq<u16>,
        entries: Seq<Result<EntryModel, Status>>,
        pack: DiscoveryStage,
        skip: DiscoveryStage,
    ) -> DiscoveryState {
        match found_files(
            directory,
            entries,
            self.source.spec_suffix(),
            self.source.spec_excluded_suffix(),
        ) {
            Ok(files) => if files.len() == 0 {
                self.at(skip)
            } else {
                DiscoveryState { files: self.source.arranged(files), ..self }.at(pack)
            },
            Err(status) => self.failed(status),
        }
    }

    /// The state after an archive was made, or not.
    pub open spec fn after_packing(
        self,
        cpio: Option<Seq<u8>>,
        global: bool,
        stage: DiscoveryStage,
    ) -> DiscoveryState {
        match cpio {
            Some(cpio) => DiscoveryState {
                files: Seq::empty(),
                companions: self.companions.push(
                    CompanionModel { kind: self.source.spec_kind(global), cpio },
                ),
                ..self
            }.at(stage),
            None => self.failed(Status::LoadError),
        }
    }

    /// The state after the current request had the outcome `reply`.
    pub open spec fn next(self, reply: DiscoveryReplyModel) -> DiscoveryState {
        match (self.stage, reply) {
            (DiscoveryStage::ListLocal, DiscoveryReplyModel::Entries(entries)) =>
                self.after_listing(
                self.dropin->0,
                entries,
                DiscoveryStage::PackLocal,
                DiscoveryStage::ProbeGlobal,
            ),
            (DiscoveryStage::PackLocal, DiscoveryReplyModel::Packed(cpio)) => self.after_packing(
                cpio,
                false,
                DiscoveryStage::ProbeGlobal,
            ),
            (DiscoveryStage::ProbeGlobal, DiscoveryReplyModel::Exists(exists)) => if exists {
                self.at(DiscoveryStage::QueryGlobal)
            } else {
                self.finished()
            },
            (DiscoveryStage::QueryGlobal, DiscoveryReplyModel::Directory(directory)) =>
                match directory {
                Some(true) => self.at(DiscoveryStage::ListGlobal),
                Some(false) => self.finished(),
                None => self.failed(Status::VolumeCorrupted),
            },
            (DiscoveryStage::ListGlobal, DiscoveryReplyModel::Entries(entries)) =>
                self.after_listing(
                self.global_directory(),
                entries,
                DiscoveryStage::PackGlobal,
                DiscoveryStage::Finished(Ok(())),
            ),
            (DiscoveryStage::PackGlobal, DiscoveryReplyModel::Packed(cpio)) => self.after_packing(
                cpio,
                true,
                DiscoveryStage::Finished(Ok(())),
            ),
            _ => self,
        }
    }

    /// What holds in every state that a discovery can reach.
    pub open spec fn valid(self) -> bool {
        &&& self.stage is ListLocal ==> self.dropin is Some
        &&& (self.stage is PackLocal || self.stage is PackGlobal) ==> self.files.len() > 0
    }
}

proof fn lemma_global_directory(source: CompanionSource)
    ensures
        ucs2(source.spec_global_directory()) is Some,
{
    reveal_strlit("\\loader\\credentials");
    reveal_strlit("\\loader\\extensions");
}

/// A discovery in progress.
#[derive(Debug)]
pub struct Discovery {
    source: CompanionSource,
    dropin: Option<Vec<u16>>,
    global_directory: Vec<u16>,
    files: Vec<Vec<u16>>,
    companions: Vec<CompanionInitrd>,
    stage: DiscoveryStage,
}

/// The units of an optional path.
pub open spec fn path_option(path: Option<&[u16]>) -> Option<Seq<u16>> {
    match path {
        Some(path) => Some(path@),
        None => None,
    }
}

/// The models of a discovery's result.
pub open spec fn companions_result(companions: Result<Vec<CompanionInitrd>, Status>) -> Result<
    Seq<CompanionModel>,
    Status,
> {
    match companions {
        Ok(companions) => Ok(companion_models(companions@)),
        Err(status) => Err(status),
    }
}

impl View for Discovery {
    type V = DiscoveryState;

    closed spec fn view(&self) -> DiscoveryState {
        DiscoveryState {
            source: self.source,
            dropin: match self.dropin {
                Some(path) => Some(path@),
                None => None,
            },
            files: unit_views(self.files@),
            companions: companion_models(self.companions@),
            stage: self.stage,
        }
    }
}

impl Discovery {
    /// The discovery is in a state that it can reach.
    pub closed spec fn wf(&self) -> bool {
        &&& self@.valid()
        &&& self.global_directory@ == self@.global_directory()
    }

    /// A well-formed discovery is in a valid state.
    pub proof fn lemma_valid(self)
        requires
            self.wf(),
        ensures
            self@.valid(),
    {
    }

    /// Begin to collect one kind of companion files, from the drop-in
    /// directory of the image and from the directory for all images.
    pub fn start(source: CompanionSource, dropin: Option<&[u16]>) -> (discovery: Discovery)
        ensures
            discovery.wf(),
            discovery@ == DiscoveryState::initial(source, path_option(dropin)),
    {
        proof {
            lemma_global_directory(source);
        }
        let global_directory = encode(source.global_directory()).unwrap();
        let (owned, stage) = match dropin {
            Some(path) => {
                let mut owned: Vec<u16> = Vec::new();
                owned.extend_from_slice(path);
                assert(owned@ == path@);
                (Some(owned), DiscoveryStage::ListLocal)
            },
            None => (None, DiscoveryStage::ProbeGlobal),
        };
        let discovery = Discovery {
            source,
            dropin: owned,
            global_directory,
            files: Vec::new(),
            companions: Vec::new(),
            stage,
        };
        assert(discovery@ =~= DiscoveryState::initial(source, path_option(dropin)));
        discovery
    }

    fn pack(&self, global: bool) -> (request: DiscoveryRequest<'_>)
        ensures
            request@ == self@.packing(global),
    {
        let (directory_mode, file_mode) = self.source.modes();
        DiscoveryRequest::PackFiles {
            files: &self.files,
            target: self.source.target(global),
            directory_mode,
            file_mode,
        }
    }

    /// What has to be done next.
    pub fn request(&self) -> (request: DiscoveryRequest<'_>)
        requires
            self.wf(),
        ensures
            request@ == self@.request(),
    {
        match self.stage {
            DiscoveryStage::ListLocal => match &self.dropin {
                Some(path) => DiscoveryRequest::ListDirectory(path),
                None => DiscoveryRequest::ListDirectory(&[]),
            },
            DiscoveryStage::PackLocal => self.pack(false),
            DiscoveryStage::ProbeGlobal => DiscoveryRequest::ProbeExists(&self.global_directory),
            DiscoveryStage::QueryGlobal => DiscoveryRequest::QueryMetadata(&self.global_directory),
            DiscoveryStage::ListGlobal => DiscoveryRequest::ListDirectory(&self.global_directory),
            DiscoveryStage::PackGlobal => self.pack(true),
            DiscoveryStage::Finished(result) => DiscoveryRequest::Finished(result),
        }
    }

    fn at(self, stage: DiscoveryStage) -> (next: Discovery)
        ensures
            next@ == self@.at(stage),
            next.global_directory == self.global_directory,
    {
        let mut next = self;
        next.stage = stage;
        next
    }

    fn listed(
        self,
        files: Result<Vec<Vec<u16>>, Status>,
        pack: DiscoveryStage,
        skip: DiscoveryStage,
    ) -> (next: Discovery)
        ensures
            next.global_directory == self.global_directory,
            match files {
                Ok(files) => if files@.len() == 0 {
                    next@ == self@.at(skip)
                } else {
                    &&& next@ == DiscoveryState {
                        files: self@.source.arranged(unit_views(files@)),
                        ..self@
                    }.at(pack)
                    &&& next@.files.len() == files@.len()
                },
                Err(status) => next@ == self@.failed(status),
            },
    {
        match files {
            Ok(files) => {
                if files.len() == 0 {
                    self.at(skip)
                } else {
                    let mut next = self;
                    next.files = next.source.arrange(files);
                    next.at(pack)
                }
            },
            Err(status) => self.at(DiscoveryStage::Finished(Err(status))),
        }
    }

    fn packed(self, cpio: Option<Vec<u8>>, global: bool, stage: DiscoveryStage) -> (next: Discovery)
        ensures
            next.global_directory == self.global_directory,
            next@ == self@.after_packing(
                match cpio {
                    Some(cpio) => Some(cpio@),
                    None => None,
                },
                global,
                stage,
            ),
    {
        match cpio {
            Some(cpio) => {
                let mut next = self;
                let kind = next.source.kind(global);
                next.companions.push(CompanionInitrd { kind, cpio });
                next.files = Vec::new();
                next.stage = stage;
                proof {
                    assert(next@.companions =~= self@.companions.push(
                        CompanionModel { kind, cpio: cpio@ },
                    ));
                    assert(next@.files =~= Seq::<Seq<u16>>::empty());
                }
                next
            },
            None => self.at(DiscoveryStage::Finished(Err(Status::LoadError))),
        }
    }

    /// Take in the outcome of the current request.
    pub fn advance(self, reply: DiscoveryReply) -> (next: Discovery)
        requires
            self.wf(),
            self@.awaits(reply@),
        ensures
            next.wf(),
            next@ == self@.next(reply@),
    {
        match (self.stage, reply) {
            (DiscoveryStage::ListLocal, DiscoveryReply::Entries(entries)) => {
                let files = match &self.dropin {
                    Some(path) => find_files_filtered(
                        path,
                        entries,
                        self.source.suffix(),
                        self.source.excluded_suffix(),
                    ),
                    None => Ok(Vec::new()),
                };
                self.listed(files, DiscoveryStage::PackLocal, DiscoveryStage::ProbeGlobal)
            },
            (DiscoveryStage::PackLocal, DiscoveryReply::Packed(cpio)) => self.packed(
                cpio,
                false,
                DiscoveryStage::ProbeGlobal,
            ),
            (DiscoveryStage::ProbeGlobal, DiscoveryReply::Exists(exists)) => {
                if exists {
                    self.at(DiscoveryStage::QueryGlobal)
                } else {
                    self.at(DiscoveryStage::Finished(Ok(())))
                }
            },
            (DiscoveryStage::QueryGlobal, DiscoveryReply::Directory(directory)) => match directory {
                Some(true) => self.at(DiscoveryStage::ListGlobal),
                Some(false) => self.at(DiscoveryStage::Finished(Ok(()))),
                None => self.at(DiscoveryStage::Finished(Err(Status::VolumeCorrupted))),
            },
            (DiscoveryStage::ListGlobal, DiscoveryReply::Entries(entries)) => {
                let files = find_files_filtered(
                    &self.global_directory,
                    entries,
                    self.source.suffix(),
                    self.source.excluded_suffix(),
                );
                self.listed(files, DiscoveryStage::PackGlobal, DiscoveryStage::Finished(Ok(())))
            },
            (DiscoveryStage::PackGlobal, DiscoveryReply::Packed(cpio)) => self.packed(
                cpio,
                true,
                DiscoveryStage::Finished(Ok(())),
            ),
            _ => self,
        }
    }

    /// The initrds of a finished discovery.
    pub fn into_companions(self) -> (companions: Result<Vec<CompanionInitrd>, Status>)
        requires
            self@.stage is Finished,
        ensures
            companions_result(companions) == (match self@.stage {
                DiscoveryStage::Finished(Err(status)) => Err(status),
                _ => Ok(self@.companions),
            }),
    {
        match self.stage {
            DiscoveryStage::Finished(Err(status)) => Err(status),
            _ => Ok(self.companions),
        }
    }
}

/// Collect all credentials.
///
/// There are global credentials, `\loader\credentials\*.cred`, and
/// image-specific ones, `<image>.efi.extra.d\*.cred`.
pub fn discover_credentials(dropin: Option<&[u16]>) -> (discovery: Discovery)
    ensures
        discovery.wf(),
        discovery@ == DiscoveryState::initial(CompanionSource::Credentials, path_option(dropin)),
{
    Discovery::start(CompanionSource::Credentials, dropin)
}

/// Collect system extension images (`*.raw`, excluding `*.confext.raw`) from
/// the drop-in directory of the image and from `\loader\extensions`.
pub fn discover_system_extensions(dropin: Option<&[u16]>) -> (discovery: Discovery)
    ensures
        discovery.wf(),
        discovery@ == DiscoveryState::initial(
            CompanionSource::SystemExtensions,
            path_option(dropin),
        ),
{
    Discovery::start(CompanionSource::SystemExtensions, dropin)
}

/// Collect configuration extension images (`*.confext.raw`) from the drop-in
/// directory of the image and from `\loader\extensions`.
pub fn discover_configuration_extensions(dropin: Option<&[u16]>) -> (discovery: Discovery)
    ensures
        discovery.wf(),
        discovery@ == DiscoveryState::initial(
            CompanionSource::ConfigurationExtensions,
            path_option(dropin),
        ),
{
    Discovery::start(CompanionSource::ConfigurationExtensions, dropin)
}

} // verus!
