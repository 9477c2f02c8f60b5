//! Addons that extend the kernel command line.
//!
//! [`AddonDiscovery`] collects the command lines of all addons; its caller
//! performs each [`AddonRequest`] against the firmware and reports the outcome
//! as an [`AddonReply`].

use crate::cmdline::{
    addon_matches_uki_uname, mangle_stub_cmdline, mangled, text_option, uname_compatible,
};
use crate::companions::{find_files, found_files, listing, DirectoryEntry, EntryModel};
use crate::discovery::path_option;
use crate::pe::{first_named, parsed_pe, ParsedPe, PeLayout, PeModel};
use crate::status::Status;
use crate::ucs2::{encode, encode_with_nul, path_order, sort_paths, ucs2, unit_views};
use vstd::prelude::*;

verus! {

/// A command line fragment extracted from an addon PE file.
#[derive(Debug)]
pub struct CmdlineAddon {
    pub cmdline: String,
}

/// The command lines of several addons.
pub open spec fn cmdlines(addons: Seq<CmdlineAddon>) -> Seq<Seq<char>> {
    addons.map_values(|addon: CmdlineAddon| addon.cmdline@)
}

/// Why an image is passed over.
#[derive(Debug, Clone, Copy, PartialEq, Eq, Structural)]
pub enum AddonSkip {
    /// It is not a PE binary.
    Unparsable,
    /// It has a `.linux` section: it is a UKI and not an addon.
    KernelImage,
    /// Its `.uname` section names another kernel than that of the UKI.
    OtherKernel,
    /// It has no `.cmdline` section with a text.
    NoCmdline,
}

/// What becomes of a parsed image: it is passed over, or its command line is
/// taken in normalised form, which may be empty.
pub open spec fn addon_verdict(pe: PeModel, uki_uname: Option<Seq<char>>) -> Result<
    Seq<char>,
    AddonSkip,
> {
    if first_named(pe.sections, ".linux"@) is Some {
        Err(AddonSkip::KernelImage)
    } else if !uname_compatible(uki_uname, pe.text(".uname"@)) {
        Err(AddonSkip::OtherKernel)
    } else {
        match pe.text(".cmdline"@) {
            Some(text) => Ok(mangled(text)),
            None => Err(AddonSkip::NoCmdline),
        }
    }
}

/// What becomes of the bytes of an image.
pub open spec fn image_verdict(
    data: Seq<u8>,
    layout: PeLayout,
    uki_uname: Option<Seq<char>>,
) -> Result<Seq<char>, AddonSkip> {
    match parsed_pe(data, layout) {
        Ok(pe) => addon_verdict(pe, uki_uname),
        Err(_) => Err(AddonSkip::Unparsable),
    }
}

/// The command line of a verdict, unless there is none or it is empty.
pub open spec fn contributed(verdict: Result<Seq<char>, AddonSkip>) -> Option<Seq<char>> {
    match verdict {
        Ok(cmdline) => if cmdline.len() == 0 {
            None
        } else {
            Some(cmdline)
        },
        Err(_) => None,
    }
}

/// The command line that an addon contributes, if any.
///
/// An image with a `.linux` section is a UKI and not an addon. An addon for
/// another kernel is passed over, and so is one without a command line.
pub open spec fn addon_cmdline(pe: PeModel, uki_uname: Option<Seq<char>>) -> Option<Seq<char>> {
    contributed(addon_verdict(pe, uki_uname))
}

/// The command line that the bytes of an image contribute, if any.
pub open spec fn image_cmdline(
    data: Seq<u8>,
    layout: PeLayout,
    uki_uname: Option<Seq<char>>,
) -> Option<Seq<char>> {
    contributed(image_verdict(data, layout, uki_uname))
}

/// A verdict with its command line as characters.
pub open spec fn verdict_view(verdict: Result<String, AddonSkip>) -> Result<
    Seq<char>,
    AddonSkip,
> {
    match verdict {
        Ok(cmdline) => Ok(cmdline@),
        Err(skip) => Err(skip),
    }
}

/// The characters of an optional string.
pub open spec fn string_option(s: Option<String>) -> Option<Seq<char>> {
    match s {
        Some(s) => Some(s@),
        None => None,
    }
}

/// Decide what becomes of a parsed image.
pub fn judge_addon(pe: &ParsedPe, uki_uname: Option<&str>) -> (verdict: Result<String, AddonSkip>)
    ensures
        verdict_view(verdict) == addon_verdict(pe@, text_option(uki_uname)),
{
    if pe.has_section(".linux") {
        return Err(AddonSkip::KernelImage);
    }
    if let Some(addon_uname) = pe.section_text(".uname") {
        if !addon_matches_uki_uname(uki_uname, Some(addon_uname.as_str())) {
            return Err(AddonSkip::OtherKernel);
        }
    }
    match pe.section_text(".cmdline") {
        Some(text) => Ok(mangle_stub_cmdline(text.as_str())),
        None => Err(AddonSkip::NoCmdline),
    }
}

/// Decide what becomes of the bytes of an image.
pub fn judge_image(data: &[u8], layout: PeLayout, uki_uname: Option<&str>) -> (verdict: Result<
    String,
    AddonSkip,
>)
    ensures
        verdict_view(verdict) == image_verdict(data@, layout, text_option(uki_uname)),
{
    let parsed = match layout {
        PeLayout::Loaded => ParsedPe::from_loaded_data(data),
        PeLayout::Disk => ParsedPe::from_disk_data(data),
    };
    match parsed {
        Ok(pe) => judge_addon(&pe, uki_uname),
        Err(_) => Err(AddonSkip::Unparsable),
    }
}

fn cmdline_of_verdict(verdict: Result<String, AddonSkip>) -> (cmdline: Option<String>)
    ensures
        string_option(cmdline) == contributed(verdict_view(verdict)),
{
    match verdict {
        Ok(cmdline) => {
            if cmdline.as_str().unicode_len() == 0 {
                None
            } else {
                Some(cmdline)
            }
        },
        Err(_) => None,
    }
}

/// The command line that a parsed addon contributes.
pub fn cmdline_of_addon(pe: &ParsedPe, uki_uname: Option<&str>) -> (cmdline: Option<String>)
    ensures
        string_option(cmdline) == addon_cmdline(pe@, text_option(uki_uname)),
{
    cmdline_of_verdict(judge_addon(pe, uki_uname))
}

/// The command line that the bytes of an image contribute.
pub fn cmdline_of_image(data: &[u8], layout: PeLayout, uki_uname: Option<&str>) -> (cmdline: Option<
    String,
>)
    ensures
        string_option(cmdline) == image_cmdline(data@, layout, text_option(uki_uname)),
{
    cmdline_of_verdict(judge_image(data, layout, uki_uname))
}

/// Encode a command line as a NUL-terminated UCS-2 string.
pub fn encode_cmdline_utf16(cmdline: &str) -> (units: Result<Vec<u16>, Status>)
    ensures
        match units {
            Ok(units) => ucs2(cmdline@) is Some && units@ == ucs2(cmdline@)->0.push(0),
            Err(status) => ucs2(cmdline@) is None && status == Status::InvalidParameter,
        },
{
    match encode_with_nul(cmdline) {
        Some(units) => Ok(units),
        None => Err(Status::InvalidParameter),
    }
}

/// What an [`AddonDiscovery`] is waiting for.
#[derive(Debug, Clone, Copy)]
pub enum AddonStage {
    Probe,
    List,
    SecureLoad,
    Read,
    Verify,
    Finished,
}

/// What has to be done next.
#[derive(Debug)]
pub enum AddonRequest<'a> {
    /// Find out whether this directory exists.
    ProbeExists(&'a [u16]),
    /// Read the entries of this directory.
    ListDirectory(&'a [u16]),
    /// Have the firmware verify and load this image.
    SecureLoad(&'a [u16]),
    /// Read this file.
    ReadFile(&'a [u16]),
    /// Have the shim verify these contents of this file.
    ShimVerify(&'a [u16], &'a [u8]),
    /// Nothing is left to do.
    Finished,
}

/// A request with its contents as sequences.
pub enum AddonRequestModel {
    ProbeExists(Seq<u16>),
    ListDirectory(Seq<u16>),
    SecureLoad(Seq<u16>),
    ReadFile(Seq<u16>),
    ShimVerify(Seq<u16>, Seq<u8>),
    Finished,
}

impl<'a> View for AddonRequest<'a> {
    type V = AddonRequestModel;

    open spec fn view(&self) -> AddonRequestModel {
        match *self {
            AddonRequest::ProbeExists(path) => AddonRequestModel::ProbeExists(path@),
            AddonRequest::ListDirectory(path) => AddonRequestModel::ListDirectory(path@),
            AddonRequest::SecureLoad(path) => AddonRequestModel::SecureLoad(path@),
            AddonRequest::ReadFile(path) => AddonRequestModel::ReadFile(path@),
            AddonRequest::ShimVerify(path, data) => AddonRequestModel::ShimVerify(path@, data@),
            AddonRequest::Finished => AddonRequestModel::Finished,
        }
    }
}

/// The outcome of a request.
#[derive(Debug)]
pub enum AddonReply<'a> {
    /// Of `ProbeExists`: whether the directory exists.
    Exists(bool),
    /// Of `ListDirectory`: the entries, each of which may be unreadable.
    Entries(&'a [Result<DirectoryEntry, Status>]),
    /// Of `SecureLoad`: the loaded image, unless the firmware refused it.
    Image(Option<&'a [u8]>),
    /// Of `ReadFile`: the contents of the file, unless it cannot be read.
    Contents(Option<Vec<u8>>),
    /// Of `ShimVerify`: whether the contents are trusted.
    Verified(bool),
}

/// A reply with its contents as sequences.
pub enum AddonReplyModel {
    Exists(bool),
    Entries(Seq<Result<EntryModel, Status>>),
    Image(Option<Seq<u8>>),
    Contents(Option<Seq<u8>>),
    Verified(bool),
}

impl<'a> View for AddonReply<'a> {
    type V = AddonReplyModel;

    open spec fn view(&self) -> AddonReplyModel {
        match *self {
            AddonReply::Exists(exists) => AddonReplyModel::Exists(exists),
            AddonReply::Entries(entries) => AddonReplyModel::Entries(listing(entries@)),
            AddonReply::Image(Some(data)) => AddonReplyModel::Image(Some(data@)),
            AddonReply::Image(None) => AddonReplyModel::Image(None),
            AddonReply::Contents(Some(data)) => AddonReplyModel::Contents(Some(data@)),
            AddonReply::Contents(None) => AddonReplyModel::Contents(None),
            AddonReply::Verified(verified) => AddonReplyModel::Verified(verified),
        }
    }
}

/// The state of an addon discovery.
#[verifier::ext_equal]
pub struct AddonState {
    pub secure_boot_enabled: bool,
    pub uki_uname: Option<Seq<char>>,
    /// The drop-in directory of the image, if there is one.
    pub dropin: Option<Seq<u16>>,
    /// Whether the drop-in directory is being looked at.
    pub local: bool,
    /// The addon files of the current directory.
    pub files: Seq<Seq<u16>>,
    /// How many of these files are done with.
    pub done: nat,
    /// The contents that are yet to be verified.
    pub unverified: Seq<u8>,
    /// The command lines so far.
    pub addons: Seq<Seq<char>>,
    pub stage: AddonStage,
}

/// The directory in which addons for all images are kept.
pub open spec fn global_addon_directory() -> Seq<u16> {
    ucs2("\\loader\\addons"@)->0
}

impl AddonState {
    /// The state in which a discovery begins.
    pub open spec fn initial(
        dropin: Option<Seq<u16>>,
        uki_uname: Option<Seq<char>>,
        secure_boot_enabled: bool,
    ) -> AddonState {
        AddonState {
            secure_boot_enabled,
            uki_uname,
            dropin,
            local: false,
            files: Seq::empty(),
            done: 0,
            unverified: Seq::empty(),
            addons: Seq::empty(),
            stage: AddonStage::Probe,
        }
    }

    /// The directory that is being looked at.
    pub open spec fn directory(self) -> Seq<u16> {
        if self.local {
            self.dropin->0
        } else {
            global_addon_directory()
        }
    }

    /// The file that is being looked at.
    pub open spec fn file(self) -> Seq<u16> {
        self.files[self.done as int]
    }

    /// The same state at another stage.
    pub open spec fn at(self, stage: AddonStage) -> AddonState {
        AddonState { stage, ..self }
    }

    /// The state after the last file of a directory.
    pub open spec fn directory_done(self) -> AddonState {
        if !self.local && self.dropin is Some {
            AddonState { local: true, files: Seq::empty(), done: 0, ..self }.at(AddonStage::Probe)
        } else {
            self.at(AddonStage::Finished)
        }
    }

    /// The state in which the current file is to be loaded, if there is one.
    pub open spec fn at_file(self) -> AddonState {
        if self.done < self.files.len() {
            self.at(AddonStage::SecureLoad)
        } else {
            self.directory_done()
        }
    }

    /// The state after the current file.
    pub open spec fn file_done(self) -> AddonState {
        AddonState { done: self.done + 1, unverified: Seq::empty(), ..self }.at_file()
    }

    /// The state after the current file was accepted.
    pub open spec fn accepted(self, data: Seq<u8>, layout: PeLayout) -> AddonState {
        match image_cmdline(data, layout, self.uki_uname) {
            Some(cmdline) => AddonState { addons: self.addons.push(cmdline), ..self }.file_done(),
            None => self.file_done(),
        }
    }

    /// What has to be done next in this state.
    pub open spec fn request(self) -> AddonRequestModel {
        match self.stage {
            AddonStage::Probe => AddonRequestModel::ProbeExists(self.directory()),
            AddonStage::List => AddonRequestModel::ListDirectory(self.directory()),
            AddonStage::SecureLoad => AddonRequestModel::SecureLoad(self.file()),
            AddonStage::Read => AddonRequestModel::ReadFile(self.file()),
            AddonStage::Verify => AddonRequestModel::ShimVerify(self.file(), self.unverified),
            AddonStage::Finished => AddonRequestModel::Finished,
        }
    }

    /// Whether `reply` is an outcome that the current request can have.
    pub open spec fn awaits(self, reply: AddonReplyModel) -> bool {
        match self.stage {
            AddonStage::Probe => reply is Exists,
            AddonStage::List => reply is Entries,
            AddonStage::SecureLoad => reply is Image,
            AddonStage::Read => reply is Contents,
            AddonStage::Verify => reply is Verified,
            AddonStage::Finished => false,
        }
    }

    /// The state after the directory was read. A directory that cannot be read
    /// is passed over. Files are taken in the order of their names.
    pub open spec fn after_listing(self, entries: Seq<Result<EntryModel, Status>>) -> AddonState {
        match found_files(self.directory(), entries, ".addon.efi"@, None) {
            Ok(files) => AddonState {
                files: files.sort_by(path_order()),
                done: 0,
                ..self
            }.at_file(),
            Err(_) => self.directory_done(),
        }
    }

    /// The state after the file was read directly, which happens only if the
    /// firmware refused it. Under Secure Boot it needs another verification.
    pub open spec fn after_read(self, contents: Option<Seq<u8>>) -> AddonState {
        match contents {
            Some(data) => if self.secure_boot_enabled {
                AddonState { unverified: data, ..self }.at(AddonStage::Verify)
            } else {
                self.accepted(data, PeLayout::Disk)
            },
            None => self.file_done(),
        }
    }

    /// The state after the current request had the outcome `reply`.
    pub open spec fn next(self, reply: AddonReplyModel) -> AddonState {
        match (self.stage, reply) {
            (AddonStage::Probe, AddonReplyModel::Exists(exists)) => if exists {
                self.at(AddonStage::List)
            } else {
                self.directory_done()
            },
            (AddonStage::List, AddonReplyModel::Entries(entries)) => self.after_listing(entries),
            (AddonStage::SecureLoad, AddonReplyModel::Image(Some(data))) => self.accepted(
                data,
                PeLayout::Loaded,
            ),
            (AddonStage::SecureLoad, AddonReplyModel::Image(None)) => self.at(AddonStage::Read),
            (AddonStage::Read, AddonReplyModel::Contents(contents)) => self.after_read(contents),
            (AddonStage::Verify, AddonReplyModel::Verified(verified)) => if verified {
                self.accepted(self.unverified, PeLayout::Disk)
            } else {
                self.file_done()
            },
            _ => self,
        }
    }

    /// What holds in every state that a discovery can reach.
    pub open spec fn valid(self) -> bool {
        &&& self.local ==> self.dropin is Some
        &&& (self.stage is SecureLoad || self.stage is Read || self.stage is Verify) ==> self.done
            < self.files.len()
    }
}

proof fn lemma_global_directory()
    ensures
        ucs2("\\loader\\addons"@) is Some,
{
    reveal_strlit("\\loader\\addons");
}

/// An addon discovery in progress.
#[derive(Debug)]
pub struct AddonDiscovery {
    secure_boot_enabled: bool,
    uki_uname: Option<String>,
    dropin: Option<Vec<u16>>,
    global_directory: Vec<u16>,
    local: bool,
    files: Vec<Vec<u16>>,
    done: usize,
    unverified: Vec<u8>,
    addons: Vec<CmdlineAddon>,
    stage: AddonStage,
}

impl View for AddonDiscovery {
    type V = AddonState;

    closed spec fn view(&self) -> AddonState {
        AddonState {
            secure_boot_enabled: self.secure_boot_enabled,
            uki_uname: string_option(self.uki_uname),
            dropin: match self.dropin {
                Some(path) => Some(path@),
                None => None,
            },
            local: self.local,
            files: unit_views(self.files@),
            done: self.done as nat,
            unverified: self.unverified@,
            addons: cmdlines(self.addons@),
            stage: self.stage,
        }
    }
}

impl AddonDiscovery {
    /// The discovery is in a state that it can reach.
    pub closed spec fn wf(&self) -> bool {
        &&& self@.valid()
        &&& self.global_directory@ == global_addon_directory()
    }

    /// A well-formed discovery is in a valid state.
    pub proof fn lemma_valid(self)
        requires
            self.wf(),
        ensures
            self@.valid(),
    {
    }

    fn directory(&self) -> (directory: &[u16])
        requires
            self.wf(),
        ensures
            directory@ == self@.directory(),
    {
        match &self.dropin {
            Some(path) => if self.local {
                path
            } else {
                &self.global_directory
            },
            None => &self.global_directory,
        }
    }

    /// What has to be done next.
    pub fn request(&self) -> (request: AddonRequest<'_>)
        requires
            self.wf(),
        ensures
            request@ == self@.request(),
    {
        match self.stage {
            AddonStage::Probe => AddonRequest::ProbeExists(self.directory()),
            AddonStage::List => AddonRequest::ListDirectory(self.directory()),
            AddonStage::SecureLoad => AddonRequest::SecureLoad(&self.files[self.done]),
            AddonStage::Read => AddonRequest::ReadFile(&self.files[self.done]),
            AddonStage::Verify => AddonRequest::ShimVerify(
                &self.files[self.done],
                &self.unverified,
            ),
            AddonStage::Finished => AddonRequest::Finished,
        }
    }

    fn at(self, stage: AddonStage) -> (next: AddonDiscovery)
        ensures
            next@ == self@.at(stage),
            next.global_directory == self.global_directory,
    {
        let mut next = self;
        next.stage = stage;
        next
    }

    fn directory_done(self) -> (next: AddonDiscovery)
        requires
            self.local ==> self.dropin is Some,
            self.global_directory@ == global_addon_directory(),
        ensures
            next.wf(),
            next@ == self@.directory_done(),
    {
        if !self.local && self.dropin.is_some() {
            let mut next = self;
            next.local = true;
            next.files = Vec::new();
            next.done = 0;
            next.stage = AddonStage::Probe;
            assert(next@.files =~= Seq::<Seq<u16>>::empty());
            next
        } else {
            self.at(AddonStage::Finished)
        }
    }

    fn at_file(self) -> (next: AddonDiscovery)
        requires
            self.local ==> self.dropin is Some,
            self.global_directory@ == global_addon_directory(),
        ensures
            next.wf(),
            next@ == self@.at_file(),
    {
        if self.done < self.files.len() {
            self.at(AddonStage::SecureLoad)
        } else {
            self.directory_done()
        }
    }

    fn file_done(self) -> (next: AddonDiscovery)
        requires
            self.local ==> self.dropin is Some,
            self.global_directory@ == global_addon_directory(),
            self.done < self.files@.len(),
        ensures
            next.wf(),
            next@ == self@.file_done(),
    {
        let mut next = self;
        assert(next.done < next.files.len());
        next.done = next.done + 1;
        next.unverified = Vec::new();
        assert(next@.unverified =~= Seq::<u8>::empty());
        next.at_file()
    }

    fn accepted(self, data: &[u8], layout: PeLayout) -> (next: AddonDiscovery)
        requires
            self.local ==> self.dropin is Some,
            self.global_directory@ == global_addon_directory(),
            self.done < self.files@.len(),
        ensures
            next.wf(),
            next@ == self@.accepted(data@, layout),
    {
        let cmdline = match &self.uki_uname {
            Some(uname) => cmdline_of_image(data, layout, Some(uname.as_str())),
            None => cmdline_of_image(data, layout, None),
        };
        match cmdline {
            Some(cmdline) => {
                let mut next = self;
                next.addons.push(CmdlineAddon { cmdline });
                assert(next@.addons =~= self@.addons.push(cmdline@));
                next.file_done()
            },
            None => self.file_done(),
        }
    }

    fn listed(self, entries: &[Result<DirectoryEntry, Status>]) -> (next: AddonDiscovery)
        requires
            self.wf(),
        ensures
            next.wf(),
            next@ == self@.after_listing(listing(entries@)),
    {
        match find_files(self.directory(), entries, ".addon.efi") {
            Ok(files) => {
                let mut next = self;
                next.files = sort_paths(files);
                next.done = 0;
                next.at_file()
            },
            Err(_) => self.directory_done(),
        }
    }

    fn read(self, contents: Option<Vec<u8>>) -> (next: AddonDiscovery)
        requires
            self.wf(),
            self@.stage is Read,
        ensures
            next.wf(),
            next@ == self@.after_read(
                match contents {
                    Some(data) => Some(data@),
                    None => None,
                },
            ),
    {
        match contents {
            Some(data) => {
                if self.secure_boot_enabled {
                    let mut next = self;
                    next.unverified = data;
                    next.at(AddonStage::Verify)
                } else {
                    self.accepted(&data, PeLayout::Disk)
                }
            },
            None => self.file_done(),
        }
    }

    fn verified(self) -> (next: AddonDiscovery)
        requires
            self.wf(),
            self@.stage is Verify,
        ensures
            next.wf(),
            next@ == self@.accepted(self@.unverified, PeLayout::Disk),
    {
        let mut next = self;
        let data = next.unverified;
        next.unverified = Vec::new();
        let done = next.accepted(&data, PeLayout::Disk);
        assert(done@ =~= self@.accepted(self@.unverified, PeLayout::Disk));
        done
    }

    /// Take in the outcome of the current request.
    pub fn advance(self, reply: AddonReply) -> (next: AddonDiscovery)
        requires
            self.wf(),
            self@.awaits(reply@),
        ensures
            next.wf(),
            next@ == self@.next(reply@),
    {
        match (self.stage, reply) {
            (AddonStage::Probe, AddonReply::Exists(exists)) => {
                if exists {
                    self.at(AddonStage::List)
                } else {
                    self.directory_done()
                }
            },
            (AddonStage::List, AddonReply::Entries(entries)) => self.listed(entries),
            (AddonStage::SecureLoad, AddonReply::Image(image)) => match image {
                Some(data) => self.accepted(data, PeLayout::Loaded),
                None => self.at(AddonStage::Read),
            },
            (AddonStage::Read, AddonReply::Contents(contents)) => self.read(contents),
            (AddonStage::Verify, AddonReply::Verified(verified)) => {
                if verified {
                    self.verified()
                } else {
                    self.file_done()
                }
            },
            _ => self,
        }
    }

    /// The addons of a finished discovery.
    pub fn into_addons(self) -> (addons: Vec<CmdlineAddon>)
        requires
            self@.stage is Finished,
        ensures
            cmdlines(addons@) == self@.addons,
    {
        self.addons
    }
}

/// Discover `.addon.efi` files in the global addons directory and in the
/// drop-in directory of the image, and extract their `.cmdline` sections, in a
/// deterministic order: global first, then image-specific, sorted by file name
/// within each group.
pub fn discover_cmdline_addons(
    dropin: Option<&[u16]>,
    uki_uname: Option<&str>,
    secure_boot_enabled: bool,
) -> (discovery: AddonDiscovery)
    ensures
        discovery.wf(),
        discovery@ == AddonState::initial(
            path_option(dropin),
            text_option(uki_uname),
            secure_boot_enabled,
        ),
{
    proof {
        lemma_global_directory();
    }
    let global_directory = encode("\\loader\\addons").unwrap();
    let owned_dropin = match dropin {
        Some(path) => {
            let mut owned: Vec<u16> = Vec::new();
            owned.extend_from_slice(path);
            assert(owned@ == path@);
            Some(owned)
        },
        None => None,
    };
    let owned_uname = match uki_uname {
        Some(uname) => {
            let mut owned = String::new();
            owned.append(uname);
            assert(owned@ == uname@);
            Some(owned)
        },
        None => None,
    };
    let discovery = AddonDiscovery {
        secure_boot_enabled,
        uki_uname: owned_uname,
        dropin: owned_dropin,
        global_directory,
        local: false,
        files: Vec::new(),
        done: 0,
        unverified: Vec::new(),
        addons: Vec::new(),
        stage: AddonStage::Probe,
    };
    assert(discovery@ =~= AddonState::initial(
        path_option(dropin),
        text_option(uki_uname),
        secure_boot_enabled,
    ));
    discovery
}

} // verus!
