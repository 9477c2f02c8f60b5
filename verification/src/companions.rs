//! Companion initrds that are assembled from drop-in directories.
//!
//! [`DropinSearch`] looks for the directory that belongs to the booted image,
//! and [`Discovery`] collects one kind of companion files. Both say what has to
//! be done next; their caller performs each request on the file system and
//! reports the outcome.

use crate::cmdline::text_option;
use crate::dropin_paths::{
    dropin_directory, filename_matches_suffix, image_dropin_directory_path,
    legacy_dropin_directory, legacy_image_dropin_directory_path, suffix_selects,
};
use crate::status::Status;
use crate::ucs2::{
    all_ascii, ascii_text, decode_ascii, encode, join_path, normalize, normalized, path_in,
    path_order, sort_paths, ucs2, unit_views,
};
use vstd::prelude::*;

verus! {

/// What a companion initrd carries.
#[derive(Debug, Clone, Copy, PartialEq, Eq, Structural)]
pub enum CompanionInitrdType {
    Credentials,
    GlobalCredentials,
    SystemExtension,
    GlobalSystemExtension,
    ConfigurationExtension,
    GlobalConfigurationExtension,
    PcrSignature,
    PcrPublicKey,
}

/// Potential companion initrd assembled on the fly during discovery
/// workflows, e.g. finding files in drop-in directories.
#[derive(Debug)]
pub struct CompanionInitrd {
    pub kind: CompanionInitrdType,
    /// The bytes of the CPIO archive.
    pub cpio: Vec<u8>,
}

/// One entry of a directory.
#[derive(Debug)]
pub struct DirectoryEntry {
    pub regular_file: bool,
    /// The file name, without a NUL.
    pub name: Vec<u16>,
}

/// One entry of a directory with its name as a sequence.
pub struct EntryModel {
    pub regular_file: bool,
    pub name: Seq<u16>,
}

impl View for DirectoryEntry {
    type V = EntryModel;

    open spec fn view(&self) -> EntryModel {
        EntryModel { regular_file: self.regular_file, name: self.name@ }
    }
}

/// What reading a directory gave, entry by entry.
pub open spec fn listing(entries: Seq<Result<DirectoryEntry, Status>>) -> Seq<
    Result<EntryModel, Status>,
> {
    entries.map_values(
        |entry: Result<DirectoryEntry, Status>|
            match entry {
                Ok(entry) => Ok(entry@),
                Err(status) => Err(status),
            },
    )
}

/// Whether an entry is a regular file with an ASCII name that is selected by
/// the suffixes.
pub open spec fn selected(
    entry: EntryModel,
    suffix: Seq<char>,
    excluded: Option<Seq<char>>,
) -> bool {
    &&& entry.regular_file
    &&& all_ascii(entry.name)
    &&& suffix_selects(ascii_text(entry.name), suffix, excluded)
}

/// The paths of all selected files of a directory, in the order of its
/// entries, or the first error among the entries.
pub open spec fn found_files(
    directory: Seq<u16>,
    entries: Seq<Result<EntryModel, Status>>,
    suffix: Seq<char>,
    excluded: Option<Seq<char>>,
) -> Result<Seq<Seq<u16>>, Status>
    decreases entries.len(),
{
    if entries.len() == 0 {
        Ok(Seq::empty())
    } else {
        match (found_files(directory, entries.drop_last(), suffix, excluded), entries.last()) {
            (Err(status), _) => Err(status),
            (_, Err(status)) => Err(status),
            (Ok(files), Ok(entry)) => if selected(entry, suffix, excluded) {
                Ok(files.push(path_in(directory, entry.name)))
            } else {
                Ok(files)
            },
        }
    }
}

/// The paths of a result as sequences.
pub open spec fn files_result(files: Result<Vec<Vec<u16>>, Status>) -> Result<
    Seq<Seq<u16>>,
    Status,
> {
    match files {
        Ok(files) => Ok(unit_views(files@)),
        Err(status) => Err(status),
    }
}

/// Locate files with ASCII file names that match a suffix, among the entries
/// of the directory `search_path`.
pub fn find_files(
    search_path: &[u16],
    entries: &[Result<DirectoryEntry, Status>],
    suffix: &str,
) -> (files: Result<Vec<Vec<u16>>, Status>)
    ensures
        files_result(files) == found_files(search_path@, listing(entries@), suffix@, None),
{
    find_files_filtered(search_path, entries, suffix, None)
}

proof fn lemma_first_error(
    directory: Seq<u16>,
    entries: Seq<Result<EntryModel, Status>>,
    suffix: Seq<char>,
    excluded: Option<Seq<char>>,
    n: int,
    status: Status,
)
    requires
        0 <= n <= entries.len(),
        found_files(directory, entries.take(n), suffix, excluded) == Err::<Seq<Seq<u16>>, Status>(
            status,
        ),
    ensures
        found_files(directory, entries, suffix, excluded) == Err::<Seq<Seq<u16>>, Status>(status),
    decreases entries.len() - n,
{
    if n < entries.len() {
        assert(entries.take(n + 1).drop_last() == entries.take(n));
        lemma_first_error(directory, entries, suffix, excluded, n + 1, status);
    } else {
        assert(entries.take(n) == entries);
    }
}

/// Locate files with ASCII file names that match a suffix, while excluding a
/// more specific suffix if requested.
pub fn find_files_filtered(
    search_path: &[u16],
    entries: &[Result<DirectoryEntry, Status>],
    suffix: &str,
    excluded_suffix: Option<&str>,
) -> (files: Result<Vec<Vec<u16>>, Status>)
    ensures
        files_result(files) == found_files(
            search_path@,
            listing(entries@),
            suffix@,
            text_option(excluded_suffix),
        ),
{
    let ghost all = listing(entries@);
    let ghost excluded = text_option(excluded_suffix);
    let mut results: Vec<Vec<u16>> = Vec::new();
    assert(unit_views(results@) == Seq::<Seq<u16>>::empty());
    for i in 0..entries.len()
        invariant
            all == listing(entries@),
            excluded == text_option(excluded_suffix),
            found_files(search_path@, all.take(i as int), suffix@, excluded) == Ok::<
                Seq<Seq<u16>>,
                Status,
            >(unit_views(results@)),
    {
        let ghost before = unit_views(results@);
        proof {
            assert(all.take(i + 1).drop_last() == all.take(i as int));
        }
        match &entries[i] {
            Err(status) => {
                proof {
                    lemma_first_error(search_path@, all, suffix@, excluded, i + 1, *status);
                }
                return Err(*status);
            },
            Ok(entry) => {
                if entry.regular_file {
                    if let Some(filename) = decode_ascii(&entry.name) {
                        if filename_matches_suffix(filename.as_str(), suffix, excluded_suffix) {
                            let path = join_path(search_path, &entry.name);
                            results.push(path);
                            assert(unit_views(results@) == before.push(path@));
                        }
                    }
                }
            },
        }
    }
    assert(all.take(all.len() as int) == all);
    Ok(results)
}

/// The two directories that may hold the companion files of an image, the
/// preferred one first.
pub open spec fn dropin_candidate(image_path: Seq<char>, legacy: bool) -> Seq<char> {
    if legacy {
        legacy_dropin_directory(image_path)
    } else {
        dropin_directory(image_path)
    }
}

/// What a [`DropinSearch`] is waiting for.
#[derive(Debug)]
pub enum DropinStage {
    /// Whether the path is a directory, and whether it is the historical one.
    Probe(Vec<u16>, bool),
    Finished(Result<Option<Vec<u16>>, Status>),
}

/// The state of a search with its paths as sequences.
pub enum DropinState {
    Probe(Seq<u16>, bool),
    Finished(Result<Option<Seq<u16>>, Status>),
}

impl View for DropinStage {
    type V = DropinState;

    open spec fn view(&self) -> DropinState {
        match *self {
            DropinStage::Probe(path, legacy) => DropinState::Probe(path@, legacy),
            DropinStage::Finished(Ok(Some(path))) => DropinState::Finished(Ok(Some(path@))),
            DropinStage::Finished(Ok(None)) => DropinState::Finished(Ok(None)),
            DropinStage::Finished(Err(status)) => DropinState::Finished(Err(status)),
        }
    }
}

impl DropinState {
    /// The state in which one of the directories is to be probed. A name that
    /// cannot be encoded ends the search.
    pub open spec fn probing(image_path: Seq<char>, legacy: bool) -> DropinState {
        match ucs2(dropin_candidate(image_path, legacy)) {
            Some(path) => DropinState::Probe(path, legacy),
            None => DropinState::Finished(Err(Status::NotFound)),
        }
    }

    /// The state in which a search begins, if the path of the image is known.
    pub open spec fn initial(image_path: Option<Seq<char>>) -> DropinState {
        match image_path {
            Some(image_path) => DropinState::probing(image_path, false),
            None => DropinState::Finished(Err(Status::NotFound)),
        }
    }

    /// The state after the probed path turned out to be a directory, or not.
    pub open spec fn next(self, image_path: Seq<char>, is_directory: bool) -> DropinState {
        match self {
            DropinState::Probe(path, legacy) => if is_directory {
                DropinState::Finished(Ok(Some(normalized(path))))
            } else if legacy {
                DropinState::Finished(Ok(None))
            } else {
                DropinState::probing(image_path, true)
            },
            DropinState::Finished(_) => self,
        }
    }
}

/// The search for the companion drop-in directory of an image.
///
/// The `<image>.efi.extra.d` directory is preferred, while the historical
/// `<image>.extra` directory is retained as a fallback.
#[derive(Debug)]
pub struct DropinSearch {
    pub image_path: String,
    pub stage: DropinStage,
}

impl DropinSearch {
    fn probing(image_path: &str, legacy: bool) -> (stage: DropinStage)
        ensures
            stage@ == DropinState::probing(image_path@, legacy),
    {
        let candidate = if legacy {
            legacy_image_dropin_directory_path(image_path)
        } else {
            image_dropin_directory_path(image_path)
        };
        match encode(candidate.as_str()) {
            Some(path) => DropinStage::Probe(path, legacy),
            None => DropinStage::Finished(Err(Status::NotFound)),
        }
    }

    /// Take in whether the probed path is a directory.
    pub fn advance(self, is_directory: bool) -> (next: DropinSearch)
        ensures
            next.stage@ == self.stage@.next(self.image_path@, is_directory),
            next.image_path@ == self.image_path@,
    {
        let stage = match self.stage {
            DropinStage::Probe(path, legacy) => if is_directory {
                DropinStage::Finished(Ok(Some(normalize(&path))))
            } else if legacy {
                DropinStage::Finished(Ok(None))
            } else {
                DropinSearch::probing(self.image_path.as_str(), true)
            },
            finished => finished,
        };
        DropinSearch { image_path: self.image_path, stage }
    }
}

/// Look for the companion drop-in directory of the image with this path. The
/// path may be missing if the firmware could not spell it out.
pub fn get_default_dropin_directory(image_path: Option<&str>) -> (search: DropinSearch)
    ensures
        search.stage@ == DropinState::initial(text_option(image_path)),
        image_path matches Some(path) ==> search.image_path@ == path@,
{
    match image_path {
        Some(path) => {
            let mut owned = String::new();
            owned.append(path);
            assert(owned@ == path@);
            DropinSearch { image_path: owned, stage: DropinSearch::probing(path, false) }
        },
        None => DropinSearch {
            image_path: String::new(),
            stage: DropinStage::Finished(Err(Status::NotFound)),
        },
    }
}

/// A kind of companion files.
#[derive(Debug, Clone, Copy, PartialEq, Eq, Structural)]
pub enum CompanionSource {
    /// `*.cred` files.
    Credentials,
    /// `*.raw` files, except `*.confext.raw` files.
    SystemExtensions,
    /// `*.confext.raw` files.
    ConfigurationExtensions,
}

impl CompanionSource {
    /// The suffix of the files.
    pub open spec fn spec_suffix(self) -> Seq<char> {
        match self {
            CompanionSource::Credentials => ".cred"@,
            CompanionSource::SystemExtensions => ".raw"@,
            CompanionSource::ConfigurationExtensions => ".confext.raw"@,
        }
    }

    /// The suffix of files that are passed over.
    pub open spec fn spec_excluded_suffix(self) -> Option<Seq<char>> {
        match self {
            CompanionSource::SystemExtensions => Some(".confext.raw"@),
            _ => None,
        }
    }

    /// The directory in which files for all images are kept.
    pub open spec fn spec_global_directory(self) -> Seq<char> {
        match self {
            CompanionSource::Credentials => "\\loader\\credentials"@,
            _ => "\\loader\\extensions"@,
        }
    }

    /// Where the files go in the initrd.
    pub open spec fn spec_target(self, global: bool) -> Seq<char> {
        match (self, global) {
            (CompanionSource::Credentials, false) => ".extra/credentials"@,
            (CompanionSource::Credentials, true) => ".extra/global_credentials"@,
            (CompanionSource::SystemExtensions, false) => ".extra/sysext"@,
            (CompanionSource::SystemExtensions, true) => ".extra/global_sysext"@,
            (CompanionSource::ConfigurationExtensions, false) => ".extra/confext"@,
            (CompanionSource::ConfigurationExtensions, true) => ".extra/global_confext"@,
        }
    }

    /// The kind of the resulting initrd.
    pub open spec fn spec_kind(self, global: bool) -> CompanionInitrdType {
        match (self, global) {
            (CompanionSource::Credentials, false) => CompanionInitrdType::Credentials,
            (CompanionSource::Credentials, true) => CompanionInitrdType::GlobalCredentials,
            (CompanionSource::SystemExtensions, false) => CompanionInitrdType::SystemExtension,
            (CompanionSource::SystemExtensions, true) => CompanionInitrdType::GlobalSystemExtension,
            (CompanionSource::ConfigurationExtensions, false) =>
                CompanionInitrdType::ConfigurationExtension,
            (CompanionSource::ConfigurationExtensions, true) =>
                CompanionInitrdType::GlobalConfigurationExtension,
        }
    }

    /// The access modes of the directories and of the files in the initrd:
    /// read-only for everybody, or for the superuser alone.
    pub open spec fn spec_modes(self) -> (u32, u32) {
        match self {
            CompanionSource::Credentials => (0o500, 0o400),
            _ => (0o555, 0o444),
        }
    }

    /// Archives of extensions do not depend on the order in which their files
    /// are found.
    pub open spec fn arranged(self, files: Seq<Seq<u16>>) -> Seq<Seq<u16>> {
        match self {
            CompanionSource::Credentials => files,
            _ => files.sort_by(path_order()),
        }
    }

    /// The suffix of the files.
    pub fn suffix(self) -> (suffix: &'static str)
        ensures
            suffix@ == self.spec_suffix(),
    {
        match self {
            CompanionSource::Credentials => ".cred",
            CompanionSource::SystemExtensions => ".raw",
            CompanionSource::ConfigurationExtensions => ".confext.raw",
        }
    }

    /// The suffix of files that are passed over.
    pub fn excluded_suffix(self) -> (suffix: Option<&'static str>)
        ensures
            text_option(suffix) == self.spec_excluded_suffix(),
    {
        match self {
            CompanionSource::SystemExtensions => Some(".confext.raw"),
            _ => None,
        }
    }

    /// The directory in which files for all images are kept.
    pub fn global_directory(self) -> (directory: &'static str)
        ensures
            directory@ == self.spec_global_directory(),
    {
        match self {
            CompanionSource::Credentials => "\\loader\\credentials",
            _ => "\\loader\\extensions",
        }
    }

    /// Where the files go in the initrd.
    pub fn target(self, global: bool) -> (target: &'static str)
        ensures
            target@ == self.spec_target(global),
    {
        match (self, global) {
            (CompanionSource::Credentials, false) => ".extra/credentials",
            (CompanionSource::Credentials, true) => ".extra/global_credentials",
            (CompanionSource::SystemExtensions, false) => ".extra/sysext",
            (CompanionSource::SystemExtensions, true) => ".extra/global_sysext",
            (CompanionSource::ConfigurationExtensions, false) => ".extra/confext",
            (CompanionSource::ConfigurationExtensions, true) => ".extra/global_confext",
        }
    }

    /// The kind of the resulting initrd.
    pub fn kind(self, global: bool) -> (kind: CompanionInitrdType)
        ensures
            kind == self.spec_kind(global),
    {
        match (self, global) {
            (CompanionSource::Credentials, false) => CompanionInitrdType::Credentials,
            (CompanionSource::Credentials, true) => CompanionInitrdType::GlobalCredentials,
            (CompanionSource::SystemExtensions, false) => CompanionInitrdType::SystemExtension,
            (CompanionSource::SystemExtensions, true) => CompanionInitrdType::GlobalSystemExtension,
            (CompanionSource::ConfigurationExtensions, false) =>
                CompanionInitrdType::ConfigurationExtension,
            (CompanionSource::ConfigurationExtensions, true) =>
                CompanionInitrdType::GlobalConfigurationExtension,
        }
    }

    /// The access modes of the directories and of the files in the initrd.
    pub fn modes(self) -> (modes: (u32, u32))
        ensures
            modes == self.spec_modes(),
    {
        match self {
            CompanionSource::Credentials => (0o500, 0o400),
            _ => (0o555, 0o444),
        }
    }

    pub(crate) fn arrange(self, files: Vec<Vec<u16>>) -> (arranged: Vec<Vec<u16>>)
        ensures
            unit_views(arranged@) == self.arranged(unit_views(files@)),
            arranged@.len() == files@.len(),
    {
        match self {
            CompanionSource::Credentials => files,
            _ => sort_paths(files),
        }
    }
}

} // verus!
