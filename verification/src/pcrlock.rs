//! Locations of the `.pcrlock` files that describe boot components.

use crate::path::{joined, UnixPath};
use vstd::prelude::*;
use vstd::utf8::*;

verus! {

/// What to lock for an installed thin stub.
#[derive(Debug)]
pub struct LockThinStubArgs {
    pub systemd: UnixPath,
    pub esp: UnixPath,
    pub pcrlock: UnixPath,
    pub stub: UnixPath,
}

/// What to lock for the installed boot loader.
#[derive(Debug)]
pub struct LockBootLoaderArgs {
    pub systemd: UnixPath,
    pub esp: UnixPath,
    pub pcrlock: UnixPath,
}

/// Which `.pcrlock` variants to look at, and which of them to keep.
#[derive(Debug)]
pub struct GcArgs {
    pub systemd: UnixPath,
    pub pcrlock: UnixPath,
    pub keep: Vec<String>,
}

/// Output describing what lock-boot-loader or lock-thin-stub did.
#[derive(Debug)]
pub struct LockResult {
    /// SHA-256 hex digest of the PE binary that was locked.
    pub pe_hash: String,
}

/// The name of a `.pcrlock` file.
pub open spec fn pcrlock_file_name(name: Seq<char>) -> Seq<char> {
    name + ".pcrlock"@
}

fn file_name(name: &str) -> (file: String)
    ensures
        file@ == pcrlock_file_name(name@),
{
    let mut file = String::new();
    file.append(name);
    file.append(".pcrlock");
    assert(file@ == pcrlock_file_name(name@));
    file
}

/// Where the records of a PE binary go: into the file that is named after its
/// hash if `pcrlock` is a directory, and into `pcrlock` itself otherwise.
pub open spec fn record_path(pcrlock: Seq<u8>, is_directory: bool, pe_hash: Seq<char>) -> Seq<u8> {
    if is_directory {
        joined(pcrlock, encode_utf8(pcrlock_file_name(pe_hash)))
    } else {
        pcrlock
    }
}

/// Where the records of a PE binary go. `is_directory` says whether `pcrlock`
/// is a directory.
pub fn resolve_pcrlock_path(pcrlock: &UnixPath, is_directory: bool, pe_hash: &str) -> (path:
    UnixPath)
    ensures
        path@ == record_path(pcrlock@, is_directory, pe_hash@),
{
    if is_directory {
        pcrlock.join(file_name(pe_hash).as_str())
    } else {
        pcrlock.copy()
    }
}

/// The directory of the `.pcrlock` files and its subdirectories.
#[derive(Debug)]
pub struct PcrlockPaths {
    /// The directory containing the `.pcrlock` config files for
    /// systemd-pcrlock.
    pcrlock: UnixPath,
    lanzaboote: UnixPath,
    bootloader: UnixPath,
}

impl View for PcrlockPaths {
    type V = Seq<u8>;

    /// The directory that holds all others.
    closed spec fn view(&self) -> Seq<u8> {
        self.pcrlock@
    }
}

/// The subdirectory for measurements of the stub.
pub open spec fn lanzaboote_directory(pcrlock: Seq<u8>) -> Seq<u8> {
    joined(pcrlock, encode_utf8("635-lanzaboote.pcrlock.d"@))
}

/// The subdirectory for measurements of the boot loader.
pub open spec fn bootloader_directory(pcrlock: Seq<u8>) -> Seq<u8> {
    joined(pcrlock, encode_utf8("630-bootloader.pcrlock.d"@))
}

/// The bytes of each path.
pub open spec fn path_views(paths: Seq<&UnixPath>) -> Seq<Seq<u8>> {
    paths.map_values(|path: &UnixPath| path@)
}

impl PcrlockPaths {
    /// The subdirectories stand where they belong.
    #[verifier::type_invariant]
    spec fn wf(&self) -> bool {
        &&& self.lanzaboote@ == lanzaboote_directory(self.pcrlock@)
        &&& self.bootloader@ == bootloader_directory(self.pcrlock@)
    }

    /// The paths below the directory `pcrlock`.
    pub fn new(pcrlock: &UnixPath) -> (paths: PcrlockPaths)
        ensures
            paths@ == pcrlock@,
    {
        PcrlockPaths {
            pcrlock: pcrlock.copy(),
            lanzaboote: pcrlock.join("635-lanzaboote.pcrlock.d"),
            bootloader: pcrlock.join("630-bootloader.pcrlock.d"),
        }
    }

    /// The subdirectory for measurements of the stub.
    pub fn lanzaboote(&self) -> (path: &UnixPath)
        ensures
            path@ == lanzaboote_directory(self@),
    {
        proof {
            use_type_invariant(self);
        }
        &self.lanzaboote
    }

    /// The path to a measurement file of the boot loader.
    pub fn bootloader_measurement(&self, name: &str) -> (path: UnixPath)
        ensures
            path@ == joined(bootloader_directory(self@), encode_utf8(pcrlock_file_name(name@))),
    {
        proof {
            use_type_invariant(self);
        }
        self.bootloader.join(file_name(name).as_str())
    }

    /// The path to a measurement file of the stub.
    pub fn lanzaboote_measurement(&self, name: &str) -> (path: UnixPath)
        ensures
            path@ == joined(lanzaboote_directory(self@), encode_utf8(pcrlock_file_name(name@))),
    {
        proof {
            use_type_invariant(self);
        }
        self.lanzaboote.join(file_name(name).as_str())
    }

    /// All pcrlock paths.
    ///
    /// This is useful for keeping the leading directories as well.
    pub fn iter(&self) -> (paths: Vec<&UnixPath>)
        ensures
            path_views(paths@) == seq![
                self@,
                lanzaboote_directory(self@),
                bootloader_directory(self@),
            ],
    {
        proof {
            use_type_invariant(self);
        }
        let mut paths: Vec<&UnixPath> = Vec::new();
        paths.push(&self.pcrlock);
        paths.push(&self.lanzaboote);
        paths.push(&self.bootloader);
        assert(path_views(paths@) == seq![
            self@,
            lanzaboote_directory(self@),
            bootloader_directory(self@),
        ]);
        paths
    }
}

} // verus!
