//! What the stub hands to the kernel besides its own payloads.

use crate::addons::{cmdlines, encode_cmdline_utf16, CmdlineAddon};
use crate::companions::CompanionInitrd;
use crate::discovery::{companion_models, CompanionModel};
use crate::measure::{load_options_events, with_utf16_nul};
use crate::pe::{ParsedPe, PeModel};
use crate::ucs2::{bytes_of_units, ucs2, unit_bytes};
use vstd::prelude::*;

verus! {

/// A file that is packed into an initrd of its own.
#[derive(Debug)]
pub struct InitrdFile {
    pub contents: Vec<u8>,
    pub name: &'static str,
    pub target: &'static str,
    pub directory_mode: u32,
    pub file_mode: u32,
}

/// A file that is packed into an initrd of its own, as sequences.
pub struct InitrdFileModel {
    pub contents: Seq<u8>,
    pub name: Seq<char>,
    pub target: Seq<char>,
    pub directory_mode: u32,
    pub file_mode: u32,
}

impl View for InitrdFile {
    type V = InitrdFileModel;

    open spec fn view(&self) -> InitrdFileModel {
        InitrdFileModel {
            contents: self.contents@,
            name: self.name@,
            target: self.target@,
            directory_mode: self.directory_mode,
            file_mode: self.file_mode,
        }
    }
}

/// A world-readable file in the `.extra` directory.
pub open spec fn extra_file(contents: Seq<u8>, name: Seq<char>) -> InitrdFileModel {
    InitrdFileModel {
        contents,
        name,
        target: ".extra"@,
        directory_mode: 0o555,
        file_mode: 0o444,
    }
}

/// The file that carries the contents of a section, if there is one.
pub open spec fn section_file(pe: PeModel, section: Seq<char>, name: Seq<char>) -> Option<
    InitrdFileModel,
> {
    match pe.contents(section) {
        Some(contents) => Some(extra_file(contents, name)),
        None => None,
    }
}

/// The model of an optional file.
pub open spec fn file_option(file: Option<InitrdFile>) -> Option<InitrdFileModel> {
    match file {
        Some(file) => Some(file@),
        None => None,
    }
}

fn file_of_section(pe: &ParsedPe, section: &str, name: &'static str) -> (file: Option<InitrdFile>)
    ensures
        file_option(file) == section_file(pe@, section@, name@),
{
    match pe.section_data(section) {
        Some(contents) => Some(
            InitrdFile {
                contents,
                name,
                target: ".extra",
                directory_mode: 0o555,
                file_mode: 0o444,
            },
        ),
        None => None,
    }
}

/// The PCR signature and the public key that verifies it, as files for the
/// initrd. One is of no use without the other.
pub fn pcr_signature_files(pe: &ParsedPe) -> (files: (Option<InitrdFile>, Option<InitrdFile>))
    ensures
        file_option(files.0) == section_file(pe@, ".pcrsig"@, "tpm2-pcr-signature.json"@),
        file_option(files.1) == section_file(pe@, ".pcrpkey"@, "tpm2-pcr-public-key.pem"@),
{
    (
        file_of_section(pe, ".pcrsig", "tpm2-pcr-signature.json"),
        file_of_section(pe, ".pcrpkey", "tpm2-pcr-public-key.pem"),
    )
}

/// The companion initrds of all kinds: credentials, then system extensions,
/// then configuration extensions. A kind that could not be collected is left
/// out.
pub open spec fn merged_companions(
    credentials: Option<Seq<CompanionModel>>,
    sysexts: Option<Seq<CompanionModel>>,
    confexts: Option<Seq<CompanionModel>>,
) -> Seq<CompanionModel> {
    found_companions(credentials) + found_companions(sysexts) + found_companions(confexts)
}

/// The companion initrds of one kind.
pub open spec fn found_companions(companions: Option<Seq<CompanionModel>>) -> Seq<CompanionModel> {
    match companions {
        Some(companions) => companions,
        None => Seq::empty(),
    }
}

/// The models of one kind of companion initrds.
pub open spec fn companions_option(companions: Option<Vec<CompanionInitrd>>) -> Option<
    Seq<CompanionModel>,
> {
    match companions {
        Some(companions) => Some(companion_models(companions@)),
        None => None,
    }
}

fn append_companions(all: &mut Vec<CompanionInitrd>, companions: Option<Vec<CompanionInitrd>>)
    ensures
        companion_models(final(all)@) == companion_models(old(all)@) + found_companions(
            companions_option(companions),
        ),
{
    if let Some(companions) = companions {
        let mut companions = companions;
        all.append(&mut companions);
    }
    assert(companion_models(all@) =~= companion_models(old(all)@) + found_companions(
        companions_option(companions),
    ));
}

/// Put the companion initrds of all kinds in order.
pub fn merge_companions(
    credentials: Option<Vec<CompanionInitrd>>,
    sysexts: Option<Vec<CompanionInitrd>>,
    confexts: Option<Vec<CompanionInitrd>>,
) -> (companions: Vec<CompanionInitrd>)
    ensures
        companion_models(companions@) == merged_companions(
            companions_option(credentials),
            companions_option(sysexts),
            companions_option(confexts),
        ),
{
    let mut companions: Vec<CompanionInitrd> = Vec::new();
    append_companions(&mut companions, credentials);
    append_companions(&mut companions, sysexts);
    append_companions(&mut companions, confexts);
    assert(companion_models(companions@) =~= merged_companions(
        companions_option(credentials),
        companions_option(sysexts),
        companions_option(confexts),
    ));
    companions
}

/// The command lines of several addons, separated by spaces.
pub open spec fn joined_cmdlines(cmdlines: Seq<Seq<char>>) -> Seq<char>
    decreases cmdlines.len(),
{
    if cmdlines.len() == 0 {
        Seq::empty()
    } else if cmdlines.len() == 1 {
        cmdlines[0]
    } else {
        joined_cmdlines(cmdlines.drop_last()).push(' ') + cmdlines.last()
    }
}

/// A command line from addons, ready for use.
#[derive(Debug)]
pub struct AddonCmdline {
    pub cmdline: String,
    /// What is measured for it.
    pub load_options: Vec<u8>,
}

/// Combine the command lines of several addons.
pub fn join_cmdlines(addons: &[CmdlineAddon]) -> (combined: String)
    ensures
        combined@ == joined_cmdlines(cmdlines(addons@)),
{
    let ghost all = cmdlines(addons@);
    let mut combined = String::new();
    assert(combined@ =~= joined_cmdlines(all.take(0)));
    for i in 0..addons.len()
        invariant
            all == cmdlines(addons@),
            combined@ == joined_cmdlines(all.take(i as int)),
    {
        let ghost before = combined@;
        assert(all.take(i + 1).drop_last() == all.take(i as int));
        assert(all.take(i + 1).last() == addons@[i as int].cmdline@);
        if i > 0 {
            combined.push(' ');
        }
        combined.append(addons[i].cmdline.as_str());
        if i > 0 {
            assert(combined@ =~= before.push(' ') + addons@[i as int].cmdline@);
        } else {
            assert(combined@ =~= addons@[0].cmdline@);
        }
    }
    assert(all.take(all.len() as int) == all);
    combined
}

/// Combine the command lines of all addons.
///
/// The result is input to the boot, so it must be measured before use. It is
/// refused entirely if it cannot be encoded for measurement.
pub fn combine_addons(addons: &[CmdlineAddon]) -> (combined: Option<AddonCmdline>)
    ensures
        match combined {
            Some(combined) => {
                &&& addons@.len() > 0
                &&& combined.cmdline@ == joined_cmdlines(cmdlines(addons@))
                &&& ucs2(combined.cmdline@) is Some
                &&& combined.load_options@ == unit_bytes(ucs2(combined.cmdline@)->0.push(0))
            },
            None => addons@.len() == 0 || ucs2(joined_cmdlines(cmdlines(addons@))) is None,
        },
{
    if addons.len() == 0 {
        return None;
    }
    let cmdline = join_cmdlines(addons);
    match encode_cmdline_utf16(cmdline.as_str()) {
        Ok(units) => Some(AddonCmdline { load_options: bytes_of_units(&units), cmdline }),
        Err(_) => None,
    }
}

/// The measurement of an addon command line covers exactly the bytes that it
/// is encoded to.
pub proof fn law_addon_cmdline_is_measured_as_encoded(units: Seq<u16>)
    ensures
        with_utf16_nul(unit_bytes(units.push(0))) == unit_bytes(units.push(0)),
        load_options_events(unit_bytes(units.push(0))).len() == 1,
        load_options_events(unit_bytes(units.push(0)))[0].data == unit_bytes(units.push(0)),
{
    let bytes = unit_bytes(units.push(0));
    let n = units.len() as int;
    assert(bytes.len() == 2 * n + 2);
    assert(bytes[2 * n] == 0) by {
        assert((2 * n) / 2 == n);
    }
    assert(bytes[2 * n + 1] == 0) by {
        assert((2 * n + 1) / 2 == n);
    }
}

/// Different command lines are measured differently.
pub proof fn law_encoded_cmdlines_are_distinct(a: Seq<u16>, b: Seq<u16>)
    requires
        unit_bytes(a) == unit_bytes(b),
    ensures
        a == b,
{
    assert(unit_bytes(a).len() == 2 * a.len());
    assert(unit_bytes(b).len() == 2 * b.len());
    assert(a.len() == b.len());
    assert forall|i: int| 0 <= i < a.len() implies a[i] == b[i] by {
        assert((2 * i) / 2 == i && (2 * i + 1) / 2 == i);
        assert((2 * i) % 2 == 0 && (2 * i + 1) % 2 == 1);
        let (x, y) = (a[i], b[i]);
        assert(unit_bytes(a)[2 * i] == (x % 256) as u8);
        assert(unit_bytes(b)[2 * i] == (y % 256) as u8);
        assert(unit_bytes(a)[2 * i + 1] == (x / 256) as u8);
        assert(unit_bytes(b)[2 * i + 1] == (y / 256) as u8);
        assert((x % 256) as u8 == (y % 256) as u8);
        assert((x / 256) as u8 == (y / 256) as u8);
        assert(x == 256 * (x / 256) + x % 256);
        assert(y == 256 * (y / 256) + y % 256);
    }
    assert(a =~= b);
}

} // verus!
