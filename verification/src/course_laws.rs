//! What follows each outcome of the work on companion files, of a measurement
//! and of locking, told from the requests.

use crate::companions::{
    found_files, CompanionInitrd, CompanionInitrdType, CompanionSource, DropinState, EntryModel,
};
use crate::digest::{hex, sha256_of};
use crate::discovery::{CompanionModel, DiscoveryReplyModel, DiscoveryRequestModel, DiscoveryState};
use crate::dropin_paths::{dropin_directory, suffix_selects};
use crate::gc_laws::lemma_name_index;
use crate::json::{json_document, member_names, name_index, JsonTree};
use crate::lock::{parsed_records, pcrlock_document, CommandModel, LockError, Payload};
use crate::lock_run::{LockReplyModel, LockRequestModel, LockState};
use crate::measure::{
    boot_loader_event, companion_events, companions_events, image_events, load_options_events,
    pcr_index_text, DescriptionModel, EventModel, MeasureReply, MeasureRequestModel, MeasureStage,
    MeasureState, StubVariable, STUB_VARIABLES,
};
use crate::measure_laws::lemma_image_event_of;
use crate::path::joined;
use crate::pe::PeModel;
use crate::status::Status;
use crate::ucs2::{ascii_text, path_in, path_order, ucs2};
use crate::unified_sections::UnifiedSection;
use vstd::prelude::*;
use vstd::utf8::*;

verus! {

/// The directory that holds a kind of companion files for all images.
pub open spec fn shared_directory(source: CompanionSource) -> Seq<u16> {
    if source == CompanionSource::Credentials {
        ucs2("\\loader\\credentials"@)->0
    } else {
        ucs2("\\loader\\extensions"@)->0
    }
}

/// The files of a directory that are of some kind: by their endings, and in
/// the order of their paths for extensions.
pub open spec fn files_of_kind(
    source: CompanionSource,
    directory: Seq<u16>,
    entries: Seq<Result<EntryModel, Status>>,
) -> Result<Seq<Seq<u16>>, Status> {
    match source {
        CompanionSource::Credentials => found_files(directory, entries, ".cred"@, None),
        CompanionSource::SystemExtensions => match found_files(
            directory,
            entries,
            ".raw"@,
            Some(".confext.raw"@),
        ) {
            Ok(files) => Ok(files.sort_by(path_order())),
            Err(status) => Err(status),
        },
        CompanionSource::ConfigurationExtensions => match found_files(
            directory,
            entries,
            ".confext.raw"@,
            None,
        ) {
            Ok(files) => Ok(files.sort_by(path_order())),
            Err(status) => Err(status),
        },
    }
}

/// Where files of some kind go in the initrd, and with which access modes.
/// Credentials are for the superuser alone.
pub open spec fn packing_of_kind(
    source: CompanionSource,
    global: bool,
    files: Seq<Seq<u16>>,
) -> DiscoveryRequestModel {
    DiscoveryRequestModel::PackFiles {
        files,
        target: match (source, global) {
            (CompanionSource::Credentials, false) => ".extra/credentials"@,
            (CompanionSource::Credentials, true) => ".extra/global_credentials"@,
            (CompanionSource::SystemExtensions, false) => ".extra/sysext"@,
            (CompanionSource::SystemExtensions, true) => ".extra/global_sysext"@,
            (CompanionSource::ConfigurationExtensions, false) => ".extra/confext"@,
            (CompanionSource::ConfigurationExtensions, true) => ".extra/global_confext"@,
        },
        directory_mode: if source == CompanionSource::Credentials {
            0o500
        } else {
            0o555
        },
        file_mode: if source == CompanionSource::Credentials {
            0o400
        } else {
            0o444
        },
    }
}

/// What the archive of files of some kind is passed on as.
pub open spec fn archive_of_kind(source: CompanionSource, global: bool) -> CompanionInitrdType {
    match (source, global) {
        (CompanionSource::Credentials, false) => CompanionInitrdType::Credentials,
        (CompanionSource::Credentials, true) => CompanionInitrdType::GlobalCredentials,
        (CompanionSource::SystemExtensions, false) => CompanionInitrdType::SystemExtension,
        (CompanionSource::SystemExtensions, true) => CompanionInitrdType::GlobalSystemExtension,
        (CompanionSource::ConfigurationExtensions, false) =>
            CompanionInitrdType::ConfigurationExtension,
        (CompanionSource::ConfigurationExtensions, true) =>
            CompanionInitrdType::GlobalConfigurationExtension,
    }
}

/// A discovery starts with the drop-in directory of the image, if there is
/// one, and with the directory for all images otherwise.
pub proof fn law_discovery_starts_with_the_image(
    source: CompanionSource,
    dropin: Option<Seq<u16>>,
)
    ensures
        DiscoveryState::initial(source, dropin).request() == match dropin {
            Some(directory) => DiscoveryRequestModel::ListDirectory(directory),
            None => DiscoveryRequestModel::ProbeExists(shared_directory(source)),
        },
        DiscoveryState::initial(source, dropin).companions == Seq::<CompanionModel>::empty(),
        DiscoveryState::initial(source, dropin).source == source,
        DiscoveryState::initial(source, dropin).dropin == dropin,
{
}

/// A drop-in directory is followed by the directory for all images, with an
/// archive in between if there is anything to pack. An entry that cannot be
/// read ends the discovery with its error, and so does an archive that cannot
/// be made.
pub proof fn law_discovery_takes_its_course(state: DiscoveryState, reply: DiscoveryReplyModel)
    requires
        state.valid(),
        state.awaits(reply),
    ensures
        ({
            let next = state.next(reply);
            let local = state.stage is ListLocal || state.stage is PackLocal;
            let directory = if local {
                state.dropin->0
            } else {
                shared_directory(state.source)
            };
            let after = if local {
                DiscoveryRequestModel::ProbeExists(shared_directory(state.source))
            } else {
                DiscoveryRequestModel::Finished(Ok(()))
            };
            &&& next.source == state.source
            &&& next.dropin == state.dropin
            &&& match (state.request(), reply) {
                (DiscoveryRequestModel::ListDirectory(listed), DiscoveryReplyModel::Entries(
                    entries,
                )) => listed == directory && next.companions == state.companions
                    && match files_of_kind(state.source, directory, entries) {
                    Ok(files) => next.request() == if files.len() == 0 {
                        after
                    } else {
                        packing_of_kind(state.source, !local, files)
                    },
                    Err(status) => next.request() == DiscoveryRequestModel::Finished(Err(status)),
                },
                (DiscoveryRequestModel::PackFiles { .. }, DiscoveryReplyModel::Packed(
                    Some(cpio),
                )) => next.request() == after && next.companions == state.companions.push(
                    CompanionModel { kind: archive_of_kind(state.source, !local), cpio },
                ),
                (DiscoveryRequestModel::PackFiles { .. }, DiscoveryReplyModel::Packed(None)) =>
                    next.request() == DiscoveryRequestModel::Finished(Err(Status::LoadError)),
                (DiscoveryRequestModel::ProbeExists(probed), DiscoveryReplyModel::Exists(exists)) =>
                    probed == directory && next.companions == state.companions && next.request()
                    == if exists {
                    DiscoveryRequestModel::QueryMetadata(directory)
                } else {
                    DiscoveryRequestModel::Finished(Ok(()))
                },
                (DiscoveryRequestModel::QueryMetadata(_), DiscoveryReplyModel::Directory(
                    is_directory,
                )) => next.companions == state.companions && next.request() == match is_directory {
                    Some(true) => DiscoveryRequestModel::ListDirectory(directory),
                    Some(false) => DiscoveryRequestModel::Finished(Ok(())),
                    None => DiscoveryRequestModel::Finished(Err(Status::VolumeCorrupted)),
                },
                _ => false,
            }
        }),
{
    if let DiscoveryReplyModel::Entries(entries) = reply {
        let directory = if state.stage is ListLocal {
            state.dropin->0
        } else {
            shared_directory(state.source)
        };
        if let Ok(files) = found_files(
            directory,
            entries,
            state.source.spec_suffix(),
            state.source.spec_excluded_suffix(),
        ) {
            crate::discovery_laws::lemma_arranged_len(state.source, files);
        }
    }
}

/// A directory is read entry by entry: files are found in the order of the
/// entries, and the first entry that cannot be read decides about the error.
pub proof fn law_directories_are_read_in_order(
    directory: Seq<u16>,
    a: Seq<Result<EntryModel, Status>>,
    b: Seq<Result<EntryModel, Status>>,
    suffix: Seq<char>,
    excluded: Option<Seq<char>>,
)
    ensures
        found_files(directory, a + b, suffix, excluded) == (match (
            found_files(directory, a, suffix, excluded),
            found_files(directory, b, suffix, excluded),
        ) {
            (Err(status), _) => Err::<Seq<Seq<u16>>, Status>(status),
            (Ok(_), Err(status)) => Err(status),
            (Ok(x), Ok(y)) => Ok(x + y),
        }),
    decreases b.len(),
{
    if b.len() == 0 {
        assert(a + b =~= a);
        if let Ok(x) = found_files(directory, a, suffix, excluded) {
            assert(x + Seq::<Seq<u16>>::empty() =~= x);
        }
    } else {
        let shorter = b.drop_last();
        law_directories_are_read_in_order(directory, a, shorter, suffix, excluded);
        assert((a + b).drop_last() =~= a + shorter);
        assert((a + b).last() == b.last());
        if let (Ok(x), Ok(y), Ok(entry)) = (
            found_files(directory, a, suffix, excluded),
            found_files(directory, shorter, suffix, excluded),
            b.last(),
        ) {
            let path = path_in(directory, entry.name);
            assert(x + y.push(path) =~= (x + y).push(path));
        }
    }
}

/// An entry is found if it is a regular file, its name is ASCII, and it has
/// the ending that is looked for and not the excluded one.
pub proof fn law_only_regular_files_are_found(
    directory: Seq<u16>,
    entry: EntryModel,
    status: Status,
    suffix: Seq<char>,
    excluded: Option<Seq<char>>,
)
    ensures
        ({
            let text = Seq::new(entry.name.len(), |i: int| entry.name[i] as u8 as char);
            let fits = entry.regular_file && (forall|i: int|
                0 <= i < entry.name.len() ==> #[trigger] entry.name[i] < 128) && suffix_selects(
                text,
                suffix,
                excluded,
            );
            found_files(directory, seq![Ok::<EntryModel, Status>(entry)], suffix, excluded) == Ok::<
                Seq<Seq<u16>>,
                Status,
            >(
                if fits {
                    seq![path_in(directory, entry.name)]
                } else {
                    Seq::empty()
                },
            )
        }),
        found_files(directory, seq![Err::<EntryModel, Status>(status)], suffix, excluded) == Err::<
            Seq<Seq<u16>>,
            Status,
        >(status),
{
    reveal_with_fuel(found_files, 2);
    let text = Seq::new(entry.name.len(), |i: int| entry.name[i] as u8 as char);
    assert(text =~= ascii_text(entry.name));
    let good = seq![Ok::<EntryModel, Status>(entry)];
    let bad = seq![Err::<EntryModel, Status>(status)];
    let none = Seq::<Result<EntryModel, Status>>::empty();
    assert(good.drop_last() =~= none);
    assert(bad.drop_last() =~= none);
    assert(Seq::<Seq<u16>>::empty().push(path_in(directory, entry.name)) =~= seq![
        path_in(directory, entry.name),
    ]);
}

/// Whether two paths are the same but for `/`, which becomes `\`.
pub open spec fn same_path(clean: Seq<u16>, path: Seq<u16>) -> bool {
    &&& clean.len() == path.len()
    &&& forall|i: int|
        0 <= i < path.len() ==> #[trigger] clean[i] == if path[i] == 47 {
            92
        } else {
            path[i]
        }
}

/// The drop-in directory of an image is looked for first, and the historical
/// one only if that is not there. The one that is there is used. Without the
/// path of the image, or with one that cannot be encoded, the search fails.
pub proof fn law_dropin_search_takes_its_course(image_path: Seq<char>)
    ensures
        DropinState::initial(None) == DropinState::Finished(Err(Status::NotFound)),
        ({
            let preferred = ucs2(dropin_directory(image_path));
            let legacy = ucs2(image_path + ".extra"@);
            let start = DropinState::initial(Some(image_path));
            let second = start.next(image_path, false);
            &&& start == match preferred {
                Some(path) => DropinState::Probe(path, false),
                None => DropinState::Finished(Err(Status::NotFound)),
            }
            &&& preferred is Some ==> second == match legacy {
                Some(path) => DropinState::Probe(path, true),
                None => DropinState::Finished(Err(Status::NotFound)),
            }
            &&& preferred is Some ==> (start.next(image_path, true) matches DropinState::Finished(
                Ok(Some(path)),
            ) && same_path(path, preferred->0))
            &&& preferred is Some && legacy is Some ==> {
                &&& (second.next(image_path, true) matches DropinState::Finished(Ok(Some(path)))
                    && same_path(path, legacy->0))
                &&& second.next(image_path, false) == DropinState::Finished(Ok(None))
            }
        }),
{
}

/// An error ends a measurement as it is; nothing else does. Logged events are
/// counted, and the variables that they call for are remembered.
pub proof fn law_measurement_ends_with_the_first_error(
    state: MeasureState,
    reply: MeasureReply,
    status: Status,
    variable: StubVariable,
)
    requires
        state.valid(),
        state.awaits(reply),
    ensures
        state.next(reply).request() == MeasureRequestModel::Finished(Err(status)) <==> reply
            == MeasureReply::Logged(Err(status)) || reply == MeasureReply::VariableSet(Err(status)),
        state.next(reply).events == state.events,
        state.next(reply).measurements == state.measurements + if reply == MeasureReply::Logged(
            Ok(true),
        ) {
            1nat
        } else {
            0
        },
        state.next(reply).variables.holds(variable) <==> state.variables.holds(variable) || (reply
            == MeasureReply::Logged(Ok(true)) && state.request()->LogEvent_0.variables.holds(
            variable,
        )),
{
}

/// The variables tell the booted system which PCR was extended: 11 for the
/// image, 12 for the command line, for credentials and for configuration
/// extensions, and 13 for system extensions. The number is written in UTF-16
/// and ends with a NUL.
pub proof fn law_variables_announce_their_pcr(variable: StubVariable)
    ensures
        ({
            let digit = match variable {
                StubVariable::KernelImage => 49u8,
                StubVariable::KernelParameters => 50u8,
                StubVariable::InitrdSysexts => 51u8,
                StubVariable::InitrdConfexts => 50u8,
            };
            pcr_index_text(variable.spec_pcr()) == seq![49u8, 0, digit, 0, 0, 0]
        }),
        variable.spec_name() == match variable {
            StubVariable::KernelImage => "StubPcrKernelImage"@,
            StubVariable::KernelParameters => "StubPcrKernelParameters"@,
            StubVariable::InitrdSysexts => "StubPcrInitRDSysExts"@,
            StubVariable::InitrdConfexts => "StubPcrInitRDConfExts"@,
        },
{
    reveal_with_fuel(crate::bytes::decimal_digits, 3);
    let pcr = variable.spec_pcr() as nat;
    assert(pcr / 10 == 1);
    assert(crate::bytes::decimal_digits(pcr) =~= seq![49u8, (48 + pcr % 10) as u8]);
    let text = pcr_index_text(variable.spec_pcr());
    assert(text =~= seq![49u8, 0, (48 + pcr % 10) as u8, 0, 0, 0]);
}

/// Whether an event calls for exactly these variables.
pub open spec fn calls_for(
    event: EventModel,
    image: bool,
    parameters: bool,
    sysexts: bool,
    confexts: bool,
) -> bool {
    &&& event.variables.holds(StubVariable::KernelImage) == image
    &&& event.variables.holds(StubVariable::KernelParameters) == parameters
    &&& event.variables.holds(StubVariable::InitrdSysexts) == sysexts
    &&& event.variables.holds(StubVariable::InitrdConfexts) == confexts
}

/// Credentials and configuration extensions are measured into PCR 12, system
/// extensions into PCR 13, each archive once and as a whole. PCR signatures
/// and public keys are not measured.
pub proof fn law_each_companion_goes_to_its_pcr(companion: CompanionInitrd)
    ensures
        ({
            let events = companions_events(seq![companion]);
            let event = events[0];
            match companion.kind {
                CompanionInitrdType::PcrSignature => events.len() == 0,
                CompanionInitrdType::PcrPublicKey => events.len() == 0,
                CompanionInitrdType::Credentials => events.len() == 1 && event.pcr == 12
                    && event.data == companion.cpio@ && event.description
                    == DescriptionModel::Ascii("Credentials initrd"@) && calls_for(
                    event,
                    false,
                    true,
                    false,
                    false,
                ),
                CompanionInitrdType::GlobalCredentials => events.len() == 1 && event.pcr == 12
                    && event.data == companion.cpio@ && event.description
                    == DescriptionModel::Ascii("Global credentials initrd"@) && calls_for(
                    event,
                    false,
                    true,
                    false,
                    false,
                ),
                CompanionInitrdType::SystemExtension => events.len() == 1 && event.pcr == 13
                    && event.data == companion.cpio@ && event.description
                    == DescriptionModel::Ascii("System extension initrd"@) && calls_for(
                    event,
                    false,
                    false,
                    true,
                    false,
                ),
                CompanionInitrdType::GlobalSystemExtension => events.len() == 1 && event.pcr == 13
                    && event.data == companion.cpio@ && event.description
                    == DescriptionModel::Ascii("Global system extension initrd"@) && calls_for(
                    event,
                    false,
                    false,
                    true,
                    false,
                ),
                CompanionInitrdType::ConfigurationExtension => events.len() == 1 && event.pcr == 12
                    && event.data == companion.cpio@ && event.description
                    == DescriptionModel::Ascii("Configuration extension initrd"@) && calls_for(
                    event,
                    false,
                    true,
                    false,
                    true,
                ),
                CompanionInitrdType::GlobalConfigurationExtension => events.len() == 1 && event.pcr
                    == 12 && event.data == companion.cpio@ && event.description
                    == DescriptionModel::Ascii("Global configuration extension initrd"@)
                    && calls_for(event, false, true, false, true),
            }
        }),
{
    let one = seq![companion];
    assert(one.drop_last() =~= Seq::<CompanionInitrd>::empty());
    assert(companions_events(one.drop_last()) =~= Seq::<EventModel>::empty());
    let own = companion_events(companion.kind, companion.cpio@);
    assert(companions_events(one) =~= own);
}

/// Whatever is measured of an image calls for the variable of the image, and
/// for no other.
pub proof fn law_images_are_announced(pe: PeModel, kernel: Seq<u8>, initrd: Seq<u8>, i: int)
    requires
        0 <= i < image_events(pe, kernel, initrd, 15).len(),
    ensures
        calls_for(image_events(pe, kernel, initrd, 15)[i], true, false, false, false),
        image_events(pe, kernel, initrd, 15)[i].pcr == 11,
{
    lemma_image_event_of(pe, kernel, initrd, 15, i);
}

/// Variables are set in a fixed order, each to the number of its PCR.
pub proof fn law_variables_are_set_to_their_pcr(state: MeasureState, k: usize)
    requires
        state.stage == MeasureStage::Announce(k),
        k < 4,
    ensures
        state.request() == if k == 0 {
            MeasureRequestModel::SetVariable(
                "StubPcrKernelImage"@,
                seq![49u8, 0, 49, 0, 0, 0],
            )
        } else if k == 1 {
            MeasureRequestModel::SetVariable(
                "StubPcrKernelParameters"@,
                seq![49u8, 0, 50, 0, 0, 0],
            )
        } else if k == 2 {
            MeasureRequestModel::SetVariable(
                "StubPcrInitRDSysExts"@,
                seq![49u8, 0, 51, 0, 0, 0],
            )
        } else {
            MeasureRequestModel::SetVariable(
                "StubPcrInitRDConfExts"@,
                seq![49u8, 0, 50, 0, 0, 0],
            )
        },
{
    law_variables_announce_their_pcr(STUB_VARIABLES@[k as int]);
}

/// Load options are measured into PCR 12 as they are, with a UTF-16 NUL behind
/// them unless they end with one, and described by themselves. Empty ones are
/// not measured. A boot loader is measured into PCR 4 as it is.
pub proof fn law_load_options_are_measured_whole(
    load_options: Seq<u8>,
    buffer: Seq<u8>,
    description: Seq<char>,
)
    ensures
        load_options.len() == 0 ==> load_options_events(load_options).len() == 0,
        load_options.len() > 0 ==> ({
            let events = load_options_events(load_options);
            let n = load_options.len() as int;
            let ended = n >= 2 && load_options[n - 1] == 0 && load_options[n - 2] == 0;
            &&& events.len() == 1
            &&& events[0].pcr == 12
            &&& events[0].data == if ended {
                load_options
            } else {
                load_options + seq![0u8, 0u8]
            }
            &&& events[0].description == DescriptionModel::Utf16Data
            &&& calls_for(events[0], false, true, false, false)
        }),
        ({
            let event = boot_loader_event(buffer, description);
            &&& event.pcr == 4
            &&& event.data == buffer
            &&& event.description == DescriptionModel::Ascii(description)
            &&& calls_for(event, false, false, false, false)
        }),
{
}

/// The program that prints the records of a PE binary.
pub open spec fn binary_recorder(systemd: Seq<u8>, binary: Seq<u8>) -> CommandModel {
    CommandModel {
        program: joined(systemd, encode_utf8("lib/systemd/systemd-pcrlock"@)),
        arguments: seq![encode_utf8("lock-pe"@)],
        file: Some(binary),
        stdin: None,
    }
}

/// The binary is hashed first, and nothing else is done if a file with its
/// records is there already: in a directory the one named after the hash, and
/// the given file itself otherwise.
pub proof fn law_locking_looks_for_records_first(state: LockState, reply: LockReplyModel)
    requires
        state.valid(),
        state.awaits(reply),
    ensures
        ({
            let next = state.next(reply);
            match (state.request(), reply) {
                (LockRequestModel::ProbeFile(path), LockReplyModel::File(true)) => next.request()
                    == LockRequestModel::ReadFile(path),
                (LockRequestModel::ReadFile(_), LockReplyModel::Contents(Some(bytes))) =>
                    next.request() == LockRequestModel::ProbeDirectory(state.pcrlock)
                    && next.pe_hash == hex(sha256_of(bytes)),
                (LockRequestModel::ReadFile(_), LockReplyModel::Contents(None)) => next.request()
                    == LockRequestModel::Finished(Err(LockError::Unavailable)),
                (LockRequestModel::ProbeDirectory(_), LockReplyModel::Directory(directory)) =>
                    next.request() == LockRequestModel::ProbeExists(
                    if directory {
                        joined(state.pcrlock, encode_utf8(state.pe_hash + ".pcrlock"@))
                    } else {
                        state.pcrlock
                    },
                ),
                (LockRequestModel::ProbeExists(_), LockReplyModel::Exists(exists)) => next.request()
                    == if exists {
                    LockRequestModel::Finished(Ok(()))
                } else if state.thin_stub {
                    LockRequestModel::ReadSections { stub: state.binary, esp: state.esp }
                } else {
                    LockRequestModel::Run(binary_recorder(state.systemd, state.binary))
                },
                _ => true,
            }
        }),
        state.next(reply).systemd == state.systemd,
        state.next(reply).esp == state.esp,
        state.next(reply).pcrlock == state.pcrlock,
        state.next(reply).thin_stub == state.thin_stub,
        state.stage !is Directory ==> state.next(reply).path == state.path,
{
}

/// A thin stub has to say where both of its payloads are, and to hold the hash
/// of each. Both are read, the kernel first, before anything is recorded.
pub proof fn law_stubs_have_to_name_their_payloads(state: LockState, reply: LockReplyModel)
    requires
        state.valid(),
        state.awaits(reply),
    ensures
        ({
            let next = state.next(reply);
            match (state.request(), reply) {
                (LockRequestModel::ReadSections { .. }, LockReplyModel::Sections(None)) =>
                    next.request() == LockRequestModel::Finished(Err(LockError::Unavailable)),
                (LockRequestModel::ReadSections { .. }, LockReplyModel::Sections(Some(stub))) => {
                    &&& stub.kernel_path is Missing ==> next.request()
                        == LockRequestModel::Finished(
                        Err(LockError::MissingSection(UnifiedSection::Linux)),
                    )
                    &&& stub.kernel_path is Unresolvable ==> next.request()
                        == LockRequestModel::Finished(Err(LockError::Unavailable))
                    &&& stub.kernel_path is Resolved && stub.initrd_path is Missing
                        ==> next.request() == LockRequestModel::Finished(
                        Err(LockError::MissingSection(UnifiedSection::Initrd)),
                    )
                    &&& stub.kernel_path is Resolved && stub.initrd_path is Unresolvable
                        ==> next.request() == LockRequestModel::Finished(
                        Err(LockError::Unavailable),
                    )
                    &&& stub.kernel_path is Resolved && stub.initrd_path is Resolved
                        ==> next.request() == if stub.kernel_hash is Some {
                        LockRequestModel::ReadPayload(
                            Payload::Kernel,
                            stub.kernel_path->Resolved_0,
                        )
                    } else {
                        LockRequestModel::Finished(Err(LockError::MissingHash(Payload::Kernel)))
                    }
                },
                (LockRequestModel::ReadPayload(_, _), LockReplyModel::Payload(None)) =>
                    next.request() == LockRequestModel::Finished(Err(LockError::Unavailable)),
                (
                    LockRequestModel::ReadPayload(Payload::Kernel, _),
                    LockReplyModel::Payload(Some(kernel)),
                ) => {
                    let stub = state.stub->0;
                    next.request() == if stub.kernel_hash != Some(sha256_of(kernel)) {
                        LockRequestModel::Finished(Err(LockError::Mismatch(Payload::Kernel)))
                    } else if stub.initrd_hash is None {
                        LockRequestModel::Finished(Err(LockError::MissingHash(Payload::Initrd)))
                    } else {
                        LockRequestModel::ReadPayload(
                            Payload::Initrd,
                            stub.initrd_path->Resolved_0,
                        )
                    }
                },
                (
                    LockRequestModel::ReadPayload(Payload::Initrd, _),
                    LockReplyModel::Payload(Some(initrd)),
                ) => next.request() == if state.stub->0.initrd_hash != Some(sha256_of(initrd)) {
                    LockRequestModel::Finished(Err(LockError::Mismatch(Payload::Initrd)))
                } else {
                    LockRequestModel::Run(binary_recorder(state.systemd, state.binary))
                },
                _ => true,
            }
        }),
{
}

/// One program after the other is run. Each has to succeed and to print
/// records, which are added to those before; behind the last of them the
/// records are written, and locking succeeds if and only if they were.
pub proof fn law_records_are_collected_and_written(state: LockState, reply: LockReplyModel)
    requires
        state.valid(),
        state.awaits(reply),
    ensures
        ({
            let next = state.next(reply);
            match (state.request(), reply) {
                (LockRequestModel::Run(_), LockReplyModel::Output(None)) => next.request()
                    == LockRequestModel::Finished(Err(LockError::Unavailable)),
                (LockRequestModel::Run(_), LockReplyModel::Output(Some((false, _)))) =>
                    next.request() == LockRequestModel::Finished(Err(LockError::CommandFailed)),
                (LockRequestModel::Run(_), LockReplyModel::Output(Some((true, stdout)))) =>
                    match parsed_records(json_document(stdout)) {
                    Err(error) => next.request() == LockRequestModel::Finished(Err(error)),
                    Ok(records) => {
                        &&& next.records == state.records + records
                        &&& if state.done + 1 < state.commands.len() {
                            next.request() == LockRequestModel::Run(
                                state.commands[state.done as int + 1],
                            )
                        } else {
                            match pcrlock_document(state.records + records) {
                                Ok(document) => next.request() == LockRequestModel::WriteFile(
                                    state.path,
                                    document,
                                ),
                                Err(error) => next.request() == LockRequestModel::Finished(
                                    Err(error),
                                ),
                            }
                        }
                    },
                },
                (LockRequestModel::WriteFile(_, _), LockReplyModel::Written(written)) =>
                    next.request() == LockRequestModel::Finished(
                    if written {
                        Ok(())
                    } else {
                        Err(LockError::Unavailable)
                    },
                ),
                _ => true,
            }
        }),
{
}

/// The records that a program printed are those of the member `records` of the
/// printed object, which has to be an array.
pub proof fn law_records_are_those_of_the_document(
    document: Option<JsonTree>,
    members: Seq<(Seq<char>, JsonTree)>,
    records: Seq<JsonTree>,
    i: int,
)
    requires
        0 <= i < members.len(),
        members[i].0 == "records"@,
        forall|j: int| 0 <= j < i ==> (#[trigger] members[j]).0 != "records"@,
    ensures
        parsed_records(None) == Err::<Seq<JsonTree>, LockError>(LockError::InvalidJson),
        document is Some && document->0 !is Object ==> parsed_records(document) == Err::<
            Seq<JsonTree>,
            LockError,
        >(LockError::MissingRecords),
        parsed_records(Some(JsonTree::Object(members))) == (match members[i].1 {
            JsonTree::Array(own) => Ok::<Seq<JsonTree>, LockError>(own),
            _ => Err(LockError::MissingRecords),
        }),
        parsed_records(Some(JsonTree::Object(members.take(i)))) == Err::<Seq<JsonTree>, LockError>(
            LockError::MissingRecords,
        ),
{
    let names = member_names(members);
    lemma_name_index(names, "records"@);
    assert(names[i] == "records"@);
    let at = name_index(names, "records"@);
    if at < i {
        assert(names[at] == members[at].0);
    }
    let earlier = member_names(members.take(i));
    lemma_name_index(earlier, "records"@);
    let before = name_index(earlier, "records"@);
    if before >= 0 {
        assert(earlier[before] == members[before].0);
    }
}

} // verus!
