//! What the tool is asked to do, what it runs, and where records go.

use crate::cli::{signing_of, Commands, Signing, Task};
use crate::gc::{gc_step, GcStep};
use crate::gc_laws::{law_variants_are_known_by_their_names, variant_name};
use crate::json::JsonTree;
use crate::lock::{
    lock_component_command, lock_pe_command, lock_raw_command, log_command, parsed_records,
    records_document, CommandModel, LockError,
};
use crate::lock_run::{LockReplyModel, LockRequestModel, LockState};
use crate::path::joined;
use crate::pcrlock::{bootloader_directory, lanzaboote_directory, pcrlock_file_name, record_path};
use vstd::prelude::*;
use vstd::utf8::*;

verus! {

/// The words that a program is started with: its arguments, and the file
/// behind them if there is one.
pub open spec fn words(command: CommandModel) -> Seq<Seq<u8>> {
    match command.file {
        Some(file) => command.arguments.push(file),
        None => command.arguments,
    }
}

/// `systemd-pcrlock` is told by its first argument what to do, and given
/// exactly the binary or the bytes that it is to look at: `lock-pe` a file,
/// `lock-raw` bytes for PCR 11 on its standard input, and `log` nothing. It is
/// the one below the given directory, but for writing component files.
pub proof fn law_programs_are_given_what_they_look_at(
    systemd: Seq<u8>,
    binary: Seq<u8>,
    component: Seq<u8>,
    data: Seq<u8>,
)
    ensures
        ({
            let program = joined(systemd, encode_utf8("lib/systemd/systemd-pcrlock"@));
            let pe = lock_pe_command(systemd, binary);
            let raw = lock_raw_command(systemd, data);
            let log = log_command(systemd);
            let own = lock_component_command(binary, component);
            &&& pe.program == program && words(pe) == seq![encode_utf8("lock-pe"@), binary]
                && pe.stdin is None
            &&& raw.program == program && words(raw) == seq![
                encode_utf8("lock-raw"@),
                encode_utf8("--pcr=11"@),
            ] && raw.stdin == Some(data)
            &&& log.program == program && words(log) == seq![
                encode_utf8("log"@),
                encode_utf8("--json=short"@),
            ] && log.stdin is None
            &&& own.program == encode_utf8("systemd-pcrlock"@) && words(own) == seq![
                encode_utf8("lock-pe"@),
                binary,
                encode_utf8("--pcrlock"@),
                component,
            ] && own.stdin is None
        }),
{
    assert(seq![encode_utf8("lock-pe"@)].push(binary) =~= seq![encode_utf8("lock-pe"@), binary]);
}

/// Measurements of the boot loader and of the stub are kept in directories of
/// their own, in files that end with `.pcrlock`.
pub proof fn law_measurements_are_kept_apart(pcrlock: Seq<u8>, name: Seq<char>)
    ensures
        bootloader_directory(pcrlock) == joined(
            pcrlock,
            encode_utf8("630-bootloader.pcrlock.d"@),
        ),
        lanzaboote_directory(pcrlock) == joined(
            pcrlock,
            encode_utf8("635-lanzaboote.pcrlock.d"@),
        ),
        pcrlock_file_name(name) == name + ".pcrlock"@,
        record_path(pcrlock, true, name) == joined(pcrlock, encode_utf8(name + ".pcrlock"@)),
        record_path(pcrlock, false, name) == pcrlock,
{
}

/// The places on the boot partition where a boot loader is looked for, the
/// preferred one first.
pub open spec fn boot_loader_places() -> Seq<Seq<char>> {
    seq![
        "EFI/BOOT/BOOTX64.EFI"@,
        "EFI/BOOT/BOOTAA64.EFI"@,
        "EFI/systemd/systemd-bootx64.efi"@,
        "EFI/systemd/systemd-bootaa64.efi"@,
    ]
}

/// A thin stub is read at once. A boot loader is looked for in one place after
/// the other: the removable media path first, then that of systemd-boot.
pub proof fn law_boot_loaders_are_looked_for_in_order(
    systemd: Seq<u8>,
    esp: Seq<u8>,
    pcrlock: Seq<u8>,
    binary: Seq<u8>,
    i: int,
)
    requires
        0 <= i < 4,
    ensures
        ({
            let stub = LockState::initial(true, systemd, esp, pcrlock, binary);
            let loader = LockState::initial(false, systemd, esp, pcrlock, binary);
            let place = |k: int| joined(esp, encode_utf8(boot_loader_places()[k]));
            let at = crate::lock_laws::probed(loader, i as nat);
            &&& stub.request() == LockRequestModel::ReadFile(binary)
            &&& at.request() == LockRequestModel::ProbeFile(place(i))
            &&& at.next(LockReplyModel::File(true)).request() == LockRequestModel::ReadFile(
                place(i),
            )
            &&& at.next(LockReplyModel::File(false)).request() == if i < 3 {
                LockRequestModel::ProbeFile(place(i + 1))
            } else {
                LockRequestModel::Finished(Err(LockError::NoBootLoader))
            }
        }),
{
    reveal_with_fuel(crate::lock_laws::probed, 5);
}

/// The document that is written holds the records and nothing else: reading it
/// as the output of a program gives them back.
pub proof fn law_documents_hold_the_records(records: Seq<JsonTree>)
    ensures
        parsed_records(Some(records_document(records))) == Ok::<Seq<JsonTree>, LockError>(records),
        records_document(records) == JsonTree::Object(
            seq![("records"@, JsonTree::Array(records))],
        ),
{
    let members = records_document(records)->Object_0;
    crate::course_laws::law_records_are_those_of_the_document(None, members, records, 0);
}

/// What is decided about a file by its name: a file with another ending than
/// `.pcrlock` stays, and so does the variant of a kept hash. Any other variant
/// is examined if there is an event log, and removed if there is none.
pub proof fn law_names_decide_about_files(
    keep: Seq<Seq<char>>,
    hash: Seq<char>,
    file_name: Seq<u8>,
    has_log: bool,
)
    requires
        hash.len() > 0,
    ensures
        gc_step(keep, variant_name(hash), has_log) == if exists|i: int|
            0 <= i < keep.len() && #[trigger] keep[i] == hash {
            GcStep::Retain
        } else if has_log {
            GcStep::Examine
        } else {
            GcStep::Remove
        },
        file_name.len() < 8 || file_name.skip(file_name.len() - 8) != seq![
            46u8,
            112,
            99,
            114,
            108,
            111,
            99,
            107,
        ] ==> gc_step(keep, file_name, has_log) == GcStep::Retain,
{
    law_variants_are_known_by_their_names(hash, file_name);
}

/// A command is carried out as the task of its own name, with the arguments
/// that it was given.
pub proof fn law_commands_are_carried_out_as_given(commands: Commands, task: Task)
    requires
        commands.stands_for(task),
    ensures
        commands is Install <==> task is Install,
        commands is Install ==> task->Install_0 == commands->Install_0,
        commands is LockBootLoader <==> task is LockBootLoader,
        commands is LockBootLoader ==> ({
            let (given, own) = (commands->LockBootLoader_0, task->LockBootLoader_0);
            own.systemd == given.systemd && own.esp == given.esp && own.pcrlock == given.pcrlock
        }),
        commands is LockThinStub <==> task is LockThinStub,
        commands is LockThinStub ==> ({
            let (given, own) = (commands->LockThinStub_0, task->LockThinStub_0);
            own.systemd == given.systemd && own.esp == given.esp && own.pcrlock == given.pcrlock
                && own.stub == given.stub
        }),
        commands is LockSysexts <==> task is LockSysexts,
        commands is LockSysexts ==> ({
            let (given, own) = (commands->LockSysexts_0, task->LockSysexts_0);
            own.systemd == given.systemd && own.esp == given.esp && own.pcrlock == given.pcrlock
        }),
        commands is GcPcrlock <==> task is Gc,
        commands is GcPcrlock ==> ({
            let (given, own) = (commands->GcPcrlock_0, task->Gc_0);
            own.systemd == given.systemd && own.pcrlock == given.pcrlock && own.keep == given.keep
        }),
{
}

/// Artifacts are never left unsigned without permission, nor where one of the
/// keys exists. With permission and without any key they are left unsigned,
/// and it makes no difference whether a key is missing or cannot be looked
/// for.
pub proof fn law_existing_keys_are_used(
    allow_unsigned: bool,
    public: Option<bool>,
    private: Option<bool>,
)
    ensures
        signing_of(false, public, private) == Signing::KeyPair,
        signing_of(allow_unsigned, Some(true), private) == Signing::KeyPair,
        signing_of(allow_unsigned, public, Some(true)) == Signing::KeyPair,
        signing_of(true, Some(false), Some(false)) == Signing::Unsigned,
        signing_of(allow_unsigned, None, private) == signing_of(
            allow_unsigned,
            Some(false),
            private,
        ),
        signing_of(allow_unsigned, public, None) == signing_of(
            allow_unsigned,
            public,
            Some(false),
        ),
{
}

} // verus!
