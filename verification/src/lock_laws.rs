//! What holds of every attempt to lock a boot component.

use crate::digest::{hex, hex_digit, sha256_of};
use crate::gc::{is_hex_digit, recorded_digests, records_digest, removed, variant_hash};
use crate::json::{json_document, member, member_names, name_index, JsonTree};
use crate::lock::{
    integral_records, parsed_records, pcrlock_document, recorded_data, recorded_inputs,
    records_document, stub_commands, LockError, Payload,
};
use crate::lock_run::{
    boot_loader_candidate, LockReplyModel, LockRequestModel, LockRun, LockStage, LockState,
};
use crate::measure::{
    image_events, measured_data, repeated_events, section_events, terminated_name, EventModel,
};
use crate::path::{joined, last_dot, DOT, SEPARATOR};
use crate::pcrlock::{pcrlock_file_name, record_path};
use crate::pe::{first_named, readable_names, PeModel, SectionModel};
use crate::unified_sections::{
    UnifiedSection, UnifiedSectionDataSource, UNIFIED_SECTION_ORDER,
};
use vstd::prelude::*;
use vstd::utf8::*;

verus! {

/// The data of each event.
pub open spec fn event_data(events: Seq<EventModel>) -> Seq<Seq<u8>> {
    events.map_values(|event: EventModel| event.data)
}

/// Whether no name occurs twice.
pub open spec fn distinct(names: Seq<Seq<char>>) -> bool {
    forall|i: int, j: int|
        0 <= i < j < names.len() ==> #[trigger] names[i] != #[trigger] names[j]
}

proof fn lemma_repeated_absent(
    names: Seq<Seq<char>>,
    section: UnifiedSection,
    data: Option<Seq<u8>>,
)
    requires
        !names.contains(section.spec_name()),
    ensures
        repeated_events(names, section, data) == Seq::<EventModel>::empty(),
    decreases names.len(),
{
    if names.len() > 0 {
        assert(names[names.len() - 1] == names.last());
        assert(!names.drop_last().contains(section.spec_name())) by {
            if names.drop_last().contains(section.spec_name()) {
                let i = choose|i: int|
                    0 <= i < names.drop_last().len() && names.drop_last()[i] == section.spec_name();
                assert(names[i] == section.spec_name());
            }
        }
        lemma_repeated_absent(names.drop_last(), section, data);
    }
}

proof fn lemma_repeated_once(
    names: Seq<Seq<char>>,
    section: UnifiedSection,
    data: Option<Seq<u8>>,
)
    requires
        distinct(names),
        names.contains(section.spec_name()),
    ensures
        repeated_events(names, section, data) == section_events(section, data),
    decreases names.len(),
{
    let rest = names.drop_last();
    let at = choose|i: int| 0 <= i < names.len() && names[i] == section.spec_name();
    if at == names.len() - 1 {
        if rest.contains(section.spec_name()) {
            let i = choose|i: int| 0 <= i < rest.len() && rest[i] == section.spec_name();
            assert(names[i] == names[at]);
        }
        lemma_repeated_absent(rest, section, data);
        assert(Seq::<EventModel>::empty() + section_events(section, data) =~= section_events(
            section,
            data,
        ));
    } else {
        assert(rest[at] == section.spec_name());
        assert(names.last() == names[names.len() - 1]);
        assert(names[at] != names[names.len() - 1]);
        assert(distinct(rest)) by {
            assert forall|i: int, j: int| 0 <= i < j < rest.len() implies #[trigger] rest[i]
                != #[trigger] rest[j] by {
                assert(names[i] != names[j]);
            }
        }
        lemma_repeated_once(rest, section, data);
    }
}

proof fn lemma_named_is_readable(sections: Seq<SectionModel>, name: Seq<char>)
    ensures
        first_named(sections, name) is Some ==> readable_names(sections).contains(name),
    decreases sections.len(),
{
    if first_named(sections, name) is Some {
        lemma_first_named_at(sections, name);
        let i = choose|i: int|
            0 <= i < sections.len() && (#[trigger] sections[i]).name == Some(name);
        lemma_readable_contains(sections, i);
    }
}

proof fn lemma_first_named_at(sections: Seq<SectionModel>, name: Seq<char>)
    requires
        first_named(sections, name) is Some,
    ensures
        exists|i: int| 0 <= i < sections.len() && (#[trigger] sections[i]).name == Some(name),
    decreases sections.len(),
{
    if sections[0].name != Some(name) {
        lemma_first_named_at(sections.drop_first(), name);
        let i = choose|i: int|
            0 <= i < sections.drop_first().len() && (#[trigger] sections.drop_first()[i]).name
                == Some(name);
        assert(sections[i + 1].name == Some(name));
    }
}

proof fn lemma_readable_contains(sections: Seq<SectionModel>, i: int)
    requires
        0 <= i < sections.len(),
        sections[i].name is Some,
    ensures
        readable_names(sections).contains(sections[i].name->0),
    decreases sections.len(),
{
    let before = readable_names(sections.drop_last());
    let all = readable_names(sections);
    let name = sections[i].name->0;
    if i == sections.len() - 1 {
        assert(all[all.len() - 1] == name);
    } else {
        lemma_readable_contains(sections.drop_last(), i);
        let k = choose|k: int| 0 <= k < before.len() && before[k] == name;
        assert(all[k] == name);
    }
}

/// The bytes whose hashes are predicted for PCR 11 are those that the booted
/// stub measures, in the same order: if the stub names no section twice, names
/// both of its payloads, and the recorded contents are those of the image.
pub proof fn law_predictions_match_measurements(
    pe: PeModel,
    embedded: Seq<Option<Seq<u8>>>,
    kernel: Seq<u8>,
    initrd: Seq<u8>,
)
    requires
        distinct(readable_names(pe.sections)),
        readable_names(pe.sections).contains(".linux"@),
        readable_names(pe.sections).contains(".initrd"@),
        forall|section: UnifiedSection|
            section.source() == UnifiedSectionDataSource::Embedded
                ==> #[trigger] embedded[section.rank()] == pe.contents(section.spec_name()),
    ensures
        recorded_inputs(embedded, kernel, initrd, 15) == event_data(
            image_events(pe, kernel, initrd, 15),
        ),
{
    lemma_predictions(pe, embedded, kernel, initrd, 15);
}

proof fn lemma_predictions(
    pe: PeModel,
    embedded: Seq<Option<Seq<u8>>>,
    kernel: Seq<u8>,
    initrd: Seq<u8>,
    n: nat,
)
    requires
        n <= 15,
        distinct(readable_names(pe.sections)),
        readable_names(pe.sections).contains(".linux"@),
        readable_names(pe.sections).contains(".initrd"@),
        forall|section: UnifiedSection|
            section.source() == UnifiedSectionDataSource::Embedded
                ==> #[trigger] embedded[section.rank()] == pe.contents(section.spec_name()),
    ensures
        recorded_inputs(embedded, kernel, initrd, n) == event_data(
            image_events(pe, kernel, initrd, n),
        ),
    decreases n,
{
    if n == 0 {
        assert(event_data(image_events(pe, kernel, initrd, 0)) =~= Seq::<Seq<u8>>::empty());
        return ;
    }
    let section = UNIFIED_SECTION_ORDER@[n - 1];
    let names = readable_names(pe.sections);
    let data = measured_data(pe, kernel, initrd, section);
    let before = image_events(pe, kernel, initrd, (n - 1) as nat);
    lemma_predictions(pe, embedded, kernel, initrd, (n - 1) as nat);
    assert(embedded[section.rank()] == embedded[section.rank()]);
    assert(recorded_data(embedded, kernel, initrd, section) == data);
    if names.contains(section.spec_name()) {
        lemma_repeated_once(names, section, data);
    } else {
        lemma_repeated_absent(names, section, data);
        lemma_named_is_readable(pe.sections, section.spec_name());
        assert(data is None);
    }
    if section.is_measured() {
        let own = repeated_events(names, section, data);
        assert(event_data(before + own) =~= event_data(before) + event_data(own));
        if let Some(bytes) = data {
            assert(event_data(own) =~= seq![terminated_name(section), bytes]);
        } else {
            assert(event_data(before + own) =~= event_data(before));
        }
    }
}

/// Commands are run only once both payloads have the hashes that the stub
/// holds, and they are given exactly the bytes that were verified.
pub proof fn law_verified_payloads_are_recorded(state: LockState, initrd: Seq<u8>)
    requires
        state.valid(),
        state.stage is ReadInitrd,
        state.next(LockReplyModel::Payload(Some(initrd))).stage is Run,
    ensures
        state.stub->0.kernel_hash == Some(sha256_of(state.kernel)),
        state.stub->0.initrd_hash == Some(sha256_of(initrd)),
        state.next(LockReplyModel::Payload(Some(initrd))).commands == stub_commands(
            state.systemd,
            state.binary,
            recorded_inputs(state.stub->0.embedded, state.kernel, initrd, 15),
        ),
{
}

/// A payload with another hash is never recorded.
pub proof fn law_altered_payloads_are_refused(state: LockState, payload: Seq<u8>)
    requires
        state.valid(),
    ensures
        state.stage is ReadKernel && state.stub->0.kernel_hash != Some(sha256_of(payload))
            ==> state.next(LockReplyModel::Payload(Some(payload))) == state.failed(
            LockError::Mismatch(Payload::Kernel),
        ),
        state.stage is ReadInitrd && state.stub->0.initrd_hash != Some(sha256_of(payload))
            ==> state.next(LockReplyModel::Payload(Some(payload))) == state.failed(
            LockError::Mismatch(Payload::Initrd),
        ),
{
}

/// A component that is recorded already is neither locked nor written again.
pub proof fn law_existing_records_are_left_alone(state: LockState)
    requires
        state.stage is Exists,
    ensures
        state.next(LockReplyModel::Exists(true)).request() == LockRequestModel::Finished(Ok(())),
        state.next(LockReplyModel::Exists(true)).pe_hash == state.pe_hash,
{
}

/// The hash that is reported is that of the binary's contents as they were
/// read: it is computed from them and never changes afterwards.
pub proof fn law_reported_hash_is_that_of_the_binary(
    state: LockState,
    contents: Seq<u8>,
    reply: LockReplyModel,
)
    requires
        state.awaits(reply),
    ensures
        state.stage is Hash ==> state.request() == LockRequestModel::ReadFile(state.binary)
            && state.next(LockReplyModel::Contents(Some(contents))).pe_hash == hex(
            sha256_of(contents),
        ),
        state.stage !is Hash ==> state.next(reply).pe_hash == state.pe_hash,
        state.stage !is Discover ==> state.next(reply).binary == state.binary,
{
}

/// The state after the places before `k` turned out to be empty.
pub open spec fn probed(state: LockState, k: nat) -> LockState
    decreases k,
{
    if k == 0 {
        state
    } else {
        probed(state, (k - 1) as nat).next(LockReplyModel::File(false))
    }
}

/// The boot loader is taken from the first place where there is one; without
/// any the attempt fails.
pub proof fn law_first_boot_loader_is_locked(
    systemd: Seq<u8>,
    esp: Seq<u8>,
    pcrlock: Seq<u8>,
    k: nat,
)
    ensures
        ({
            let start = LockState::initial(false, systemd, esp, pcrlock, Seq::empty());
            &&& k < 4 ==> probed(start, k).request() == LockRequestModel::ProbeFile(
                boot_loader_candidate(esp, k),
            )
            &&& k < 4 ==> probed(start, k).next(LockReplyModel::File(true)).request()
                == LockRequestModel::ReadFile(boot_loader_candidate(esp, k))
            &&& probed(start, 4).request() == LockRequestModel::Finished(
                Err(LockError::NoBootLoader),
            )
        }),
{
    reveal_with_fuel(probed, 5);
}

/// The state after commands printed the given outputs.
pub open spec fn after_outputs(state: LockState, outputs: Seq<Seq<u8>>) -> LockState
    decreases outputs.len(),
{
    if outputs.len() == 0 {
        state
    } else {
        after_outputs(state, outputs.drop_last()).next(
            LockReplyModel::Output(Some((true, outputs.last()))),
        )
    }
}

/// The records of several outputs, one after the other.
pub open spec fn printed_records(outputs: Seq<Seq<u8>>) -> Seq<JsonTree>
    decreases outputs.len(),
{
    if outputs.len() == 0 {
        Seq::empty()
    } else {
        printed_records(outputs.drop_last()) + parsed_records(json_document(outputs.last()))->Ok_0
    }
}

proof fn lemma_records_so_far(state: LockState, outputs: Seq<Seq<u8>>)
    requires
        state.stage is Run,
        state.done == 0,
        state.records == Seq::<JsonTree>::empty(),
        outputs.len() < state.commands.len(),
        forall|i: int|
            0 <= i < outputs.len() ==> parsed_records(json_document(#[trigger] outputs[i])) is Ok,
    ensures
        after_outputs(state, outputs) == (LockState {
            done: outputs.len(),
            records: printed_records(outputs),
            ..state
        }),
    decreases outputs.len(),
{
    if outputs.len() > 0 {
        let before = outputs.drop_last();
        assert forall|i: int| 0 <= i < before.len() implies parsed_records(
            json_document(#[trigger] before[i]),
        ) is Ok by {
            assert(before[i] == outputs[i]);
        }
        lemma_records_so_far(state, before);
        assert(outputs.last() == outputs[outputs.len() - 1]);
    }
}

/// What is written in the end are the records of all commands, in the order of
/// the commands.
pub proof fn law_all_records_are_written(state: LockState, outputs: Seq<Seq<u8>>)
    requires
        state.stage is Run,
        state.done == 0,
        state.records == Seq::<JsonTree>::empty(),
        outputs.len() == state.commands.len(),
        outputs.len() > 0,
        forall|i: int|
            0 <= i < outputs.len() ==> parsed_records(json_document(#[trigger] outputs[i])) is Ok,
    ensures
        match pcrlock_document(printed_records(outputs)) {
            Ok(document) => after_outputs(state, outputs).request() == LockRequestModel::WriteFile(
                state.path,
                document,
            ),
            Err(error) => after_outputs(state, outputs).request() == LockRequestModel::Finished(
                Err(error),
            ),
        },
{
    let before = outputs.drop_last();
    assert forall|i: int| 0 <= i < before.len() implies parsed_records(
        json_document(#[trigger] before[i]),
    ) is Ok by {
        assert(before[i] == outputs[i]);
    }
    lemma_records_so_far(state, before);
    assert(outputs.last() == outputs[outputs.len() - 1]);
}

/// The records are read back from the file that is written, if all numbers in
/// them are integers.
pub proof fn law_written_records_are_read_back(run: LockRun)
    requires
        run.wf(),
        run@.stage is Write,
        integral_records(run@.records),
    ensures
        run@.request() == LockRequestModel::WriteFile(run@.path, run@.document),
        json_document(run@.document) == Some(records_document(run@.records)),
        parsed_records(json_document(run@.document)) == Ok::<Seq<JsonTree>, LockError>(
            run@.records,
        ),
{
    run.lemma_valid();
    let members = records_document(run@.records)->Object_0;
    assert(members =~= seq![("records"@, JsonTree::Array(run@.records))]);
    assert(member_names(members) =~= seq!["records"@]);
    assert(name_index(member_names(members), "records"@) == 0);
}

/// A file that was written for a binary of this boot is not collected: it
/// stays if the event log holds all digests that its records hold, and there
/// is at least one.
pub proof fn law_booted_components_stay_recorded(
    run: LockRun,
    keep: Seq<Seq<char>>,
    file_name: Seq<u8>,
    log: Set<Seq<char>>,
)
    requires
        run.wf(),
        run@.stage is Write,
        integral_records(run@.records),
        exists|i: int, digest: Seq<char>|
            0 <= i < run@.records.len() && #[trigger] records_digest(run@.records[i], digest),
        forall|i: int, digest: Seq<char>|
            0 <= i < run@.records.len() && #[trigger] records_digest(run@.records[i], digest)
                ==> log.contains(digest),
    ensures
        !removed(keep, file_name, Some(log), Some(run@.document)),
{
    law_written_records_are_read_back(run);
    let records = run@.records;
    let document = records_document(records);
    assert forall|digest: Seq<char>|
        records_digest(document, digest) <==> exists|i: int|
            0 <= i < records.len() && records_digest(#[trigger] records[i], digest) by {
        lemma_digests_of_document(records, digest);
    }
    let (i, digest) = choose|i: int, digest: Seq<char>|
        0 <= i < records.len() && #[trigger] records_digest(records[i], digest);
    assert(recorded_digests(document).contains(digest));
}

proof fn lemma_digests_of_document(records: Seq<JsonTree>, digest: Seq<char>)
    ensures
        records_digest(records_document(records), digest) <==> exists|i: int|
            0 <= i < records.len() && records_digest(#[trigger] records[i], digest),
{
    let array = JsonTree::Array(records);
    let members = records_document(records)->Object_0;
    assert(members =~= seq![("records"@, array)]);
    assert("records"@ != "digest"@) by {
        reveal_strlit("records");
        reveal_strlit("digest");
        assert("records"@.len() != "digest"@.len());
    }
    let names = member_names(members);
    assert(names =~= seq!["records"@]);
    assert(names.drop_first() =~= Seq::<Seq<char>>::empty());
    assert(name_index(names.drop_first(), "digest"@) == -1);
    assert(name_index(names, "digest"@) == -1);
    assert(member(members, "digest"@) is None);
    assert(members[0].1 == array);
    let document = records_document(records);
    if exists|i: int| 0 <= i < records.len() && records_digest(#[trigger] records[i], digest) {
        let i = choose|i: int|
            0 <= i < records.len() && records_digest(#[trigger] records[i], digest);
        assert(records_digest(array, digest)) by {
            reveal_with_fuel(records_digest, 2);
            assert(records_digest(array->Array_0[i], digest));
        }
        assert(records_digest(members[0].1, digest));
        assert(records_digest(document, digest));
    }
    if records_digest(document, digest) {
        let i = choose|i: int|
            0 <= i < members.len() && records_digest((#[trigger] members[i]).1, digest);
        assert(records_digest(array, digest));
        let k = choose|k: int|
            0 <= k < records.len() && records_digest(#[trigger] records[k], digest);
        assert(records_digest(records[k], digest));
    }
}

/// The hash that is reported for a binary is the one to keep its variant by:
/// in the directory of variants, the file that holds its records is named
/// after that hash and stays as long as the hash is kept.
pub proof fn law_kept_hashes_keep_their_variants(
    pcrlock: Seq<u8>,
    digest: Seq<u8>,
    keep: Seq<Seq<char>>,
    log: Option<Set<Seq<char>>>,
    contents: Option<Seq<u8>>,
)
    requires
        digest.len() > 0,
    ensures
        ({
            let file_name = encode_utf8(pcrlock_file_name(hex(digest)));
            &&& record_path(pcrlock, true, hex(digest)) == joined(pcrlock, file_name)
            &&& !file_name.contains(SEPARATOR)
            &&& variant_hash(file_name) == Some(hex(digest))
            &&& keep.contains(hex(digest)) ==> !removed(keep, file_name, log, contents)
        }),
{
    let hash = hex(digest);
    let name = pcrlock_file_name(hash);
    let file_name = encode_utf8(name);
    reveal_strlit(".pcrlock");
    reveal_strlit("pcrlock");
    assert forall|i: int| 0 <= i < hash.len() implies is_hex_digit(#[trigger] hash[i]) by {
        let byte = digest[i / 2] as int;
        assert(0 <= byte / 16 < 16 && 0 <= byte % 16 < 16);
        lemma_hex_digit(byte / 16);
        lemma_hex_digit(byte % 16);
    }
    assert(is_ascii_chars(hash));
    assert(is_ascii_chars("pcrlock"@));
    assert(is_ascii_chars(name));
    is_ascii_chars_encode_utf8(hash);
    is_ascii_chars_encode_utf8("pcrlock"@);
    is_ascii_chars_encode_utf8(name);
    let at = hash.len() as int;
    assert forall|i: int| 0 <= i < file_name.len() implies #[trigger] file_name[i]
        != SEPARATOR by {
        assert(file_name[i] == name[i] as u8);
    }
    assert(file_name[at] == DOT) by {
        assert(name[at] == '.');
    }
    assert forall|i: int| at < i < file_name.len() implies #[trigger] file_name[i] != DOT by {
        assert(name[i] == ".pcrlock"@[i - at]);
    }
    lemma_last_dot(file_name, at);
    assert(file_name.take(at) =~= encode_utf8(hash)) by {
        assert forall|i: int| 0 <= i < at implies file_name[i] == encode_utf8(hash)[i] by {
            assert(name[i] == hash[i]);
        }
    }
    assert(file_name.skip(at + 1) =~= encode_utf8("pcrlock"@)) by {
        assert forall|i: int| 0 <= i < 7 implies file_name[at + 1 + i] == encode_utf8(
            "pcrlock"@,
        )[i] by {
            assert(name[at + 1 + i] == "pcrlock"@[i]);
        }
    }
    encode_utf8_valid_utf8(hash);
    encode_utf8_decode_utf8(hash);
}

proof fn lemma_hex_digit(n: int)
    requires
        0 <= n < 16,
    ensures
        is_hex_digit(hex_digit(n)),
{
}

/// The last dot of a name is the one behind which no other stands.
pub proof fn lemma_last_dot(name: Seq<u8>, at: int)
    requires
        0 <= at < name.len(),
        name[at] == DOT,
        forall|i: int| at < i < name.len() ==> #[trigger] name[i] != DOT,
    ensures
        last_dot(name) == at,
    decreases name.len(),
{
    if at < name.len() - 1 {
        assert(name.last() == name[name.len() - 1]);
        lemma_last_dot(name.drop_last(), at);
    }
}

/// How far a run is from its end: the phase first, then the steps within it.
pub open spec fn distance(state: LockState) -> (nat, nat) {
    match state.stage {
        LockStage::Discover(i) => (8, if i < 4 {
            (4 - i) as nat
        } else {
            0
        }),
        LockStage::Hash => (7, 0),
        LockStage::Directory => (6, 0),
        LockStage::Exists => (5, 0),
        LockStage::Sections => (4, 0),
        LockStage::ReadKernel => (3, 1),
        LockStage::ReadInitrd => (3, 0),
        LockStage::Run => (2, if state.done < state.commands.len() {
            (state.commands.len() - state.done) as nat
        } else {
            0
        }),
        LockStage::Write => (1, 0),
        LockStage::Finished(_) => (0, 0),
    }
}

/// Every outcome leads to a valid state that is closer to the end.
pub proof fn law_locking_terminates(state: LockState, reply: LockReplyModel)
    requires
        state.valid(),
        state.awaits(reply),
    ensures
        state.next(reply).valid(),
        ({
            let before = distance(state);
            let after = distance(state.next(reply));
            after.0 < before.0 || (after.0 == before.0 && after.1 < before.1)
        }),
{
}

} // verus!
