//! Which sections of an image are measured, and that the same bytes are
//! recorded for them.

use crate::lock::{recorded_inputs, stub_commands};
use crate::lock_laws::{distinct, event_data, law_predictions_match_measurements};
use crate::measure::{
    image_events, measured_data, repeated_events, section_events, DescriptionModel, EventModel,
};
use crate::measure_laws::{law_names_and_data_alternate, lemma_image_event_of};
use crate::path::joined;
use crate::pe::{readable_names, section_contents, PeLayout, PeModel, SectionModel};
use crate::unified_sections::{
    law_canonical_order, law_names_are_unique, UnifiedSection, UnifiedSectionDataSource,
    UNIFIED_SECTION_ORDER,
};
use vstd::prelude::*;
use vstd::utf8::*;

verus! {

/// The names of the sections, in the order in which they are measured.
pub open spec fn canonical_names() -> Seq<Seq<char>> {
    seq![
        ".linux"@,
        ".osrel"@,
        ".cmdline"@,
        ".initrd"@,
        ".ucode"@,
        ".splash"@,
        ".dtb"@,
        ".uname"@,
        ".sbat"@,
        ".pcrsig"@,
        ".pcrpkey"@,
        ".profile"@,
        ".dtbauto"@,
        ".hwids"@,
        ".efifw"@,
    ]
}

/// The sections stand in the canonical order of their names, each of them can
/// be told from its name, and only `.pcrsig` and `.dtbauto` are not measured.
/// The kernel and the initrd are those that were loaded; everything else comes
/// from the image.
pub proof fn law_sections_are_known_by_name(section: UnifiedSection)
    ensures
        UNIFIED_SECTION_ORDER@.map_values(|s: UnifiedSection| s.spec_name()) == canonical_names(),
        canonical_names()[section.rank()] == section.spec_name(),
        section.is_measured() <==> section.spec_name() != ".pcrsig"@ && section.spec_name()
            != ".dtbauto"@,
        section.source() == UnifiedSectionDataSource::ExternalKernel <==> section.spec_name()
            == ".linux"@,
        section.source() == UnifiedSectionDataSource::ExternalInitrd <==> section.spec_name()
            == ".initrd"@,
        UnifiedSection::named(section.spec_name()) == Some(section),
{
    assert(UNIFIED_SECTION_ORDER@.map_values(|s: UnifiedSection| s.spec_name())
        =~= canonical_names());
    law_names_are_unique(section, UnifiedSection::PcrSig);
    law_names_are_unique(section, UnifiedSection::DtbAuto);
    law_names_are_unique(section, UnifiedSection::Linux);
    law_names_are_unique(section, UnifiedSection::Initrd);
}

/// The bytes that stand for a section in PCR 11: those that were loaded for
/// the kernel and the initrd, and those of the image for any other section.
pub open spec fn bytes_of_section(
    pe: PeModel,
    kernel: Seq<u8>,
    initrd: Seq<u8>,
    name: Seq<char>,
) -> Option<Seq<u8>> {
    if name == ".linux"@ {
        Some(kernel)
    } else if name == ".initrd"@ {
        Some(initrd)
    } else {
        pe.contents(name)
    }
}

/// Whether an image is measured for a name at a position: the name with a NUL,
/// and directly behind it the bytes of that section, both into PCR 11 and
/// described by the name.
pub open spec fn measured_at(
    events: Seq<EventModel>,
    i: int,
    name: Seq<char>,
    bytes: Seq<u8>,
) -> bool {
    &&& 0 <= i < events.len() - 1
    &&& events[i].pcr == 11
    &&& events[i].data == encode_utf8(name) + seq![0u8]
    &&& events[i].description == DescriptionModel::Ascii(name)
    &&& events[i + 1].pcr == 11
    &&& events[i + 1].data == bytes
    &&& events[i + 1].description == DescriptionModel::Ascii(name)
}

/// Every section that the table names is measured, name first and bytes
/// directly behind, except for `.pcrsig`, for `.dtbauto`, and for sections
/// whose bytes cannot be read.
pub proof fn law_every_named_section_is_measured(
    pe: PeModel,
    kernel: Seq<u8>,
    initrd: Seq<u8>,
    k: int,
)
    requires
        0 <= k < 15,
        canonical_names()[k] != ".pcrsig"@,
        canonical_names()[k] != ".dtbauto"@,
        readable_names(pe.sections).contains(canonical_names()[k]),
        bytes_of_section(pe, kernel, initrd, canonical_names()[k]) is Some,
    ensures
        exists|i: int| #[trigger]
            measured_at(
                image_events(pe, kernel, initrd, 15),
                i,
                canonical_names()[k],
                bytes_of_section(pe, kernel, initrd, canonical_names()[k])->0,
            ),
{
    law_canonical_order();
    let section = UNIFIED_SECTION_ORDER@[k];
    law_sections_are_known_by_name(section);
    assert(section.rank() == k);
    lemma_measured(pe, kernel, initrd, section, 15);
}

proof fn lemma_repeated_holds(
    names: Seq<Seq<char>>,
    section: UnifiedSection,
    bytes: Seq<u8>,
) -> (i: int)
    requires
        names.contains(section.spec_name()),
    ensures
        measured_at(
            repeated_events(names, section, Some(bytes)),
            i,
            section.spec_name(),
            bytes,
        ),
    decreases names.len(),
{
    let before = repeated_events(names.drop_last(), section, Some(bytes));
    let own = section_events(section, Some(bytes));
    assert(encode_utf8(section.spec_name()).push(0) =~= encode_utf8(section.spec_name()) + seq![
        0u8,
    ]);
    if names.last() == section.spec_name() {
        let all = before + own;
        assert(all[before.len() as int] == own[0]);
        assert(all[before.len() as int + 1] == own[1]);
        before.len() as int
    } else {
        let at = choose|i: int| 0 <= i < names.len() && names[i] == section.spec_name();
        assert(names.drop_last()[at] == section.spec_name());
        lemma_repeated_holds(names.drop_last(), section, bytes)
    }
}

proof fn lemma_measured(
    pe: PeModel,
    kernel: Seq<u8>,
    initrd: Seq<u8>,
    section: UnifiedSection,
    n: nat,
)
    requires
        section.rank() < n <= 15,
        section.is_measured(),
        readable_names(pe.sections).contains(section.spec_name()),
        measured_data(pe, kernel, initrd, section) is Some,
    ensures
        exists|i: int| #[trigger]
            measured_at(
                image_events(pe, kernel, initrd, n),
                i,
                section.spec_name(),
                measured_data(pe, kernel, initrd, section)->0,
            ),
    decreases n,
{
    law_canonical_order();
    let names = readable_names(pe.sections);
    let bytes = measured_data(pe, kernel, initrd, section)->0;
    let before = image_events(pe, kernel, initrd, (n - 1) as nat);
    let all = image_events(pe, kernel, initrd, n);
    let last = UNIFIED_SECTION_ORDER@[n - 1];
    if section.rank() == n - 1 {
        assert(last == section);
        let own = repeated_events(names, section, Some(bytes));
        let i = lemma_repeated_holds(names, section, bytes);
        assert(all == before + own);
        assert(all[before.len() + i] == own[i]);
        assert(all[before.len() + i + 1] == own[i + 1]);
        assert(measured_at(all, before.len() + i, section.spec_name(), bytes));
    } else {
        lemma_measured(pe, kernel, initrd, section, (n - 1) as nat);
        let i = choose|i: int| #[trigger]
            measured_at(before, i, section.spec_name(), bytes);
        assert(all[i] == before[i]);
        assert(all[i + 1] == before[i + 1]);
        assert(measured_at(all, i, section.spec_name(), bytes));
    }
}

/// Nothing else is measured: every event of an image belongs to a section that
/// the table names, other than `.pcrsig` and `.dtbauto`, and is its name with
/// a NUL or its bytes.
pub proof fn law_only_named_sections_are_measured(
    pe: PeModel,
    kernel: Seq<u8>,
    initrd: Seq<u8>,
    i: int,
)
    requires
        0 <= 2 * i < image_events(pe, kernel, initrd, 15).len(),
    ensures
        exists|name: Seq<char>|
            {
                &&& #[trigger] canonical_names().contains(name)
                &&& name != ".pcrsig"@
                &&& name != ".dtbauto"@
                &&& readable_names(pe.sections).contains(name)
                &&& bytes_of_section(pe, kernel, initrd, name) is Some
                &&& measured_at(
                    image_events(pe, kernel, initrd, 15),
                    2 * i,
                    name,
                    bytes_of_section(pe, kernel, initrd, name)->0,
                )
            },
{
    let events = image_events(pe, kernel, initrd, 15);
    law_names_and_data_alternate(pe, kernel, initrd, i);
    let section = lemma_image_event_of(pe, kernel, initrd, 15, 2 * i);
    lemma_image_event_of(pe, kernel, initrd, 15, 2 * i + 1);
    law_sections_are_known_by_name(section);
    let name = section.spec_name();
    assert(canonical_names()[section.rank()] == name);
    let pair = choose|s: UnifiedSection|
        s.is_measured() && events[2 * i] == #[trigger] crate::measure::section_event(
            s,
            crate::measure::terminated_name(s),
        ) && events[2 * i + 1] == crate::measure::section_event(
            s,
            measured_data(pe, kernel, initrd, s)->0,
        ) && measured_data(pe, kernel, initrd, s) is Some;
    law_names_are_unique(section, pair);
    assert(encode_utf8(name).push(0) =~= encode_utf8(name) + seq![0u8]);
    assert(canonical_names().contains(name));
}

/// How many of the names are those of sections with bytes to be measured.
pub open spec fn measurable_names(
    pe: PeModel,
    kernel: Seq<u8>,
    initrd: Seq<u8>,
    names: Seq<Seq<char>>,
) -> nat
    decreases names.len(),
{
    if names.len() == 0 {
        0
    } else {
        let name = names.last();
        measurable_names(pe, kernel, initrd, names.drop_last()) + if canonical_names().contains(
            name,
        ) && name != ".pcrsig"@ && name != ".dtbauto"@ && bytes_of_section(
            pe,
            kernel,
            initrd,
            name,
        ) is Some {
            1nat
        } else {
            0
        }
    }
}

/// Two events are logged for each entry of the section table that names a
/// section to be measured, and no more.
pub proof fn law_two_events_for_each_entry(pe: PeModel, kernel: Seq<u8>, initrd: Seq<u8>)
    ensures
        image_events(pe, kernel, initrd, 15).len() == 2 * measurable_names(
            pe,
            kernel,
            initrd,
            readable_names(pe.sections),
        ),
{
    lemma_event_count(pe, kernel, initrd, readable_names(pe.sections), 15);
    lemma_count_by_name(pe, kernel, initrd, readable_names(pe.sections));
    lemma_events_by_names(pe, kernel, initrd, 15);
}

/// The number of events of the first `n` sections for a list of names.
spec fn count_for(
    pe: PeModel,
    kernel: Seq<u8>,
    initrd: Seq<u8>,
    names: Seq<Seq<char>>,
    n: nat,
) -> nat
    decreases n,
{
    if n == 0 {
        0
    } else {
        let section = UNIFIED_SECTION_ORDER@[n - 1];
        count_for(pe, kernel, initrd, names, (n - 1) as nat) + if section.is_measured() {
            repeated_events(names, section, measured_data(pe, kernel, initrd, section)).len()
        } else {
            0
        }
    }
}

proof fn lemma_events_by_names(pe: PeModel, kernel: Seq<u8>, initrd: Seq<u8>, n: nat)
    requires
        n <= 15,
    ensures
        image_events(pe, kernel, initrd, n).len() == count_for(
            pe,
            kernel,
            initrd,
            readable_names(pe.sections),
            n,
        ),
    decreases n,
{
    if n > 0 {
        lemma_events_by_names(pe, kernel, initrd, (n - 1) as nat);
    }
}

/// Whether a name is that of one of the first `n` sections, and measurable.
spec fn counts(pe: PeModel, kernel: Seq<u8>, initrd: Seq<u8>, name: Seq<char>, n: nat) -> bool {
    exists|section: UnifiedSection|
        #[trigger] section.rank() < n && section.spec_name() == name && section.is_measured()
            && measured_data(pe, kernel, initrd, section) is Some
}

proof fn lemma_event_count(
    pe: PeModel,
    kernel: Seq<u8>,
    initrd: Seq<u8>,
    names: Seq<Seq<char>>,
    n: nat,
)
    requires
        n <= 15,
    ensures
        names.len() > 0 ==> count_for(pe, kernel, initrd, names, n) == count_for(
            pe,
            kernel,
            initrd,
            names.drop_last(),
            n,
        ) + if counts(pe, kernel, initrd, names.last(), n) {
            2nat
        } else {
            0
        },
        names.len() == 0 ==> count_for(pe, kernel, initrd, names, n) == 0,
    decreases n,
{
    law_canonical_order();
    if n > 0 {
        lemma_event_count(pe, kernel, initrd, names, (n - 1) as nat);
        if names.len() > 0 {
            let name = names.last();
            let section = UNIFIED_SECTION_ORDER@[n - 1];
            assert(section.rank() == n - 1);
            let earlier = counts(pe, kernel, initrd, name, (n - 1) as nat);
            if earlier {
                let s = choose|s: UnifiedSection|
                    #[trigger] s.rank() < n - 1 && s.spec_name() == name && s.is_measured()
                        && measured_data(pe, kernel, initrd, s) is Some;
                assert(s.rank() < n);
                law_names_are_unique(s, section);
                assert(section.spec_name() != name);
            }
            if counts(pe, kernel, initrd, name, n) && !earlier {
                let s = choose|s: UnifiedSection|
                    #[trigger] s.rank() < n && s.spec_name() == name && s.is_measured()
                        && measured_data(pe, kernel, initrd, s) is Some;
                assert(s.rank() == n - 1);
                assert(s == section);
            }
            if section.spec_name() == name && section.is_measured() && measured_data(
                pe,
                kernel,
                initrd,
                section,
            ) is Some {
                assert(counts(pe, kernel, initrd, name, n)) by {
                    assert(section.rank() < n);
                }
            }
        }
    }
}

proof fn lemma_count_by_name(
    pe: PeModel,
    kernel: Seq<u8>,
    initrd: Seq<u8>,
    names: Seq<Seq<char>>,
)
    ensures
        count_for(pe, kernel, initrd, names, 15) == 2 * measurable_names(
            pe,
            kernel,
            initrd,
            names,
        ),
    decreases names.len(),
{
    lemma_event_count(pe, kernel, initrd, names, 15);
    if names.len() > 0 {
        lemma_count_by_name(pe, kernel, initrd, names.drop_last());
        let name = names.last();
        law_canonical_order();
        if counts(pe, kernel, initrd, name, 15) {
            let s = choose|s: UnifiedSection|
                #[trigger] s.rank() < 15 && s.spec_name() == name && s.is_measured()
                    && measured_data(pe, kernel, initrd, s) is Some;
            law_sections_are_known_by_name(s);
            assert(canonical_names()[s.rank()] == name);
        } else if canonical_names().contains(name) {
            let k = choose|k: int| 0 <= k < canonical_names().len() && canonical_names()[k] == name;
            let s = UNIFIED_SECTION_ORDER@[k];
            law_sections_are_known_by_name(s);
            assert(s.rank() < 15);
        }
    }
}

/// The programs that record a thin stub are given exactly what the booted stub
/// measures: behind the one that looks at the binary itself, there is one for
/// each event of the image, in the same order, and it reads the data of that
/// event, byte for byte.
pub proof fn law_recorded_bytes_are_the_measured_bytes(
    systemd: Seq<u8>,
    stub: Seq<u8>,
    pe: PeModel,
    embedded: Seq<Option<Seq<u8>>>,
    kernel: Seq<u8>,
    initrd: Seq<u8>,
)
    requires
        distinct(readable_names(pe.sections)),
        readable_names(pe.sections).contains(".linux"@),
        readable_names(pe.sections).contains(".initrd"@),
        forall|section: UnifiedSection|
            section.source() == UnifiedSectionDataSource::Embedded
                ==> #[trigger] embedded[section.rank()] == pe.contents(section.spec_name()),
    ensures
        ({
            let commands = stub_commands(
                systemd,
                stub,
                recorded_inputs(embedded, kernel, initrd, 15),
            );
            let events = image_events(pe, kernel, initrd, 15);
            let program = joined(systemd, encode_utf8("lib/systemd/systemd-pcrlock"@));
            &&& commands.len() == 1 + events.len()
            &&& commands[0].program == program
            &&& commands[0].arguments == seq![encode_utf8("lock-pe"@)]
            &&& commands[0].file == Some(stub)
            &&& commands[0].stdin is None
            &&& forall|i: int|
                0 <= i < events.len() ==> {
                    &&& (#[trigger] commands[i + 1]).stdin == Some(events[i].data)
                    &&& commands[i + 1].program == program
                    &&& commands[i + 1].arguments == seq![
                        encode_utf8("lock-raw"@),
                        encode_utf8("--pcr=11"@),
                    ]
                    &&& commands[i + 1].file is None
                }
        }),
{
    law_predictions_match_measurements(pe, embedded, kernel, initrd);
    let inputs = recorded_inputs(embedded, kernel, initrd, 15);
    let events = image_events(pe, kernel, initrd, 15);
    assert(inputs =~= event_data(events));
    let commands = stub_commands(systemd, stub, inputs);
    assert forall|i: int| 0 <= i < events.len() implies {
        &&& (#[trigger] commands[i + 1]).stdin == Some(events[i].data)
        &&& commands[i + 1].program == joined(
            systemd,
            encode_utf8("lib/systemd/systemd-pcrlock"@),
        )
        &&& commands[i + 1].arguments == seq![encode_utf8("lock-raw"@), encode_utf8("--pcr=11"@)]
        &&& commands[i + 1].file is None
    } by {
        assert(inputs[i] == events[i].data);
    }
}

/// Whatever a stub holds, the inputs that are recorded come in pairs of a name
/// with a NUL and the bytes of that section, for every section with bytes but
/// `.pcrsig` and `.dtbauto`.
pub proof fn law_every_section_with_bytes_is_recorded(
    embedded: Seq<Option<Seq<u8>>>,
    kernel: Seq<u8>,
    initrd: Seq<u8>,
    k: int,
)
    requires
        0 <= k < 15,
        canonical_names()[k] != ".pcrsig"@,
        canonical_names()[k] != ".dtbauto"@,
    ensures
        ({
            let name = canonical_names()[k];
            let bytes = if name == ".linux"@ {
                Some(kernel)
            } else if name == ".initrd"@ {
                Some(initrd)
            } else {
                embedded[k]
            };
            bytes matches Some(bytes) ==> exists|i: int|
                0 <= i < recorded_inputs(embedded, kernel, initrd, 15).len() - 1 && (
                #[trigger] recorded_inputs(embedded, kernel, initrd, 15)[i]) == encode_utf8(name)
                    + seq![0u8] && recorded_inputs(embedded, kernel, initrd, 15)[i + 1] == bytes
        }),
{
    law_canonical_order();
    let section = UNIFIED_SECTION_ORDER@[k];
    law_sections_are_known_by_name(section);
    if let Some(bytes) = crate::lock::recorded_data(embedded, kernel, initrd, section) {
        lemma_recorded(embedded, kernel, initrd, section, bytes, 15);
    }
}

proof fn lemma_recorded(
    embedded: Seq<Option<Seq<u8>>>,
    kernel: Seq<u8>,
    initrd: Seq<u8>,
    section: UnifiedSection,
    bytes: Seq<u8>,
    n: nat,
)
    requires
        section.rank() < n <= 15,
        section.is_measured(),
        crate::lock::recorded_data(embedded, kernel, initrd, section) == Some(bytes),
    ensures
        exists|i: int|
            0 <= i < recorded_inputs(embedded, kernel, initrd, n).len() - 1 && (
            #[trigger] recorded_inputs(embedded, kernel, initrd, n)[i]) == encode_utf8(
                section.spec_name(),
            ) + seq![0u8] && recorded_inputs(embedded, kernel, initrd, n)[i + 1] == bytes,
    decreases n,
{
    law_canonical_order();
    let before = recorded_inputs(embedded, kernel, initrd, (n - 1) as nat);
    let all = recorded_inputs(embedded, kernel, initrd, n);
    assert(encode_utf8(section.spec_name()).push(0) =~= encode_utf8(section.spec_name()) + seq![
        0u8,
    ]);
    if section.rank() == n - 1 {
        assert(UNIFIED_SECTION_ORDER@[n - 1] == section);
        assert(all[before.len() as int] == crate::measure::terminated_name(section));
        assert(all[before.len() as int + 1] == bytes);
    } else {
        lemma_recorded(embedded, kernel, initrd, section, bytes, (n - 1) as nat);
        let i = choose|i: int|
            0 <= i < before.len() - 1 && (#[trigger] before[i]) == encode_utf8(
                section.spec_name(),
            ) + seq![0u8] && before[i + 1] == bytes;
        assert(all[i] == before[i]);
        assert(all[i + 1] == before[i + 1]);
    }
}

/// The contents of a section are as long as its virtual size. They start with
/// the bytes that are stored at its virtual address in a loaded image, and at
/// its raw offset in a file; what is not stored is zero. They are missing
/// exactly if the stored bytes are not all there.
pub proof fn law_section_contents(data: Seq<u8>, section: SectionModel, layout: PeLayout)
    ensures
        ({
            let start = if layout == PeLayout::Loaded {
                section.virtual_address as int
            } else {
                section.pointer_to_raw_data as int
            };
            let stored = if section.virtual_size <= section.size_of_raw_data {
                section.virtual_size as int
            } else {
                section.size_of_raw_data as int
            };
            match section_contents(data, section, layout) {
                Some(contents) => {
                    &&& start + stored <= data.len()
                    &&& contents.len() == section.virtual_size
                    &&& forall|i: int| 0 <= i < stored ==> #[trigger] contents[i] == data[start + i]
                    &&& forall|i: int|
                        stored <= i < contents.len() ==> #[trigger] contents[i] == 0
                },
                None => start + stored > data.len(),
            }
        }),
{
}

} // verus!
