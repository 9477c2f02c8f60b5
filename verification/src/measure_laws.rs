//! What holds of every measurement, whatever the firmware answers.

use crate::companions::CompanionInitrd;
use crate::measure::{
    companion_events, companions_events, image_events, load_options_events, next_variable,
    repeated_events, section_event, section_events, terminated_name, with_utf16_nul,
    DescriptionModel, EventModel, MeasureReply, MeasureStage, MeasureState, StubVariable,
    StubVariables, STUB_VARIABLES, TPM_PCR_INDEX_KERNEL_CONFIG, TPM_PCR_INDEX_KERNEL_IMAGE,
    TPM_PCR_INDEX_SYSEXTS,
};
use crate::pe::{readable_names, PeModel};
use crate::unified_sections::{
    law_canonical_order, law_names_are_unique, UnifiedSection, UNIFIED_SECTION_ORDER,
};
use vstd::prelude::*;

verus! {

/// The state of a measurement of `events` after the given outcomes.
pub open spec fn measured(events: Seq<EventModel>, replies: Seq<MeasureReply>) -> MeasureState
    decreases replies.len(),
{
    if replies.len() == 0 {
        MeasureState::initial(events)
    } else {
        measured(events, replies.drop_last()).next(replies.last())
    }
}

/// Whether each outcome is one that the request before it can have.
pub open spec fn answers(events: Seq<EventModel>, replies: Seq<MeasureReply>) -> bool
    decreases replies.len(),
{
    if replies.len() == 0 {
        true
    } else {
        &&& answers(events, replies.drop_last())
        &&& measured(events, replies.drop_last()).awaits(replies.last())
    }
}

/// How many of the outcomes are those of a logged event.
pub open spec fn logged_count(replies: Seq<MeasureReply>) -> nat
    decreases replies.len(),
{
    if replies.len() == 0 {
        0
    } else {
        logged_count(replies.drop_last()) + if replies.last() == MeasureReply::Logged(Ok(true)) {
            1nat
        } else {
            0
        }
    }
}

/// Whether an event that calls for `variable` was logged.
pub open spec fn called_for(
    events: Seq<EventModel>,
    replies: Seq<MeasureReply>,
    variable: StubVariable,
) -> bool {
    exists|i: int|
        0 <= i < replies.len() && i < events.len() && replies[i] == MeasureReply::Logged(Ok(true))
            && (#[trigger] events[i]).variables.holds(variable)
}

/// Whether `variable` was to be set at some point.
pub open spec fn announced(
    events: Seq<EventModel>,
    replies: Seq<MeasureReply>,
    variable: StubVariable,
) -> bool {
    exists|j: int|
        0 <= j <= replies.len() && (#[trigger] measured(events, replies.take(j))).request()
            == announcement(variable)
}

/// The request to set a variable.
pub open spec fn announcement(variable: StubVariable) -> crate::measure::MeasureRequestModel {
    crate::measure::MeasureRequestModel::SetVariable(
        variable.spec_name(),
        crate::measure::pcr_index_text(variable.spec_pcr()),
    )
}

proof fn lemma_next_variable(variables: StubVariables, from: nat)
    requires
        from <= 4,
    ensures
        from <= next_variable(variables, from) <= 4,
        next_variable(variables, from) < 4 ==> variables.holds(
            STUB_VARIABLES@[next_variable(variables, from) as int],
        ),
        forall|k: int|
            from <= k < next_variable(variables, from) ==> !variables.holds(
                #[trigger] STUB_VARIABLES@[k],
            ),
    decreases 4 - from,
{
    if from < 4 && !variables.holds(STUB_VARIABLES@[from as int]) {
        lemma_next_variable(variables, from + 1);
    }
}

/// The position of a variable in the order in which variables are set.
spec fn position(variable: StubVariable) -> int {
    match variable {
        StubVariable::KernelImage => 0,
        StubVariable::KernelParameters => 1,
        StubVariable::InitrdSysexts => 2,
        StubVariable::InitrdConfexts => 3,
    }
}

proof fn lemma_position(variable: StubVariable)
    ensures
        0 <= position(variable) < 4,
        STUB_VARIABLES@[position(variable)] == variable,
{
}

/// While events are being logged, one outcome is known for each event so far.
/// Afterwards one is known for every event.
spec fn in_step(events: Seq<EventModel>, replies: Seq<MeasureReply>) -> bool {
    let state = measured(events, replies);
    &&& state.events == events
    &&& state.measurements == logged_count(replies)
    &&& match state.stage {
        MeasureStage::Log(i) => i == replies.len() && i < events.len(),
        MeasureStage::Announce(k) => k < 4 && events.len() <= replies.len()
            && state.variables.holds(STUB_VARIABLES@[k as int]) && forall|v: StubVariable|
            position(v) < k && state.variables.holds(v) ==> #[trigger] announced(
                events,
                replies,
                v,
            ),
        MeasureStage::Finished(Ok(n)) => events.len() <= replies.len() && n
            == state.measurements as usize && forall|v: StubVariable|
            state.variables.holds(v) ==> #[trigger] announced(events, replies, v),
        MeasureStage::Finished(Err(_)) => true,
    }
    &&& logged_count(replies) <= replies.len()
    &&& logged_count(replies) <= events.len()
    &&& forall|v: StubVariable|
        state.variables.holds(v) <==> #[trigger] called_for(events, replies, v)
}

proof fn lemma_announced_grows(
    events: Seq<EventModel>,
    replies: Seq<MeasureReply>,
    variable: StubVariable,
)
    requires
        replies.len() > 0,
        announced(events, replies.drop_last(), variable),
    ensures
        announced(events, replies, variable),
{
    let before = replies.drop_last();
    let j = choose|j: int|
        0 <= j <= before.len() && (#[trigger] measured(events, before.take(j))).request()
            == announcement(variable);
    assert(before.take(j) == replies.take(j));
}

proof fn lemma_called_for_step(
    events: Seq<EventModel>,
    replies: Seq<MeasureReply>,
    variable: StubVariable,
)
    requires
        replies.len() > 0,
    ensures
        called_for(events, replies, variable) <==> called_for(events, replies.drop_last(), variable)
            || (replies.len() <= events.len() && replies.last() == MeasureReply::Logged(Ok(true))
            && events[replies.len() - 1].variables.holds(variable)),
{
    let before = replies.drop_last();
    if called_for(events, replies, variable) {
        let i = choose|i: int|
            0 <= i < replies.len() && i < events.len() && replies[i] == MeasureReply::Logged(
                Ok(true),
            ) && (#[trigger] events[i]).variables.holds(variable);
        if i < before.len() {
            assert(before[i] == replies[i]);
            assert(called_for(events, before, variable));
        }
    }
    if called_for(events, before, variable) {
        let i = choose|i: int|
            0 <= i < before.len() && i < events.len() && before[i] == MeasureReply::Logged(Ok(true))
                && (#[trigger] events[i]).variables.holds(variable);
        assert(replies[i] == before[i]);
        assert(called_for(events, replies, variable));
    }
    if replies.len() <= events.len() && replies.last() == MeasureReply::Logged(Ok(true))
        && events[replies.len() - 1].variables.holds(variable) {
        assert(replies[replies.len() - 1] == replies.last());
        assert(called_for(events, replies, variable));
    }
}

proof fn lemma_in_step(events: Seq<EventModel>, replies: Seq<MeasureReply>)
    requires
        events.len() <= usize::MAX,
        answers(events, replies),
    ensures
        in_step(events, replies),
    decreases replies.len(),
{
    if replies.len() == 0 {
        assert forall|v: StubVariable| !called_for(events, replies, v) by {}
        return ;
    }
    let before = replies.drop_last();
    lemma_in_step(events, before);
    let prior = measured(events, before);
    let state = measured(events, replies);
    assert(replies.take(replies.len() as int) == replies);
    assert(replies.take(before.len() as int) == before);
    assert forall|v: StubVariable|
        state.variables.holds(v) <==> #[trigger] called_for(events, replies, v) by {
        lemma_called_for_step(events, replies, v);
        assert(prior.variables.holds(v) <==> called_for(events, before, v));
    }
    match prior.stage {
        MeasureStage::Log(i) => {
            lemma_next_variable(state.variables, 0);
        },
        MeasureStage::Announce(k) => {
            lemma_next_variable(state.variables, (k + 1) as nat);
            let current = STUB_VARIABLES@[k as int];
            assert forall|v: StubVariable|
                state.variables.holds(v) && (match state.stage {
                    MeasureStage::Announce(next) => position(v) < next,
                    _ => true,
                }) && state.stage !is Log && !(state.stage matches MeasureStage::Finished(Err(
                    _,
                ))) implies #[trigger] announced(events, replies, v) by {
                lemma_position(v);
                if position(v) < k {
                    assert(announced(events, before, v));
                    lemma_announced_grows(events, replies, v);
                } else if position(v) == k {
                    assert(measured(events, replies.take(before.len() as int)).request()
                        == announcement(v));
                }
            }
        },
        MeasureStage::Finished(_) => {},
    }
    if state.stage matches MeasureStage::Finished(Ok(_)) {
        assert forall|v: StubVariable| state.variables.holds(v) implies #[trigger] announced(
            events,
            replies,
            v,
        ) by {
            lemma_position(v);
        }
    }
    if let MeasureStage::Announce(next) = state.stage {
        assert forall|v: StubVariable|
            position(v) < next && state.variables.holds(v) implies #[trigger] announced(
            events,
            replies,
            v,
        ) by {
            lemma_position(v);
        }
    }
}

/// Every state that a measurement reaches is valid.
pub proof fn law_measured_states_are_valid(events: Seq<EventModel>, replies: Seq<MeasureReply>)
    requires
        events.len() <= usize::MAX,
        answers(events, replies),
    ensures
        measured(events, replies).valid(),
{
    lemma_in_step(events, replies);
}

/// A measurement that succeeds has offered every event for logging, and
/// reports how many of them were logged.
pub proof fn law_success_counts_logged_events(
    events: Seq<EventModel>,
    replies: Seq<MeasureReply>,
    n: usize,
)
    requires
        events.len() <= usize::MAX,
        answers(events, replies),
        measured(events, replies).stage == MeasureStage::Finished(Ok(n)),
    ensures
        events.len() <= replies.len(),
        n == logged_count(replies),
{
    lemma_in_step(events, replies);
}

/// The events are offered one by one in their order, before any variable is
/// set.
pub proof fn law_events_are_logged_in_order(
    events: Seq<EventModel>,
    replies: Seq<MeasureReply>,
    i: usize,
)
    requires
        events.len() <= usize::MAX,
        answers(events, replies),
        measured(events, replies).stage == MeasureStage::Log(i),
    ensures
        i == replies.len(),
        measured(events, replies).request()
            == crate::measure::MeasureRequestModel::LogEvent(events[i as int]),
{
    lemma_in_step(events, replies);
}

/// A variable is set only if an event that calls for it was logged.
pub proof fn law_no_variable_without_measurement(
    events: Seq<EventModel>,
    replies: Seq<MeasureReply>,
    k: usize,
)
    requires
        events.len() <= usize::MAX,
        answers(events, replies),
        measured(events, replies).stage == MeasureStage::Announce(k),
    ensures
        k < 4,
        called_for(events, replies, STUB_VARIABLES@[k as int]),
{
    lemma_in_step(events, replies);
    assert(measured(events, replies).variables.holds(STUB_VARIABLES@[k as int]));
}

/// A measurement that succeeds has set every variable that a logged event calls
/// for.
pub proof fn law_every_measured_pcr_is_announced(
    events: Seq<EventModel>,
    replies: Seq<MeasureReply>,
    n: usize,
    variable: StubVariable,
)
    requires
        events.len() <= usize::MAX,
        answers(events, replies),
        measured(events, replies).stage == MeasureStage::Finished(Ok(n)),
        called_for(events, replies, variable),
    ensures
        announced(events, replies, variable),
{
    lemma_in_step(events, replies);
}

/// How many more outcomes a measurement can wait for.
pub open spec fn steps_left(state: MeasureState) -> nat {
    match state.stage {
        MeasureStage::Log(i) => if i < state.events.len() {
            (state.events.len() - i + 4) as nat
        } else {
            5
        },
        MeasureStage::Announce(k) => if k < 4 {
            (4 - k) as nat
        } else {
            1
        },
        MeasureStage::Finished(_) => 0,
    }
}

/// Every outcome brings a measurement closer to its end.
pub proof fn law_measurement_terminates(state: MeasureState, reply: MeasureReply)
    requires
        state.events.len() <= usize::MAX,
        state.valid(),
        state.awaits(reply),
    ensures
        steps_left(state.next(reply)) < steps_left(state),
{
    match state.stage {
        MeasureStage::Log(i) => {
            if let MeasureReply::Logged(Ok(logged)) = reply {
                let counted = if logged {
                    state.variables.merged(state.events[i as int].variables)
                } else {
                    state.variables
                };
                lemma_next_variable(counted, 0);
            }
        },
        MeasureStage::Announce(k) => {
            lemma_next_variable(state.variables, (k + 1) as nat);
        },
        MeasureStage::Finished(_) => {},
    }
}

proof fn lemma_repeated_events(
    names: Seq<Seq<char>>,
    section: UnifiedSection,
    data: Option<Seq<u8>>,
    i: int,
)
    requires
        0 <= i < repeated_events(names, section, data).len(),
    ensures
        repeated_events(names, section, data).len() % 2 == 0,
        data is Some,
        repeated_events(names, section, data)[i] == if i % 2 == 0 {
            section_event(section, terminated_name(section))
        } else {
            section_event(section, data->0)
        },
    decreases names.len(),
{
    if names.len() > 0 {
        let before = repeated_events(names.drop_last(), section, data);
        lemma_repeated_even(names.drop_last(), section, data);
        if i < before.len() {
            lemma_repeated_events(names.drop_last(), section, data, i);
            lemma_repeated_even(names, section, data);
        } else {
            let own = section_events(section, data);
            assert(repeated_events(names, section, data)[i] == own[i - before.len()]);
        }
    }
}

proof fn lemma_repeated_even(names: Seq<Seq<char>>, section: UnifiedSection, data: Option<Seq<u8>>)
    ensures
        repeated_events(names, section, data).len() % 2 == 0,
    decreases names.len(),
{
    if names.len() > 0 {
        lemma_repeated_even(names.drop_last(), section, data);
    }
}

proof fn lemma_image_even(pe: PeModel, kernel: Seq<u8>, initrd: Seq<u8>, n: nat)
    requires
        n <= 15,
    ensures
        image_events(pe, kernel, initrd, n).len() % 2 == 0,
    decreases n,
{
    if n > 0 {
        lemma_image_even(pe, kernel, initrd, (n - 1) as nat);
        let section = UNIFIED_SECTION_ORDER@[n - 1];
        lemma_repeated_even(
            readable_names(pe.sections),
            section,
            crate::measure::measured_data(pe, kernel, initrd, section),
        );
    }
}

proof fn lemma_image_event(pe: PeModel, kernel: Seq<u8>, initrd: Seq<u8>, n: nat, i: int) -> (section:
    UnifiedSection)
    requires
        n <= 15,
        0 <= i < image_events(pe, kernel, initrd, n).len(),
    ensures
        section.is_measured(),
        section.rank() < n,
        crate::measure::measured_data(pe, kernel, initrd, section) is Some,
        image_events(pe, kernel, initrd, n)[i] == if i % 2 == 0 {
            section_event(section, terminated_name(section))
        } else {
            section_event(section, crate::measure::measured_data(pe, kernel, initrd, section)->0)
        },
    decreases n,
{
    let section = UNIFIED_SECTION_ORDER@[n - 1];
    let before = image_events(pe, kernel, initrd, (n - 1) as nat);
    let data = crate::measure::measured_data(pe, kernel, initrd, section);
    let own = repeated_events(readable_names(pe.sections), section, data);
    law_canonical_order();
    lemma_image_even(pe, kernel, initrd, (n - 1) as nat);
    if i < before.len() {
        lemma_image_event(pe, kernel, initrd, (n - 1) as nat, i)
    } else {
        lemma_repeated_events(readable_names(pe.sections), section, data, i - before.len());
        section
    }
}

/// The section that an event of an image belongs to: it is measured, the table
/// names it, and the event is its name or its data.
pub proof fn lemma_image_event_of(
    pe: PeModel,
    kernel: Seq<u8>,
    initrd: Seq<u8>,
    n: nat,
    i: int,
) -> (section: UnifiedSection)
    requires
        n <= 15,
        0 <= i < image_events(pe, kernel, initrd, n).len(),
    ensures
        section.is_measured(),
        0 <= section.rank() < n,
        readable_names(pe.sections).contains(section.spec_name()),
        crate::measure::measured_data(pe, kernel, initrd, section) is Some,
        image_events(pe, kernel, initrd, n)[i] == if i % 2 == 0 {
            section_event(section, terminated_name(section))
        } else {
            section_event(section, crate::measure::measured_data(pe, kernel, initrd, section)->0)
        },
    decreases n,
{
    let section = UNIFIED_SECTION_ORDER@[n - 1];
    let before = image_events(pe, kernel, initrd, (n - 1) as nat);
    let data = crate::measure::measured_data(pe, kernel, initrd, section);
    law_canonical_order();
    lemma_image_even(pe, kernel, initrd, (n - 1) as nat);
    if i < before.len() {
        lemma_image_event_of(pe, kernel, initrd, (n - 1) as nat, i)
    } else {
        let names = readable_names(pe.sections);
        lemma_repeated_events(names, section, data, i - before.len());
        lemma_repeated_named(names, section, data);
        section
    }
}

proof fn lemma_repeated_named(
    names: Seq<Seq<char>>,
    section: UnifiedSection,
    data: Option<Seq<u8>>,
)
    requires
        repeated_events(names, section, data).len() > 0,
    ensures
        names.contains(section.spec_name()),
    decreases names.len(),
{
    if names.last() == section.spec_name() {
        assert(names[names.len() - 1] == section.spec_name());
    } else {
        lemma_repeated_named(names.drop_last(), section, data);
        let k = choose|k: int|
            0 <= k < names.drop_last().len() && names.drop_last()[k] == section.spec_name();
        assert(names[k] == section.spec_name());
    }
}

/// The measurement of an image goes to PCR 11 alone and alternates between
/// the name of a measured section and the data of that section.
pub proof fn law_names_and_data_alternate(pe: PeModel, kernel: Seq<u8>, initrd: Seq<u8>, i: int)
    requires
        0 <= 2 * i < image_events(pe, kernel, initrd, 15).len(),
    ensures
        2 * i + 1 < image_events(pe, kernel, initrd, 15).len(),
        exists|section: UnifiedSection|
            section.is_measured() && image_events(pe, kernel, initrd, 15)[2 * i]
                == #[trigger] section_event(section, terminated_name(section)) && image_events(
                pe,
                kernel,
                initrd,
                15,
            )[2 * i + 1] == section_event(
                section,
                crate::measure::measured_data(pe, kernel, initrd, section)->0,
            ) && crate::measure::measured_data(pe, kernel, initrd, section) is Some,
{
    lemma_image_even(pe, kernel, initrd, 15);
    lemma_image_pair(pe, kernel, initrd, 15, i);
}

proof fn lemma_image_pair(pe: PeModel, kernel: Seq<u8>, initrd: Seq<u8>, n: nat, i: int)
    requires
        n <= 15,
        0 <= 2 * i < image_events(pe, kernel, initrd, n).len(),
    ensures
        2 * i + 1 < image_events(pe, kernel, initrd, n).len(),
        exists|section: UnifiedSection|
            section.is_measured() && image_events(pe, kernel, initrd, n)[2 * i]
                == #[trigger] section_event(section, terminated_name(section)) && image_events(
                pe,
                kernel,
                initrd,
                n,
            )[2 * i + 1] == section_event(
                section,
                crate::measure::measured_data(pe, kernel, initrd, section)->0,
            ) && crate::measure::measured_data(pe, kernel, initrd, section) is Some,
    decreases n,
{
    let section = UNIFIED_SECTION_ORDER@[n - 1];
    let before = image_events(pe, kernel, initrd, (n - 1) as nat);
    let data = crate::measure::measured_data(pe, kernel, initrd, section);
    lemma_image_even(pe, kernel, initrd, n);
    lemma_image_even(pe, kernel, initrd, (n - 1) as nat);
    if 2 * i < before.len() {
        lemma_image_pair(pe, kernel, initrd, (n - 1) as nat, i);
    } else {
        let names = readable_names(pe.sections);
        lemma_repeated_events(names, section, data, 2 * i - before.len());
        lemma_repeated_events(names, section, data, 2 * i + 1 - before.len());
        assert(image_events(pe, kernel, initrd, n)[2 * i] == section_event(
            section,
            terminated_name(section),
        ));
    }
}

/// The sections of an image are measured in canonical order.
pub proof fn law_sections_are_measured_in_canonical_order(
    pe: PeModel,
    kernel: Seq<u8>,
    initrd: Seq<u8>,
    i: int,
    j: int,
    a: UnifiedSection,
    b: UnifiedSection,
)
    requires
        0 <= i <= j < image_events(pe, kernel, initrd, 15).len(),
        image_events(pe, kernel, initrd, 15)[i].description == DescriptionModel::Ascii(
            a.spec_name(),
        ),
        image_events(pe, kernel, initrd, 15)[j].description == DescriptionModel::Ascii(
            b.spec_name(),
        ),
    ensures
        a.rank() <= b.rank(),
{
    lemma_ranks_ascend(pe, kernel, initrd, 15, i, j, a, b);
}

proof fn lemma_ranks_ascend(
    pe: PeModel,
    kernel: Seq<u8>,
    initrd: Seq<u8>,
    n: nat,
    i: int,
    j: int,
    a: UnifiedSection,
    b: UnifiedSection,
)
    requires
        n <= 15,
        0 <= i <= j < image_events(pe, kernel, initrd, n).len(),
        image_events(pe, kernel, initrd, n)[i].description == DescriptionModel::Ascii(
            a.spec_name(),
        ),
        image_events(pe, kernel, initrd, n)[j].description == DescriptionModel::Ascii(
            b.spec_name(),
        ),
    ensures
        a.rank() <= b.rank(),
    decreases n,
{
    let section = UNIFIED_SECTION_ORDER@[n - 1];
    let before = image_events(pe, kernel, initrd, (n - 1) as nat);
    let data = crate::measure::measured_data(pe, kernel, initrd, section);
    if j < before.len() {
        lemma_ranks_ascend(pe, kernel, initrd, (n - 1) as nat, i, j, a, b);
    } else {
        law_canonical_order();
        let names = readable_names(pe.sections);
        lemma_repeated_events(names, section, data, j - before.len());
        law_names_are_unique(b, section);
        let first = lemma_image_event(pe, kernel, initrd, n, i);
        law_names_are_unique(a, first);
    }
}

/// An empty load options string is not measured; any other is measured once,
/// into PCR 12, and ends with a NUL there.
pub proof fn law_load_options_are_terminated(load_options: Seq<u8>)
    ensures
        load_options.len() == 0 <==> load_options_events(load_options).len() == 0,
        load_options.len() > 0 ==> load_options_events(load_options).len() == 1
            && load_options_events(load_options)[0].pcr == TPM_PCR_INDEX_KERNEL_CONFIG && ({
            let data = load_options_events(load_options)[0].data;
            data.len() >= 2 && data.last() == 0 && data[data.len() - 2] == 0
        }),
        with_utf16_nul(with_utf16_nul(load_options)) == with_utf16_nul(load_options),
{
}

/// Companion initrds are measured in their order.
pub proof fn law_companions_are_measured_in_order(
    first: Seq<CompanionInitrd>,
    second: Seq<CompanionInitrd>,
)
    ensures
        companions_events(first + second) == companions_events(first) + companions_events(second),
    decreases second.len(),
{
    let all = first + second;
    if second.len() == 0 {
        assert(all == first);
        assert(companions_events(first) + companions_events(second) == companions_events(first));
    } else {
        assert(all.drop_last() == first + second.drop_last());
        law_companions_are_measured_in_order(first, second.drop_last());
        let last = companion_events(second.last().kind, second.last().cpio@);
        assert((companions_events(first) + companions_events(second.drop_last())) + last
            == companions_events(first) + (companions_events(second.drop_last()) + last));
    }
}

/// Companion initrds are measured into PCR 12 or 13, never into the PCR of
/// the image itself, and only the archives themselves are measured.
pub proof fn law_companions_do_not_touch_the_image_pcr(companions: Seq<CompanionInitrd>, i: int)
    requires
        0 <= i < companions_events(companions).len(),
    ensures
        companions_events(companions)[i].pcr == TPM_PCR_INDEX_KERNEL_CONFIG || companions_events(
            companions,
        )[i].pcr == TPM_PCR_INDEX_SYSEXTS,
        companions_events(companions)[i].pcr != TPM_PCR_INDEX_KERNEL_IMAGE,
        exists|j: int|
            0 <= j < companions.len() && companions_events(companions)[i].data == (
            #[trigger] companions[j]).cpio@,
    decreases companions.len(),
{
    let before = companions_events(companions.drop_last());
    if i < before.len() {
        law_companions_do_not_touch_the_image_pcr(companions.drop_last(), i);
        let j = choose|j: int|
            0 <= j < companions.drop_last().len() && companions_events(companions)[i].data == (
            #[trigger] companions.drop_last()[j]).cpio@;
        assert(companions[j] == companions.drop_last()[j]);
    } else {
        assert(companions[companions.len() - 1] == companions.last());
    }
}

} // verus!
