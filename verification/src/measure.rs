//! Measurements into the TPM's platform configuration registers (PCRs).
//!
//! [`MeasureRun`] says which events are to be logged and which variables are
//! to be set afterwards; its caller performs each [`MeasureRequest`] against
//! the firmware and reports the outcome as a [`MeasureReply`].

use crate::bytes::{decimal, decimal_digits, push_all};
use crate::companions::{CompanionInitrd, CompanionInitrdType};
use crate::pe::{readable_names, text_views, ParsedPe, PeModel};
use crate::status::Status;
use crate::text::same_text;
use crate::unified_sections::{UnifiedSection, UnifiedSectionDataSource, UNIFIED_SECTION_ORDER};
use vstd::prelude::*;
use vstd::utf8::*;

verus! {

/// The boot loader is measured here.
pub const TPM_PCR_INDEX_BOOT_LOADER: u32 = 4;

/// This is where any stub payloads are extended, e.g. the kernel, the embedded
/// initrd and so on.
///
/// For each section two measurements are made: the section name in ASCII with
/// one trailing NUL byte, then the section contents. Sections are measured in
/// canonical order.
pub const TPM_PCR_INDEX_KERNEL_IMAGE: u32 = 11;

/// This is where the kernel command line and any passed credentials are
/// extended.
pub const TPM_PCR_INDEX_KERNEL_CONFIG: u32 = 12;

/// This is where the system extension images are extended.
pub const TPM_PCR_INDEX_SYSEXTS: u32 = 13;

/// ASCII characters as little-endian UTF-16.
pub open spec fn widened(ascii: Seq<u8>) -> Seq<u8> {
    Seq::new(
        2 * ascii.len(),
        |i: int|
            if i % 2 == 0 {
                ascii[i / 2]
            } else {
                0u8
            },
    )
}

/// A PCR index as a NUL-terminated decimal number in UTF-16.
pub open spec fn pcr_index_text(pcr_index: u32) -> Seq<u8> {
    widened(decimal_digits(pcr_index as nat)) + seq![0u8, 0u8]
}

/// Encode a PCR index as a NUL-terminated decimal number in UTF-16.
pub fn encode_pcr_index(pcr_index: u32) -> (encoded: Vec<u8>)
    ensures
        encoded@ == pcr_index_text(pcr_index),
{
    let digits = decimal(pcr_index);
    let mut encoded: Vec<u8> = Vec::new();
    for i in 0..digits.len()
        invariant
            encoded@ == widened(digits@.take(i as int)),
    {
        encoded.push(digits[i]);
        encoded.push(0);
        assert(encoded@ == widened(digits@.take(i + 1)));
    }
    assert(digits@.take(digits.len() as int) == digits@);
    encoded.push(0);
    encoded.push(0);
    assert(encoded@ == pcr_index_text(pcr_index));
    encoded
}

/// Bytes that are borrowed where possible.
#[derive(Debug)]
pub enum EventData<'a> {
    Borrowed(&'a [u8]),
    Owned(Vec<u8>),
}

impl<'a> View for EventData<'a> {
    type V = Seq<u8>;

    open spec fn view(&self) -> Seq<u8> {
        match self {
            EventData::Borrowed(bytes) => bytes@,
            EventData::Owned(bytes) => bytes@,
        }
    }
}

impl<'a> EventData<'a> {
    /// The bytes themselves.
    pub fn bytes(&self) -> (bytes: &[u8])
        ensures
            bytes@ == self@,
    {
        match self {
            EventData::Borrowed(bytes) => bytes,
            EventData::Owned(bytes) => bytes,
        }
    }
}

/// `bytes` with a UTF-16 NUL at the end.
pub open spec fn with_utf16_nul(bytes: Seq<u8>) -> Seq<u8> {
    if bytes.len() >= 2 && bytes[bytes.len() - 2] == 0 && bytes.last() == 0 {
        bytes
    } else {
        bytes + seq![0u8, 0u8]
    }
}

/// Append a UTF-16 NUL unless the bytes end with two zero bytes already.
pub fn ensure_utf16_bytes_with_nul(bytes: &[u8]) -> (terminated: EventData<'_>)
    ensures
        terminated@ == with_utf16_nul(bytes@),
{
    if bytes.len() >= 2 && bytes[bytes.len() - 2] == 0 && bytes[bytes.len() - 1] == 0 {
        EventData::Borrowed(bytes)
    } else {
        let mut owned: Vec<u8> = Vec::new();
        push_all(&mut owned, bytes);
        owned.push(0);
        owned.push(0);
        assert(owned@ == with_utf16_nul(bytes@));
        EventData::Owned(owned)
    }
}

/// Which of the stub's variables are to be set.
#[derive(Debug, Clone, Copy, PartialEq, Eq, Structural)]
pub struct StubVariables {
    pub kernel_image: bool,
    pub kernel_parameters: bool,
    pub initrd_sysexts: bool,
    pub initrd_confexts: bool,
}

impl StubVariables {
    /// No variable.
    pub open spec fn spec_none() -> StubVariables {
        StubVariables {
            kernel_image: false,
            kernel_parameters: false,
            initrd_sysexts: false,
            initrd_confexts: false,
        }
    }

    /// No variable.
    pub fn none() -> (variables: StubVariables)
        ensures
            variables == StubVariables::spec_none(),
    {
        StubVariables {
            kernel_image: false,
            kernel_parameters: false,
            initrd_sysexts: false,
            initrd_confexts: false,
        }
    }

    /// The variables of both.
    pub open spec fn merged(self, other: StubVariables) -> StubVariables {
        StubVariables {
            kernel_image: self.kernel_image || other.kernel_image,
            kernel_parameters: self.kernel_parameters || other.kernel_parameters,
            initrd_sysexts: self.initrd_sysexts || other.initrd_sysexts,
            initrd_confexts: self.initrd_confexts || other.initrd_confexts,
        }
    }

    fn merge(self, other: StubVariables) -> (both: StubVariables)
        ensures
            both == self.merged(other),
    {
        StubVariables {
            kernel_image: self.kernel_image || other.kernel_image,
            kernel_parameters: self.kernel_parameters || other.kernel_parameters,
            initrd_sysexts: self.initrd_sysexts || other.initrd_sysexts,
            initrd_confexts: self.initrd_confexts || other.initrd_confexts,
        }
    }

    /// Whether a variable is among these.
    pub open spec fn holds(self, variable: StubVariable) -> bool {
        match variable {
            StubVariable::KernelImage => self.kernel_image,
            StubVariable::KernelParameters => self.kernel_parameters,
            StubVariable::InitrdSysexts => self.initrd_sysexts,
            StubVariable::InitrdConfexts => self.initrd_confexts,
        }
    }

    fn has(self, variable: StubVariable) -> (held: bool)
        ensures
            held == self.holds(variable),
    {
        match variable {
            StubVariable::KernelImage => self.kernel_image,
            StubVariable::KernelParameters => self.kernel_parameters,
            StubVariable::InitrdSysexts => self.initrd_sysexts,
            StubVariable::InitrdConfexts => self.initrd_confexts,
        }
    }
}

/// A variable that tells the booted system which PCR was extended.
#[derive(Debug, Clone, Copy, PartialEq, Eq, Structural)]
pub enum StubVariable {
    KernelImage,
    KernelParameters,
    InitrdSysexts,
    InitrdConfexts,
}

/// The variables in the order in which they are set.
pub const STUB_VARIABLES: [StubVariable; 4] = [
    StubVariable::KernelImage,
    StubVariable::KernelParameters,
    StubVariable::InitrdSysexts,
    StubVariable::InitrdConfexts,
];

impl StubVariable {
    /// The name of the variable.
    pub open spec fn spec_name(self) -> Seq<char> {
        match self {
            StubVariable::KernelImage => "StubPcrKernelImage"@,
            StubVariable::KernelParameters => "StubPcrKernelParameters"@,
            StubVariable::InitrdSysexts => "StubPcrInitRDSysExts"@,
            StubVariable::InitrdConfexts => "StubPcrInitRDConfExts"@,
        }
    }

    /// The PCR that the variable announces.
    pub open spec fn spec_pcr(self) -> u32 {
        match self {
            StubVariable::KernelImage => TPM_PCR_INDEX_KERNEL_IMAGE,
            StubVariable::KernelParameters => TPM_PCR_INDEX_KERNEL_CONFIG,
            StubVariable::InitrdSysexts => TPM_PCR_INDEX_SYSEXTS,
            StubVariable::InitrdConfexts => TPM_PCR_INDEX_KERNEL_CONFIG,
        }
    }

    /// The name of the variable.
    pub fn name(self) -> (name: &'static str)
        ensures
            name@ == self.spec_name(),
    {
        match self {
            StubVariable::KernelImage => "StubPcrKernelImage",
            StubVariable::KernelParameters => "StubPcrKernelParameters",
            StubVariable::InitrdSysexts => "StubPcrInitRDSysExts",
            StubVariable::InitrdConfexts => "StubPcrInitRDConfExts",
        }
    }

    /// The PCR that the variable announces.
    pub fn pcr(self) -> (pcr: u32)
        ensures
            pcr == self.spec_pcr(),
    {
        match self {
            StubVariable::KernelImage => TPM_PCR_INDEX_KERNEL_IMAGE,
            StubVariable::KernelParameters => TPM_PCR_INDEX_KERNEL_CONFIG,
            StubVariable::InitrdSysexts => TPM_PCR_INDEX_SYSEXTS,
            StubVariable::InitrdConfexts => TPM_PCR_INDEX_KERNEL_CONFIG,
        }
    }
}

/// How an event is described in the log.
#[derive(Debug, Clone, Copy)]
pub enum EventDescription<'a> {
    /// An ASCII text.
    Ascii(&'a str),
    /// The measured data, which is UTF-16 text.
    Utf16Data,
}

/// How an event is described in the log.
pub enum DescriptionModel {
    Ascii(Seq<char>),
    Utf16Data,
}

impl<'a> View for EventDescription<'a> {
    type V = DescriptionModel;

    open spec fn view(&self) -> DescriptionModel {
        match *self {
            EventDescription::Ascii(text) => DescriptionModel::Ascii(text@),
            EventDescription::Utf16Data => DescriptionModel::Utf16Data,
        }
    }
}

/// An event to be logged.
#[derive(Debug)]
pub struct TpmEvent<'a> {
    pub pcr: u32,
    pub data: EventData<'a>,
    pub description: EventDescription<'a>,
    /// The variables to be set once this event is logged.
    pub variables: StubVariables,
}

/// An event with its data and description as sequences.
#[verifier::ext_equal]
pub struct EventModel {
    pub pcr: u32,
    pub data: Seq<u8>,
    pub description: DescriptionModel,
    pub variables: StubVariables,
}

impl<'a> View for TpmEvent<'a> {
    type V = EventModel;

    open spec fn view(&self) -> EventModel {
        EventModel {
            pcr: self.pcr,
            data: self.data@,
            description: self.description@,
            variables: self.variables,
        }
    }
}

/// The models of several events.
pub open spec fn event_models(events: Seq<TpmEvent<'_>>) -> Seq<EventModel> {
    events.map_values(|event: TpmEvent| event@)
}

/// A measurement into PCR 4, described by an ASCII text.
pub open spec fn boot_loader_event(buffer: Seq<u8>, description: Seq<char>) -> EventModel {
    EventModel {
        pcr: TPM_PCR_INDEX_BOOT_LOADER,
        data: buffer,
        description: DescriptionModel::Ascii(description),
        variables: StubVariables::spec_none(),
    }
}

/// Measure arbitrary data into PCR 4.
pub fn measure_boot_loader<'a>(buffer: &'a [u8], description: &'a str) -> (run: MeasureRun<'a>)
    ensures
        run.wf(),
        run@ == MeasureState::initial(seq![boot_loader_event(buffer@, description@)]),
{
    let mut events: Vec<TpmEvent<'a>> = Vec::new();
    events.push(
        TpmEvent {
            pcr: TPM_PCR_INDEX_BOOT_LOADER,
            data: EventData::Borrowed(buffer),
            description: EventDescription::Ascii(description),
            variables: StubVariables::none(),
        },
    );
    assert(event_models(events@) =~= seq![boot_loader_event(buffer@, description@)]);
    MeasureRun::start(events)
}

/// The data that is measured for a section, if there is any: the payloads
/// that were loaded from the file system for the kernel and the initrd, and
/// what the image holds for every other section.
pub open spec fn measured_data(
    pe: PeModel,
    kernel_data: Seq<u8>,
    initrd_data: Seq<u8>,
    section: UnifiedSection,
) -> Option<Seq<u8>> {
    match section.source() {
        UnifiedSectionDataSource::ExternalKernel => Some(kernel_data),
        UnifiedSectionDataSource::ExternalInitrd => Some(initrd_data),
        UnifiedSectionDataSource::Embedded => pe.contents(section.spec_name()),
    }
}

/// A section name with one trailing NUL byte.
pub open spec fn terminated_name(section: UnifiedSection) -> Seq<u8> {
    encode_utf8(section.spec_name()).push(0)
}

/// An event of a section in PCR 11.
pub open spec fn section_event(section: UnifiedSection, data: Seq<u8>) -> EventModel {
    EventModel {
        pcr: TPM_PCR_INDEX_KERNEL_IMAGE,
        data,
        description: DescriptionModel::Ascii(section.spec_name()),
        variables: StubVariables { kernel_image: true, ..StubVariables::spec_none() },
    }
}

/// The events of one section: its name, then its data.
pub open spec fn section_events(section: UnifiedSection, data: Option<Seq<u8>>) -> Seq<EventModel> {
    match data {
        Some(data) => seq![
            section_event(section, terminated_name(section)),
            section_event(section, data),
        ],
        None => Seq::empty(),
    }
}

/// The events of one section, once for each time that it is named.
pub open spec fn repeated_events(
    names: Seq<Seq<char>>,
    section: UnifiedSection,
    data: Option<Seq<u8>>,
) -> Seq<EventModel>
    decreases names.len(),
{
    if names.len() == 0 {
        Seq::empty()
    } else {
        let before = repeated_events(names.drop_last(), section, data);
        if names.last() == section.spec_name() {
            before + section_events(section, data)
        } else {
            before
        }
    }
}

/// The events of the first `n` sections of the canonical order.
pub open spec fn image_events(
    pe: PeModel,
    kernel_data: Seq<u8>,
    initrd_data: Seq<u8>,
    n: nat,
) -> Seq<EventModel>
    decreases n,
{
    if n == 0 {
        Seq::empty()
    } else {
        let section = UNIFIED_SECTION_ORDER@[n - 1];
        let before = image_events(pe, kernel_data, initrd_data, (n - 1) as nat);
        if section.is_measured() {
            before + repeated_events(
                readable_names(pe.sections),
                section,
                measured_data(pe, kernel_data, initrd_data, section),
            )
        } else {
            before
        }
    }
}

fn push_section_events<'a>(
    events: &mut Vec<TpmEvent<'a>>,
    section: UnifiedSection,
    data: EventData<'a>,
)
    ensures
        event_models(final(events)@) == event_models(old(events)@) + section_events(
            section,
            Some(data@),
        ),
{
    let mut variables = StubVariables::none();
    variables.kernel_image = true;
    let mut name: Vec<u8> = Vec::new();
    push_all(&mut name, section.name().as_bytes());
    name.push(0);
    assert(name@ == terminated_name(section));
    events.push(
        TpmEvent {
            pcr: TPM_PCR_INDEX_KERNEL_IMAGE,
            data: EventData::Owned(name),
            description: EventDescription::Ascii(section.name()),
            variables,
        },
    );
    events.push(
        TpmEvent {
            pcr: TPM_PCR_INDEX_KERNEL_IMAGE,
            data,
            description: EventDescription::Ascii(section.name()),
            variables,
        },
    );
    assert(event_models(events@) =~= event_models(old(events)@) + section_events(
        section,
        Some(data@),
    ));
}

/// Measure the sections of a running image into PCR 11, in canonical order.
/// The kernel and the initrd are measured as they were loaded from the file
/// system.
pub fn measure_image<'a>(
    pe: &ParsedPe,
    kernel_data: &'a [u8],
    initrd_data: &'a [u8],
) -> (run: MeasureRun<'a>)
    ensures
        run.wf(),
        run@ == MeasureState::initial(image_events(pe@, kernel_data@, initrd_data@, 15)),
{
    let names = pe.sections();
    let ghost known = readable_names(pe@.sections);
    let mut events: Vec<TpmEvent<'a>> = Vec::new();
    assert(event_models(events@) =~= image_events(pe@, kernel_data@, initrd_data@, 0));
    for i in 0..UNIFIED_SECTION_ORDER.len()
        invariant
            known == readable_names(pe@.sections),
            text_views(names@) == known,
            event_models(events@) == image_events(pe@, kernel_data@, initrd_data@, i as nat),
    {
        let section = UNIFIED_SECTION_ORDER[i];
        let ghost data = measured_data(pe@, kernel_data@, initrd_data@, section);
        let ghost before = event_models(events@);
        if section.should_be_measured() {
            assert(before =~= before + repeated_events(known.take(0), section, data));
            for j in 0..names.len()
                invariant
                    known == readable_names(pe@.sections),
                    text_views(names@) == known,
                    data == measured_data(pe@, kernel_data@, initrd_data@, section),
                    event_models(events@) == before + repeated_events(
                        known.take(j as int),
                        section,
                        data,
                    ),
            {
                assert(known.take(j + 1).drop_last() == known.take(j as int));
                assert(known.take(j + 1).last() == names@[j as int]@);
                if same_text(names[j], section.name()) {
                    let ghost prior = event_models(events@);
                    match section.data_source() {
                        UnifiedSectionDataSource::ExternalKernel => push_section_events(
                            &mut events,
                            section,
                            EventData::Borrowed(kernel_data),
                        ),
                        UnifiedSectionDataSource::ExternalInitrd => push_section_events(
                            &mut events,
                            section,
                            EventData::Borrowed(initrd_data),
                        ),
                        UnifiedSectionDataSource::Embedded => {
                            if let Some(contents) = pe.section_data(section.name()) {
                                push_section_events(
                                    &mut events,
                                    section,
                                    EventData::Owned(contents),
                                );
                            }
                        },
                    }
                    assert(event_models(events@) =~= prior + section_events(section, data));
                    assert(event_models(events@) =~= before + repeated_events(
                        known.take(j + 1),
                        section,
                        data,
                    ));
                }
            }
            assert(known.take(known.len() as int) == known);
        }
    }
    MeasureRun::start(events)
}

/// The event of a load options string, if it is not empty.
pub open spec fn load_options_events(load_options: Seq<u8>) -> Seq<EventModel> {
    if load_options.len() == 0 {
        Seq::empty()
    } else {
        seq![
            EventModel {
                pcr: TPM_PCR_INDEX_KERNEL_CONFIG,
                data: with_utf16_nul(load_options),
                description: DescriptionModel::Utf16Data,
                variables: StubVariables {
                    kernel_parameters: true,
                    ..StubVariables::spec_none()
                },
            },
        ]
    }
}

/// Measure a custom load options string into PCR 12. The buffer is expected
/// to contain UTF-16LE data suitable for hand-off to the kernel.
pub fn measure_load_options<'a>(load_options: &'a [u8]) -> (run: MeasureRun<'a>)
    ensures
        run.wf(),
        run@ == MeasureState::initial(load_options_events(load_options@)),
{
    let mut events: Vec<TpmEvent<'a>> = Vec::new();
    if load_options.len() > 0 {
        let mut variables = StubVariables::none();
        variables.kernel_parameters = true;
        events.push(
            TpmEvent {
                pcr: TPM_PCR_INDEX_KERNEL_CONFIG,
                data: ensure_utf16_bytes_with_nul(load_options),
                description: EventDescription::Utf16Data,
                variables,
            },
        );
    }
    assert(event_models(events@) =~= load_options_events(load_options@));
    MeasureRun::start(events)
}

/// The events of one companion initrd. PCR signatures and public keys are not
/// measured.
pub open spec fn companion_events(kind: CompanionInitrdType, cpio: Seq<u8>) -> Seq<EventModel> {
    let none = StubVariables::spec_none();
    let parameters = StubVariables { kernel_parameters: true, ..none };
    let sysexts = StubVariables { initrd_sysexts: true, ..none };
    let confexts = StubVariables { initrd_confexts: true, ..parameters };
    match kind {
        CompanionInitrdType::PcrSignature => Seq::empty(),
        CompanionInitrdType::PcrPublicKey => Seq::empty(),
        CompanionInitrdType::Credentials => seq![
            companion_event(TPM_PCR_INDEX_KERNEL_CONFIG, cpio, "Credentials initrd"@, parameters),
        ],
        CompanionInitrdType::GlobalCredentials => seq![
            companion_event(
                TPM_PCR_INDEX_KERNEL_CONFIG,
                cpio,
                "Global credentials initrd"@,
                parameters,
            ),
        ],
        CompanionInitrdType::SystemExtension => seq![
            companion_event(TPM_PCR_INDEX_SYSEXTS, cpio, "System extension initrd"@, sysexts),
        ],
        CompanionInitrdType::GlobalSystemExtension => seq![
            companion_event(TPM_PCR_INDEX_SYSEXTS, cpio, "Global system extension initrd"@, sysexts),
        ],
        CompanionInitrdType::ConfigurationExtension => seq![
            companion_event(
                TPM_PCR_INDEX_KERNEL_CONFIG,
                cpio,
                "Configuration extension initrd"@,
                confexts,
            ),
        ],
        CompanionInitrdType::GlobalConfigurationExtension => seq![
            companion_event(
                TPM_PCR_INDEX_KERNEL_CONFIG,
                cpio,
                "Global configuration extension initrd"@,
                confexts,
            ),
        ],
    }
}

/// An event of a companion initrd.
pub open spec fn companion_event(
    pcr: u32,
    cpio: Seq<u8>,
    description: Seq<char>,
    variables: StubVariables,
) -> EventModel {
    EventModel { pcr, data: cpio, description: DescriptionModel::Ascii(description), variables }
}

/// The events of several companion initrds, in their order.
pub open spec fn companions_events(companions: Seq<CompanionInitrd>) -> Seq<EventModel>
    decreases companions.len(),
{
    if companions.len() == 0 {
        Seq::empty()
    } else {
        companions_events(companions.drop_last()) + companion_events(
            companions.last().kind,
            companions.last().cpio@,
        )
    }
}

fn event_of_companion<'a>(initrd: &'a CompanionInitrd) -> (event: Option<TpmEvent<'a>>)
    ensures
        match event {
            Some(event) => companion_events(initrd.kind, initrd.cpio@) == seq![event@],
            None => companion_events(initrd.kind, initrd.cpio@) == Seq::<EventModel>::empty(),
        },
{
    let mut variables = StubVariables::none();
    let (pcr, description): (u32, &'static str) = match initrd.kind {
        CompanionInitrdType::PcrSignature | CompanionInitrdType::PcrPublicKey => {
            return None;
        },
        CompanionInitrdType::Credentials => {
            variables.kernel_parameters = true;
            (TPM_PCR_INDEX_KERNEL_CONFIG, "Credentials initrd")
        },
        CompanionInitrdType::GlobalCredentials => {
            variables.kernel_parameters = true;
            (TPM_PCR_INDEX_KERNEL_CONFIG, "Global credentials initrd")
        },
        CompanionInitrdType::SystemExtension => {
            variables.initrd_sysexts = true;
            (TPM_PCR_INDEX_SYSEXTS, "System extension initrd")
        },
        CompanionInitrdType::GlobalSystemExtension => {
            variables.initrd_sysexts = true;
            (TPM_PCR_INDEX_SYSEXTS, "Global system extension initrd")
        },
        CompanionInitrdType::ConfigurationExtension => {
            variables.kernel_parameters = true;
            variables.initrd_confexts = true;
            (TPM_PCR_INDEX_KERNEL_CONFIG, "Configuration extension initrd")
        },
        CompanionInitrdType::GlobalConfigurationExtension => {
            variables.kernel_parameters = true;
            variables.initrd_confexts = true;
            (TPM_PCR_INDEX_KERNEL_CONFIG, "Global configuration extension initrd")
        },
    };
    Some(
        TpmEvent {
            pcr,
            data: EventData::Borrowed(&initrd.cpio),
            description: EventDescription::Ascii(description),
            variables,
        },
    )
}

/// Measure companion initrds of any kind.
///
/// Relies on the order of `companions` for measurements into the same PCR. A
/// stable order is expected for measurement stability.
pub fn measure_companion_initrds<'a>(companions: &'a [CompanionInitrd]) -> (run: MeasureRun<'a>)
    ensures
        run.wf(),
        run@ == MeasureState::initial(companions_events(companions@)),
{
    let mut events: Vec<TpmEvent<'a>> = Vec::new();
    assert(event_models(events@) =~= companions_events(companions@.take(0)));
    for i in 0..companions.len()
        invariant
            event_models(events@) == companions_events(companions@.take(i as int)),
    {
        assert(companions@.take(i + 1).drop_last() == companions@.take(i as int));
        let ghost before = event_models(events@);
        if let Some(event) = event_of_companion(&companions[i]) {
            events.push(event);
            assert(event_models(events@) =~= before + seq![event@]);
        } else {
            assert(before =~= before + Seq::<EventModel>::empty());
        }
    }
    assert(companions@.take(companions.len() as int) == companions@);
    MeasureRun::start(events)
}

/// What a [`MeasureRun`] is waiting for.
#[derive(Debug, Clone, Copy)]
pub enum MeasureStage {
    /// The event at this position is to be logged.
    Log(usize),
    /// The variable at this position is to be set.
    Announce(usize),
    Finished(Result<usize, Status>),
}

/// The state of a measurement.
pub struct MeasureState {
    /// All events of the measurement.
    pub events: Seq<EventModel>,
    /// How many events were logged.
    pub measurements: nat,
    /// The variables of the logged events.
    pub variables: StubVariables,
    pub stage: MeasureStage,
}

/// What has to be done next.
#[derive(Debug)]
pub enum MeasureRequest<'a> {
    /// Log this event.
    LogEvent(&'a TpmEvent<'a>),
    /// Give the variable with this name this value.
    SetVariable(&'static str, Vec<u8>),
    /// Nothing is left to do. The number of logged events, or the error that
    /// ended the measurement.
    Finished(Result<usize, Status>),
}

/// A request with its data as sequences.
pub enum MeasureRequestModel {
    LogEvent(EventModel),
    SetVariable(Seq<char>, Seq<u8>),
    Finished(Result<usize, Status>),
}

impl<'a> View for MeasureRequest<'a> {
    type V = MeasureRequestModel;

    open spec fn view(&self) -> MeasureRequestModel {
        match *self {
            MeasureRequest::LogEvent(event) => MeasureRequestModel::LogEvent(event@),
            MeasureRequest::SetVariable(name, value) => MeasureRequestModel::SetVariable(
                name@,
                value@,
            ),
            MeasureRequest::Finished(result) => MeasureRequestModel::Finished(result),
        }
    }
}

/// The outcome of a request.
#[derive(Debug, Clone, Copy)]
pub enum MeasureReply {
    /// Of `LogEvent`: whether the event was measured.
    Logged(Result<bool, Status>),
    /// Of `SetVariable`: whether it succeeded.
    VariableSet(Result<(), Status>),
}

/// The position of the first variable from `from` on that is to be set, or 4.
pub open spec fn next_variable(variables: StubVariables, from: nat) -> nat
    decreases 4 - from,
{
    if from >= 4 {
        4
    } else if variables.holds(STUB_VARIABLES@[from as int]) {
        from
    } else {
        next_variable(variables, from + 1)
    }
}

impl MeasureState {
    /// The state in which a measurement begins.
    pub open spec fn initial(events: Seq<EventModel>) -> MeasureState {
        MeasureState {
            events,
            measurements: 0,
            variables: StubVariables::spec_none(),
            stage: if events.len() > 0 {
                MeasureStage::Log(0)
            } else {
                MeasureStage::Finished(Ok(0))
            },
        }
    }

    /// The same state at another stage.
    pub open spec fn at(self, stage: MeasureStage) -> MeasureState {
        MeasureState { stage, ..self }
    }

    /// The same state, about to set the first of the remaining variables.
    pub open spec fn at_variable(self, from: nat) -> MeasureState {
        let variable = next_variable(self.variables, from);
        if variable < 4 {
            self.at(MeasureStage::Announce(variable as usize))
        } else {
            self.at(MeasureStage::Finished(Ok(self.measurements as usize)))
        }
    }

    /// What has to be done next in this state.
    pub open spec fn request(self) -> MeasureRequestModel {
        match self.stage {
            MeasureStage::Log(i) => MeasureRequestModel::LogEvent(self.events[i as int]),
            MeasureStage::Announce(k) => {
                let variable = STUB_VARIABLES@[k as int];
                MeasureRequestModel::SetVariable(
                    variable.spec_name(),
                    pcr_index_text(variable.spec_pcr()),
                )
            },
            MeasureStage::Finished(result) => MeasureRequestModel::Finished(result),
        }
    }

    /// Whether `reply` is an outcome that the current request can have.
    pub open spec fn awaits(self, reply: MeasureReply) -> bool {
        match self.stage {
            MeasureStage::Log(_) => reply is Logged,
            MeasureStage::Announce(_) => reply is VariableSet,
            MeasureStage::Finished(_) => false,
        }
    }

    /// The state after the event at position `i` was logged, or not.
    pub open spec fn after_event(self, i: usize, logged: bool) -> MeasureState {
        let counted = if logged {
            MeasureState {
                measurements: self.measurements + 1,
                variables: self.variables.merged(self.events[i as int].variables),
                ..self
            }
        } else {
            self
        };
        if i + 1 < self.events.len() {
            counted.at(MeasureStage::Log((i + 1) as usize))
        } else {
            counted.at_variable(0)
        }
    }

    /// The state after the current request had the outcome `reply`. Any error
    /// ends the measurement.
    pub open spec fn next(self, reply: MeasureReply) -> MeasureState {
        match (self.stage, reply) {
            (MeasureStage::Log(i), MeasureReply::Logged(Ok(logged))) => self.after_event(i, logged),
            (MeasureStage::Log(_), MeasureReply::Logged(Err(status))) => self.at(
                MeasureStage::Finished(Err(status)),
            ),
            (MeasureStage::Announce(k), MeasureReply::VariableSet(Ok(()))) => self.at_variable(
                (k + 1) as nat,
            ),
            (MeasureStage::Announce(_), MeasureReply::VariableSet(Err(status))) => self.at(
                MeasureStage::Finished(Err(status)),
            ),
            _ => self,
        }
    }

    /// What holds in every state that a measurement can reach.
    pub open spec fn valid(self) -> bool {
        match self.stage {
            MeasureStage::Log(i) => i < self.events.len() && self.measurements <= i,
            MeasureStage::Announce(k) => k < 4 && self.measurements <= self.events.len(),
            MeasureStage::Finished(_) => true,
        }
    }
}

/// A measurement in progress.
#[derive(Debug)]
pub struct MeasureRun<'a> {
    events: Vec<TpmEvent<'a>>,
    measurements: usize,
    variables: StubVariables,
    stage: MeasureStage,
}

impl<'a> View for MeasureRun<'a> {
    type V = MeasureState;

    closed spec fn view(&self) -> MeasureState {
        MeasureState {
            events: event_models(self.events@),
            measurements: self.measurements as nat,
            variables: self.variables,
            stage: self.stage,
        }
    }
}

impl<'a> MeasureRun<'a> {
    /// The run is in a state that a measurement can reach.
    pub closed spec fn wf(&self) -> bool {
        self@.valid()
    }

    /// A well-formed run is in a valid state.
    pub proof fn lemma_valid(self)
        requires
            self.wf(),
        ensures
            self@.valid(),
    {
    }

    /// Begin to log `events` in order.
    pub fn start(events: Vec<TpmEvent<'a>>) -> (run: MeasureRun<'a>)
        ensures
            run.wf(),
            run@ == MeasureState::initial(event_models(events@)),
    {
        let stage = if events.len() > 0 {
            MeasureStage::Log(0)
        } else {
            MeasureStage::Finished(Ok(0))
        };
        MeasureRun { events, measurements: 0, variables: StubVariables::none(), stage }
    }

    /// What has to be done next.
    pub fn request(&self) -> (request: MeasureRequest<'_>)
        requires
            self.wf(),
        ensures
            request@ == self@.request(),
    {
        match self.stage {
            MeasureStage::Log(i) => MeasureRequest::LogEvent(&self.events[i]),
            MeasureStage::Announce(k) => {
                let variable = STUB_VARIABLES[k];
                MeasureRequest::SetVariable(variable.name(), encode_pcr_index(variable.pcr()))
            },
            MeasureStage::Finished(result) => MeasureRequest::Finished(result),
        }
    }

    fn at_variable(self, from: usize) -> (next: MeasureRun<'a>)
        requires
            from <= 4,
            self@.measurements <= self@.events.len(),
        ensures
            next.wf(),
            next@ == self@.at_variable(from as nat),
    {
        let mut next = self;
        let mut k: usize = from;
        while k < 4 && !next.variables.has(STUB_VARIABLES[k])
            invariant
                k <= 4,
                next == self,
                next_variable(self.variables, k as nat) == next_variable(
                    self.variables,
                    from as nat,
                ),
            decreases 4 - k,
        {
            k = k + 1;
        }
        if k < 4 {
            next.stage = MeasureStage::Announce(k);
        } else {
            next.stage = MeasureStage::Finished(Ok(next.measurements));
        }
        next
    }

    /// Take in the outcome of the current request.
    pub fn advance(self, reply: MeasureReply) -> (next: MeasureRun<'a>)
        requires
            self.wf(),
            self@.awaits(reply),
        ensures
            next.wf(),
            next@ == self@.next(reply),
    {
        let mut next = self;
        match (next.stage, reply) {
            (MeasureStage::Log(i), MeasureReply::Logged(Ok(logged))) => {
                assert(i < next.events.len());
                if logged {
                    next.measurements = next.measurements + 1;
                    next.variables = next.variables.merge(next.events[i].variables);
                }
                if i + 1 < next.events.len() {
                    next.stage = MeasureStage::Log(i + 1);
                    next
                } else {
                    next.at_variable(0)
                }
            },
            (MeasureStage::Announce(k), MeasureReply::VariableSet(Ok(()))) => next.at_variable(k + 1),
            (_, MeasureReply::Logged(Err(status))) | (_, MeasureReply::VariableSet(Err(status))) => {
                next.stage = MeasureStage::Finished(Err(status));
                next
            },
            _ => next,
        }
    }
}

} // verus!
