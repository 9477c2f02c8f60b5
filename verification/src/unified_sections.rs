use crate::status::Status;
use crate::text::same_text;
use vstd::prelude::*;

verus! {

/// PE sections that have a special meaning in a unified kernel image.
///
/// The declaration order of the variants is the canonical order in which the
/// sections are measured into PCR 11.
#[derive(Debug, Clone, Copy, PartialEq, Eq, Structural, PartialOrd, Ord)]
pub enum UnifiedSection {
    Linux,
    OsRel,
    CmdLine,
    Initrd,
    Ucode,
    Splash,
    Dtb,
    Uname,
    Sbat,
    PcrSig,
    PcrPkey,
    Profile,
    DtbAuto,
    Hwids,
    EfiFw,
}

/// Where the measured contents of a section come from.
#[derive(Debug, Clone, Copy, PartialEq, Eq, Structural)]
pub enum UnifiedSectionDataSource {
    Embedded,
    ExternalKernel,
    ExternalInitrd,
}

/// A string that is not the name of a unified section.
#[derive(Debug, Clone, Copy, PartialEq, Eq, Structural)]
pub struct ParseUnifiedSectionError;

impl ParseUnifiedSectionError {
    /// The text of this error.
    pub fn message(self) -> (message: &'static str)
        ensures
            message@ == "invalid unified section name"@,
    {
        "invalid unified section name"
    }

    /// The firmware status of this error.
    pub fn status(self) -> (status: Status)
        ensures
            status == Status::InvalidParameter,
    {
        Status::InvalidParameter
    }
}

/// All unified sections in canonical order.
pub const UNIFIED_SECTION_ORDER: [UnifiedSection; 15] = [
    UnifiedSection::Linux,
    UnifiedSection::OsRel,
    UnifiedSection::CmdLine,
    UnifiedSection::Initrd,
    UnifiedSection::Ucode,
    UnifiedSection::Splash,
    UnifiedSection::Dtb,
    UnifiedSection::Uname,
    UnifiedSection::Sbat,
    UnifiedSection::PcrSig,
    UnifiedSection::PcrPkey,
    UnifiedSection::Profile,
    UnifiedSection::DtbAuto,
    UnifiedSection::Hwids,
    UnifiedSection::EfiFw,
];

impl UnifiedSection {
    /// The section's position in the canonical order.
    pub open spec fn rank(self) -> int {
        match self {
            UnifiedSection::Linux => 0,
            UnifiedSection::OsRel => 1,
            UnifiedSection::CmdLine => 2,
            UnifiedSection::Initrd => 3,
            UnifiedSection::Ucode => 4,
            UnifiedSection::Splash => 5,
            UnifiedSection::Dtb => 6,
            UnifiedSection::Uname => 7,
            UnifiedSection::Sbat => 8,
            UnifiedSection::PcrSig => 9,
            UnifiedSection::PcrPkey => 10,
            UnifiedSection::Profile => 11,
            UnifiedSection::DtbAuto => 12,
            UnifiedSection::Hwids => 13,
            UnifiedSection::EfiFw => 14,
        }
    }

    /// The PE section name, as characters.
    pub open spec fn spec_name(self) -> Seq<char> {
        match self {
            UnifiedSection::Linux => ".linux"@,
            UnifiedSection::OsRel => ".osrel"@,
            UnifiedSection::CmdLine => ".cmdline"@,
            UnifiedSection::Initrd => ".initrd"@,
            UnifiedSection::Ucode => ".ucode"@,
            UnifiedSection::Splash => ".splash"@,
            UnifiedSection::Dtb => ".dtb"@,
            UnifiedSection::Uname => ".uname"@,
            UnifiedSection::Sbat => ".sbat"@,
            UnifiedSection::PcrSig => ".pcrsig"@,
            UnifiedSection::PcrPkey => ".pcrpkey"@,
            UnifiedSection::Profile => ".profile"@,
            UnifiedSection::DtbAuto => ".dtbauto"@,
            UnifiedSection::Hwids => ".hwids"@,
            UnifiedSection::EfiFw => ".efifw"@,
        }
    }

    /// The PE section name of this unified section.
    pub fn name(self) -> (name: &'static str)
        ensures
            name@ == self.spec_name(),
    {
        match self {
            UnifiedSection::Linux => ".linux",
            UnifiedSection::OsRel => ".osrel",
            UnifiedSection::CmdLine => ".cmdline",
            UnifiedSection::Initrd => ".initrd",
            UnifiedSection::Ucode => ".ucode",
            UnifiedSection::Splash => ".splash",
            UnifiedSection::Dtb => ".dtb",
            UnifiedSection::Uname => ".uname",
            UnifiedSection::Sbat => ".sbat",
            UnifiedSection::PcrSig => ".pcrsig",
            UnifiedSection::PcrPkey => ".pcrpkey",
            UnifiedSection::Profile => ".profile",
            UnifiedSection::DtbAuto => ".dtbauto",
            UnifiedSection::Hwids => ".hwids",
            UnifiedSection::EfiFw => ".efifw",
        }
    }
}

impl UnifiedSection {
    /// Whether this section should be measured into PCR 11.
    ///
    /// `.pcrsig` is never measured. `.dtbauto` would need a choice among
    /// several device trees first, which is not made here.
    pub fn should_be_measured(self) -> (measured: bool)
        ensures
            measured == self.is_measured(),
    {
        !matches!(self, UnifiedSection::PcrSig | UnifiedSection::DtbAuto)
    }

    /// Whether this section is measured into PCR 11.
    pub open spec fn is_measured(self) -> bool {
        self != UnifiedSection::PcrSig && self != UnifiedSection::DtbAuto
    }

    /// Where the measured contents of this section come from.
    pub open spec fn source(self) -> UnifiedSectionDataSource {
        if self == UnifiedSection::Linux {
            UnifiedSectionDataSource::ExternalKernel
        } else if self == UnifiedSection::Initrd {
            UnifiedSectionDataSource::ExternalInitrd
        } else {
            UnifiedSectionDataSource::Embedded
        }
    }

    /// Where the measured contents of this section come from.
    pub fn data_source(self) -> (source: UnifiedSectionDataSource)
        ensures
            source == self.source(),
    {
        match self {
            UnifiedSection::Linux => UnifiedSectionDataSource::ExternalKernel,
            UnifiedSection::Initrd => UnifiedSectionDataSource::ExternalInitrd,
            _ => UnifiedSectionDataSource::Embedded,
        }
    }

    /// The section that has a name, if there is one.
    pub open spec fn named(name: Seq<char>) -> Option<UnifiedSection> {
        if exists|section: UnifiedSection| section.spec_name() == name {
            Some(choose|section: UnifiedSection| section.spec_name() == name)
        } else {
            None
        }
    }
}

/// The canonical order lists every section exactly once, at its rank.
pub proof fn law_canonical_order()
    ensures
        UNIFIED_SECTION_ORDER@.len() == 15,
        forall|section: UnifiedSection|
            0 <= #[trigger] section.rank() < 15 && UNIFIED_SECTION_ORDER@[section.rank()]
                == section,
        forall|i: int| 0 <= i < 15 ==> (#[trigger] UNIFIED_SECTION_ORDER@[i]).rank() == i,
{
}

/// No two sections share a name, so a section is found again by its name.
pub proof fn law_names_are_unique(a: UnifiedSection, b: UnifiedSection)
    ensures
        a.spec_name() == b.spec_name() ==> a == b,
        UnifiedSection::named(a.spec_name()) == Some(a),
{
    lemma_names_differ(a, b);
    let c = choose|section: UnifiedSection| section.spec_name() == a.spec_name();
    lemma_names_differ(a, c);
}

proof fn lemma_names_differ(a: UnifiedSection, b: UnifiedSection)
    ensures
        a.spec_name() == b.spec_name() ==> a == b,
{
    reveal_strlit(".linux");
    reveal_strlit(".osrel");
    reveal_strlit(".cmdline");
    reveal_strlit(".initrd");
    reveal_strlit(".ucode");
    reveal_strlit(".splash");
    reveal_strlit(".dtb");
    reveal_strlit(".uname");
    reveal_strlit(".sbat");
    reveal_strlit(".pcrsig");
    reveal_strlit(".pcrpkey");
    reveal_strlit(".profile");
    reveal_strlit(".dtbauto");
    reveal_strlit(".hwids");
    reveal_strlit(".efifw");
    let x = a.spec_name();
    let y = b.spec_name();
    if x == y {
        assert(x.len() == y.len());
        assert(x[1] == y[1] && x[2] == y[2] && x[3] == y[3]);
        if x.len() == 7 {
            assert(x[4] == y[4]);
        }
        if x.len() == 8 {
            assert(x[4] == y[4]);
        }
    }
}

/// What the name `value` stands for.
pub open spec fn parsed(value: Seq<char>) -> Result<UnifiedSection, ParseUnifiedSectionError> {
    match UnifiedSection::named(value) {
        Some(section) => Ok(section),
        None => Err(ParseUnifiedSectionError),
    }
}

impl<'a> TryFrom<&'a str> for UnifiedSection {
    type Error = ParseUnifiedSectionError;

    fn try_from(value: &'a str) -> (section: Result<Self, ParseUnifiedSectionError>) {
        for i in 0..UNIFIED_SECTION_ORDER.len()
            invariant
                forall|j: int|
                    0 <= j < i ==> (#[trigger] UNIFIED_SECTION_ORDER@[j]).spec_name() != value@,
        {
            let section = UNIFIED_SECTION_ORDER[i];
            if same_text(value, section.name()) {
                proof {
                    law_names_are_unique(section, section);
                }
                return Ok(section);
            }
        }
        proof {
            law_canonical_order();
            assert forall|section: UnifiedSection| section.spec_name() != value@ by {
                assert(UNIFIED_SECTION_ORDER@[section.rank()] == section);
            }
        }
        Err(ParseUnifiedSectionError)
    }
}

impl<'a> vstd::std_specs::convert::TryFromSpecImpl<&'a str> for UnifiedSection {
    open spec fn obeys_try_from_spec() -> bool {
        true
    }

    open spec fn try_from_spec(value: &'a str) -> Result<Self, ParseUnifiedSectionError> {
        parsed(value@)
    }
}

impl std::str::FromStr for UnifiedSection {
    type Err = ParseUnifiedSectionError;

    fn from_str(value: &str) -> (section: Result<Self, ParseUnifiedSectionError>)
        ensures
            section == parsed(value@),
    {
        UnifiedSection::try_from(value)
    }
}

} // verus!
