//! Section data of PE binaries.

use crate::bytes::{push_all, zeros};
use crate::status::Status;
use crate::text::{decode_text, same_text, trim_end, trim_end_nul, utf8_text};
use goblin::pe::options::ParseOptions;
use goblin::pe::PE;
use vstd::prelude::*;

verus! {

/// How a PE binary's bytes are laid out in the buffer being parsed.
///
/// Sections of an image that the firmware loaded live at their virtual
/// addresses, while sections of a file read from disk live at their raw file
/// offsets. Extracting section data with the wrong layout reads unrelated
/// bytes or runs out of bounds.
#[derive(Debug, Clone, Copy, PartialEq, Eq, Structural)]
pub enum PeLayout {
    Loaded,
    Disk,
}

/// One entry of a PE section table.
#[derive(Debug)]
pub struct SectionTable {
    /// The section name, unless it cannot be read.
    pub name: Option<String>,
    pub virtual_size: u32,
    pub virtual_address: u32,
    pub size_of_raw_data: u32,
    pub pointer_to_raw_data: u32,
}

/// An entry of a section table with its name as characters.
pub struct SectionModel {
    pub name: Option<Seq<char>>,
    pub virtual_size: u32,
    pub virtual_address: u32,
    pub size_of_raw_data: u32,
    pub pointer_to_raw_data: u32,
}

impl View for SectionTable {
    type V = SectionModel;

    open spec fn view(&self) -> SectionModel {
        SectionModel {
            name: match self.name {
                Some(name) => Some(name@),
                None => None,
            },
            virtual_size: self.virtual_size,
            virtual_address: self.virtual_address,
            size_of_raw_data: self.size_of_raw_data,
            pointer_to_raw_data: self.pointer_to_raw_data,
        }
    }
}

/// The entries of a section table.
pub open spec fn section_models(table: Seq<SectionTable>) -> Seq<SectionModel> {
    table.map_values(|section: SectionTable| section@)
}

/// The error of the `goblin` crate.
#[verifier::external_type_specification]
#[verifier::external_body]
pub struct ExGoblinError(goblin::error::Error);

/// The section table that `goblin` reads from a PE binary, or nothing if it
/// does not accept the binary.
pub uninterp spec fn pe_sections(data: Seq<u8>, attribute_certificates: bool) -> Option<
    Seq<SectionModel>,
>;

/// `goblin::pe::PE::parse_with_opts` with the default options, except that
/// attribute certificates are parsed as requested. The entries of its section
/// table come with their names as `SectionTable::name` gives them. The result
/// depends on the bytes and on that option alone.
#[verifier::external_body]
fn parse_section_table(data: &[u8], attribute_certificates: bool) -> (table: Result<
    Vec<SectionTable>,
    goblin::error::Error,
>)
    ensures
        match table {
            Ok(table) => pe_sections(data@, attribute_certificates) == Some(
                section_models(table@),
            ),
            Err(_) => pe_sections(data@, attribute_certificates) is None,
        },
{
    let mut options = ParseOptions::default();
    options.parse_attribute_certificates = attribute_certificates;
    let sections = PE::parse_with_opts(data, &options)?.sections;
    Ok(sections.iter().map(|section| SectionTable {
        name: section.name().ok().map(String::from),
        virtual_size: section.virtual_size,
        virtual_address: section.virtual_address,
        size_of_raw_data: section.size_of_raw_data,
        pointer_to_raw_data: section.pointer_to_raw_data,
    }).collect())
}

/// An analyzed PE binary.
#[derive(Debug)]
pub struct ParsedPe<'a> {
    data: &'a [u8],
    sections: Vec<SectionTable>,
    layout: PeLayout,
}

/// An analyzed PE binary with its bytes and sections as sequences.
pub struct PeModel {
    pub data: Seq<u8>,
    pub sections: Seq<SectionModel>,
    pub layout: PeLayout,
}

impl<'a> View for ParsedPe<'a> {
    type V = PeModel;

    closed spec fn view(&self) -> PeModel {
        PeModel {
            data: self.data@,
            sections: section_models(self.sections@),
            layout: self.layout,
        }
    }
}

/// The contents of a section: the bytes that are stored for it, padded with
/// zeros to its virtual size. Nothing if the stored bytes are not all there.
pub open spec fn section_contents(
    data: Seq<u8>,
    section: SectionModel,
    layout: PeLayout,
) -> Option<Seq<u8>> {
    let start = match layout {
        PeLayout::Loaded => section.virtual_address as int,
        PeLayout::Disk => section.pointer_to_raw_data as int,
    };
    let stored = if section.virtual_size < section.size_of_raw_data {
        section.virtual_size as int
    } else {
        section.size_of_raw_data as int
    };
    if start + stored <= data.len() {
        Some(data.subrange(start, start + stored) + zeros((section.virtual_size - stored) as nat))
    } else {
        None
    }
}

/// The first section with a name.
pub open spec fn first_named(sections: Seq<SectionModel>, name: Seq<char>) -> Option<SectionModel>
    decreases sections.len(),
{
    if sections.len() == 0 {
        None
    } else if sections[0].name == Some(name) {
        Some(sections[0])
    } else {
        first_named(sections.drop_first(), name)
    }
}

/// The names of all sections that have a readable one, in table order.
pub open spec fn readable_names(sections: Seq<SectionModel>) -> Seq<Seq<char>>
    decreases sections.len(),
{
    if sections.len() == 0 {
        Seq::empty()
    } else {
        let before = readable_names(sections.drop_last());
        match sections.last().name {
            Some(name) => before.push(name),
            None => before,
        }
    }
}

impl PeModel {
    /// The contents of the first section with a name.
    pub open spec fn contents(self, name: Seq<char>) -> Option<Seq<u8>> {
        match first_named(self.sections, name) {
            Some(section) => section_contents(self.data, section, self.layout),
            None => None,
        }
    }

    /// The contents of the first section with a name as UTF-8 text, without
    /// trailing NULs.
    pub open spec fn text(self, name: Seq<char>) -> Option<Seq<char>> {
        match self.contents(name) {
            Some(contents) => match utf8_text(contents) {
                Some(text) => Some(trim_end(text, '\0')),
                None => None,
            },
            None => None,
        }
    }
}

/// What parsing a PE binary gives.
pub open spec fn parsed_pe(data: Seq<u8>, layout: PeLayout) -> Result<PeModel, Status> {
    match pe_sections(data, false) {
        Some(sections) => Ok(PeModel { data, sections, layout }),
        None => Err(Status::InvalidParameter),
    }
}

/// The model of a parsed binary.
pub open spec fn pe_result(parsed: Result<ParsedPe, Status>) -> Result<PeModel, Status> {
    match parsed {
        Ok(pe) => Ok(pe@),
        Err(status) => Err(status),
    }
}

/// The contents of a section of a PE binary, as its section table describes
/// it.
pub fn read_data_from_section_table(
    pe_data: &[u8],
    section: &SectionTable,
    layout: PeLayout,
) -> (contents: Option<Vec<u8>>)
    ensures
        match contents {
            Some(contents) => section_contents(pe_data@, section@, layout) == Some(contents@),
            None => section_contents(pe_data@, section@, layout) is None,
        },
{
    let start: usize = match layout {
        PeLayout::Loaded => section.virtual_address as usize,
        PeLayout::Disk => section.pointer_to_raw_data as usize,
    };
    // The virtual size is larger than the raw size where zero padding is
    // required, and smaller where the file pads for alignment.
    let stored: usize = if section.virtual_size < section.size_of_raw_data {
        section.virtual_size as usize
    } else {
        section.size_of_raw_data as usize
    };
    let available: usize = pe_data.len();
    let end: usize = match start.checked_add(stored) {
        Some(end) => end,
        None => {
            return None;
        },
    };
    if end > available {
        return None;
    }
    let mut contents: Vec<u8> = Vec::new();
    push_all(&mut contents, vstd::slice::slice_subrange(pe_data, start, end));
    contents.resize(section.virtual_size as usize, 0);
    assert(contents@ == section_contents(pe_data@, section@, layout)->0);
    Some(contents)
}

impl<'a> ParsedPe<'a> {
    /// A PE binary with the given section table.
    pub fn from_section_table(
        data: &'a [u8],
        sections: Vec<SectionTable>,
        layout: PeLayout,
    ) -> (pe: Self)
        ensures
            pe@.data == data@,
            pe@.sections == section_models(sections@),
            pe@.layout == layout,
    {
        ParsedPe { data, sections, layout }
    }

    /// Parse a PE image that the firmware loaded into memory.
    pub fn from_loaded_data(data: &'a [u8]) -> (parsed: Result<Self, Status>)
        ensures
            pe_result(parsed) == parsed_pe(data@, PeLayout::Loaded),
    {
        Self::parse(data, PeLayout::Loaded)
    }

    /// Parse a PE binary in its on-disk representation.
    pub fn from_disk_data(data: &'a [u8]) -> (parsed: Result<Self, Status>)
        ensures
            pe_result(parsed) == parsed_pe(data@, PeLayout::Disk),
    {
        Self::parse(data, PeLayout::Disk)
    }

    /// Parse a PE binary.
    ///
    /// Attribute certificates are left alone: they are not mapped in loaded
    /// images, and signatures are verified before sections are looked at.
    fn parse(data: &'a [u8], layout: PeLayout) -> (parsed: Result<Self, Status>)
        ensures
            pe_result(parsed) == parsed_pe(data@, layout),
    {
        match parse_section_table(data, false) {
            Ok(sections) => Ok(ParsedPe::from_section_table(data, sections, layout)),
            Err(_) => Err(Status::InvalidParameter),
        }
    }

    /// The contents of the first section with a name.
    pub fn section_data(&self, section_name: &str) -> (contents: Option<Vec<u8>>)
        ensures
            match contents {
                Some(contents) => self@.contents(section_name@) == Some(contents@),
                None => self@.contents(section_name@) is None,
            },
    {
        let ghost models = section_models(self.sections@);
        assert(models.skip(0) == models);
        for i in 0..self.sections.len()
            invariant
                models == section_models(self.sections@),
                models == self@.sections,
                first_named(models.skip(i as int), section_name@) == first_named(
                    models,
                    section_name@,
                ),
        {
            let section = &self.sections[i];
            assert(models.skip(i as int).drop_first() == models.skip(i + 1));
            assert(models.skip(i as int)[0] == section@);
            if let Some(name) = &section.name {
                if same_text(name.as_str(), section_name) {
                    return read_data_from_section_table(self.data, section, self.layout);
                }
            }
        }
        None
    }

    /// Whether there is a section with a name.
    pub fn has_section(&self, section_name: &str) -> (found: bool)
        ensures
            found == (first_named(self@.sections, section_name@) is Some),
    {
        let ghost models = section_models(self.sections@);
        assert(models.skip(0) == models);
        for i in 0..self.sections.len()
            invariant
                models == section_models(self.sections@),
                models == self@.sections,
                first_named(models.skip(i as int), section_name@) == first_named(
                    models,
                    section_name@,
                ),
        {
            assert(models.skip(i as int).drop_first() == models.skip(i + 1));
            assert(models.skip(i as int)[0] == self.sections@[i as int]@);
            if let Some(name) = &self.sections[i].name {
                if same_text(name.as_str(), section_name) {
                    return true;
                }
            }
        }
        false
    }

    /// The text of the first section with a name, without trailing NULs.
    pub fn section_text(&self, section_name: &str) -> (text: Option<String>)
        ensures
            match text {
                Some(text) => self@.text(section_name@) == Some(text@),
                None => self@.text(section_name@) is None,
            },
    {
        let contents = match self.section_data(section_name) {
            Some(contents) => contents,
            None => {
                return None;
            },
        };
        match decode_text(&contents) {
            Some(text) => Some(trim_end_nul(text.as_str())),
            None => None,
        }
    }

    /// The names of all sections, in table order.
    pub fn sections(&self) -> (names: Vec<&str>)
        ensures
            text_views(names@) == readable_names(self@.sections),
    {
        let ghost models = section_models(self.sections@);
        let mut names: Vec<&str> = Vec::new();
        assert(text_views(names@) == readable_names(models.take(0)));
        for i in 0..self.sections.len()
            invariant
                models == section_models(self.sections@),
                text_views(names@) == readable_names(models.take(i as int)),
        {
            assert(models.take(i + 1).drop_last() == models.take(i as int));
            assert(models.take(i + 1).last() == self.sections@[i as int]@);
            if let Some(name) = &self.sections[i].name {
                let ghost before = names@;
                names.push(name.as_str());
                assert(text_views(names@) == text_views(before).push(name@));
            }
        }
        assert(models.take(models.len() as int) == models);
        names
    }
}

/// The characters of each string.
pub open spec fn text_views(texts: Seq<&str>) -> Seq<Seq<char>> {
    texts.map_values(|text: &str| text@)
}

} // verus!
