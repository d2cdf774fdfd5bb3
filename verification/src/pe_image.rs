//! The PE structure as the `goblin` crate's strict parser reports it, held as plain values.

use vstd::prelude::*;
use crate::pe_format::{le_u16_at, optional_fields_read, optional_header_at};

verus! {

/// One section-table row as read by the strict parser: name (absent when it could not be
/// decoded), virtual size, virtual address, size of raw data, pointer to raw data.
#[derive(Debug)]
pub struct ParsedSection(pub Option<String>, pub u32, pub u32, pub u32, pub u32);

pub struct ParsedSectionView {
    pub name: Option<Seq<char>>,
    pub virtual_size: u32,
    pub virtual_address: u32,
    pub size_of_raw_data: u32,
    pub pointer_to_raw_data: u32,
}

impl View for ParsedSection {
    type V = ParsedSectionView;

    open spec fn view(&self) -> ParsedSectionView {
        ParsedSectionView {
            name: match self.0 {
                Some(n) => Some(n@),
                None => None,
            },
            virtual_size: self.1,
            virtual_address: self.2,
            size_of_raw_data: self.3,
            pointer_to_raw_data: self.4,
        }
    }
}

/// One imported symbol, in import-directory order: library, name, ordinal. An import by
/// ordinal carries a synthesized name of the form `ORDINAL <n>`.
#[derive(Debug)]
pub struct ParsedImport(pub String, pub String, pub u16);

pub struct ParsedImportView {
    pub dll: Seq<char>,
    pub name: Seq<char>,
    pub ordinal: u16,
}

impl View for ParsedImport {
    type V = ParsedImportView;

    open spec fn view(&self) -> ParsedImportView {
        ParsedImportView { dll: self.0@, name: self.1@, ordinal: self.2 }
    }
}

/// The fields of a strictly parsed PE image that the analyses read.
#[derive(Debug)]
pub struct ParsedPe {
    pub machine: u16,
    pub is_64: bool,
    pub entry: u32,
    pub image_base: u64,
    pub resource_size: Option<u32>,
    pub sections: Vec<ParsedSection>,
    pub imports: Vec<ParsedImport>,
}

pub struct ParsedPeView {
    pub machine: u16,
    pub is_64: bool,
    pub entry: u32,
    pub image_base: u64,
    pub resource_size: Option<u32>,
    pub sections: Seq<ParsedSectionView>,
    pub imports: Seq<ParsedImportView>,
}

impl View for ParsedPe {
    type V = ParsedPeView;

    open spec fn view(&self) -> ParsedPeView {
        ParsedPeView {
            machine: self.machine,
            is_64: self.is_64,
            entry: self.entry,
            image_base: self.image_base,
            resource_size: self.resource_size,
            sections: self.sections@.map_values(|s: ParsedSection| s@),
            imports: self.imports@.map_values(|i: ParsedImport| i@),
        }
    }
}

/// The strict parser's PE32+ flag, entry point and image base agree with the bytes: when
/// the COFF header announces an optional header (its 16-bit size, four bytes before the
/// optional header, is not zero), the magic is 0x10B or 0x20B and the three fields are
/// read from it (see `optional_fields_read`); when it announces none, they are all zero.
pub open spec fn strict_fields_agree(data: Seq<u8>, is64: bool, entry: u32, image_base: u64) -> bool {
    let opt = optional_header_at(data);
    if le_u16_at(data, opt - 4) == Some(0u16) {
        !is64 && entry == 0 && image_base == 0
    } else {
        &&& (le_u16_at(data, opt) == Some(0x10Bu16) || le_u16_at(data, opt) == Some(0x20Bu16))
        &&& optional_fields_read(data, is64, entry, image_base)
    }
}

/// What `goblin::pe::PE::parse` reports for a byte buffer: the image, or the text of
/// the error it rejects the buffer with.
pub uninterp spec fn goblin_pe_parse(data: Seq<u8>) -> Result<ParsedPeView, Seq<char>>;

/// `goblin::pe::PE::parse`, with the fields the analyses read copied out as plain values
/// and a rejection turned into the error's text.
/// Trusted: the outcome is the one named `goblin_pe_parse` for these bytes; a parsed
/// image has at most 0xFFFF sections (goblin reads exactly the COFF header's 16-bit
/// section count); and its PE32+ flag, entry point and image base are those of the
/// optional header that goblin reads right after the COFF header, whose magic it accepts
/// only as 0x10B (PE32: entry at +16, 32-bit ImageBase at +28) or 0x20B (PE32+: entry at
/// +16, 64-bit ImageBase at +24), and all zero when the COFF header gives the optional
/// header size 0 (see `strict_fields_agree`). Left unsaid: that the parse returns on every input without panicking;
/// goblin checks its reads and is fuzzed upstream, but that is not shown for all inputs.
#[verifier::external_body]
pub(crate) fn goblin_parse(data: &[u8]) -> (r: Result<ParsedPe, String>)
    ensures
        match r {
            Ok(pe) => goblin_pe_parse(data@) == Ok::<ParsedPeView, Seq<char>>(pe@),
            Err(e) => goblin_pe_parse(data@) == Err::<ParsedPeView, Seq<char>>(e@),
        },
        r matches Ok(pe) ==> pe@.sections.len() <= 0xFFFF,
        r matches Ok(pe) ==> strict_fields_agree(data@, pe.is_64, pe.entry, pe.image_base),
{
    let pe = goblin::pe::PE::parse(data).map_err(|e| e.to_string())?;
    Ok(ParsedPe {
        machine: pe.header.coff_header.machine, is_64: pe.is_64, entry: pe.entry, image_base: pe.image_base,
        resource_size: pe.header.optional_header.and_then(|o| o.data_directories.get_resource_table().map(|t| t.size)),
        sections: pe.sections.iter().map(|s| ParsedSection(s.name().ok().map(String::from), s.virtual_size, s.virtual_address, s.size_of_raw_data, s.pointer_to_raw_data)).collect(),
        imports: pe.imports.iter().map(|i| ParsedImport(i.dll.to_string(), i.name.to_string(), i.ordinal)).collect(),
    })
}

} // verus!
