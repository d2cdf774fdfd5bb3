//! Result records shared by the analyses, with their mathematical views.

use vstd::prelude::*;

verus! {

/// One row of a PE section table.
#[derive(Debug)]
pub struct Section {
    pub name: String,
    pub virtual_size: u32,
    pub virtual_address: u32,
    pub size_of_raw_data: u32,
    pub pointer_to_raw_data: u32,
}

pub struct SectionView {
    pub name: Seq<char>,
    pub virtual_size: u32,
    pub virtual_address: u32,
    pub size_of_raw_data: u32,
    pub pointer_to_raw_data: u32,
}

impl View for Section {
    type V = SectionView;

    open spec fn view(&self) -> SectionView {
        SectionView {
            name: self.name@,
            virtual_size: self.virtual_size,
            virtual_address: self.virtual_address,
            size_of_raw_data: self.size_of_raw_data,
            pointer_to_raw_data: self.pointer_to_raw_data,
        }
    }
}

/// The functions imported from one DLL, in directory order.
#[derive(Debug)]
pub struct Import {
    pub dll: String,
    pub functions: Vec<String>,
}

pub struct ImportView {
    pub dll: Seq<char>,
    pub functions: Seq<Seq<char>>,
}

pub open spec fn strings_view(v: Seq<String>) -> Seq<Seq<char>> {
    v.map_values(|s: String| s@)
}

impl View for Import {
    type V = ImportView;

    open spec fn view(&self) -> ImportView {
        ImportView { dll: self.dll@, functions: strings_view(self.functions@) }
    }
}

pub open spec fn sections_view(v: Seq<Section>) -> Seq<SectionView> {
    v.map_values(|s: Section| s@)
}

pub open spec fn imports_view(v: Seq<Import>) -> Seq<ImportView> {
    v.map_values(|i: Import| i@)
}

/// Header, section, import and overlay summary of one PE file.
#[derive(Debug)]
pub struct PeInfo {
    pub file: String,
    pub file_size: u64,
    pub machine: String,
    pub is_pe32_plus: bool,
    pub entry_point_rva: u32,
    pub entry_point_hex: String,
    pub image_base: u64,
    pub section_count: u32,
    pub sections: Vec<Section>,
    pub imported_dll_count: u32,
    pub imports: Vec<Import>,
    pub imp_hash: Option<String>,
    pub resource_size: u32,
    pub has_overlay: bool,
    pub overlay_offset: Option<u64>,
    pub overlay_size: u64,
    pub mapped_offset: Option<u64>,
    pub mapped_section: Option<String>,
    pub warnings: Vec<String>,
}

pub struct PeInfoView {
    pub file: Seq<char>,
    pub file_size: u64,
    pub machine: Seq<char>,
    pub is_pe32_plus: bool,
    pub entry_point_rva: u32,
    pub entry_point_hex: Seq<char>,
    pub image_base: u64,
    pub section_count: u32,
    pub sections: Seq<SectionView>,
    pub imported_dll_count: u32,
    pub imports: Seq<ImportView>,
    pub imp_hash: Option<Seq<char>>,
    pub resource_size: u32,
    pub has_overlay: bool,
    pub overlay_offset: Option<u64>,
    pub overlay_size: u64,
    pub mapped_offset: Option<u64>,
    pub mapped_section: Option<Seq<char>>,
    pub warnings: Seq<Seq<char>>,
}

pub open spec fn opt_string_view(o: Option<String>) -> Option<Seq<char>> {
    match o {
        Some(s) => Some(s@),
        None => None,
    }
}

impl View for PeInfo {
    type V = PeInfoView;

    open spec fn view(&self) -> PeInfoView {
        PeInfoView {
            file: self.file@,
            file_size: self.file_size,
            machine: self.machine@,
            is_pe32_plus: self.is_pe32_plus,
            entry_point_rva: self.entry_point_rva,
            entry_point_hex: self.entry_point_hex@,
            image_base: self.image_base,
            section_count: self.section_count,
            sections: sections_view(self.sections@),
            imported_dll_count: self.imported_dll_count,
            imports: imports_view(self.imports@),
            imp_hash: opt_string_view(self.imp_hash),
            resource_size: self.resource_size,
            has_overlay: self.has_overlay,
            overlay_offset: self.overlay_offset,
            overlay_size: self.overlay_size,
            mapped_offset: self.mapped_offset,
            mapped_section: opt_string_view(self.mapped_section),
            warnings: strings_view(self.warnings@),
        }
    }
}

/// One extracted printable string: where it starts, how it is encoded, and its text.
#[derive(Debug)]
pub struct StringHit {
    pub offset: u64,
    pub offset_hex: String,
    pub encoding: String,
    pub length: u32,
    pub value: String,
}

pub struct StringHitView {
    pub offset: u64,
    pub offset_hex: Seq<char>,
    pub encoding: Seq<char>,
    pub length: u32,
    pub value: Seq<char>,
}

impl View for StringHit {
    type V = StringHitView;

    open spec fn view(&self) -> StringHitView {
        StringHitView {
            offset: self.offset,
            offset_hex: self.offset_hex@,
            encoding: self.encoding@,
            length: self.length,
            value: self.value@,
        }
    }
}

pub open spec fn hits_view(v: Seq<StringHit>) -> Seq<StringHitView> {
    v.map_values(|h: StringHit| h@)
}

/// Per-phase provider verdicts recorded while a detection boundary was validated.
#[derive(Debug)]
pub struct BoundaryValidation {
    pub full_content_statuses: Vec<String>,
    pub known_clean_statuses: Vec<String>,
    pub known_detected_statuses: Vec<String>,
}

} // verus!
