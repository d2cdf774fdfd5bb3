//! PE parsing: the strict structural parse (through `goblin`) with a lenient
//! header-salvage fallback, imphash computation and offset-to-section mapping.

use vstd::prelude::*;
use crate::imports::{imphash_from_joined, imphash_of, lenient_import_table, lenient_imports};
use crate::ordinals::{ordinal_import_name, ordinal_import_string};
use crate::pe_format::{optional_fields_read, optional_header_at, rva_offset, cstr_at, le_u16_at, le_u32_at, le_u64_at, rd_u16, rd_u32, rd_u64, read_ascii_cstr};
use crate::pe_image::{ParsedImportView, ParsedPe, ParsedPeView, ParsedSectionView, goblin_parse, goblin_pe_parse, strict_fields_agree};
use crate::schema::{Import, ImportView, PeInfo, PeInfoView, Section, SectionView, imports_view, opt_string_view, sections_view, strings_view};
use crate::text::{hex4_upper, hex_string_upper, join_comma, lemma_join_comma_push, prefixed_hex_upper, push_char, push_hex4_upper};

verus! {

/// Display name of a COFF machine id: the known architectures by name, any other id as
/// `0x` and four uppercase hexadecimal digits.
pub open spec fn machine_display(m: u16) -> Seq<char> {
    if m == 0x8664 {
        "x64 (AMD64)"@
    } else if m == 0x014C {
        "x86 (I386)"@
    } else if m == 0xAA64 {
        "ARM64"@
    } else if m == 0x01C0 {
        "ARM"@
    } else if m == 0x01C4 {
        "ARMNT"@
    } else {
        seq!['0', 'x'] + hex4_upper(m)
    }
}

/// Display name of a COFF machine id.
pub fn machine_name(machine: u16) -> (s: String)
    ensures
        s@ == machine_display(machine),
{
    if machine == 0x8664 {
        String::from_str("x64 (AMD64)")
    } else if machine == 0x014C {
        String::from_str("x86 (I386)")
    } else if machine == 0xAA64 {
        String::from_str("ARM64")
    } else if machine == 0x01C0 {
        String::from_str("ARM")
    } else if machine == 0x01C4 {
        String::from_str("ARMNT")
    } else {
        let mut s = String::new();
        push_char(&mut s, '0');
        push_char(&mut s, 'x');
        push_hex4_upper(&mut s, machine);
        assert(s@ =~= seq!['0', 'x'] + hex4_upper(machine));
        s
    }
}

/// `s` ends with `suffix`.
pub open spec fn has_suffix(s: Seq<char>, suffix: Seq<char>) -> bool {
    suffix.len() <= s.len() && s.subrange(s.len() - suffix.len(), s.len() as int) == suffix
}

/// A library name without its `.dll`, `.ocx` or `.sys` extension (the first that matches,
/// case-sensitively), or unchanged when it has none of them.
pub open spec fn lib_base(s: Seq<char>) -> Seq<char> {
    if has_suffix(s, seq!['.', 'd', 'l', 'l']) {
        s.take(s.len() - 4)
    } else if has_suffix(s, seq!['.', 'o', 'c', 'x']) {
        s.take(s.len() - 4)
    } else if has_suffix(s, seq!['.', 's', 'y', 's']) {
        s.take(s.len() - 4)
    } else {
        s
    }
}

fn ends_with_ext(s: &str, n: usize, e1: char, e2: char, e3: char) -> (r: bool)
    requires
        n == s@.len(),
    ensures
        r == has_suffix(s@, seq!['.', e1, e2, e3]),
{
    if n < 4 {
        return false;
    }
    let r = s.get_char(n - 4) == '.' && s.get_char(n - 3) == e1 && s.get_char(n - 2) == e2
        && s.get_char(n - 1) == e3;
    assert(r == (s@.subrange(n - 4, n as int) =~= seq!['.', e1, e2, e3]));
    r
}

/// Strips a `.dll`, `.ocx` or `.sys` extension from a (lowercased) library name.
pub fn strip_lib_ext(dll_lower: &str) -> (r: &str)
    ensures
        r@ == lib_base(dll_lower@),
{
    let n = dll_lower.unicode_len();
    if ends_with_ext(dll_lower, n, 'd', 'l', 'l') || ends_with_ext(dll_lower, n, 'o', 'c', 'x')
        || ends_with_ext(dll_lower, n, 's', 'y', 's') {
        dll_lower.substring_char(0, n - 4)
    } else {
        dll_lower
    }
}


/// The header bytes the lenient parser reads: the first 64 KiB of the file.
pub open spec fn header_window(data: Seq<u8>) -> Seq<u8> {
    if data.len() <= 0x10000 {
        data
    } else {
        data.take(0x10000)
    }
}

/// `PE\0\0` stands at the non-zero offset `off`.
pub open spec fn pe_signature_at(h: Seq<u8>, off: int) -> bool {
    &&& 0 < off
    &&& off + 4 <= h.len()
    &&& h[off] == 0x50
    &&& h[off + 1] == 0x45
    &&& h[off + 2] == 0
    &&& h[off + 3] == 0
}

pub open spec fn u32_or_zero(o: Option<u32>) -> u32 {
    match o {
        Some(v) => v,
        None => 0,
    }
}

/// The (RVA, size) pair of data directory `index`, or `(0, 0)` when the directory count
/// does not cover it or its entry does not fit in the header.
pub open spec fn data_directory(h: Seq<u8>, dd_base: int, rva_count: u32, index: int) -> (u32, u32) {
    if index < rva_count && le_u32_at(h, dd_base + 8 * index) is Some && le_u32_at(
        h,
        dd_base + 8 * index + 4,
    ) is Some {
        (u32_or_zero(le_u32_at(h, dd_base + 8 * index)), u32_or_zero(le_u32_at(h, dd_base + 8 * index + 4)))
    } else {
        (0, 0)
    }
}

/// The 40-byte section-table row at `e`.
pub open spec fn section_row(h: Seq<u8>, e: int) -> SectionView {
    SectionView {
        name: cstr_at(h, e, 8),
        virtual_size: u32_or_zero(le_u32_at(h, e + 8)),
        virtual_address: u32_or_zero(le_u32_at(h, e + 12)),
        size_of_raw_data: u32_or_zero(le_u32_at(h, e + 16)),
        pointer_to_raw_data: u32_or_zero(le_u32_at(h, e + 20)),
    }
}

/// The `n` section-table rows starting at `table`.
pub open spec fn section_rows(h: Seq<u8>, table: int, n: nat) -> Seq<SectionView> {
    Seq::new(n, |i: int| section_row(h, table + 40 * i))
}

/// The largest end (`pointer + size` of raw data) over the sections, 0 when there is none;
/// with `skip_empty`, sections without raw data are left out.
pub open spec fn raw_end_max(secs: Seq<SectionView>, skip_empty: bool) -> int
    decreases secs.len(),
{
    if secs.len() == 0 {
        0
    } else {
        let rest = raw_end_max(secs.drop_last(), skip_empty);
        let s = secs.last();
        let end = s.pointer_to_raw_data + s.size_of_raw_data;
        if (skip_empty && s.size_of_raw_data == 0) || end <= rest {
            rest
        } else {
            end
        }
    }
}

/// Bytes of a file of `len` bytes that lie past `end` (0 when none).
pub open spec fn overlay_len(len: int, end: int) -> int {
    if len > end {
        len - end
    } else {
        0
    }
}

/// The summary the lenient parser builds from salvaged header fields.
pub open spec fn lenient_info(
    data: Seq<u8>,
    file: Seq<char>,
    machine: u16,
    is64: bool,
    entry: u32,
    image_base: u64,
    secs: Seq<SectionView>,
    import_rva: u32,
    resource_size: u32,
) -> PeInfoView {
    let table = lenient_import_table(data, secs, import_rva as int, is64);
    let last_end = raw_end_max(secs, true);
    let overlay = overlay_len(data.len() as int, last_end);
    PeInfoView {
        file,
        file_size: data.len() as u64,
        machine: machine_display(machine),
        is_pe32_plus: is64,
        entry_point_rva: entry,
        entry_point_hex: prefixed_hex_upper(entry as nat),
        image_base,
        section_count: secs.len() as u32,
        sections: secs,
        imported_dll_count: table.0.len() as u32,
        imports: table.0,
        imp_hash: table.1,
        resource_size,
        has_overlay: overlay > 0,
        overlay_offset: if overlay > 0 {
            Some(last_end as u64)
        } else {
            None
        },
        overlay_size: overlay as u64,
        mapped_offset: None,
        mapped_section: None,
        warnings: seq![],
    }
}

/// The fixed header fields the lenient parser salvages.
#[derive(Debug, Clone, Copy)]
pub struct HeaderFields {
    pub machine: u16,
    pub section_count: u16,
    pub is_pe32_plus: bool,
    pub entry_point_rva: u32,
    pub image_base: u64,
    pub section_table: u64,
    pub import_rva: u32,
    pub resource_size: u32,
}

/// The fixed header fields of the header window `h`, or the reason they cannot be read:
/// a missing MZ or PE signature, or a DOS, COFF or optional header field that is cut off.
pub open spec fn lenient_header(h: Seq<u8>) -> Result<HeaderFields, Seq<char>> {
    if le_u16_at(h, 0) != Some(0x5A4Du16) {
        Err("Not a PE image: missing MZ (DOS) signature."@)
    } else if le_u32_at(h, 0x3C) is None {
        Err("truncated DOS header"@)
    } else if !pe_signature_at(h, u32_or_zero(le_u32_at(h, 0x3C)) as int) {
        Err("Not a PE image: missing PE signature."@)
    } else {
        let coff = u32_or_zero(le_u32_at(h, 0x3C)) as int + 4;
        if le_u16_at(h, coff) is None || le_u16_at(h, coff + 2) is None || le_u16_at(h, coff + 16)
            is None {
            Err("truncated COFF header"@)
        } else {
            let opt = coff + 20;
            let is64 = le_u16_at(h, opt) == Some(0x20Bu16);
            let entry = le_u32_at(h, opt + 16);
            let image_base: Option<u64> = if is64 {
                le_u64_at(h, opt + 24)
            } else {
                match le_u32_at(h, opt + 28) {
                    Some(v) => Some(v as u64),
                    None => None,
                }
            };
            if le_u16_at(h, opt) is None || entry is None || image_base is None {
                Err("truncated optional header"@)
            } else {
                let dd_base = if is64 {
                    opt + 112
                } else {
                    opt + 96
                };
                let rva_count = u32_or_zero(le_u32_at(h, dd_base - 4));
                Ok(
                    HeaderFields {
                        machine: le_u16_at(h, coff).unwrap(),
                        section_count: le_u16_at(h, coff + 2).unwrap(),
                        is_pe32_plus: is64,
                        entry_point_rva: entry.unwrap(),
                        image_base: image_base.unwrap(),
                        section_table: (opt + le_u16_at(h, coff + 16).unwrap()) as u64,
                        import_rva: data_directory(h, dd_base, rva_count, 1).0,
                        resource_size: data_directory(h, dd_base, rva_count, 2).1,
                    },
                )
            }
        }
    }
}

/// The section table of `n` rows at `table` fits in the header window.
pub open spec fn section_table_fits(h: Seq<u8>, table: int, n: int) -> bool {
    n == 0 || table + 40 * n <= h.len()
}

/// The lenient header-salvage parse: the header and section table are read from the
/// first 64 KiB, import data from the whole file. It is refused exactly when the header
/// fields cannot be read (see `lenient_header`) or the section table does not fully fit
/// in the header window.
pub open spec fn lenient_parse(data: Seq<u8>, file: Seq<char>) -> Result<PeInfoView, Seq<char>> {
    let h = header_window(data);
    match lenient_header(h) {
        Err(e) => Err(e),
        Ok(f) => if !section_table_fits(h, f.section_table as int, f.section_count as int) {
            Err("The header buffer is truncated before the section table."@)
        } else {
            Ok(
                lenient_info(
                    data,
                    file,
                    f.machine,
                    f.is_pe32_plus,
                    f.entry_point_rva,
                    f.image_base,
                    section_rows(h, f.section_table as int, f.section_count as nat),
                    f.import_rva,
                    f.resource_size,
                ),
            )
        },
    }
}

/// The view of a parse outcome.
pub open spec fn pe_result_view(r: Result<PeInfo, String>) -> Result<PeInfoView, Seq<char>> {
    match r {
        Ok(info) => Ok(info@),
        Err(e) => Err(e@),
    }
}

fn read_data_directory(h: &[u8], dd_base: u64, rva_count: u32, index: u64) -> (r: (u32, u32))
    requires
        dd_base < 0x20000,
        index < 16,
    ensures
        r == data_directory(h@, dd_base as int, rva_count, index as int),
{
    if (index as u32) < rva_count {
        let off = dd_base + index * 8;
        match (rd_u32(h, off), rd_u32(h, off + 4)) {
            (Some(rva), Some(size)) => return (rva, size),
            _ => {},
        }
    }
    (0, 0)
}

/// The largest raw-data end over the sections (0 when none), optionally skipping
/// sections without raw data.
fn last_raw_end(sections: &Vec<Section>, skip_empty: bool) -> (r: u64)
    ensures
        r as int == raw_end_max(sections_view(sections@), skip_empty),
{
    let ghost secs = sections_view(sections@);
    let mut best: u64 = 0;
    let mut k: usize = 0;
    assert(secs.take(0) =~= Seq::<SectionView>::empty());
    while k < sections.len()
        invariant
            k <= sections@.len(),
            secs == sections_view(sections@),
            best as int == raw_end_max(secs.take(k as int), skip_empty),
            best < 0x2_0000_0000,
        decreases sections@.len() - k,
    {
        let s = &sections[k];
        let end = s.pointer_to_raw_data as u64 + s.size_of_raw_data as u64;
        assert(secs.take(k + 1).drop_last() =~= secs.take(k as int));
        assert(secs.take(k + 1).last() == s@);
        if !(skip_empty && s.size_of_raw_data == 0) && end > best {
            best = end;
        }
        k += 1;
    }
    assert(secs.take(k as int) =~= secs);
    best
}

/// Reads the fixed header fields from the header window.
fn read_header_fields(hdr: &[u8]) -> (r: Result<HeaderFields, String>)
    requires
        hdr@.len() <= 0x10000,
    ensures
        match r {
            Ok(f) => lenient_header(hdr@) == Ok::<HeaderFields, Seq<char>>(f) && f.section_table
                < 0x30000,
            Err(e) => lenient_header(hdr@) == Err::<HeaderFields, Seq<char>>(e@),
        },
{
    let mz = rd_u16(hdr, 0);
    if mz != Some(0x5A4Du16) {
        return Err(String::from_str("Not a PE image: missing MZ (DOS) signature."));
    }
    let pe_off: u64 = match rd_u32(hdr, 0x3C) {
        Some(v) => v as u64,
        None => return Err(String::from_str("truncated DOS header")),
    };
    let hl = hdr.len() as u64;
    if pe_off == 0 || pe_off > hl || hl - pe_off < 4 || hdr[pe_off as usize] != 0x50 || hdr[(
    pe_off + 1) as usize] != 0x45 || hdr[(pe_off + 2) as usize] != 0 || hdr[(pe_off + 3) as usize]
        != 0 {
        return Err(String::from_str("Not a PE image: missing PE signature."));
    }
    let coff = pe_off + 4;
    let (machine, section_count, opt_hdr_size) = match (
        rd_u16(hdr, coff),
        rd_u16(hdr, coff + 2),
        rd_u16(hdr, coff + 16),
    ) {
        (Some(m), Some(n), Some(o)) => (m, n, o),
        _ => return Err(String::from_str("truncated COFF header")),
    };
    let opt = coff + 20;
    let magic = rd_u16(hdr, opt);
    let is_pe32_plus = magic == Some(0x20Bu16);
    let entry = rd_u32(hdr, opt + 16);
    let image_base: Option<u64> = if is_pe32_plus {
        rd_u64(hdr, opt + 24)
    } else {
        match rd_u32(hdr, opt + 28) {
            Some(v) => Some(v as u64),
            None => None,
        }
    };
    let (entry_point_rva, image_base) = match (magic, entry, image_base) {
        (Some(_), Some(e), Some(b)) => (e, b),
        _ => return Err(String::from_str("truncated optional header")),
    };
    let dd_base = if is_pe32_plus {
        opt + 112
    } else {
        opt + 96
    };
    let rva_count = match rd_u32(hdr, dd_base - 4) {
        Some(v) => v,
        None => 0,
    };
    let (import_rva, _) = read_data_directory(hdr, dd_base, rva_count, 1);
    let (_, resource_size) = read_data_directory(hdr, dd_base, rva_count, 2);
    Ok(
        HeaderFields {
            machine,
            section_count,
            is_pe32_plus,
            entry_point_rva,
            image_base,
            section_table: opt + opt_hdr_size as u64,
            import_rva,
            resource_size,
        },
    )
}

/// Reads the `n` section-table rows at `table`, or nothing when the table does not fit.
fn read_section_table(hdr: &[u8], table: u64, n: u16) -> (r: Option<Vec<Section>>)
    requires
        table < 0x30000,
    ensures
        match r {
            Some(v) => section_table_fits(hdr@, table as int, n as int) && sections_view(v@)
                == section_rows(hdr@, table as int, n as nat),
            None => !section_table_fits(hdr@, table as int, n as int),
        },
{
    let ghost rows = section_rows(hdr@, table as int, n as nat);
    let hl = hdr.len() as u64;
    let mut sections: Vec<Section> = Vec::new();
    let mut i: u64 = 0;
    while i < n as u64
        invariant
            i <= n,
            hl == hdr@.len(),
            table < 0x30000,
            rows == section_rows(hdr@, table as int, n as nat),
            sections_view(sections@) == rows.take(i as int),
            i == 0 || table + 40 * i <= hl,
        decreases n - i,
    {
        let e = table + i * 40;
        if e + 40 > hl {
            return None;
        }
        let (name, _) = read_ascii_cstr(hdr, e, 8);
        let sec = Section {
            name,
            virtual_size: match rd_u32(hdr, e + 8) {
                Some(v) => v,
                None => 0,
            },
            virtual_address: match rd_u32(hdr, e + 12) {
                Some(v) => v,
                None => 0,
            },
            size_of_raw_data: match rd_u32(hdr, e + 16) {
                Some(v) => v,
                None => 0,
            },
            pointer_to_raw_data: match rd_u32(hdr, e + 20) {
                Some(v) => v,
                None => 0,
            },
        };
        let ghost prev = sections_view(sections@);
        sections.push(sec);
        assert(sections_view(sections@) =~= prev.push(sec@));
        assert(rows.take(i + 1) =~= rows.take(i as int).push(rows[i as int]));
        i += 1;
    }
    assert(rows.take(i as int) =~= rows);
    Some(sections)
}

/// Lenient header-salvage parse: recovers machine, sections, entry point, overlay and any
/// reachable imports from a PE whose headers are intact even when the rest is damaged.
pub fn parse_pe_lenient(data: &[u8], file_path: &str) -> (r: Result<PeInfo, String>)
    ensures
        pe_result_view(r) == lenient_parse(data@, file_path@),
        r matches Ok(info) ==> (info.imp_hash matches Some(h) ==> h@.len() == 32),
        r matches Ok(info) ==> info.section_count as int == info.sections@.len(),
        r matches Ok(info) ==> optional_fields_read(
            header_window(data@),
            info.is_pe32_plus,
            info.entry_point_rva,
            info.image_base,
        ),
{
    let hlen: usize = if data.len() <= 0x10000 {
        data.len()
    } else {
        0x10000
    };
    let hdr = vstd::slice::slice_subrange(data, 0, hlen);
    let ghost h = header_window(data@);
    assert(hdr@ =~= h);
    let f = match read_header_fields(hdr) {
        Ok(f) => f,
        Err(e) => return Err(e),
    };
    let sections = match read_section_table(hdr, f.section_table, f.section_count) {
        Some(v) => v,
        None => {
            return Err(String::from_str("The header buffer is truncated before the section table."))
        },
    };
    let (imports, imp_hash) = lenient_imports(data, &sections, f.import_rva as u64, f.is_pe32_plus);
    let last_end = last_raw_end(&sections, true);
    let file_len = data.len() as u64;
    let overlay_size = if file_len > last_end {
        file_len - last_end
    } else {
        0
    };
    let has_overlay = overlay_size > 0;
    let section_total = sections.len();
    let dll_total = imports.len();
    let info = PeInfo {
        file: String::from_str(file_path),
        file_size: file_len,
        machine: machine_name(f.machine),
        is_pe32_plus: f.is_pe32_plus,
        entry_point_rva: f.entry_point_rva,
        entry_point_hex: hex_string_upper(f.entry_point_rva as u64),
        image_base: f.image_base,
        section_count: section_total as u32,
        sections,
        imported_dll_count: dll_total as u32,
        imports,
        imp_hash,
        resource_size: f.resource_size,
        has_overlay,
        overlay_offset: if has_overlay {
            Some(last_end)
        } else {
            None
        },
        overlay_size,
        mapped_offset: None,
        mapped_section: None,
        warnings: Vec::new(),
    };
    assert(info@.warnings =~= Seq::<Seq<char>>::empty());
    proof {
        lemma_lenient_header_reads_optional_fields(h);
    }
    Ok(info)
}


/// Unicode lowercase mapping of a text, as `str::to_lowercase` computes it.
pub uninterp spec fn unicode_lowercase(s: Seq<char>) -> Seq<char>;

/// `str::to_lowercase`.
/// Trusted: the result is the text named `unicode_lowercase` of the argument.
#[verifier::external_body]
fn to_lowercase(s: &str) -> (r: String)
    ensures
        r@ == unicode_lowercase(s@),
{
    s.to_lowercase()
}

/// An import by ordinal: the strict parser gives it an empty name or a synthesized
/// `ORDINAL <n>` name.
pub open spec fn is_ordinal_import(name: Seq<char>) -> bool {
    name.len() == 0 || (name.len() >= 8 && name.take(8) == seq!['O', 'R', 'D', 'I', 'N', 'A', 'L', ' '])
}

/// The function name shown for a strictly parsed import: for an import by ordinal, the
/// name of that ordinal of its (lowercased) library (see `ordinal_import_name`), else
/// its own name.
pub open spec fn strict_display(imp: ParsedImportView) -> Seq<char> {
    if is_ordinal_import(imp.name) {
        ordinal_import_name(unicode_lowercase(imp.dll), imp.ordinal)
    } else {
        imp.name
    }
}

/// The imphash entry of a strictly parsed import.
pub open spec fn strict_entry(imp: ParsedImportView) -> Seq<char> {
    lib_base(unicode_lowercase(imp.dll)) + seq!['.'] + if is_ordinal_import(imp.name) {
        ordinal_import_name(unicode_lowercase(imp.dll), imp.ordinal)
    } else {
        unicode_lowercase(imp.name)
    }
}

/// The index of the first group (from `k` on) for library `dll`, or -1.
pub open spec fn group_index(groups: Seq<ImportView>, dll: Seq<char>, k: int) -> int
    decreases groups.len() - k,
{
    if k < 0 || k >= groups.len() {
        -1
    } else if groups[k].dll == dll {
        k
    } else {
        group_index(groups, dll, k + 1)
    }
}

/// Adds function `f` of library `dll` to the group of that library, or opens a new group
/// for it at the end.
pub open spec fn add_to_groups(groups: Seq<ImportView>, dll: Seq<char>, f: Seq<char>) -> Seq<ImportView> {
    let k = group_index(groups, dll, 0);
    if k >= 0 {
        groups.update(k, ImportView { dll: groups[k].dll, functions: groups[k].functions.push(f) })
    } else {
        groups.push(ImportView { dll, functions: seq![f] })
    }
}

/// Merges the functions of one import descriptor into the group of its library, or
/// opens a new group for it at the end.
pub open spec fn merge_import(groups: Seq<ImportView>, imp: ImportView) -> Seq<ImportView> {
    let k = group_index(groups, imp.dll, 0);
    if k >= 0 {
        groups.update(
            k,
            ImportView { dll: groups[k].dll, functions: groups[k].functions + imp.functions },
        )
    } else {
        groups.push(imp)
    }
}

/// Import descriptors grouped by library: one entry per library, in order of first
/// appearance, with its functions in directory order.
pub open spec fn group_by_library(descs: Seq<ImportView>) -> Seq<ImportView>
    decreases descs.len(),
{
    if descs.len() == 0 {
        seq![]
    } else {
        merge_import(group_by_library(descs.drop_last()), descs.last())
    }
}

/// Imports grouped by library, libraries in order of first appearance, functions in
/// directory order.
pub open spec fn grouped_imports(imps: Seq<ParsedImportView>) -> Seq<ImportView>
    decreases imps.len(),
{
    if imps.len() == 0 {
        seq![]
    } else {
        add_to_groups(grouped_imports(imps.drop_last()), imps.last().dll, strict_display(imps.last()))
    }
}

/// A section of the strict parse; an undecodable name is shown as `?`.
pub open spec fn section_from_parsed(s: ParsedSectionView) -> SectionView {
    SectionView {
        name: match s.name {
            Some(n) => n,
            None => seq!['?'],
        },
        virtual_size: s.virtual_size,
        virtual_address: s.virtual_address,
        size_of_raw_data: s.size_of_raw_data,
        pointer_to_raw_data: s.pointer_to_raw_data,
    }
}

/// The summary built from a strict parse of a file of `len` bytes.
pub open spec fn strict_pe_info(g: ParsedPeView, len: int, file: Seq<char>) -> PeInfoView {
    let secs = g.sections.map_values(|s: ParsedSectionView| section_from_parsed(s));
    let imports = grouped_imports(g.imports);
    let last_end = raw_end_max(secs, false);
    let overlay = overlay_len(len, last_end);
    PeInfoView {
        file,
        file_size: len as u64,
        machine: machine_display(g.machine),
        is_pe32_plus: g.is_64,
        entry_point_rva: g.entry,
        entry_point_hex: prefixed_hex_upper(g.entry as nat),
        image_base: g.image_base,
        section_count: secs.len() as u32,
        sections: secs,
        imported_dll_count: imports.len() as u32,
        imports,
        imp_hash: imphash_of(g.imports.map_values(|i: ParsedImportView| strict_entry(i))),
        resource_size: u32_or_zero(g.resource_size),
        has_overlay: overlay > 0,
        overlay_offset: if overlay > 0 {
            Some(last_end as u64)
        } else {
            None
        },
        overlay_size: overlay as u64,
        mapped_offset: None,
        mapped_section: None,
        warnings: seq![],
    }
}

/// Parse outcome for a file: the strict parse when `goblin` accepts the bytes, otherwise
/// the lenient header salvage.
pub open spec fn pe_parse(data: Seq<u8>, file: Seq<char>) -> Result<PeInfoView, Seq<char>> {
    match goblin_pe_parse(data) {
        Ok(g) => Ok(strict_pe_info(g, data.len() as int, file)),
        Err(_) => lenient_parse(data, file),
    }
}

fn ordinal_import(name: &str) -> (r: bool)
    ensures
        r == is_ordinal_import(name@),
{
    let n = name.unicode_len();
    if n == 0 {
        return true;
    }
    if n < 8 {
        return false;
    }
    let r = name.get_char(0) == 'O' && name.get_char(1) == 'R' && name.get_char(2) == 'D'
        && name.get_char(3) == 'I' && name.get_char(4) == 'N' && name.get_char(5) == 'A'
        && name.get_char(6) == 'L' && name.get_char(7) == ' ';
    assert(r == (name@.take(8) =~= seq!['O', 'R', 'D', 'I', 'N', 'A', 'L', ' ']));
    r
}

pub(crate) fn find_group(groups: &Vec<Import>, dll: &String) -> (r: Option<usize>)
    ensures
        match r {
            Some(k) => group_index(imports_view(groups@), dll@, 0) == k as int && k < groups@.len(),
            None => group_index(imports_view(groups@), dll@, 0) == -1,
        },
{
    let ghost gs = imports_view(groups@);
    let mut k: usize = 0;
    while k < groups.len()
        invariant
            k <= groups@.len(),
            gs == imports_view(groups@),
            group_index(gs, dll@, 0) == group_index(gs, dll@, k as int),
        decreases groups@.len() - k,
    {
        assert(gs[k as int] == groups@[k as int]@);
        if groups[k].dll == *dll {
            return Some(k);
        }
        k += 1;
    }
    None
}

/// Adds function `f` of library `dll` to its group.
fn add_import(groups: &mut Vec<Import>, dll: String, f: String)
    ensures
        imports_view(final(groups)@) == add_to_groups(imports_view(old(groups)@), dll@, f@),
{
    let ghost before = imports_view(groups@);
    match find_group(groups, &dll) {
        Some(k) => {
            let mut g = groups.remove(k);
            let ghost fv = f@;
            let ghost gv = g@;
            g.functions.push(f);
            assert(strings_view(g.functions@) =~= gv.functions.push(fv));
            groups.insert(k, g);
            assert(imports_view(groups@) =~= before.update(
                k as int,
                ImportView { dll: before[k as int].dll, functions: before[k as int].functions.push(fv) },
            ));
        },
        None => {
            let ghost dv = dll@;
            let ghost fv = f@;
            let mut functions: Vec<String> = Vec::new();
            functions.push(f);
            assert(strings_view(functions@) =~= seq![fv]);
            groups.push(Import { dll, functions });
            assert(imports_view(groups@) =~= before.push(ImportView { dll: dv, functions: seq![fv] }));
        },
    }
}

/// Merges one import descriptor into the group of its library.
pub(crate) fn merge_import_into(groups: &mut Vec<Import>, imp: Import)
    ensures
        imports_view(final(groups)@) == merge_import(imports_view(old(groups)@), imp@),
{
    let ghost before = imports_view(groups@);
    let ghost iv = imp@;
    match find_group(groups, &imp.dll) {
        Some(k) => {
            let mut g = groups.remove(k);
            let ghost gv = g@;
            let mut fs = imp.functions;
            g.functions.append(&mut fs);
            assert(strings_view(g.functions@) =~= gv.functions + iv.functions);
            groups.insert(k, g);
            assert(imports_view(groups@) =~= before.update(
                k as int,
                ImportView { dll: before[k as int].dll, functions: before[k as int].functions + iv.functions },
            ));
        },
        None => {
            groups.push(imp);
            assert(imports_view(groups@) =~= before.push(iv));
        },
    }
}

/// Builds the summary of a strictly parsed PE image: display machine name, sections (an
/// undecodable name shown as `?`), imports grouped by library in order of first
/// appearance, the imphash over all imports in directory order, the resource-directory
/// size and the overlay past the last section's raw data.
pub fn pe_info_from_image(image: &ParsedPe, data: &[u8], file_path: &str) -> (info: PeInfo)
    ensures
        info@ == strict_pe_info(image@, data@.len() as int, file_path@),
        info.imp_hash matches Some(h) ==> h@.len() == 32,
        info.file@ == file_path@,
        info.file_size == data@.len(),
        info.is_pe32_plus == image.is_64,
        info.entry_point_rva == image.entry,
        info.image_base == image.image_base,
        info.resource_size == u32_or_zero(image.resource_size),
        info.sections@.len() == image.sections@.len(),
        forall|k: int|
            0 <= k < info.sections@.len() ==> {
                &&& (#[trigger] info.sections@[k]).virtual_size == image.sections@[k].1
                &&& info.sections@[k].virtual_address == image.sections@[k].2
                &&& info.sections@[k].size_of_raw_data == image.sections@[k].3
                &&& info.sections@[k].pointer_to_raw_data == image.sections@[k].4
            },
{
    let ghost g = image@;
    let mut sections: Vec<Section> = Vec::new();
    let mut k: usize = 0;
    let ghost secs = g.sections.map_values(|s: ParsedSectionView| section_from_parsed(s));
    while k < image.sections.len()
        invariant
            k <= image.sections@.len(),
            g == image@,
            secs == g.sections.map_values(|s: ParsedSectionView| section_from_parsed(s)),
            sections_view(sections@) == secs.take(k as int),
            sections@.len() == k,
            forall|j: int|
                0 <= j < k ==> {
                    &&& (#[trigger] sections@[j]).virtual_size == image.sections@[j].1
                    &&& sections@[j].virtual_address == image.sections@[j].2
                    &&& sections@[j].size_of_raw_data == image.sections@[j].3
                    &&& sections@[j].pointer_to_raw_data == image.sections@[j].4
                },
        decreases image.sections@.len() - k,
    {
        let ps = &image.sections[k];
        assert(g.sections[k as int] == ps@);
        let name = match &ps.0 {
            Some(n) => n.clone(),
            None => String::from_str("?"),
        };
        proof {
            reveal_strlit("?");
        }
        assert(name@ =~= section_from_parsed(ps@).name);
        let sec = Section {
            name,
            virtual_size: ps.1,
            virtual_address: ps.2,
            size_of_raw_data: ps.3,
            pointer_to_raw_data: ps.4,
        };
        let ghost prev = sections_view(sections@);
        sections.push(sec);
        assert(sections_view(sections@) =~= prev.push(sec@));
        assert(secs.take(k + 1) =~= secs.take(k as int).push(secs[k as int]));
        k += 1;
    }
    assert(secs.take(k as int) =~= secs);
    let mut imports: Vec<Import> = Vec::new();
    let mut joined = String::new();
    let ghost entries = g.imports.map_values(|i: ParsedImportView| strict_entry(i));
    let mut i: usize = 0;
    assert(g.imports.take(0) =~= Seq::<ParsedImportView>::empty());
    assert(imports_view(imports@) =~= Seq::<ImportView>::empty());
    assert(entries.take(0) =~= Seq::<Seq<char>>::empty());
    while i < image.imports.len()
        invariant
            i <= image.imports@.len(),
            g == image@,
            entries == g.imports.map_values(|i: ParsedImportView| strict_entry(i)),
            imports_view(imports@) == grouped_imports(g.imports.take(i as int)),
            joined@ == join_comma(entries.take(i as int)),
        decreases image.imports@.len() - i,
    {
        let imp = &image.imports[i];
        assert(g.imports[i as int] == imp@);
        let dll_lower = to_lowercase(imp.0.as_str());
        let base = strip_lib_ext(dll_lower.as_str());
        let by_ordinal = ordinal_import(imp.1.as_str());
        let func = if by_ordinal {
            ordinal_import_string(dll_lower.as_str(), imp.2)
        } else {
            to_lowercase(imp.1.as_str())
        };
        let ghost before = entries.take(i as int);
        if i > 0 {
            joined.append(",");
        }
        joined.append(base);
        joined.append(".");
        joined.append(func.as_str());
        proof {
            reveal_strlit(",");
            reveal_strlit(".");
            lemma_join_comma_push(before, strict_entry(imp@));
            assert(entries.take(i + 1) =~= before.push(strict_entry(imp@)));
            if i == 0 {
                assert(joined@ =~= strict_entry(imp@));
            } else {
                assert(joined@ =~= join_comma(before) + seq![','] + strict_entry(imp@));
            }
        }
        let func_display = if by_ordinal {
            func.clone()
        } else {
            imp.1.clone()
        };
        add_import(&mut imports, imp.0.clone(), func_display);
        assert(g.imports.take(i + 1).drop_last() =~= g.imports.take(i as int));
        i += 1;
    }
    assert(g.imports.take(i as int) =~= g.imports);
    assert(entries.take(i as int) =~= entries);
    let imp_hash = imphash_from_joined(&joined, i > 0);
    let last_end = last_raw_end(&sections, false);
    let file_len = data.len() as u64;
    let overlay_size = if file_len > last_end {
        file_len - last_end
    } else {
        0
    };
    let has_overlay = overlay_size > 0;
    let section_total = sections.len();
    let dll_total = imports.len();
    let info = PeInfo {
        file: String::from_str(file_path),
        file_size: file_len,
        machine: machine_name(image.machine),
        is_pe32_plus: image.is_64,
        entry_point_rva: image.entry,
        entry_point_hex: hex_string_upper(image.entry as u64),
        image_base: image.image_base,
        section_count: section_total as u32,
        sections,
        imported_dll_count: dll_total as u32,
        imports,
        imp_hash,
        resource_size: match image.resource_size {
            Some(v) => v,
            None => 0,
        },
        has_overlay,
        overlay_offset: if has_overlay {
            Some(last_end)
        } else {
            None
        },
        overlay_size,
        mapped_offset: None,
        mapped_section: None,
        warnings: Vec::new(),
    };
    assert(info@.warnings =~= Seq::<Seq<char>>::empty());
    info
}

/// Parse a PE, preferring goblin's strict full-structure validation and falling back to
/// the lenient header-salvage parse when that rejects the file.
pub fn parse_pe(data: &[u8], file_path: &str) -> (r: Result<PeInfo, String>)
    ensures
        pe_result_view(r) == pe_parse(data@, file_path@),
        r matches Ok(info) ==> (info.imp_hash matches Some(h) ==> h@.len() == 32),
        r matches Ok(info) ==> pe_info_consistent(info@, data@.len() as int, file_path@),
        r matches Ok(info) ==> info.section_count as int == info.sections@.len(),
        goblin_pe_parse(data@) matches Ok(g) ==> (r matches Ok(info) && info.image_base
            == g.image_base && info.entry_point_rva == g.entry && info.is_pe32_plus == g.is_64),
        goblin_pe_parse(data@) is Ok ==> (r matches Ok(info) && strict_fields_agree(
            data@,
            info.is_pe32_plus,
            info.entry_point_rva,
            info.image_base,
        )),
        goblin_pe_parse(data@) is Err ==> (r matches Ok(info) ==> optional_fields_read(
            header_window(data@),
            info.is_pe32_plus,
            info.entry_point_rva,
            info.image_base,
        )),
{
    let n: usize = data.len();
    assert(data@.len() <= u64::MAX) by {
        assert(n <= usize::MAX);
    }
    match goblin_parse(data) {
        Ok(image) => {
            let info = pe_info_from_image(&image, data, file_path);
            proof {
                lemma_strict_info_consistent(image@, data@.len() as int, file_path@);
            }
            assert(info.sections@.len() == image@.sections.len());
            Ok(info)
        },
        Err(_) => {
            proof {
                lemma_lenient_info_consistent(data@, file_path@);
                lemma_lenient_fields_from_bytes(data@, file_path@);
            }
            parse_pe_lenient(data, file_path)
        },
    }
}

/// The name of the first section (from `k` on) with raw data whose raw-data span
/// contains `offset`; an undecodable name is `?`.
pub open spec fn section_at_offset(secs: Seq<ParsedSectionView>, offset: int, k: int) -> Option<Seq<char>>
    decreases secs.len() - k,
{
    if k < 0 || k >= secs.len() {
        None
    } else {
        let s = secs[k];
        let start = s.pointer_to_raw_data as int;
        if s.size_of_raw_data > 0 && start <= offset < start + s.size_of_raw_data {
            Some(section_from_parsed(s).name)
        } else {
            section_at_offset(secs, offset, k + 1)
        }
    }
}

/// Byte `offset` of the file lies in the raw data of section `s`:
/// `[PointerToRawData, PointerToRawData + SizeOfRawData)`, which is not empty.
pub open spec fn in_raw_data(s: ParsedSectionView, offset: int) -> bool {
    &&& s.size_of_raw_data > 0
    &&& s.pointer_to_raw_data <= offset
    &&& offset < s.pointer_to_raw_data + s.size_of_raw_data
}

/// The name of the first section whose raw data holds `offset` is `name`, or there is
/// no such section and `name` is absent.
pub open spec fn first_section_holding(secs: Seq<ParsedSectionView>, offset: int, name: Option<Seq<char>>) -> bool {
    match name {
        Some(n) => exists|k: int|
            0 <= k < secs.len() && in_raw_data(#[trigger] secs[k], offset) && n
                == section_from_parsed(secs[k]).name && forall|j: int|
                0 <= j < k ==> !in_raw_data(#[trigger] secs[j], offset),
        None => forall|k: int| 0 <= k < secs.len() ==> !in_raw_data(#[trigger] secs[k], offset),
    }
}

proof fn lemma_section_at_offset_from(secs: Seq<ParsedSectionView>, offset: int, k: int)
    requires
        0 <= k,
    ensures
        section_at_offset(secs, offset, k) matches Some(n) ==> exists|i: int|
            k <= i < secs.len() && in_raw_data(#[trigger] secs[i], offset) && n
                == section_from_parsed(secs[i]).name && forall|j: int|
                k <= j < i ==> !in_raw_data(#[trigger] secs[j], offset),
        section_at_offset(secs, offset, k) is None ==> forall|i: int|
            k <= i < secs.len() ==> !in_raw_data(#[trigger] secs[i], offset),
    decreases secs.len() - k,
{
    if k < secs.len() {
        lemma_section_at_offset_from(secs, offset, k + 1);
        if in_raw_data(secs[k], offset) {
            assert(section_at_offset(secs, offset, k) == Some(section_from_parsed(secs[k]).name));
        } else {
            if let Some(n) = section_at_offset(secs, offset, k) {
                let i = choose|i: int|
                    k + 1 <= i < secs.len() && in_raw_data(#[trigger] secs[i], offset) && n
                        == section_from_parsed(secs[i]).name && forall|j: int|
                        k + 1 <= j < i ==> !in_raw_data(#[trigger] secs[j], offset);
                assert forall|j: int| k <= j < i implies !in_raw_data(#[trigger] secs[j], offset) by {
                    if j > k {
                        assert(k + 1 <= j < i);
                    }
                }
            }
        }
    }
}

/// Law: the section reported for a file offset is the first section whose raw data
/// `[PointerToRawData, PointerToRawData + SizeOfRawData)` holds the offset (an
/// undecodable name shown as `?`), and none is reported exactly when no section's raw
/// data holds it.
pub proof fn lemma_section_at_offset_is_first_holding(secs: Seq<ParsedSectionView>, offset: int)
    ensures
        first_section_holding(secs, offset, section_at_offset(secs, offset, 0)),
{
    lemma_section_at_offset_from(secs, offset, 0);
}

/// The name of the section whose raw data holds byte `offset` of a strictly parsed image.
pub fn section_name_at_offset(image: &ParsedPe, offset: u64) -> (r: Option<String>)
    ensures
        opt_string_view(r) == section_at_offset(image@.sections, offset as int, 0),
        first_section_holding(image@.sections, offset as int, opt_string_view(r)),
{
    proof {
        lemma_section_at_offset_is_first_holding(image@.sections, offset as int);
    }
    let ghost g = image@;
    let mut k: usize = 0;
    while k < image.sections.len()
        invariant
            k <= image.sections@.len(),
            g == image@,
            section_at_offset(g.sections, offset as int, 0) == section_at_offset(
                g.sections,
                offset as int,
                k as int,
            ),
        decreases image.sections@.len() - k,
    {
        let s = &image.sections[k];
        assert(g.sections[k as int] == s@);
        let start = s.4 as u64;
        let end = start + s.3 as u64;
        if s.3 > 0 && offset >= start && offset < end {
            let name = match &s.0 {
                Some(n) => n.clone(),
                None => String::from_str("?"),
            };
            proof {
                reveal_strlit("?");
            }
            assert(name@ =~= section_from_parsed(s@).name);
            assert(section_at_offset(g.sections, offset as int, k as int) == Some(name@));
            proof {
                lemma_section_at_offset_is_first_holding(g.sections, offset as int);
            }
            return Some(name);
        }
        k += 1;
    }
    None
}

/// Map a byte offset to the containing PE section name (".text", ...), if any.
/// Fails when the strict parser rejects the file.
pub fn offset_to_section(data: &[u8], offset: u64) -> (r: Result<Option<String>, String>)
    ensures
        match goblin_pe_parse(data@) {
            Ok(g) => r is Ok && opt_string_view(r->Ok_0) == section_at_offset(
                g.sections,
                offset as int,
                0,
            ) && first_section_holding(g.sections, offset as int, opt_string_view(r->Ok_0)),
            Err(e) => r is Err && r->Err_0@ == "PE parse error: "@ + e,
        },
{
    match goblin_parse(data) {
        Ok(image) => Ok(section_name_at_offset(&image, offset)),
        Err(e) => {
            let mut msg = String::from_str("PE parse error: ");
            msg.append(e.as_str());
            Err(msg)
        },
    }
}


proof fn lemma_group_index(groups: Seq<ImportView>, dll: Seq<char>, k: int)
    requires
        0 <= k,
    ensures
        group_index(groups, dll, k) == -1 || (k <= group_index(groups, dll, k) < groups.len()
            && groups[group_index(groups, dll, k)].dll == dll),
        group_index(groups, dll, k) == -1 ==> forall|j: int|
            k <= j < groups.len() ==> (#[trigger] groups[j]).dll != dll,
    decreases groups.len() - k,
{
    if k < groups.len() && groups[k].dll != dll {
        lemma_group_index(groups, dll, k + 1);
    }
}

/// No library names two entries.
pub open spec fn distinct_dlls(groups: Seq<ImportView>) -> bool {
    forall|i: int, j: int|
        0 <= i < j < groups.len() ==> (#[trigger] groups[i]).dll != (#[trigger] groups[j]).dll
}

/// No entry lists a function.
pub open spec fn no_functions(imps: Seq<ImportView>) -> bool {
    forall|i: int| 0 <= i < imps.len() ==> (#[trigger] imps[i]).functions.len() == 0
}

proof fn lemma_group_by_library(descs: Seq<ImportView>)
    ensures
        distinct_dlls(group_by_library(descs)),
        no_functions(group_by_library(descs)) <==> no_functions(descs),
    decreases descs.len(),
{
    if descs.len() > 0 {
        let rest = descs.drop_last();
        let d = descs.last();
        let prev = group_by_library(rest);
        lemma_group_by_library(rest);
        lemma_group_index(prev, d.dll, 0);
        let next = group_by_library(descs);
        let k = group_index(prev, d.dll, 0);
        assert(no_functions(descs) <==> (no_functions(rest) && d.functions.len() == 0)) by {
            if no_functions(descs) {
                assert forall|i: int| 0 <= i < rest.len() implies (#[trigger] rest[i]).functions.len()
                    == 0 by {
                    assert(rest[i] == descs[i]);
                }
                assert(descs[descs.len() - 1] == d);
            }
            if no_functions(rest) && d.functions.len() == 0 {
                assert forall|i: int| 0 <= i < descs.len() implies (#[trigger] descs[i]).functions.len()
                    == 0 by {
                    if i < rest.len() {
                        assert(rest[i] == descs[i]);
                    }
                }
            }
        }
        if k >= 0 {
            assert forall|i: int, j: int| 0 <= i < j < next.len() implies (#[trigger] next[i]).dll
                != (#[trigger] next[j]).dll by {
                assert(next[i].dll == prev[i].dll);
                assert(next[j].dll == prev[j].dll);
            }
            if no_functions(next) {
                assert(next[k].functions.len() == 0);
                assert forall|i: int| 0 <= i < prev.len() implies (#[trigger] prev[i]).functions.len()
                    == 0 by {
                    assert(next[i].functions.len() == 0);
                }
            }
            if no_functions(prev) && d.functions.len() == 0 {
                assert forall|i: int| 0 <= i < next.len() implies (#[trigger] next[i]).functions.len()
                    == 0 by {
                    assert(prev[i].functions.len() == 0);
                }
            }
        } else {
            assert forall|i: int, j: int| 0 <= i < j < next.len() implies (#[trigger] next[i]).dll
                != (#[trigger] next[j]).dll by {
                if j == prev.len() {
                    assert(prev[i].dll != d.dll);
                } else {
                    assert(next[i] == prev[i] && next[j] == prev[j]);
                }
            }
            if no_functions(next) {
                assert(next[prev.len() as int] == d);
                assert forall|i: int| 0 <= i < prev.len() implies (#[trigger] prev[i]).functions.len()
                    == 0 by {
                    assert(next[i] == prev[i]);
                }
            }
            if no_functions(prev) && d.functions.len() == 0 {
                assert forall|i: int| 0 <= i < next.len() implies (#[trigger] next[i]).functions.len()
                    == 0 by {
                    if i < prev.len() {
                        assert(next[i] == prev[i]);
                    }
                }
            }
        }
    }
}

/// Each library names one group and every group holds at least one function.
pub open spec fn well_grouped(groups: Seq<ImportView>) -> bool {
    &&& distinct_dlls(groups)
    &&& forall|i: int| 0 <= i < groups.len() ==> (#[trigger] groups[i]).functions.len() > 0
}

proof fn lemma_grouped_imports_well_grouped(imps: Seq<ParsedImportView>)
    ensures
        well_grouped(grouped_imports(imps)),
        grouped_imports(imps).len() == 0 <==> imps.len() == 0,
    decreases imps.len(),
{
    if imps.len() > 0 {
        let prev = grouped_imports(imps.drop_last());
        lemma_grouped_imports_well_grouped(imps.drop_last());
        let dll = imps.last().dll;
        lemma_group_index(prev, dll, 0);
        let next = grouped_imports(imps);
        let k = group_index(prev, dll, 0);
        if k >= 0 {
            assert(next.len() == prev.len());
            assert forall|i: int, j: int| 0 <= i < j < next.len() implies (#[trigger] next[i]).dll
                != (#[trigger] next[j]).dll by {
                assert(next[i].dll == prev[i].dll);
                assert(next[j].dll == prev[j].dll);
            }
            assert forall|i: int| 0 <= i < next.len() implies (#[trigger] next[i]).functions.len() > 0 by {
                assert(prev[i].functions.len() > 0);
            }
        } else {
            assert forall|i: int, j: int| 0 <= i < j < next.len() implies (#[trigger] next[i]).dll
                != (#[trigger] next[j]).dll by {
                if j == prev.len() {
                    assert(prev[i].dll != dll);
                } else {
                    assert(next[i] == prev[i] && next[j] == prev[j]);
                }
            }
            assert forall|i: int| 0 <= i < next.len() implies (#[trigger] next[i]).functions.len() > 0 by {
                if i < prev.len() {
                    assert(next[i] == prev[i]);
                }
            }
        }
    }
}

proof fn lemma_list_entries_empty(imps: Seq<ImportView>)
    ensures
        crate::imports::import_list_entries(imps).len() == 0 <==> forall|i: int|
            0 <= i < imps.len() ==> (#[trigger] imps[i]).functions.len() == 0,
    decreases imps.len(),
{
    if imps.len() > 0 {
        lemma_list_entries_empty(imps.drop_last());
        assert forall|i: int| 0 <= i < imps.len() - 1 implies (#[trigger] imps.drop_last()[i])
            == imps[i] by {}
        if crate::imports::import_list_entries(imps).len() == 0 {
            assert forall|i: int| 0 <= i < imps.len() implies (#[trigger] imps[i]).functions.len()
                == 0 by {
                if i < imps.len() - 1 {
                    assert(imps.drop_last()[i] == imps[i]);
                }
            }
        }
    }
}

/// The summary names the file it was given and renders the entry point as `0x` and
/// uppercase hexadecimal; the reported counts agree with the lists (as 32-bit counts), no
/// library names two import entries, the overlay fields agree with each other
/// and with the file size, the imphash is absent exactly when no imported function is
/// listed, and the mapped-offset fields and warnings are empty.
pub open spec fn pe_info_consistent(info: PeInfoView, len: int, file: Seq<char>) -> bool {
    &&& info.file == file
    &&& info.entry_point_hex == prefixed_hex_upper(info.entry_point_rva as nat)
    &&& info.section_count == info.sections.len() as u32
    &&& info.imported_dll_count == info.imports.len() as u32
    &&& distinct_dlls(info.imports)
    &&& info.file_size == len
    &&& info.has_overlay == (info.overlay_size > 0)
    &&& (info.overlay_offset is Some <==> info.has_overlay)
    &&& (info.overlay_offset matches Some(o) ==> o + info.overlay_size == info.file_size)
    &&& (info.imp_hash is None <==> forall|i: int|
        0 <= i < info.imports.len() ==> (#[trigger] info.imports[i]).functions.len() == 0)
    &&& info.mapped_offset is None
    &&& info.mapped_section is None
    &&& info.warnings.len() == 0
}

proof fn lemma_strict_info_consistent(g: ParsedPeView, len: int, file: Seq<char>)
    requires
        0 <= len <= u64::MAX,
    ensures
        pe_info_consistent(strict_pe_info(g, len, file), len, file),
{
    lemma_grouped_imports_well_grouped(g.imports);
    let info = strict_pe_info(g, len, file);
    let secs = g.sections.map_values(|s: ParsedSectionView| section_from_parsed(s));
    lemma_raw_end_bound(secs, false);
    if info.imports.len() > 0 {
        assert(info.imports[0].functions.len() > 0);
    }
}

proof fn lemma_lenient_info_props(
    data: Seq<u8>,
    file: Seq<char>,
    machine: u16,
    is64: bool,
    entry: u32,
    image_base: u64,
    secs: Seq<SectionView>,
    import_rva: u32,
    resource_size: u32,
)
    requires
        data.len() <= u64::MAX,
    ensures
        pe_info_consistent(
            lenient_info(data, file, machine, is64, entry, image_base, secs, import_rva, resource_size),
            data.len() as int,
            file,
        ),
{
    let t = lenient_import_table(data, secs, import_rva as int, is64);
    if import_rva != 0 {
        if let Some(off) = rva_offset(secs, import_rva as int) {
            let descs = crate::imports::import_descriptors(data, secs, off, is64, 0);
            lemma_list_entries_empty(descs);
            lemma_group_by_library(descs);
            assert(no_functions(descs) == forall|i: int|
                0 <= i < descs.len() ==> (#[trigger] descs[i]).functions.len() == 0);
        }
    }
    lemma_raw_end_bound(secs, true);
    let info = lenient_info(data, file, machine, is64, entry, image_base, secs, import_rva, resource_size);
    assert(info.section_count == info.sections.len() as u32);
    assert(info.imported_dll_count == info.imports.len() as u32);
    assert(distinct_dlls(info.imports));
    assert(info.file_size == data.len());
    assert(info.has_overlay == (info.overlay_size > 0));
    assert(info.overlay_offset matches Some(o) ==> o + info.overlay_size == info.file_size);
    assert(info.imp_hash is None <==> forall|i: int|
        0 <= i < info.imports.len() ==> (#[trigger] info.imports[i]).functions.len() == 0);
    assert(info.warnings.len() == 0);
}

proof fn lemma_lenient_info_consistent(data: Seq<u8>, file: Seq<char>)
    requires
        data.len() <= u64::MAX,
    ensures
        lenient_parse(data, file) matches Ok(info) ==> pe_info_consistent(info, data.len() as int, file),
{
    let h = header_window(data);
    let r = lenient_header(h);
    if r is Ok {
        let f = r->Ok_0;
        lemma_lenient_info_props(
            data,
            file,
            f.machine,
            f.is_pe32_plus,
            f.entry_point_rva,
            f.image_base,
            section_rows(h, f.section_table as int, f.section_count as nat),
            f.import_rva,
            f.resource_size,
        );
    }
}

/// Law: whichever parser succeeds, the summary is consistent (see `pe_info_consistent`):
/// counts agree with lists, no library names two import entries, the overlay fields agree
/// with each other and the file size, and the imphash is absent exactly when no imported
/// function is listed.
pub proof fn lemma_pe_info_consistent(data: Seq<u8>, file: Seq<char>)
    requires
        data.len() <= u64::MAX,
    ensures
        pe_parse(data, file) matches Ok(info) ==> pe_info_consistent(info, data.len() as int, file),
{
    match goblin_pe_parse(data) {
        Ok(g) => lemma_strict_info_consistent(g, data.len() as int, file),
        Err(_) => lemma_lenient_info_consistent(data, file),
    }
}

proof fn lemma_raw_end_bound(secs: Seq<SectionView>, skip_empty: bool)
    ensures
        0 <= raw_end_max(secs, skip_empty) < 0x2_0000_0000,
    decreases secs.len(),
{
    if secs.len() > 0 {
        lemma_raw_end_bound(secs.drop_last(), skip_empty);
    }
}

proof fn lemma_lenient_header_reads_optional_fields(h: Seq<u8>)
    ensures
        lenient_header(h) matches Ok(f) ==> optional_fields_read(
            h,
            f.is_pe32_plus,
            f.entry_point_rva,
            f.image_base,
        ),
{
    if lenient_header(h) is Ok {
        let opt = optional_header_at(h);
        assert(le_u32_at(h, 0x3C) is Some);
        assert(opt == u32_or_zero(le_u32_at(h, 0x3C)) as int + 24);
    }
}

/// Law: a summary salvaged by the lenient parser reports the PE32+ flag, entry point and
/// image base that the optional header holds in the first 64 KiB of the file: PE32+
/// exactly when the magic is 0x20B, the entry point the 32-bit value at offset 16 of the
/// optional header, the image base the 64-bit value at offset 24 (PE32+) or the 32-bit
/// value at offset 28 (PE32).
pub proof fn lemma_lenient_fields_from_bytes(data: Seq<u8>, file: Seq<char>)
    ensures
        lenient_parse(data, file) matches Ok(info) ==> optional_fields_read(
            header_window(data),
            info.is_pe32_plus,
            info.entry_point_rva,
            info.image_base,
        ),
{
    lemma_lenient_header_reads_optional_fields(header_window(data));
}

/// Law: the imports of a strict parse are grouped by library: each library appears in
/// one entry only, every entry lists at least one function, and there is an entry exactly
/// when the parser reported an import.
pub proof fn lemma_strict_imports_grouped(g: ParsedPeView, len: int, file: Seq<char>)
    ensures
        well_grouped(strict_pe_info(g, len, file).imports),
        strict_pe_info(g, len, file).imports.len() == 0 <==> g.imports.len() == 0,
{
    lemma_grouped_imports_well_grouped(g.imports);
}

} // verus!
