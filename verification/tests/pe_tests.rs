use offsetscan::pe::{machine_name, offset_to_section, parse_pe, parse_pe_lenient, strip_lib_ext};
use offsetscan::pe_image::{ParsedImport, ParsedPe, ParsedSection};
use offsetscan::pe::{pe_info_from_image, section_name_at_offset};
use offsetscan::ordinals::special_ordinal_name;

#[test]
fn strips_known_library_extensions() {
    assert_eq!(strip_lib_ext("kernel32.dll"), "kernel32");
    assert_eq!(strip_lib_ext("comctl32.ocx"), "comctl32");
    assert_eq!(strip_lib_ext("driver.sys"), "driver");
    assert_eq!(strip_lib_ext("noextension"), "noextension");
}

#[test]
fn maps_known_machine_ids_to_display_strings() {
    assert_eq!(machine_name(0x8664), "x64 (AMD64)");
    assert_eq!(machine_name(0x014C), "x86 (I386)");
    assert_eq!(machine_name(0xAA64), "ARM64");
    assert!(machine_name(0x1234).starts_with("0x"));
}

#[test]
fn rejects_a_non_pe_buffer() {
    assert!(parse_pe(b"this is not a PE image at all", "sample").is_err());
}

/// Build a minimal PE32+ header (MZ + PE + COFF + optional header + one section),
/// no section data. Enough for the lenient parser to salvage.
fn minimal_pe32plus_header(section_count: u16) -> Vec<u8> {
    let mut b = vec![0u8; 0x200];
    b[0] = 0x4D;
    b[1] = 0x5A; // MZ
    b[0x3C..0x40].copy_from_slice(&0x80u32.to_le_bytes()); // e_lfanew
    b[0x80] = 0x50;
    b[0x81] = 0x45; // PE\0\0
    b[0x84..0x86].copy_from_slice(&0x8664u16.to_le_bytes()); // machine x64
    b[0x86..0x88].copy_from_slice(&section_count.to_le_bytes());
    b[0x94..0x96].copy_from_slice(&0xF0u16.to_le_bytes()); // SizeOfOptionalHeader
    b[0x98..0x9A].copy_from_slice(&0x20Bu16.to_le_bytes()); // PE32+ magic
    b[0xA8..0xAC].copy_from_slice(&0x1000u32.to_le_bytes()); // AddressOfEntryPoint
    b[0xB0..0xB8].copy_from_slice(&0x140000000u64.to_le_bytes()); // ImageBase
    let sec = 0x188; // opt(0x98) + SizeOfOptionalHeader(0xF0)
    b[sec..sec + 5].copy_from_slice(b".text");
    b[sec + 12..sec + 16].copy_from_slice(&0x1000u32.to_le_bytes()); // VirtualAddress
    b[sec + 16..sec + 20].copy_from_slice(&0x200u32.to_le_bytes()); // SizeOfRawData
    b[sec + 20..sec + 24].copy_from_slice(&0x200u32.to_le_bytes()); // PointerToRawData
    b
}

#[test]
fn lenient_parse_salvages_a_header_only_pe() {
    // A truncated/carved sample whose headers are intact: the lenient parse recovers
    // machine and sections.
    let info = parse_pe_lenient(&minimal_pe32plus_header(1), "x")
        .expect("lenient parse should salvage a valid header");
    assert_eq!(info.machine, "x64 (AMD64)");
    assert!(info.is_pe32_plus);
    assert_eq!(info.section_count, 1);
    assert_eq!(info.sections[0].name, ".text");
    assert_eq!(info.entry_point_rva, 0x1000);
    assert!(info.imp_hash.is_none()); // no import directory
}

#[test]
fn lenient_parse_rejects_non_pe_and_unfittable_section_counts() {
    assert!(parse_pe_lenient(b"not a pe", "x").is_err());
    // A 65535-section count that cannot fit the buffer must be rejected, not salvaged.
    assert!(parse_pe_lenient(&minimal_pe32plus_header(0xFFFF), "x").is_err());
}

/// A PE32+ image with one `.text` section holding an import directory that imports
/// `GetLastError` by name and ordinal 5 by ordinal from `KERNEL32.dll`.
fn pe_with_imports() -> Vec<u8> {
    let mut b = minimal_pe32plus_header(1);
    b.resize(0x400, 0);
    b[0x104..0x108].copy_from_slice(&16u32.to_le_bytes()); // NumberOfRvaAndSizes
    b[0x110..0x114].copy_from_slice(&0x1000u32.to_le_bytes()); // import directory RVA
    b[0x114..0x118].copy_from_slice(&40u32.to_le_bytes()); // import directory size
    b[0x200..0x204].copy_from_slice(&0x1040u32.to_le_bytes()); // OriginalFirstThunk
    b[0x20C..0x210].copy_from_slice(&0x1080u32.to_le_bytes()); // Name
    b[0x210..0x214].copy_from_slice(&0x1040u32.to_le_bytes()); // FirstThunk
    b[0x240..0x248].copy_from_slice(&0x10A0u64.to_le_bytes()); // hint/name RVA
    b[0x248..0x250].copy_from_slice(&0x8000_0000_0000_0005u64.to_le_bytes()); // ordinal 5
    b[0x280..0x28C].copy_from_slice(b"KERNEL32.dll");
    b[0x2A2..0x2AE].copy_from_slice(b"GetLastError");
    b
}

#[test]
fn lenient_parse_walks_the_import_directory_and_hashes_it() {
    let info = parse_pe_lenient(&pe_with_imports(), "imp.exe").expect("salvageable");
    assert_eq!(info.imported_dll_count, 1);
    assert_eq!(info.imports[0].dll, "KERNEL32.dll");
    assert_eq!(info.imports[0].functions, vec!["GetLastError".to_string(), "ord5".to_string()]);
    // md5("kernel32.getlasterror,kernel32.ord5")
    assert_eq!(info.imp_hash.as_deref(), Some("d5cda8f7fb6744f8e2d481bc23b056e2"));
    assert!(!info.has_overlay);
    assert_eq!(info.overlay_size, 0);
    assert_eq!(info.overlay_offset, None);
    assert_eq!(info.entry_point_hex, "0x1000");
    assert_eq!(info.image_base, 0x140000000);
    assert_eq!(info.file, "imp.exe");
    assert_eq!(info.file_size, 0x400);
}

#[test]
fn parse_pe_reports_the_same_imports_and_imphash() {
    let info = parse_pe(&pe_with_imports(), "imp.exe").expect("a PE");
    assert_eq!(info.imports.len(), 1);
    assert_eq!(info.imports[0].functions.len(), 2);
    assert_eq!(info.imp_hash.as_deref(), Some("d5cda8f7fb6744f8e2d481bc23b056e2"));
}

#[test]
fn bytes_past_the_last_section_are_an_overlay() {
    let mut b = pe_with_imports();
    b.extend_from_slice(&[0xAB; 16]);
    let info = parse_pe_lenient(&b, "x").expect("salvageable");
    assert!(info.has_overlay);
    assert_eq!(info.overlay_offset, Some(0x400));
    assert_eq!(info.overlay_size, 16);
}

#[test]
fn lenient_parse_reports_each_refusal_reason() {
    assert_eq!(
        parse_pe_lenient(b"XY", "x").unwrap_err(),
        "Not a PE image: missing MZ (DOS) signature."
    );
    assert_eq!(parse_pe_lenient(b"MZ", "x").unwrap_err(), "truncated DOS header");
    let mut b = minimal_pe32plus_header(1);
    b[0x80] = 0;
    assert_eq!(
        parse_pe_lenient(&b, "x").unwrap_err(),
        "Not a PE image: missing PE signature."
    );
    let mut b = minimal_pe32plus_header(1);
    b.truncate(0x86);
    assert_eq!(parse_pe_lenient(&b, "x").unwrap_err(), "truncated COFF header");
    let mut b = minimal_pe32plus_header(1);
    b.truncate(0xB0);
    assert_eq!(parse_pe_lenient(&b, "x").unwrap_err(), "truncated optional header");
}

#[test]
fn unknown_machine_ids_are_four_uppercase_hex_digits() {
    assert_eq!(machine_name(0x1234), "0x1234");
    assert_eq!(machine_name(0x00AB), "0x00AB");
    assert_eq!(machine_name(0x01C0), "ARM");
    assert_eq!(machine_name(0x01C4), "ARMNT");
}

#[test]
fn a_strict_image_is_summarised_with_grouped_imports() {
    let image = ParsedPe {
        machine: 0x014C,
        is_64: false,
        entry: 0x2A,
        image_base: 0x400000,
        resource_size: Some(0x30),
        sections: vec![
            ParsedSection(Some(".text".to_string()), 0x100, 0x1000, 0x200, 0x400),
            ParsedSection(None, 0, 0x2000, 0, 0x900),
        ],
        imports: vec![
            ParsedImport("KERNEL32.dll".to_string(), "GetLastError".to_string(), 1),
            ParsedImport("WS2_32.dll".to_string(), "ORDINAL 23".to_string(), 23),
            ParsedImport("KERNEL32.dll".to_string(), "ExitProcess".to_string(), 2),
        ],
    };
    let data = vec![0u8; 0x1000];
    let info = pe_info_from_image(&image, &data, "s.exe");
    assert_eq!(info.machine, "x86 (I386)");
    assert_eq!(info.entry_point_hex, "0x2A");
    assert_eq!(info.sections[1].name, "?");
    assert_eq!(info.resource_size, 0x30);
    assert_eq!(info.imported_dll_count, 2);
    assert_eq!(info.imports[0].dll, "KERNEL32.dll");
    assert_eq!(info.imports[0].functions, vec!["GetLastError".to_string(), "ExitProcess".to_string()]);
    assert_eq!(info.imports[1].functions, vec!["socket".to_string()]);
    // The largest raw end is max(0x400 + 0x200, 0x900 + 0) = 0x900.
    assert_eq!(info.overlay_offset, Some(0x900));
    assert_eq!(info.overlay_size, 0x700);
    // md5("kernel32.getlasterror,ws2_32.socket,kernel32.exitprocess")
    assert_eq!(info.imp_hash.as_deref(), Some(IMPHASH_GROUPED));
    assert_eq!(section_name_at_offset(&image, 0x450).as_deref(), Some(".text"));
    assert_eq!(section_name_at_offset(&image, 0x900), None);
}

const IMPHASH_GROUPED: &str = "3fb6a89ba4c4ed88b5d256173dda04f7";

#[test]
fn offset_to_section_needs_a_strictly_valid_pe() {
    let r = offset_to_section(b"not a pe", 0);
    assert!(r.unwrap_err().starts_with("PE parse error: "));
}

/// `pe_with_imports` with the alignment and size fields a strict parser checks.
fn well_formed_pe() -> Vec<u8> {
    let mut b = pe_with_imports();
    b[0xB8..0xBC].copy_from_slice(&0x1000u32.to_le_bytes()); // SectionAlignment
    b[0xBC..0xC0].copy_from_slice(&0x200u32.to_le_bytes()); // FileAlignment
    b[0xD0..0xD4].copy_from_slice(&0x2000u32.to_le_bytes()); // SizeOfImage
    b[0xD4..0xD8].copy_from_slice(&0x200u32.to_le_bytes()); // SizeOfHeaders
    b[0x188 + 8..0x188 + 12].copy_from_slice(&0x200u32.to_le_bytes()); // VirtualSize
    b
}

#[test]
fn offset_maps_to_the_section_holding_it() {
    let data = well_formed_pe();
    assert_eq!(offset_to_section(&data, 0x250).unwrap().as_deref(), Some(".text"));
    assert_eq!(offset_to_section(&data, 0x10).unwrap(), None);
}

#[test]
fn a_well_formed_pe_takes_the_strict_path_with_the_same_imphash() {
    let info = parse_pe(&well_formed_pe(), "ok.exe").expect("a PE");
    assert_eq!(info.machine, "x64 (AMD64)");
    assert_eq!(info.sections[0].name, ".text");
    assert_eq!(info.imports.len(), 1);
    assert_eq!(info.imports[0].dll, "KERNEL32.dll");
    assert_eq!(info.imports[0].functions, vec!["GetLastError".to_string(), "ord5".to_string()]);
    assert_eq!(info.imp_hash.as_deref(), Some("d5cda8f7fb6744f8e2d481bc23b056e2"));
    assert_eq!(info.entry_point_hex, "0x1000");
    assert!(!info.has_overlay);
}

#[test]
fn winsock_and_oleaut32_ordinals_have_names() {
    assert_eq!(special_ordinal_name("ws2_32.dll", 23), Some("socket"));
    assert_eq!(special_ordinal_name("wsock32.dll", 3), Some("closesocket"));
    assert_eq!(special_ordinal_name("ws2_32.dll", 115), Some("wsastartup"));
    assert_eq!(special_ordinal_name("oleaut32.dll", 2), Some("sysallocstring"));
    assert_eq!(special_ordinal_name("oleaut32.dll", 9), Some("variantclear"));
    assert_eq!(special_ordinal_name("kernel32.dll", 23), None);
    assert_eq!(special_ordinal_name("WS2_32.dll", 23), None);
}

/// A PE32+ image whose import directory names KERNEL32.dll twice (GetLastError, then
/// ExitProcess) around WS2_32.dll ordinal 4.
fn pe_with_split_imports() -> Vec<u8> {
    let mut b = minimal_pe32plus_header(1);
    b.resize(0x400, 0);
    b[0x104..0x108].copy_from_slice(&16u32.to_le_bytes());
    b[0x110..0x114].copy_from_slice(&0x1000u32.to_le_bytes());
    b[0x114..0x118].copy_from_slice(&80u32.to_le_bytes());
    for (d, thunks, name) in [(0x200usize, 0x1060u32, 0x10C0u32), (0x214, 0x1070, 0x10E0), (0x228, 0x1080, 0x10C0)] {
        b[d..d + 4].copy_from_slice(&thunks.to_le_bytes());
        b[d + 12..d + 16].copy_from_slice(&name.to_le_bytes());
        b[d + 16..d + 20].copy_from_slice(&thunks.to_le_bytes());
    }
    b[0x260..0x268].copy_from_slice(&0x1100u64.to_le_bytes());
    b[0x270..0x278].copy_from_slice(&0x8000_0000_0000_0004u64.to_le_bytes());
    b[0x280..0x288].copy_from_slice(&0x1120u64.to_le_bytes());
    b[0x2C0..0x2CC].copy_from_slice(b"KERNEL32.dll");
    b[0x2E0..0x2EA].copy_from_slice(b"WS2_32.dll");
    b[0x302..0x30E].copy_from_slice(b"GetLastError");
    b[0x322..0x32D].copy_from_slice(b"ExitProcess");
    b
}

#[test]
fn lenient_imports_are_grouped_by_library_and_hashed_in_directory_order() {
    let info = parse_pe_lenient(&pe_with_split_imports(), "x").expect("salvageable");
    assert_eq!(info.imported_dll_count, 2);
    assert_eq!(info.imports[0].dll, "KERNEL32.dll");
    assert_eq!(info.imports[0].functions, vec!["GetLastError".to_string(), "ExitProcess".to_string()]);
    assert_eq!(info.imports[1].dll, "WS2_32.dll");
    assert_eq!(info.imports[1].functions, vec!["connect".to_string()]);
    // md5("kernel32.getlasterror,ws2_32.connect,kernel32.exitprocess")
    assert_eq!(info.imp_hash.as_deref(), Some("98fb74611300605c9788802a3ec3370c"));
}
