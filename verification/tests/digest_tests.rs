use offsetscan::digest::{md5_hex, sha1_hex, sha256_hex};
use offsetscan::ioc::build_ioc_fields;

#[test]
fn digests_are_lowercase_hex() {
    assert_eq!(md5_hex(b"abc"), "900150983cd24fb0d6963f7d28e17f72");
    assert_eq!(sha1_hex(b"abc"), "a9993e364706816aba3e25717850c26c9cd0d89d");
    assert_eq!(
        sha256_hex(b"abc"),
        "ba7816bf8f01cfea414140de5dae2223b00361a396177a9cb410ff61f20015ad"
    );
    assert_eq!(md5_hex(b""), "d41d8cd98f00b204e9800998ecf8427e");
}

#[test]
fn a_non_pe_panel_has_null_pe_fields() {
    let data = b"abcdefgh\x00\x00xyz";
    let f = build_ioc_fields(data, "plain.bin");
    assert_eq!(f.file, "plain.bin");
    assert_eq!(f.file_size, data.len() as u64);
    assert!(!f.is_pe);
    assert!(f.machine.is_none());
    assert!(f.imp_hash.is_none());
    assert!(f.imported_dll_count.is_none());
    assert!(f.has_overlay.is_none());
    assert!(f.overlay_size.is_none());
    assert_eq!(f.printable_string_count, 1);
    assert_eq!(f.md5, md5_hex(data));
}

#[test]
fn the_panel_counts_ascii_and_utf16_strings_of_six_or_more() {
    let mut data = b"sixsix\x00short\x00".to_vec();
    data.extend("wide16".bytes().flat_map(|b| [b, 0]));
    let f = build_ioc_fields(&data, "s");
    assert_eq!(f.printable_string_count, 2);
}
