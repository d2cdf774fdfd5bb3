use offsetscan::strings::{extract_ascii_strings, extract_utf16le_strings, is_printable_ascii};

#[test]
fn ascii_runs_shorter_than_the_minimum_are_dropped() {
    let data = b"ab\x00hello\x01world!\xffxyz";
    let hits = extract_ascii_strings(data, 4);
    assert_eq!(hits.len(), 2);
    assert_eq!(hits[0].offset, 3);
    assert_eq!(hits[0].offset_hex, "0x3");
    assert_eq!(hits[0].encoding, "Ascii");
    assert_eq!(hits[0].length, 5);
    assert_eq!(hits[0].value, "hello");
    assert_eq!(hits[1].offset, 9);
    assert_eq!(hits[1].value, "world!");
}

#[test]
fn an_ascii_run_reaching_the_end_is_reported() {
    let hits = extract_ascii_strings(b"\x00\x00trailing", 3);
    assert_eq!(hits.len(), 1);
    assert_eq!(hits[0].value, "trailing");
    assert_eq!(hits[0].offset, 2);
}

#[test]
fn printable_range_is_space_to_tilde() {
    assert!(is_printable_ascii(b' '));
    assert!(is_printable_ascii(b'~'));
    assert!(!is_printable_ascii(0x1f));
    assert!(!is_printable_ascii(0x7f));
}

fn utf16(s: &str) -> Vec<u8> {
    s.bytes().flat_map(|b| [b, 0]).collect()
}

#[test]
fn utf16_run_at_an_odd_offset_is_found() {
    let mut data = vec![0x01u8];
    data.extend(utf16("Hello"));
    let hits = extract_utf16le_strings(&data, 4);
    assert_eq!(hits.len(), 1);
    assert_eq!(hits[0].offset, 1);
    assert_eq!(hits[0].encoding, "Unicode");
    assert_eq!(hits[0].length, 5);
    assert_eq!(hits[0].value, "Hello");
}

#[test]
fn aligned_and_unaligned_utf16_runs_in_one_pass() {
    let mut data = utf16("Alpha");
    data.push(0x07);
    data.extend(utf16("Bravo"));
    data.extend([0x01, 0x01]);
    data.extend(utf16("Charlie"));
    let hits = extract_utf16le_strings(&data, 4);
    let got: Vec<(u64, &str)> = hits.iter().map(|h| (h.offset, h.value.as_str())).collect();
    assert_eq!(got, vec![(0, "Alpha"), (11, "Bravo"), (23, "Charlie")]);
    assert_eq!(hits[1].offset_hex, "0xB");
    assert_eq!(hits[2].offset_hex, "0x17");
}

#[test]
fn utf16_units_need_a_zero_high_byte() {
    // 'A' followed by 0x01 is the code unit 0x0141, not printable ASCII.
    let data = [b'A', 0x01, b'B', 0x01, b'C', 0x01, b'D', 0x01];
    assert!(extract_utf16le_strings(&data, 1).is_empty());
}

#[test]
fn utf16_minimum_counts_code_units() {
    let data = utf16("abc");
    assert_eq!(extract_utf16le_strings(&data, 3).len(), 1);
    assert!(extract_utf16le_strings(&data, 4).is_empty());
}

#[test]
fn raising_the_minimum_only_filters() {
    let data = b"ab\x00abcd\x01abcdefgh\x02xyz";
    let short = extract_ascii_strings(data, 2);
    let long = extract_ascii_strings(data, 5);
    let filtered: Vec<String> = short.iter().filter(|h| h.value.len() >= 5).map(|h| h.value.clone()).collect();
    let got: Vec<String> = long.iter().map(|h| h.value.clone()).collect();
    assert_eq!(got, filtered);
    assert_eq!(got, vec!["abcdefgh".to_string()]);
}
