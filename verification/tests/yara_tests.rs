use offsetscan::yara_scan::{scan_with_rules, yara_hits_from_matches, MatchData, RuleMatch, StringMatches};

#[test]
fn scanning_without_an_engine_explains_how_to_get_one() {
    let err = scan_with_rules("f", &["r.yar".to_string()], 10).unwrap_err();
    assert!(err.contains("yara-scan"));
}

#[test]
fn one_record_per_matched_string_occurrence() {
    let rules = vec![RuleMatch {
        rule: "Evil".to_string(),
        strings: vec![
            StringMatches {
                identifier: "$a".to_string(),
                matches: vec![
                    MatchData { offset: 100, data: b"abc".to_vec() },
                    MatchData { offset: 255, data: vec![0xff, b'x'] },
                ],
            },
            StringMatches {
                identifier: "b".to_string(),
                matches: vec![MatchData { offset: 0, data: b"zz".to_vec() }],
            },
        ],
    }];
    let hits = yara_hits_from_matches("sample.bin", &rules);
    assert_eq!(hits.len(), 3);
    assert_eq!(hits[0].file, "sample.bin");
    assert_eq!(hits[0].rule, "Evil");
    assert_eq!(hits[0].string_id, "$a");
    assert_eq!(hits[0].offset, 100);
    assert_eq!(hits[0].offset_hex, "0x64");
    assert_eq!(hits[0].data, "abc");
    assert_eq!(hits[1].offset_hex, "0xff");
    assert_eq!(hits[1].data, "\u{FFFD}x");
    assert_eq!(hits[2].string_id, "$b");
    assert_eq!(hits[2].offset_hex, "0x0");
}
