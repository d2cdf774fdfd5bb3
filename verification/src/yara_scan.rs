//! YARA match records: one record per matched string occurrence.

use vstd::prelude::*;
use crate::text::{hex_lower, hex_string_lower_num, push_char};

verus! {

/// One occurrence of a rule's string in a scanned file.
#[derive(Debug)]
pub struct YaraHit {
    pub file: String,
    pub rule: String,
    pub string_id: String,
    pub offset: u64,
    pub offset_hex: String,
    pub data: String,
}

pub struct YaraHitView {
    pub file: Seq<char>,
    pub rule: Seq<char>,
    pub string_id: Seq<char>,
    pub offset: u64,
    pub offset_hex: Seq<char>,
    pub data: Seq<char>,
}

impl View for YaraHit {
    type V = YaraHitView;

    open spec fn view(&self) -> YaraHitView {
        YaraHitView {
            file: self.file@,
            rule: self.rule@,
            string_id: self.string_id@,
            offset: self.offset,
            offset_hex: self.offset_hex@,
            data: self.data@,
        }
    }
}

/// One occurrence of a matched string: where it starts and the bytes it covers.
#[derive(Debug)]
pub struct MatchData {
    pub offset: u64,
    pub data: Vec<u8>,
}

/// A rule string with all its occurrences.
#[derive(Debug)]
pub struct StringMatches {
    pub identifier: String,
    pub matches: Vec<MatchData>,
}

/// A matched rule with its strings.
#[derive(Debug)]
pub struct RuleMatch {
    pub rule: String,
    pub strings: Vec<StringMatches>,
}

pub struct MatchDataView {
    pub offset: u64,
    pub data: Seq<u8>,
}

pub struct StringMatchesView {
    pub identifier: Seq<char>,
    pub matches: Seq<MatchDataView>,
}

pub struct RuleMatchView {
    pub rule: Seq<char>,
    pub strings: Seq<StringMatchesView>,
}

impl View for MatchData {
    type V = MatchDataView;

    open spec fn view(&self) -> MatchDataView {
        MatchDataView { offset: self.offset, data: self.data@ }
    }
}

impl View for StringMatches {
    type V = StringMatchesView;

    open spec fn view(&self) -> StringMatchesView {
        StringMatchesView {
            identifier: self.identifier@,
            matches: self.matches@.map_values(|m: MatchData| m@),
        }
    }
}

impl View for RuleMatch {
    type V = RuleMatchView;

    open spec fn view(&self) -> RuleMatchView {
        RuleMatchView {
            rule: self.rule@,
            strings: self.strings@.map_values(|s: StringMatches| s@),
        }
    }
}

/// Lossy UTF-8 decoding of a byte sequence, as `String::from_utf8_lossy` computes it.
pub uninterp spec fn utf8_lossy(b: Seq<u8>) -> Seq<char>;

/// `String::from_utf8_lossy`, made an owned `String`.
/// Trusted: the result is the text named `utf8_lossy` of the bytes, which for valid
/// UTF-8 is exactly the text those bytes encode.
#[verifier::external_body]
fn decode_lossy(b: &[u8]) -> (s: String)
    ensures
        s@ == utf8_lossy(b@),
        vstd::utf8::valid_utf8(b@) ==> s@ == vstd::utf8::decode_utf8(b@),
{
    String::from_utf8_lossy(b).into_owned()
}

/// A string identifier with a leading `$`, added when it is missing.
pub open spec fn dollar_id(id: Seq<char>) -> Seq<char> {
    if id.len() > 0 && id[0] == '$' {
        id
    } else {
        seq!['$'] + id
    }
}

/// The record of one occurrence.
pub open spec fn hit_record(file: Seq<char>, rule: Seq<char>, id: Seq<char>, m: MatchDataView) -> YaraHitView {
    YaraHitView {
        file,
        rule,
        string_id: dollar_id(id),
        offset: m.offset,
        offset_hex: seq!['0', 'x'] + hex_lower(m.offset as nat),
        data: utf8_lossy(m.data),
    }
}

/// The records of one string's occurrences, in order.
pub open spec fn string_records(file: Seq<char>, rule: Seq<char>, s: StringMatchesView) -> Seq<YaraHitView> {
    s.matches.map_values(|m: MatchDataView| hit_record(file, rule, s.identifier, m))
}

/// The records of one rule: its strings in order, each string's occurrences in order.
pub open spec fn rule_records(file: Seq<char>, r: RuleMatchView) -> Seq<YaraHitView>
    decreases r.strings.len(),
{
    if r.strings.len() == 0 {
        seq![]
    } else {
        rule_records(file, RuleMatchView { rule: r.rule, strings: r.strings.drop_last() })
            + string_records(file, r.rule, r.strings.last())
    }
}

/// The records of all matched rules, rule by rule.
pub open spec fn all_records(file: Seq<char>, rules: Seq<RuleMatchView>) -> Seq<YaraHitView>
    decreases rules.len(),
{
    if rules.len() == 0 {
        seq![]
    } else {
        all_records(file, rules.drop_last()) + rule_records(file, rules.last())
    }
}

pub open spec fn yara_hits_view(v: Seq<YaraHit>) -> Seq<YaraHitView> {
    v.map_values(|h: YaraHit| h@)
}

fn dollar_identifier(id: &String) -> (r: String)
    ensures
        r@ == dollar_id(id@),
{
    let s = id.as_str();
    if s.unicode_len() > 0 && s.get_char(0) == '$' {
        id.clone()
    } else {
        let mut r = String::new();
        push_char(&mut r, '$');
        r.append(s);
        assert(r@ =~= dollar_id(id@));
        r
    }
}

/// Turns the rules that matched a file into one record per matched string occurrence:
/// rule by rule, string by string, occurrence by occurrence.
pub fn yara_hits_from_matches(file_path: &str, rules: &Vec<RuleMatch>) -> (hits: Vec<YaraHit>)
    ensures
        yara_hits_view(hits@) == all_records(file_path@, rules@.map_values(|r: RuleMatch| r@)),
{
    let ghost rv = rules@.map_values(|r: RuleMatch| r@);
    let mut hits: Vec<YaraHit> = Vec::new();
    let mut i: usize = 0;
    assert(rv.take(0) =~= Seq::<RuleMatchView>::empty());
    assert(yara_hits_view(hits@) =~= Seq::<YaraHitView>::empty());
    while i < rules.len()
        invariant
            i <= rules@.len(),
            rv == rules@.map_values(|r: RuleMatch| r@),
            yara_hits_view(hits@) == all_records(file_path@, rv.take(i as int)),
        decreases rules@.len() - i,
    {
        let rule = &rules[i];
        assert(rv[i as int] == rule@);
        let ghost before = yara_hits_view(hits@);
        let ghost sv = rule@.strings;
        let mut j: usize = 0;
        assert(RuleMatchView { rule: rule@.rule, strings: sv.take(0) }.strings.len() == 0);
        assert(before + rule_records(file_path@, RuleMatchView { rule: rule@.rule, strings: sv.take(0) }) =~= before);
        while j < rule.strings.len()
            invariant
                j <= rule.strings@.len(),
                sv == rule@.strings,
                yara_hits_view(hits@) == before + rule_records(
                    file_path@,
                    RuleMatchView { rule: rule@.rule, strings: sv.take(j as int) },
                ),
            decreases rule.strings@.len() - j,
        {
            let st = &rule.strings[j];
            assert(sv[j as int] == st@);
            let id = dollar_identifier(&st.identifier);
            let ghost mid = yara_hits_view(hits@);
            let ghost mv = st@.matches;
            let mut k: usize = 0;
            assert(mv.take(0).map_values(
                |m: MatchDataView| hit_record(file_path@, rule@.rule, st@.identifier, m),
            ) =~= Seq::<YaraHitView>::empty());
            assert(mid + Seq::<YaraHitView>::empty() =~= mid);
            while k < st.matches.len()
                invariant
                    k <= st.matches@.len(),
                    mv == st@.matches,
                    id@ == dollar_id(st@.identifier),
                    yara_hits_view(hits@) == mid + mv.take(k as int).map_values(
                        |m: MatchDataView| hit_record(file_path@, rule@.rule, st@.identifier, m),
                    ),
                decreases st.matches@.len() - k,
            {
                let m = &st.matches[k];
                assert(mv[k as int] == m@);
                let h = YaraHit {
                    file: String::from_str(file_path),
                    rule: rule.rule.clone(),
                    string_id: id.clone(),
                    offset: m.offset,
                    offset_hex: hex_string_lower_num(m.offset),
                    data: decode_lossy(m.data.as_slice()),
                };
                let ghost prev = yara_hits_view(hits@);
                hits.push(h);
                assert(yara_hits_view(hits@) =~= prev.push(h@));
                assert(mv.take(k + 1).map_values(
                    |m: MatchDataView| hit_record(file_path@, rule@.rule, st@.identifier, m),
                ) =~= mv.take(k as int).map_values(
                    |m: MatchDataView| hit_record(file_path@, rule@.rule, st@.identifier, m),
                ).push(hit_record(file_path@, rule@.rule, st@.identifier, m@)));
                k += 1;
            }
            assert(mv.take(k as int) =~= mv);
            assert(RuleMatchView { rule: rule@.rule, strings: sv.take(j + 1) }.strings.drop_last()
                =~= sv.take(j as int));
            j += 1;
        }
        assert(sv.take(j as int) =~= sv);
        assert(rv.take(i + 1).drop_last() =~= rv.take(i as int));
        i += 1;
    }
    assert(rv.take(i as int) =~= rv);
    hits
}

/// Scanning with YARA rules needs a YARA engine, which this build does not link; the
/// call reports how to obtain one.
pub fn scan_with_rules(_file_path: &str, _rule_paths: &[String], _timeout_secs: i32) -> (r: Result<
    Vec<YaraHit>,
    String,
>)
    ensures
        r is Err,
        r->Err_0@ == "offsetscan was built without the `yara-scan` feature; rebuild with `cargo build --release --features yara-scan` (needs a C toolchain and libclang)."@,
{
    Err(
        String::from_str(
            "offsetscan was built without the `yara-scan` feature; rebuild with `cargo build --release --features yara-scan` (needs a C toolchain and libclang).",
        ),
    )
}

} // verus!
