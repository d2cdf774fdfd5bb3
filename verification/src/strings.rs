//! Printable string extraction: runs of printable ASCII bytes, and runs of
//! UTF-16LE code units whose high byte is zero and whose low byte is printable.

use vstd::prelude::*;
use crate::schema::{StringHit, StringHitView, hits_view};
use crate::text::{bytes_as_chars, chars_of_bytes, hex_string_upper, prefixed_hex_upper, push_char};

verus! {

/// A byte in the printable ASCII range `0x20..=0x7e`.
pub open spec fn printable(b: u8) -> bool {
    0x20 <= b <= 0x7e
}

/// Number of consecutive printable bytes starting at `p`.
pub open spec fn ascii_run_len(data: Seq<u8>, p: int) -> nat
    decreases data.len() - p,
{
    if 0 <= p < data.len() && printable(data[p]) {
        1 + ascii_run_len(data, p + 1)
    } else {
        0
    }
}

/// The record reported for an ASCII run of `n` bytes at `p`.
pub open spec fn ascii_hit(data: Seq<u8>, p: int, n: nat) -> StringHitView {
    StringHitView {
        offset: p as u64,
        offset_hex: prefixed_hex_upper(p as nat),
        encoding: "Ascii"@,
        length: n as u32,
        value: bytes_as_chars(data.subrange(p, p + n)),
    }
}

/// The ASCII strings of at least `min` bytes found scanning `data` from `p`: every
/// maximal printable run is reported once, in order, when it is long enough.
pub open spec fn ascii_hits_from(data: Seq<u8>, min: nat, p: int) -> Seq<StringHitView>
    decreases data.len() - p,
{
    if p < 0 || p >= data.len() {
        seq![]
    } else {
        let n = ascii_run_len(data, p);
        if n == 0 {
            ascii_hits_from(data, min, p + 1)
        } else {
            proof {
                lemma_ascii_run_fits(data, p);
            }
            let rest = ascii_hits_from(data, min, p + n);
            if n >= min {
                seq![ascii_hit(data, p, n)] + rest
            } else {
                rest
            }
        }
    }
}

pub proof fn lemma_ascii_run_fits(data: Seq<u8>, p: int)
    requires
        0 <= p,
    ensures
        p + ascii_run_len(data, p) <= if p <= data.len() { data.len() as int } else { p },
    decreases data.len() - p,
{
    if 0 <= p < data.len() && printable(data[p]) {
        lemma_ascii_run_fits(data, p + 1);
    }
}

proof fn lemma_ascii_run_split(data: Seq<u8>, s: int, i: int)
    requires
        0 <= s <= i <= data.len(),
        forall|k: int| s <= k < i ==> printable(#[trigger] data[k]),
    ensures
        ascii_run_len(data, s) == (i - s) + ascii_run_len(data, i),
    decreases i - s,
{
    if s < i {
        lemma_ascii_run_split(data, s + 1, i);
    }
}

/// A byte in the printable ASCII range.
pub fn is_printable_ascii(b: u8) -> (r: bool)
    ensures
        r == printable(b),
{
    0x20 <= b && b <= 0x7e
}

fn ascii_hit_record(data: &[u8], start: usize, end: usize) -> (h: StringHit)
    requires
        start <= end <= data@.len(),
    ensures
        h@ == ascii_hit(data@, start as int, (end - start) as nat),
        h.offset == start,
        h@.offset_hex == prefixed_hex_upper(h.offset as nat),
        h@.encoding == "Ascii"@,
        h.length == (end - start) as u32,
        h@.value == bytes_as_chars(data@.subrange(start as int, end as int)),
{
    StringHit {
        offset: start as u64,
        offset_hex: hex_string_upper(start as u64),
        encoding: String::from_str("Ascii"),
        length: (end - start) as u32,
        value: chars_of_bytes(data, start, end),
    }
}

/// Extract runs of printable ASCII bytes of at least `min_length`.
pub fn extract_ascii_strings(data: &[u8], min_length: usize) -> (hits: Vec<StringHit>)
    ensures
        hits_view(hits@) == ascii_hits_from(data@, min_length as nat, 0),
        forall|k: int|
            0 <= k < hits@.len() ==> (#[trigger] hits@[k])@.offset_hex == prefixed_hex_upper(
                hits@[k].offset as nat,
            ) && hits@[k]@.encoding == "Ascii"@,
{
    let mut hits: Vec<StringHit> = Vec::new();
    let mut run_start: Option<usize> = None;
    let len = data.len();
    let ghost total = ascii_hits_from(data@, min_length as nat, 0);
    let mut i: usize = 0;
    while i < len
        invariant
            len == data@.len(),
            i <= len,
            total == ascii_hits_from(data@, min_length as nat, 0),
            match run_start {
                None => hits_view(hits@) + ascii_hits_from(data@, min_length as nat, i as int)
                    == total,
                Some(s) => {
                    &&& s < i
                    &&& forall|k: int| s <= k < i ==> printable(#[trigger] data@[k])
                    &&& hits_view(hits@) + ascii_hits_from(data@, min_length as nat, s as int)
                        == total
                },
            },
        decreases len - i,
    {
        let b = data[i];
        if is_printable_ascii(b) {
            if run_start.is_none() {
                assert(ascii_run_len(data@, i as int) > 0);
                run_start = Some(i);
            }
        } else {
            assert(ascii_run_len(data@, i as int) == 0);
            if let Some(start) = run_start {
                proof {
                    lemma_ascii_run_split(data@, start as int, i as int);
                }
                let ghost before = hits_view(hits@);
                if i - start >= min_length {
                    let h = ascii_hit_record(data, start, i);
                    hits.push(h);
                    assert(hits_view(hits@) == before.push(h@));
                }
                run_start = None;
                assert(hits_view(hits@) + ascii_hits_from(data@, min_length as nat, i as int)
                    == total);
            }
        }
        i += 1;
    }
    assert(ascii_hits_from(data@, min_length as nat, len as int) == Seq::<StringHitView>::empty());
    if let Some(start) = run_start {
        proof {
            lemma_ascii_run_split(data@, start as int, len as int);
        }
        let ghost before = hits_view(hits@);
        if len - start >= min_length {
            let h = ascii_hit_record(data, start, len);
            hits.push(h);
            assert(hits_view(hits@) == before.push(h@));
        }
        assert(hits_view(hits@) =~= total);
    } else {
        assert(hits_view(hits@) =~= total);
    }
    proof {
        lemma_ascii_records_name_offset_in_hex(data@, min_length as nat);
        assert forall|k: int| 0 <= k < hits@.len() implies (#[trigger] hits@[k])@.offset_hex
            == prefixed_hex_upper(hits@[k].offset as nat) && hits@[k]@.encoding == "Ascii"@ by {
            assert(hits_view(hits@)[k] == hits@[k]@);
        }
    }
    hits
}


/// A UTF-16LE code unit at `p` that is printable ASCII: zero high byte, printable low byte.
pub open spec fn utf16_printable_at(data: Seq<u8>, p: int) -> bool {
    0 <= p && p + 1 < data.len() && data[p + 1] == 0 && printable(data[p])
}

/// Number of consecutive printable UTF-16LE code units starting at byte `p`.
pub open spec fn utf16_run_len(data: Seq<u8>, p: int) -> nat
    decreases data.len() - p,
{
    if utf16_printable_at(data, p) {
        1 + utf16_run_len(data, p + 2)
    } else {
        0
    }
}

/// The characters of the `n` code units starting at byte `p`.
pub open spec fn utf16_text(data: Seq<u8>, p: int, n: nat) -> Seq<char> {
    Seq::new(n, |j: int| data[p + 2 * j] as char)
}

/// The record reported for a UTF-16LE run of `n` code units at byte `p`.
pub open spec fn utf16_hit(data: Seq<u8>, p: int, n: nat) -> StringHitView {
    StringHitView {
        offset: p as u64,
        offset_hex: prefixed_hex_upper(p as nat),
        encoding: "Unicode"@,
        length: n as u32,
        value: utf16_text(data, p, n),
    }
}

/// The UTF-16LE strings of at least `min` code units found scanning `data` from byte `p`.
/// The scan steps over a run two bytes per code unit; after any position that does not
/// hold a printable code unit it moves on by one byte, so runs at odd offsets are found.
pub open spec fn utf16_hits_from(data: Seq<u8>, min: nat, p: int) -> Seq<StringHitView>
    decreases data.len() - p,
{
    if p < 0 || p + 1 >= data.len() {
        seq![]
    } else {
        let n = utf16_run_len(data, p);
        if n == 0 {
            utf16_hits_from(data, min, p + 1)
        } else {
            proof {
                lemma_utf16_run_fits(data, p);
            }
            let rest = utf16_hits_from(data, min, p + 2 * n);
            if n >= min {
                seq![utf16_hit(data, p, n)] + rest
            } else {
                rest
            }
        }
    }
}

pub proof fn lemma_utf16_run_fits(data: Seq<u8>, p: int)
    ensures
        utf16_run_len(data, p) > 0 ==> p + 2 * utf16_run_len(data, p) <= data.len(),
    decreases data.len() - p,
{
    if utf16_printable_at(data, p) {
        lemma_utf16_run_fits(data, p + 2);
    }
}

proof fn lemma_utf16_run_split(data: Seq<u8>, s: int, k: nat)
    requires
        forall|j: int| 0 <= j < k ==> utf16_printable_at(data, #[trigger] (s + 2 * j)),
    ensures
        utf16_run_len(data, s) == k + utf16_run_len(data, s + 2 * k),
    decreases k,
{
    if k > 0 {
        assert(utf16_printable_at(data, s + 2 * 0));
        assert forall|j: int| 0 <= j < k - 1 implies utf16_printable_at(
            data,
            #[trigger] ((s + 2) + 2 * j),
        ) by {
            assert(utf16_printable_at(data, s + 2 * (j + 1)));
        }
        lemma_utf16_run_split(data, s + 2, (k - 1) as nat);
    }
}

fn utf16_hit_record(start: usize, units: usize, text: String) -> (h: StringHit)
    ensures
        h@ == (StringHitView {
            offset: start as u64,
            offset_hex: prefixed_hex_upper(start as nat),
            encoding: "Unicode"@,
            length: units as u32,
            value: text@,
        }),
        h.offset == start,
        h@.offset_hex == prefixed_hex_upper(h.offset as nat),
        h@.encoding == "Unicode"@,
{
    StringHit {
        offset: start as u64,
        offset_hex: hex_string_upper(start as u64),
        encoding: String::from_str("Unicode"),
        length: units as u32,
        value: text,
    }
}

/// Extract runs of printable UTF-16LE code units of at least `min_length` characters.
pub fn extract_utf16le_strings(data: &[u8], min_length: usize) -> (hits: Vec<StringHit>)
    ensures
        hits_view(hits@) == utf16_hits_from(data@, min_length as nat, 0),
        forall|k: int|
            0 <= k < hits@.len() ==> (#[trigger] hits@[k])@.offset_hex == prefixed_hex_upper(
                hits@[k].offset as nat,
            ) && hits@[k]@.encoding == "Unicode"@,
{
    let mut hits: Vec<StringHit> = Vec::new();
    let mut run_start: Option<usize> = None;
    let mut text = String::new();
    let mut units: usize = 0;
    let len = data.len();
    let ghost total = utf16_hits_from(data@, min_length as nat, 0);
    let mut i: usize = 0;
    while i < len && i + 1 < len
        invariant
            len == data@.len(),
            i <= len,
            total == utf16_hits_from(data@, min_length as nat, 0),
            match run_start {
                None => hits_view(hits@) + utf16_hits_from(data@, min_length as nat, i as int)
                    == total,
                Some(s) => {
                    &&& i == s + 2 * units
                    &&& units > 0
                    &&& forall|j: int|
                        0 <= j < units ==> utf16_printable_at(data@, #[trigger] (s + 2 * j))
                    &&& text@ == utf16_text(data@, s as int, units as nat)
                    &&& hits_view(hits@) + utf16_hits_from(data@, min_length as nat, s as int)
                        == total
                },
            },
        decreases len - i,
    {
        if data[i + 1] == 0 && is_printable_ascii(data[i]) {
            assert(utf16_printable_at(data@, i as int));
            if run_start.is_none() {
                run_start = Some(i);
                text = String::new();
                units = 0;
                assert(i == i + 2 * 0);
            }
            let ghost s = run_start.unwrap() as int;
            let ghost old_text = text@;
            push_char(&mut text, data[i] as char);
            units = units + 1;
            assert(text@ =~= utf16_text(data@, s, units as nat)) by {
                assert(s + 2 * (units - 1) == i);
            }
            assert forall|j: int| 0 <= j < units implies utf16_printable_at(
                data@,
                #[trigger] (s + 2 * j),
            ) by {
                if j == units - 1 {
                    assert(s + 2 * j == i);
                }
            }
            i += 2;
        } else {
            assert(utf16_run_len(data@, i as int) == 0);
            if let Some(start) = run_start {
                proof {
                    lemma_utf16_run_split(data@, start as int, units as nat);
                }
                let ghost before = hits_view(hits@);
                if units >= min_length {
                    let h = utf16_hit_record(start, units, text);
                    hits.push(h);
                    assert(hits_view(hits@) == before.push(h@));
                }
                text = String::new();
                run_start = None;
                assert(hits_view(hits@) + utf16_hits_from(data@, min_length as nat, i as int)
                    == total);
            }
            i += 1;
        }
    }
    assert(utf16_hits_from(data@, min_length as nat, i as int) == Seq::<StringHitView>::empty());
    if let Some(start) = run_start {
        proof {
            lemma_utf16_run_split(data@, start as int, units as nat);
        }
        let ghost before = hits_view(hits@);
        if units >= min_length {
            let h = utf16_hit_record(start, units, text);
            hits.push(h);
            assert(hits_view(hits@) == before.push(h@));
        }
        assert(hits_view(hits@) =~= total);
    } else {
        assert(hits_view(hits@) =~= total);
    }
    proof {
        lemma_utf16_records_name_offset_in_hex(data@, min_length as nat);
        assert forall|k: int| 0 <= k < hits@.len() implies (#[trigger] hits@[k])@.offset_hex
            == prefixed_hex_upper(hits@[k].offset as nat) && hits@[k]@.encoding == "Unicode"@ by {
            assert(hits_view(hits@)[k] == hits@[k]@);
        }
    }
    hits
}


/// A printable ASCII run begins at `o`: the byte is printable and the one before is not.
pub open spec fn ascii_run_start(data: Seq<u8>, o: int) -> bool {
    0 <= o < data.len() && printable(data[o]) && (o == 0 || !printable(data[o - 1]))
}

proof fn lemma_ascii_run_bytes(data: Seq<u8>, p: int)
    requires
        0 <= p,
    ensures
        forall|k: int| p <= k < p + ascii_run_len(data, p) ==> printable(#[trigger] data[k]),
        p + ascii_run_len(data, p) < data.len() ==> !printable(data[p + ascii_run_len(data, p)]),
        p + ascii_run_len(data, p) <= data.len() || ascii_run_len(data, p) == 0,
    decreases data.len() - p,
{
    if 0 <= p < data.len() && printable(data[p]) {
        lemma_ascii_run_bytes(data, p + 1);
    }
}

/// `h` is the record of a maximal printable ASCII run at or after `p`, of at least `min` bytes.
pub open spec fn ascii_record_of_run(data: Seq<u8>, min: nat, p: int, h: StringHitView) -> bool {
    let o = h.offset as int;
    &&& p <= o
    &&& ascii_run_start(data, o)
    &&& ascii_run_len(data, o) >= min
    &&& h == ascii_hit(data, o, ascii_run_len(data, o))
}

proof fn lemma_ascii_hits_from_props(data: Seq<u8>, min: nat, p: int)
    requires
        0 <= p,
        data.len() <= u64::MAX,
        p == 0 || p >= data.len() || !printable(data[p - 1]) || !printable(data[p]),
    ensures
        forall|k: int|
            0 <= k < ascii_hits_from(data, min, p).len() ==> ascii_record_of_run(
                data,
                min,
                p,
                #[trigger] ascii_hits_from(data, min, p)[k],
            ),
        forall|k: int|
            0 <= k < ascii_hits_from(data, min, p).len() - 1 ==> ascii_hits_from(data, min, p)[k].offset
                + ascii_run_len(data, ascii_hits_from(data, min, p)[k].offset as int)
                < #[trigger] ascii_hits_from(data, min, p)[k + 1].offset,
        forall|o: int|
            p <= o && #[trigger] ascii_run_start(data, o) && ascii_run_len(data, o) >= min ==> exists|
                k: int,
            | 0 <= k < ascii_hits_from(data, min, p).len() && #[trigger] ascii_hits_from(
                data,
                min,
                p,
            )[k].offset == o,
    decreases data.len() - p,
{
    let hits = ascii_hits_from(data, min, p);
    if p >= data.len() {
    } else {
        let n = ascii_run_len(data, p);
        if n == 0 {
            lemma_ascii_hits_from_props(data, min, p + 1);
            assert(hits == ascii_hits_from(data, min, p + 1));
        } else {
            lemma_ascii_run_bytes(data, p);
            lemma_ascii_run_fits(data, p);
            lemma_ascii_hits_from_props(data, min, p + n);
            let rest = ascii_hits_from(data, min, p + n);
            assert forall|k: int| 0 <= k < rest.len() implies (#[trigger] rest[k]).offset > p + n by {
                assert(ascii_record_of_run(data, min, p + n, rest[k]));
            }
            if n >= min {
                assert(hits == seq![ascii_hit(data, p, n)] + rest);
                assert forall|k: int| 0 <= k < hits.len() implies ascii_record_of_run(
                    data,
                    min,
                    p,
                    #[trigger] hits[k],
                ) by {
                    if k > 0 {
                        assert(hits[k] == rest[k - 1]);
                        assert(ascii_record_of_run(data, min, p + n, rest[k - 1]));
                    }
                }
                assert forall|k: int| 0 <= k < hits.len() - 1 implies hits[k].offset + ascii_run_len(
                    data,
                    hits[k].offset as int,
                ) < #[trigger] hits[k + 1].offset by {
                    assert(hits[k + 1] == rest[k]);
                    if k > 0 {
                        let j = k - 1;
                        assert(hits[k] == rest[j]);
                        assert(rest[j].offset + ascii_run_len(data, rest[j].offset as int)
                            < rest[j + 1].offset);
                    } else {
                        assert(hits[0].offset as int == p);
                        assert(rest[0].offset > p + n);
                    }
                }
            } else {
                assert(hits == rest);
                assert forall|k: int| 0 <= k < hits.len() implies ascii_record_of_run(
                    data,
                    min,
                    p,
                    #[trigger] hits[k],
                ) by {
                    assert(ascii_record_of_run(data, min, p + n, rest[k]));
                }
            }
            assert forall|o: int|
                p <= o && #[trigger] ascii_run_start(data, o) && ascii_run_len(data, o) >= min implies exists|
                k: int,
            | 0 <= k < hits.len() && #[trigger] hits[k].offset == o by {
                if o == p {
                    assert(hits[0].offset == o);
                } else if o < p + n {
                    assert(printable(data[o - 1]));
                } else {
                    let k = choose|k: int| 0 <= k < rest.len() && #[trigger] rest[k].offset == o;
                    if n >= min {
                        assert(hits[k + 1] == rest[k]);
                    } else {
                        assert(hits[k] == rest[k]);
                    }
                }
            }
        }
    }
}

/// Law: the ASCII strings reported for a buffer are exactly its maximal printable runs of
/// at least `min` bytes, in increasing offset order: each record is such a run with its
/// bytes as text, consecutive records are separated by at least one unprintable byte,
/// and no such run is left out.
pub proof fn lemma_ascii_strings_are_maximal_runs(data: Seq<u8>, min: nat)
    requires
        data.len() <= u64::MAX,
    ensures
        ({
            let hits = ascii_hits_from(data, min, 0);
            &&& forall|k: int|
                0 <= k < hits.len() ==> ascii_record_of_run(data, min, 0, #[trigger] hits[k])
            &&& forall|k: int|
                0 <= k < hits.len() - 1 ==> hits[k].offset + ascii_run_len(data, hits[k].offset as int)
                    < #[trigger] hits[k + 1].offset
            &&& forall|o: int|
                #[trigger] ascii_run_start(data, o) && ascii_run_len(data, o) >= min ==> exists|k: int|
                    0 <= k < hits.len() && #[trigger] hits[k].offset == o
        }),
{
    lemma_ascii_hits_from_props(data, min, 0);
}

/// Law: every ASCII record gives its offset as `0x` followed by the uppercase hexadecimal
/// numeral of that offset, and names its encoding `Ascii`.
pub proof fn lemma_ascii_records_name_offset_in_hex(data: Seq<u8>, min: nat)
    requires
        data.len() <= u64::MAX,
    ensures
        forall|k: int|
            0 <= k < ascii_hits_from(data, min, 0).len() ==> (#[trigger] ascii_hits_from(data, min, 0)[k]).offset_hex
                == prefixed_hex_upper(ascii_hits_from(data, min, 0)[k].offset as nat)
                && ascii_hits_from(data, min, 0)[k].encoding == "Ascii"@,
{
    lemma_ascii_hits_from_props(data, min, 0);
    let hits = ascii_hits_from(data, min, 0);
    assert forall|k: int| 0 <= k < hits.len() implies (#[trigger] hits[k]).offset_hex
        == prefixed_hex_upper(hits[k].offset as nat) && hits[k].encoding == "Ascii"@ by {
        assert(ascii_record_of_run(data, min, 0, hits[k]));
    }
}

/// A printable UTF-16LE run begins at `o`: there is a printable code unit at `o` and none
/// at `o - 2`.
pub open spec fn utf16_run_start(data: Seq<u8>, o: int) -> bool {
    utf16_printable_at(data, o) && !utf16_printable_at(data, o - 2)
}

proof fn lemma_utf16_run_units(data: Seq<u8>, p: int, j: int)
    requires
        0 <= j < utf16_run_len(data, p),
    ensures
        utf16_printable_at(data, p + 2 * j),
    decreases j,
{
    if j > 0 {
        lemma_utf16_run_units(data, p + 2, j - 1);
    }
}

proof fn lemma_utf16_run_end(data: Seq<u8>, p: int)
    ensures
        !utf16_printable_at(data, p + 2 * utf16_run_len(data, p)),
    decreases data.len() - p,
{
    if utf16_printable_at(data, p) {
        lemma_utf16_run_end(data, p + 2);
    }
}

/// `h` is the record of a maximal printable UTF-16LE run at or after `p`, of at least
/// `min` code units.
pub open spec fn utf16_record_of_run(data: Seq<u8>, min: nat, p: int, h: StringHitView) -> bool {
    let o = h.offset as int;
    &&& p <= o
    &&& utf16_run_start(data, o)
    &&& utf16_run_len(data, o) >= min
    &&& h == utf16_hit(data, o, utf16_run_len(data, o))
}

proof fn lemma_utf16_hits_from_props(data: Seq<u8>, min: nat, p: int)
    requires
        0 <= p,
        data.len() <= u64::MAX,
        !utf16_printable_at(data, p - 2) || !utf16_printable_at(data, p),
        !utf16_printable_at(data, p - 1),
    ensures
        forall|k: int|
            0 <= k < utf16_hits_from(data, min, p).len() ==> utf16_record_of_run(
                data,
                min,
                p,
                #[trigger] utf16_hits_from(data, min, p)[k],
            ),
        forall|k: int|
            0 <= k < utf16_hits_from(data, min, p).len() - 1 ==> utf16_hits_from(data, min, p)[k].offset
                + 2 * utf16_run_len(data, utf16_hits_from(data, min, p)[k].offset as int)
                < #[trigger] utf16_hits_from(data, min, p)[k + 1].offset,
        forall|o: int|
            p <= o && #[trigger] utf16_run_start(data, o) && utf16_run_len(data, o) >= min ==> exists|
                k: int,
            | 0 <= k < utf16_hits_from(data, min, p).len() && #[trigger] utf16_hits_from(
                data,
                min,
                p,
            )[k].offset == o,
    decreases data.len() - p,
{
    let hits = utf16_hits_from(data, min, p);
    if p + 1 >= data.len() {
    } else {
        let n = utf16_run_len(data, p);
        if n == 0 {
            lemma_utf16_hits_from_props(data, min, p + 1);
            assert(hits == utf16_hits_from(data, min, p + 1));
        } else {
            lemma_utf16_run_fits(data, p);
            lemma_utf16_run_units(data, p, n - 1);
            lemma_utf16_run_end(data, p);
            lemma_utf16_hits_from_props(data, min, p + 2 * n);
            let rest = utf16_hits_from(data, min, p + 2 * n);
            assert(utf16_run_start(data, p));
            assert forall|k: int| 0 <= k < rest.len() implies (#[trigger] rest[k]).offset > p + 2 * n by {
                assert(utf16_record_of_run(data, min, p + 2 * n, rest[k]));
            }
            if n >= min {
                assert(hits == seq![utf16_hit(data, p, n)] + rest);
                assert forall|k: int| 0 <= k < hits.len() implies utf16_record_of_run(
                    data,
                    min,
                    p,
                    #[trigger] hits[k],
                ) by {
                    if k > 0 {
                        assert(hits[k] == rest[k - 1]);
                        assert(utf16_record_of_run(data, min, p + 2 * n, rest[k - 1]));
                    }
                }
                assert forall|k: int| 0 <= k < hits.len() - 1 implies hits[k].offset + 2 * utf16_run_len(
                    data,
                    hits[k].offset as int,
                ) < #[trigger] hits[k + 1].offset by {
                    assert(hits[k + 1] == rest[k]);
                    if k > 0 {
                        let j = k - 1;
                        assert(hits[k] == rest[j]);
                        assert(rest[j].offset + 2 * utf16_run_len(data, rest[j].offset as int)
                            < rest[j + 1].offset);
                    } else {
                        assert(hits[0].offset as int == p);
                        assert(rest[0].offset > p + 2 * n);
                    }
                }
            } else {
                assert(hits == rest);
                assert forall|k: int| 0 <= k < hits.len() implies utf16_record_of_run(
                    data,
                    min,
                    p,
                    #[trigger] hits[k],
                ) by {
                    assert(utf16_record_of_run(data, min, p + 2 * n, rest[k]));
                }
            }
            assert forall|o: int|
                p <= o && #[trigger] utf16_run_start(data, o) && utf16_run_len(data, o) >= min implies exists|
                k: int,
            | 0 <= k < hits.len() && #[trigger] hits[k].offset == o by {
                if o == p {
                    assert(hits[0].offset == o);
                } else if o < p + 2 * n {
                    let j = (o - p) / 2;
                    assert(o - p == 2 * j || o - p == 2 * j + 1);
                    if o - p == 2 * j {
                        lemma_utf16_run_units(data, p, j - 1);
                        assert(p + 2 * (j - 1) == o - 2);
                    } else {
                        lemma_utf16_run_units(data, p, j);
                        assert(o == p + 2 * j + 1);
                    }
                } else {
                    let k = choose|k: int| 0 <= k < rest.len() && #[trigger] rest[k].offset == o;
                    if n >= min {
                        assert(hits[k + 1] == rest[k]);
                    } else {
                        assert(hits[k] == rest[k]);
                    }
                }
            }
        }
    }
}

/// Law: the UTF-16LE strings reported for a buffer are exactly its maximal runs of at
/// least `min` printable code units, at any byte alignment (even or odd offsets), in
/// increasing offset order: each record is such a run with its characters as text,
/// records do not overlap, and no such run is left out.
pub proof fn lemma_utf16_strings_are_maximal_runs(data: Seq<u8>, min: nat)
    requires
        data.len() <= u64::MAX,
    ensures
        ({
            let hits = utf16_hits_from(data, min, 0);
            &&& forall|k: int|
                0 <= k < hits.len() ==> utf16_record_of_run(data, min, 0, #[trigger] hits[k])
            &&& forall|k: int|
                0 <= k < hits.len() - 1 ==> hits[k].offset + 2 * utf16_run_len(
                    data,
                    hits[k].offset as int,
                ) < #[trigger] hits[k + 1].offset
            &&& forall|o: int|
                #[trigger] utf16_run_start(data, o) && utf16_run_len(data, o) >= min ==> exists|k: int|
                    0 <= k < hits.len() && #[trigger] hits[k].offset == o
        }),
{
    lemma_utf16_hits_from_props(data, min, 0);
}

/// Law: every UTF-16LE record gives its offset as `0x` followed by the uppercase
/// hexadecimal numeral of that offset, and names its encoding `Unicode`.
pub proof fn lemma_utf16_records_name_offset_in_hex(data: Seq<u8>, min: nat)
    requires
        data.len() <= u64::MAX,
    ensures
        forall|k: int|
            0 <= k < utf16_hits_from(data, min, 0).len() ==> (#[trigger] utf16_hits_from(data, min, 0)[k]).offset_hex
                == prefixed_hex_upper(utf16_hits_from(data, min, 0)[k].offset as nat)
                && utf16_hits_from(data, min, 0)[k].encoding == "Unicode"@,
{
    lemma_utf16_hits_from_props(data, min, 0);
    let hits = utf16_hits_from(data, min, 0);
    assert forall|k: int| 0 <= k < hits.len() implies (#[trigger] hits[k]).offset_hex
        == prefixed_hex_upper(hits[k].offset as nat) && hits[k].encoding == "Unicode"@ by {
        assert(utf16_record_of_run(data, min, 0, hits[k]));
    }
}


/// The records whose text has at least `m` characters.
pub open spec fn text_at_least(m: nat) -> spec_fn(StringHitView) -> bool {
    |h: StringHitView| h.value.len() >= m
}

proof fn lemma_filter_singleton(h: StringHitView, pred: spec_fn(StringHitView) -> bool)
    ensures
        seq![h].filter(pred) == if pred(h) {
            seq![h]
        } else {
            Seq::<StringHitView>::empty()
        },
{
    reveal(Seq::filter);
    assert(seq![h].drop_last() =~= Seq::<StringHitView>::empty());
    assert(Seq::<StringHitView>::empty().filter(pred) =~= Seq::<StringHitView>::empty());
    if pred(h) {
        assert(Seq::<StringHitView>::empty().push(h) =~= seq![h]);
    }
}

proof fn lemma_ascii_min_filter_from(data: Seq<u8>, m1: nat, m2: nat, p: int)
    requires
        m1 <= m2,
        0 <= p,
    ensures
        ascii_hits_from(data, m2, p) == ascii_hits_from(data, m1, p).filter(text_at_least(m2)),
    decreases data.len() - p,
{
    let pred = text_at_least(m2);
    if p >= data.len() {
        reveal(Seq::filter);
        assert(Seq::<StringHitView>::empty().filter(pred) =~= Seq::<StringHitView>::empty());
    } else {
        let n = ascii_run_len(data, p);
        if n == 0 {
            lemma_ascii_min_filter_from(data, m1, m2, p + 1);
        } else {
            lemma_ascii_run_fits(data, p);
            lemma_ascii_min_filter_from(data, m1, m2, p + n);
            let h = ascii_hit(data, p, n);
            assert(h.value.len() == n);
            let rest1 = ascii_hits_from(data, m1, p + n);
            if n >= m1 {
                Seq::filter_distributes_over_add(seq![h], rest1, pred);
                lemma_filter_singleton(h, pred);
                if n >= m2 {
                    assert(ascii_hits_from(data, m2, p) =~= seq![h] + rest1.filter(pred));
                } else {
                    assert(ascii_hits_from(data, m2, p) =~= Seq::<StringHitView>::empty() + rest1.filter(pred));
                }
            }
        }
    }
}

/// Law: raising the minimum length only filters: the ASCII strings found with minimum
/// `m2` are those found with a smaller minimum `m1` whose text has at least `m2` characters.
pub proof fn lemma_ascii_min_length_filters(data: Seq<u8>, m1: nat, m2: nat)
    requires
        m1 <= m2,
    ensures
        ascii_hits_from(data, m2, 0) == ascii_hits_from(data, m1, 0).filter(text_at_least(m2)),
{
    lemma_ascii_min_filter_from(data, m1, m2, 0);
}

proof fn lemma_utf16_min_filter_from(data: Seq<u8>, m1: nat, m2: nat, p: int)
    requires
        m1 <= m2,
        0 <= p,
    ensures
        utf16_hits_from(data, m2, p) == utf16_hits_from(data, m1, p).filter(text_at_least(m2)),
    decreases data.len() - p,
{
    let pred = text_at_least(m2);
    if p + 1 >= data.len() {
        reveal(Seq::filter);
        assert(Seq::<StringHitView>::empty().filter(pred) =~= Seq::<StringHitView>::empty());
    } else {
        let n = utf16_run_len(data, p);
        if n == 0 {
            lemma_utf16_min_filter_from(data, m1, m2, p + 1);
        } else {
            lemma_utf16_run_fits(data, p);
            lemma_utf16_min_filter_from(data, m1, m2, p + 2 * n);
            let h = utf16_hit(data, p, n);
            assert(h.value.len() == n);
            let rest1 = utf16_hits_from(data, m1, p + 2 * n);
            if n >= m1 {
                Seq::filter_distributes_over_add(seq![h], rest1, pred);
                lemma_filter_singleton(h, pred);
                if n >= m2 {
                    assert(utf16_hits_from(data, m2, p) =~= seq![h] + rest1.filter(pred));
                } else {
                    assert(utf16_hits_from(data, m2, p) =~= Seq::<StringHitView>::empty() + rest1.filter(pred));
                }
            }
        }
    }
}

/// Law: raising the minimum length only filters: the UTF-16LE strings found with minimum
/// `m2` are those found with a smaller minimum `m1` whose text has at least `m2` characters.
pub proof fn lemma_utf16_min_length_filters(data: Seq<u8>, m1: nat, m2: nat)
    requires
        m1 <= m2,
    ensures
        utf16_hits_from(data, m2, 0) == utf16_hits_from(data, m1, 0).filter(text_at_least(m2)),
{
    lemma_utf16_min_filter_from(data, m1, m2, 0);
}

} // verus!
