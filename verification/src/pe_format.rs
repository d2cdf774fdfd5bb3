//! Little-endian field readers, NUL-terminated ASCII names and RVA mapping over
//! raw PE bytes. Every read is bounds-checked: a field that does not fit is absent.

use vstd::prelude::*;
use crate::schema::{Section, SectionView, sections_view};
use crate::text::{ascii_lower, ascii_lowercase_char, push_char};

verus! {

/// The little-endian 16-bit value at `o`, when both bytes are present.
pub open spec fn le_u16_at(d: Seq<u8>, o: int) -> Option<u16> {
    if 0 <= o && o + 2 <= d.len() {
        Some((d[o] + 256 * d[o + 1]) as u16)
    } else {
        None
    }
}

/// The little-endian 32-bit value at `o`, when all four bytes are present.
pub open spec fn le_u32_at(d: Seq<u8>, o: int) -> Option<u32> {
    if 0 <= o && o + 4 <= d.len() {
        Some((d[o] + 256 * d[o + 1] + 65536 * d[o + 2] + 16777216 * d[o + 3]) as u32)
    } else {
        None
    }
}

/// The little-endian 64-bit value at `o`, when all eight bytes are present.
pub open spec fn le_u64_at(d: Seq<u8>, o: int) -> Option<u64> {
    if 0 <= o && o + 8 <= d.len() {
        Some(
            (d[o] + 0x100 * d[o + 1] + 0x10000 * d[o + 2] + 0x1000000 * d[o + 3] + 0x100000000 * d[
                o + 4
            ] + 0x10000000000 * d[o + 5] + 0x1000000000000 * d[o + 6] + 0x100000000000000 * d[o
                + 7]) as u64,
        )
    } else {
        None
    }
}

/// Offset of the optional header: the PE header offset stored at 0x3C, then the four
/// bytes `PE\0\0` and the 20-byte COFF header.
pub open spec fn optional_header_at(d: Seq<u8>) -> int {
    match le_u32_at(d, 0x3C) {
        Some(p) => p as int + 24,
        None => 24,
    }
}

/// The optional header's ImageBase field at `opt`: the little-endian 64-bit value at
/// `opt + 24` in a PE32+ header, the 32-bit value at `opt + 28` (widened) in a PE32 header.
pub open spec fn image_base_field(d: Seq<u8>, opt: int, is64: bool) -> Option<u64> {
    if is64 {
        le_u64_at(d, opt + 24)
    } else {
        match le_u32_at(d, opt + 28) {
            Some(v) => Some(v as u64),
            None => None,
        }
    }
}

/// The PE32+ flag, entry point and image base are the optional header's fields as the
/// bytes `d` hold them: PE32+ exactly when the magic is 0x20B, the entry point the
/// 32-bit value at offset 16 of the optional header, the image base its ImageBase field.
pub open spec fn optional_fields_read(d: Seq<u8>, is64: bool, entry: u32, image_base: u64) -> bool {
    let opt = optional_header_at(d);
    &&& is64 == (le_u16_at(d, opt) == Some(0x20Bu16))
    &&& le_u32_at(d, opt + 16) == Some(entry)
    &&& image_base_field(d, opt, is64) == Some(image_base)
}

/// Reads a little-endian `u16` at byte offset `o`.
pub fn rd_u16(d: &[u8], o: u64) -> (r: Option<u16>)
    ensures
        r == le_u16_at(d@, o as int),
{
    let len = d.len() as u64;
    if o < len && len - o >= 2 {
        let i = o as usize;
        Some(d[i] as u16 + 256 * (d[i + 1] as u16))
    } else {
        None
    }
}

/// Reads a little-endian `u32` at byte offset `o`.
pub fn rd_u32(d: &[u8], o: u64) -> (r: Option<u32>)
    ensures
        r == le_u32_at(d@, o as int),
{
    let len = d.len() as u64;
    if o < len && len - o >= 4 {
        let i = o as usize;
        Some(
            d[i] as u32 + 256 * (d[i + 1] as u32) + 65536 * (d[i + 2] as u32) + 16777216 * (d[i
                + 3] as u32),
        )
    } else {
        None
    }
}

/// Reads a little-endian `u64` at byte offset `o`.
pub fn rd_u64(d: &[u8], o: u64) -> (r: Option<u64>)
    ensures
        r == le_u64_at(d@, o as int),
{
    let len = d.len() as u64;
    if o < len && len - o >= 8 {
        let i = o as usize;
        Some(
            d[i] as u64 + 0x100 * (d[i + 1] as u64) + 0x10000 * (d[i + 2] as u64) + 0x1000000 * (
            d[i + 3] as u64) + 0x100000000 * (d[i + 4] as u64) + 0x10000000000 * (d[i
                + 5] as u64) + 0x1000000000000 * (d[i + 6] as u64) + 0x100000000000000 * (d[i
                + 7] as u64),
        )
    } else {
        None
    }
}

/// A byte read as ASCII: codes below `0x80` are themselves, any other byte is `?`.
pub open spec fn ascii_char_of(b: u8) -> char {
    if b < 0x80 {
        b as char
    } else {
        '?'
    }
}

/// The NUL-terminated ASCII text at `i`, read no further than `end` nor past the data.
pub open spec fn cstr_from(d: Seq<u8>, i: int, end: int) -> Seq<char>
    decreases end - i,
{
    if 0 <= i < end && i < d.len() && d[i] != 0 {
        seq![ascii_char_of(d[i])] + cstr_from(d, i + 1, end)
    } else {
        seq![]
    }
}

/// The NUL-terminated ASCII name at `off`, at most `max` bytes long.
pub open spec fn cstr_at(d: Seq<u8>, off: int, max: int) -> Seq<char> {
    cstr_from(d, off, off + max)
}

proof fn lemma_cstr_step(d: Seq<u8>, start: int, i: int, end: int)
    requires
        0 <= start <= i < end,
        i < d.len(),
        d[i] != 0,
        cstr_from(d, start, end) == cstr_from(d, start, i) + cstr_from(d, i, end),
        forall|k: int| start <= k < i ==> d[k] != 0,
    ensures
        cstr_from(d, start, end) == cstr_from(d, start, i + 1) + cstr_from(d, i + 1, end),
    decreases i - start,
{
    lemma_cstr_prefix(d, start, i);
}

proof fn lemma_cstr_prefix(d: Seq<u8>, start: int, i: int)
    requires
        0 <= start <= i < d.len(),
        forall|k: int| start <= k <= i ==> d[k] != 0,
    ensures
        cstr_from(d, start, i + 1) == cstr_from(d, start, i).push(ascii_char_of(d[i])),
    decreases i - start,
{
    if start < i {
        lemma_cstr_prefix(d, start + 1, i);
        assert(cstr_from(d, start, i + 1) =~= seq![ascii_char_of(d[start])] + cstr_from(
            d,
            start + 1,
            i + 1,
        ));
    } else {
        assert(cstr_from(d, i + 1, i + 1) =~= Seq::<char>::empty());
        assert(cstr_from(d, i, i) =~= Seq::<char>::empty());
    }
}

fn ascii_char(b: u8) -> (c: char)
    ensures
        c == ascii_char_of(b),
{
    if b < 0x80 {
        b as char
    } else {
        '?'
    }
}

/// Reads the NUL-terminated ASCII name at `off` (at most `max` bytes), returning the
/// name and its ASCII-lowercased form.
pub fn read_ascii_cstr(d: &[u8], off: u64, max: u64) -> (r: (String, String))
    ensures
        r.0@ == cstr_at(d@, off as int, max as int),
        r.1@ == ascii_lower(cstr_at(d@, off as int, max as int)),
{
    let mut s = String::new();
    let mut lower = String::new();
    let len = d.len() as u64;
    if off >= len {
        return (s, lower);
    }
    let end: u64 = if len - off < max { len } else { off + max };
    let mut i: u64 = off;
    let ghost total = cstr_at(d@, off as int, max as int);
    assert(cstr_from(d@, off as int, off as int) =~= Seq::<char>::empty());
    proof {
        lemma_cstr_end_equiv(d@, off as int, end as int, off + max);
    }
    assert(total =~= cstr_from(d@, off as int, off as int) + cstr_from(d@, off as int, end as int));
    while i < end
        invariant
            off <= i <= end <= len,
            len == d@.len(),
            end <= off + max,
            total == cstr_from(d@, off as int, off + max),
            cstr_from(d@, off as int, end as int) == total,
            total == cstr_from(d@, off as int, i as int) + cstr_from(d@, i as int, end as int),
            forall|k: int| off <= k < i ==> d@[k] != 0,
            s@ == cstr_from(d@, off as int, i as int),
            lower@ == ascii_lower(s@),
        ensures
            off <= i <= end,
            total == cstr_from(d@, off as int, i as int) + cstr_from(d@, i as int, end as int),
            s@ == cstr_from(d@, off as int, i as int),
            lower@ == ascii_lower(s@),
            i == end || (i < end && d@[i as int] == 0),
        decreases end - i,
    {
        let b = d[i as usize];
        if b == 0 {
            break;
        }
        proof {
            lemma_cstr_step(d@, off as int, i as int, end as int);
        }
        let c = ascii_char(b);
        push_char(&mut s, c);
        push_char(&mut lower, ascii_lowercase_char(c));
        proof {
            lemma_cstr_prefix(d@, off as int, i as int);
        }
        i += 1;
        assert(lower@ =~= ascii_lower(s@));
    }
    assert(cstr_from(d@, i as int, end as int) =~= Seq::<char>::empty());
    assert(s@ =~= total);
    (s, lower)
}

proof fn lemma_cstr_end_equiv(d: Seq<u8>, i: int, end1: int, end2: int)
    requires
        0 <= i,
        end1 <= end2,
        end1 >= d.len() || end1 == end2,
    ensures
        cstr_from(d, i, end1) == cstr_from(d, i, end2),
    decreases end1 - i,
{
    if 0 <= i < end1 && i < d.len() && d[i] != 0 {
        lemma_cstr_end_equiv(d, i + 1, end1, end2);
    }
}

/// The file offset of `rva` through the first section whose span (the larger of its
/// virtual and raw sizes) contains it, searching from section `k`.
pub open spec fn rva_offset_from(secs: Seq<SectionView>, rva: int, k: int) -> Option<int>
    decreases secs.len() - k,
{
    if k < 0 || k >= secs.len() {
        None
    } else {
        let s = secs[k];
        let va = s.virtual_address as int;
        let span = if s.virtual_size >= s.size_of_raw_data {
            s.virtual_size as int
        } else {
            s.size_of_raw_data as int
        };
        if va <= rva < va + span {
            Some(rva - va + s.pointer_to_raw_data)
        } else {
            rva_offset_from(secs, rva, k + 1)
        }
    }
}

/// The file offset that `rva` maps to through the section table.
pub open spec fn rva_offset(secs: Seq<SectionView>, rva: int) -> Option<int> {
    rva_offset_from(secs, rva, 0)
}

/// Maps an RVA to a file offset via the section table.
pub fn rva_to_offset(sections: &Vec<Section>, rva: u64) -> (r: Option<u64>)
    ensures
        match rva_offset(sections_view(sections@), rva as int) {
            Some(o) => r == Some(o as u64) && 0 <= o < 0x2_0000_0000,
            None => r is None,
        },
{
    let ghost secs = sections_view(sections@);
    let mut k: usize = 0;
    while k < sections.len()
        invariant
            k <= sections@.len(),
            secs == sections_view(sections@),
            rva_offset(secs, rva as int) == rva_offset_from(secs, rva as int, k as int),
        decreases sections@.len() - k,
    {
        let s = &sections[k];
        let va = s.virtual_address as u64;
        let span = if s.virtual_size >= s.size_of_raw_data {
            s.virtual_size as u64
        } else {
            s.size_of_raw_data as u64
        };
        assert(secs[k as int] == s@);
        if rva >= va && rva < va + span {
            return Some(rva - va + s.pointer_to_raw_data as u64);
        }
        k += 1;
    }
    None
}

} // verus!
