//! The lenient import-directory walk and the imphash.
//!
//! The imphash is the lowercase hexadecimal MD5 of the comma-joined entries
//! `libbase.func`, one per imported function in directory order, where `libbase`
//! is the lowercased library name without its `.dll`/`.ocx`/`.sys` extension and
//! `func` the lowercased function name; for an import by ordinal it is the ordinal's
//! name from the library's table (`ws2_32`, `wsock32`, `oleaut32`), else `ord<N>`. A file
//! with no such entry has no imphash.

use vstd::prelude::*;
use crate::digest::md5_digest;
use crate::pe::{group_by_library, lib_base, merge_import_into, strip_lib_ext};
use crate::pe_format::{cstr_at, le_u32_at, le_u64_at, read_ascii_cstr, rd_u32, rd_u64, rva_offset, rva_to_offset};
use crate::schema::{Import, ImportView, Section, imports_view, opt_string_view, sections_view, strings_view};
use crate::ordinals::{ordinal_import_name, ordinal_import_string};
use crate::text::{ascii_lower, ascii_lowercase, decimal, decimal_value, is_decimal_numeral, lemma_decimal_reads_back, join_comma, lemma_join_comma_push, push_char, push_decimal};

verus! {

/// Display and imphash name of an import by ordinal: `ord` followed by the ordinal in decimal.
pub open spec fn ordinal_name(o: u16) -> Seq<char> {
    seq!['o', 'r', 'd'] + decimal(o as nat)
}

/// Law: the name of an import by ordinal `o` is `ord` followed by the canonical base-10
/// numeral of `o`: reading the characters after `ord` as a decimal number gives `o`.
pub proof fn lemma_ordinal_name_is_decimal(o: u16)
    ensures
        ordinal_name(o).len() >= 4,
        ordinal_name(o).take(3) == seq!['o', 'r', 'd'],
        is_decimal_numeral(ordinal_name(o).skip(3)),
        decimal_value(ordinal_name(o).skip(3)) == o,
{
    lemma_decimal_reads_back(o as nat);
    assert(ordinal_name(o).take(3) =~= seq!['o', 'r', 'd']);
    assert(ordinal_name(o).skip(3) =~= decimal(o as nat));
}

/// Renders `ord<o>`: `ord` followed by the ordinal in base-10 digits.
pub fn ordinal_string(o: u16) -> (s: String)
    ensures
        s@ == ordinal_name(o),
        s@.len() >= 4,
        s@.take(3) == seq!['o', 'r', 'd'],
        is_decimal_numeral(s@.skip(3)),
        decimal_value(s@.skip(3)) == o,
{
    let mut s = String::new();
    push_char(&mut s, 'o');
    push_char(&mut s, 'r');
    push_char(&mut s, 'd');
    push_decimal(&mut s, o as u64);
    assert(s@ =~= ordinal_name(o));
    proof {
        lemma_ordinal_name_is_decimal(o);
    }
    s
}

/// The imphash entries `libbase.func` of one library's functions.
pub open spec fn entries_for(dll: Seq<char>, functions: Seq<Seq<char>>) -> Seq<Seq<char>> {
    functions.map_values(
        |f: Seq<char>| lib_base(ascii_lower(dll)) + seq!['.'] + ascii_lower(f),
    )
}

/// The imphash entries of an import list, library by library, in directory order.
pub open spec fn import_list_entries(imps: Seq<ImportView>) -> Seq<Seq<char>>
    decreases imps.len(),
{
    if imps.len() == 0 {
        seq![]
    } else {
        import_list_entries(imps.drop_last()) + entries_for(
            imps.last().dll,
            imps.last().functions,
        )
    }
}

/// The imphash of a list of entries: absent when there is none, else the lowercase
/// hexadecimal MD5 of the UTF-8 bytes of the comma-joined entries.
pub open spec fn imphash_of(entries: Seq<Seq<char>>) -> Option<Seq<char>> {
    if entries.len() == 0 {
        None
    } else {
        Some(crate::text::hex_lower_bytes(md5_digest(vstd::utf8::encode_utf8(join_comma(entries)))))
    }
}

/// Computes the imphash of the comma-joined entries `joined` (`any` when there is at least one).
pub fn imphash_from_joined(joined: &String, any: bool) -> (r: Option<String>)
    ensures
        any ==> opt_string_view(r) == Some(
            crate::text::hex_lower_bytes(md5_digest(vstd::utf8::encode_utf8(joined@))),
        ),
        !any ==> r is None,
        r matches Some(h) ==> h@.len() == 32,
{
    if any {
        Some(crate::digest::md5_hex(joined.as_str().as_bytes()))
    } else {
        None
    }
}

/// The bit that marks an import by ordinal in a thunk of the given width.
pub open spec fn ordinal_flag(is64: bool) -> u64 {
    if is64 {
        0x8000_0000_0000_0000
    } else {
        0x8000_0000
    }
}

/// The thunk value at `toff`: eight bytes in a PE32+ image, four otherwise.
pub open spec fn thunk_at(d: Seq<u8>, toff: int, is64: bool) -> Option<u64> {
    if is64 {
        le_u64_at(d, toff)
    } else {
        match le_u32_at(d, toff) {
            Some(v) => Some(v as u64),
            None => None,
        }
    }
}

/// The function a non-zero thunk of library `lib_lower` (lowercased) names: for an
/// import by ordinal, the name of that ordinal (see `ordinal_import_name`), else the
/// ASCII name of its hint/name entry (empty when the entry cannot be mapped).
pub open spec fn thunk_function(
    d: Seq<u8>,
    secs: Seq<crate::schema::SectionView>,
    tv: u64,
    is64: bool,
    lib_lower: Seq<char>,
) -> Seq<char> {
    if tv & ordinal_flag(is64) != 0 {
        ordinal_import_name(lib_lower, (tv & 0xFFFF) as u16)
    } else {
        match rva_offset(secs, (tv & 0xFFFF_FFFF) as int) {
            Some(bn) => cstr_at(d, bn + 2, 256),
            None => seq![],
        }
    }
}

/// The function names of a thunk array at file offset `to`, from thunk `ti` on: the walk
/// stops at a zero or unreadable thunk, or after 100000 thunks; empty names are skipped.
pub open spec fn thunk_functions(
    d: Seq<u8>,
    secs: Seq<crate::schema::SectionView>,
    to: int,
    is64: bool,
    lib_lower: Seq<char>,
    ti: int,
) -> Seq<Seq<char>>
    decreases 100000 - ti,
{
    if ti < 0 || ti >= 100000 {
        seq![]
    } else {
        let toff = if is64 {
            to + 8 * ti
        } else {
            to + 4 * ti
        };
        match thunk_at(d, toff, is64) {
            None => seq![],
            Some(tv) => if tv == 0 {
                seq![]
            } else {
                let f = thunk_function(d, secs, tv, is64, lib_lower);
                let rest = thunk_functions(d, secs, to, is64, lib_lower, ti + 1);
                if f.len() > 0 {
                    seq![f] + rest
                } else {
                    rest
                }
            },
        }
    }
}

/// The imports of the descriptor array at file offset `desc_off`, from descriptor `di` on:
/// the walk stops at an unreadable or all-zero descriptor, or after 4096 descriptors.
pub open spec fn import_descriptors(
    d: Seq<u8>,
    secs: Seq<crate::schema::SectionView>,
    desc_off: int,
    is64: bool,
    di: int,
) -> Seq<ImportView>
    decreases 4096 - di,
{
    if di < 0 || di >= 4096 {
        seq![]
    } else {
        let base = desc_off + 20 * di;
        match le_u32_at(d, base) {
            None => seq![],
            Some(oft) => {
                let name_rva = match le_u32_at(d, base + 12) {
                    Some(v) => v,
                    None => 0u32,
                };
                let first_thunk = match le_u32_at(d, base + 16) {
                    Some(v) => v,
                    None => 0u32,
                };
                if oft == 0 && name_rva == 0 && first_thunk == 0 {
                    seq![]
                } else {
                    let lib = match rva_offset(secs, name_rva as int) {
                        Some(o) => cstr_at(d, o, 256),
                        None => seq![],
                    };
                    let thunk_rva = if oft != 0 {
                        oft
                    } else {
                        first_thunk
                    };
                    let functions = match rva_offset(secs, thunk_rva as int) {
                        Some(to) => thunk_functions(d, secs, to, is64, ascii_lower(lib), 0),
                        None => seq![],
                    };
                    seq![ImportView { dll: lib, functions }] + import_descriptors(
                        d,
                        secs,
                        desc_off,
                        is64,
                        di + 1,
                    )
                }
            },
        }
    }
}

/// The imports found by the lenient walk of the import directory at `import_rva`, grouped
/// by library, and their imphash over the functions in directory order. No directory, or
/// one that maps to no section, gives no imports.
pub open spec fn lenient_import_table(
    d: Seq<u8>,
    secs: Seq<crate::schema::SectionView>,
    import_rva: int,
    is64: bool,
) -> (Seq<ImportView>, Option<Seq<char>>) {
    if import_rva == 0 {
        (seq![], None)
    } else {
        match rva_offset(secs, import_rva) {
            None => (seq![], None),
            Some(off) => {
                let descs = import_descriptors(d, secs, off, is64, 0);
                (group_by_library(descs), imphash_of(import_list_entries(descs)))
            },
        }
    }
}


/// Walks the thunk array at file offset `to`, returning the function names and their
/// ASCII-lowercased forms.
fn walk_thunks(data: &[u8], sections: &Vec<Section>, to: u64, is64: bool, lib_lower: &str) -> (r: (
    Vec<String>,
    Vec<String>,
))
    requires
        to < 0x2_0000_0000,
    ensures
        strings_view(r.0@) == thunk_functions(data@, sections_view(sections@), to as int, is64, lib_lower@, 0),
        strings_view(r.1@) == strings_view(r.0@).map_values(|f: Seq<char>| ascii_lower(f)),
{
    let ghost secs = sections_view(sections@);
    let ghost total = thunk_functions(data@, secs, to as int, is64, lib_lower@, 0);
    let mut functions: Vec<String> = Vec::new();
    let mut lowered: Vec<String> = Vec::new();
    let flag: u64 = if is64 {
        0x8000_0000_0000_0000
    } else {
        0x8000_0000
    };
    let mut ti: u64 = 0;
    assert(strings_view(functions@) =~= Seq::<Seq<char>>::empty());
    assert(strings_view(lowered@) =~= strings_view(functions@).map_values(
        |f: Seq<char>| ascii_lower(f),
    ));
    while ti < 100000
        invariant
            ti <= 100000,
            to < 0x2_0000_0000,
            flag == ordinal_flag(is64),
            secs == sections_view(sections@),
            total == thunk_functions(data@, secs, to as int, is64, lib_lower@, 0),
            strings_view(functions@) + thunk_functions(data@, secs, to as int, is64, lib_lower@, ti as int)
                == total,
            strings_view(lowered@) == strings_view(functions@).map_values(
                |f: Seq<char>| ascii_lower(f),
            ),
        ensures
            strings_view(functions@) == total,
            strings_view(lowered@) == strings_view(functions@).map_values(
                |f: Seq<char>| ascii_lower(f),
            ),
        decreases 100000 - ti,
    {
        let tv: u64 = if is64 {
            match rd_u64(data, to + 8 * ti) {
                Some(v) => v,
                None => {
                    assert(strings_view(functions@) =~= total);
                    break ;
                },
            }
        } else {
            match rd_u32(data, to + 4 * ti) {
                Some(v) => v as u64,
                None => {
                    assert(strings_view(functions@) =~= total);
                    break ;
                },
            }
        };
        assert(thunk_at(data@, if is64 { to + 8 * ti } else { to + 4 * ti }, is64) == Some(tv));
        if tv == 0 {
            assert(strings_view(functions@) =~= total);
            break ;
        }
        let pair = if tv & flag != 0 {
            let o = #[verifier::truncate] ((tv & 0xFFFF) as u16);
            let f = ordinal_import_string(lib_lower, o);
            let fl = ascii_lowercase(f.as_str());
            (f, fl)
        } else {
            match rva_to_offset(sections, tv & 0xFFFF_FFFF) {
                Some(bn) => read_ascii_cstr(data, bn + 2, 256),
                None => (String::new(), String::new()),
            }
        };
        let (func, func_lower) = pair;
        assert(func@ == thunk_function(data@, secs, tv, is64, lib_lower@));
        assert(func_lower@ == ascii_lower(func@)) by {
            if func@.len() == 0 {
                assert(func_lower@ =~= ascii_lower(func@));
            }
        }
        let ghost prev = strings_view(functions@);
        let ghost prev_low = strings_view(lowered@);
        if !func.as_str().is_empty() {
            let ghost fv = func@;
            let ghost flv = func_lower@;
            functions.push(func);
            lowered.push(func_lower);
            assert(strings_view(functions@) =~= prev.push(fv));
            assert(strings_view(lowered@) =~= prev_low.push(flv));
            assert(prev.push(fv).map_values(|f: Seq<char>| ascii_lower(f)) =~= prev.map_values(
                |f: Seq<char>| ascii_lower(f),
            ).push(ascii_lower(fv)));
            assert(strings_view(lowered@) =~= strings_view(functions@).map_values(
                |f: Seq<char>| ascii_lower(f),
            ));
        }
        assert(strings_view(functions@) + thunk_functions(
            data@,
            secs,
            to as int,
            is64,
            lib_lower@,
            ti + 1,
        ) =~= total);
        ti += 1;
    }
    (functions, lowered)
}

/// Appends the imphash entries of one library's functions to the comma-joined entries.
fn append_entries(
    joined: &mut String,
    any: &mut bool,
    base_name: &str,
    lowered: &Vec<String>,
    Ghost(prev): Ghost<Seq<Seq<char>>>,
    Ghost(dll): Ghost<Seq<char>>,
    Ghost(fs): Ghost<Seq<Seq<char>>>,
)
    requires
        old(joined)@ == join_comma(prev),
        *old(any) == (prev.len() > 0),
        strings_view(lowered@) == fs.map_values(|f: Seq<char>| ascii_lower(f)),
        base_name@ == lib_base(ascii_lower(dll)),
    ensures
        final(joined)@ == join_comma(prev + entries_for(dll, fs)),
        *final(any) == ((prev + entries_for(dll, fs)).len() > 0),
{
    let mut j: usize = 0;
    assert(lowered@.len() == strings_view(lowered@).len());
    assert(entries_for(dll, fs.take(0)) =~= Seq::<Seq<char>>::empty());
    assert(prev + entries_for(dll, fs.take(0)) =~= prev);
    while j < lowered.len()
        invariant
            j <= lowered@.len(),
            lowered@.len() == fs.len(),
            strings_view(lowered@) == fs.map_values(|f: Seq<char>| ascii_lower(f)),
            base_name@ == lib_base(ascii_lower(dll)),
            joined@ == join_comma(prev + entries_for(dll, fs.take(j as int))),
            *any == ((prev + entries_for(dll, fs.take(j as int))).len() > 0),
        decreases lowered@.len() - j,
    {
        let ghost before = prev + entries_for(dll, fs.take(j as int));
        let ghost entry = lib_base(ascii_lower(dll)) + seq!['.'] + ascii_lower(fs[j as int]);
        if *any {
            joined.append(",");
        }
        joined.append(base_name);
        joined.append(".");
        assert(strings_view(lowered@)[j as int] == lowered@[j as int]@);
        joined.append(lowered[j].as_str());
        proof {
            lemma_join_comma_push(before, entry);
            reveal_strlit(",");
            reveal_strlit(".");
            assert(entries_for(dll, fs.take(j + 1)) =~= entries_for(dll, fs.take(j as int)).push(
                entry,
            ));
            assert(prev + entries_for(dll, fs.take(j + 1)) =~= before.push(entry));
            if before.len() == 0 {
                assert(joined@ =~= entry);
            } else {
                assert(joined@ =~= join_comma(before) + seq![','] + entry);
            }
        }
        *any = true;
        j += 1;
    }
    assert(fs.take(j as int) =~= fs);
}

/// Lenient import-directory walk: the imports reachable from the import directory at
/// `import_rva`, and their imphash. A truncated or unmappable table yields fewer (or no)
/// imports rather than an error.
pub fn lenient_imports(data: &[u8], sections: &Vec<Section>, import_rva: u64, is64: bool) -> (r: (
    Vec<Import>,
    Option<String>,
))
    ensures
        (imports_view(r.0@), opt_string_view(r.1)) == lenient_import_table(
            data@,
            sections_view(sections@),
            import_rva as int,
            is64,
        ),
        r.1 matches Some(h) ==> h@.len() == 32,
{
    let ghost secs = sections_view(sections@);
    let mut imports: Vec<Import> = Vec::new();
    assert(imports_view(imports@) =~= Seq::<ImportView>::empty());
    if import_rva == 0 {
        return (imports, None);
    }
    let desc_off = match rva_to_offset(sections, import_rva) {
        Some(o) => o,
        None => return (imports, None),
    };
    let ghost total = import_descriptors(data@, secs, desc_off as int, is64, 0);
    let mut joined = String::new();
    let mut any = false;
    let ghost mut seen: Seq<ImportView> = Seq::empty();
    let mut di: u64 = 0;
    assert(seen + total =~= total);
    while di < 4096
        invariant
            di <= 4096,
            desc_off < 0x2_0000_0000,
            secs == sections_view(sections@),
            total == import_descriptors(data@, secs, desc_off as int, is64, 0),
            seen + import_descriptors(data@, secs, desc_off as int, is64, di as int) == total,
            imports_view(imports@) == group_by_library(seen),
            joined@ == join_comma(import_list_entries(seen)),
            any == (import_list_entries(seen).len() > 0),
        ensures
            seen == total,
            imports_view(imports@) == group_by_library(seen),
            joined@ == join_comma(import_list_entries(seen)),
            any == (import_list_entries(seen).len() > 0),
        decreases 4096 - di,
    {
        let base = desc_off + di * 20;
        let oft = match rd_u32(data, base) {
            Some(v) => v,
            None => {
                assert(seen =~= total);
                break ;
            },
        };
        let name_rva = match rd_u32(data, base + 12) {
            Some(v) => v,
            None => 0,
        };
        let first_thunk = match rd_u32(data, base + 16) {
            Some(v) => v,
            None => 0,
        };
        if oft == 0 && name_rva == 0 && first_thunk == 0 {
            assert(seen =~= total);
            break ;
        }
        let (lib_name, lib_lower) = match rva_to_offset(sections, name_rva as u64) {
            Some(o) => read_ascii_cstr(data, o, 256),
            None => (String::new(), String::new()),
        };
        assert(lib_lower@ == ascii_lower(lib_name@)) by {
            if lib_name@.len() == 0 {
                assert(lib_lower@ =~= ascii_lower(lib_name@));
            }
        }
        let base_name = strip_lib_ext(lib_lower.as_str());
        let thunk_rva = if oft != 0 {
            oft
        } else {
            first_thunk
        };
        let (functions, lowered) = match rva_to_offset(sections, thunk_rva as u64) {
            Some(to) => walk_thunks(data, sections, to, is64, lib_lower.as_str()),
            None => {
                let e: Vec<String> = Vec::new();
                let e2: Vec<String> = Vec::new();
                assert(strings_view(e@) =~= Seq::<Seq<char>>::empty());
                assert(strings_view(e2@) =~= strings_view(e@).map_values(
                    |f: Seq<char>| ascii_lower(f),
                ));
                (e, e2)
            },
        };
        let ghost fs = strings_view(functions@);
        let ghost prev_entries = import_list_entries(seen);
        append_entries(&mut joined, &mut any, base_name, &lowered, Ghost(prev_entries), Ghost(lib_name@), Ghost(fs));
        let imp = Import { dll: lib_name, functions };
        let ghost iv = imp@;
        merge_import_into(&mut imports, imp);
        proof {
            let prev_seen = seen;
            seen = seen.push(iv);
            assert(seen.drop_last() =~= prev_seen);
            assert(seen + import_descriptors(data@, secs, desc_off as int, is64, di + 1) =~= total);
        }
        di += 1;
    }
    let hash = imphash_from_joined(&joined, any);
    (imports, hash)
}

} // verus!
