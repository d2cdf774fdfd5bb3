//! The indicator panel of one file: size, digests, printable-string count and the
//! PE facts, every field that is computed without floating point.

use vstd::prelude::*;
use crate::digest::{md5_digest, md5_hex, sha1_digest, sha1_hex, sha256_digest, sha256_hex};
use crate::pe::{parse_pe, pe_parse};
use crate::schema::opt_string_view;
use crate::strings::{ascii_hits_from, extract_ascii_strings, extract_utf16le_strings, utf16_hits_from};
use crate::text::hex_lower_bytes;

verus! {

/// Minimum length (bytes, or UTF-16 code units) of a string counted by the panel.
pub const IOC_MIN_STRING_LENGTH: usize = 6;

/// The digest, string and PE fields of an indicator panel. The PE fields are absent when
/// the file is not a PE.
#[derive(Debug)]
pub struct IocFields {
    pub file: String,
    pub file_size: u64,
    pub md5: String,
    pub sha1: String,
    pub sha256: String,
    pub printable_string_count: u32,
    pub is_pe: bool,
    pub machine: Option<String>,
    pub imp_hash: Option<String>,
    pub imported_dll_count: Option<u32>,
    pub has_overlay: Option<bool>,
    pub overlay_size: Option<u64>,
}

pub struct IocFieldsView {
    pub file: Seq<char>,
    pub file_size: u64,
    pub md5: Seq<char>,
    pub sha1: Seq<char>,
    pub sha256: Seq<char>,
    pub printable_string_count: u32,
    pub is_pe: bool,
    pub machine: Option<Seq<char>>,
    pub imp_hash: Option<Seq<char>>,
    pub imported_dll_count: Option<u32>,
    pub has_overlay: Option<bool>,
    pub overlay_size: Option<u64>,
}

impl View for IocFields {
    type V = IocFieldsView;

    open spec fn view(&self) -> IocFieldsView {
        IocFieldsView {
            file: self.file@,
            file_size: self.file_size,
            md5: self.md5@,
            sha1: self.sha1@,
            sha256: self.sha256@,
            printable_string_count: self.printable_string_count,
            is_pe: self.is_pe,
            machine: opt_string_view(self.machine),
            imp_hash: opt_string_view(self.imp_hash),
            imported_dll_count: self.imported_dll_count,
            has_overlay: self.has_overlay,
            overlay_size: self.overlay_size,
        }
    }
}

/// Number of printable strings the panel reports: ASCII and UTF-16LE strings of at least
/// six characters together, as a 32-bit count.
pub open spec fn printable_string_total(data: Seq<u8>) -> u32 {
    ((ascii_hits_from(data, 6, 0).len() + utf16_hits_from(data, 6, 0).len()) % 0x1_0000_0000) as u32
}

/// The indicator fields of a file with contents `data` at path `file`.
pub open spec fn ioc_fields(data: Seq<u8>, file: Seq<char>) -> IocFieldsView {
    let pe = pe_parse(data, file);
    IocFieldsView {
        file,
        file_size: data.len() as u64,
        md5: hex_lower_bytes(md5_digest(data)),
        sha1: hex_lower_bytes(sha1_digest(data)),
        sha256: hex_lower_bytes(sha256_digest(data)),
        printable_string_count: printable_string_total(data),
        is_pe: pe is Ok,
        machine: match pe {
            Ok(p) => Some(p.machine),
            Err(_) => None,
        },
        imp_hash: match pe {
            Ok(p) => p.imp_hash,
            Err(_) => None,
        },
        imported_dll_count: match pe {
            Ok(p) => Some(p.imported_dll_count),
            Err(_) => None,
        },
        has_overlay: match pe {
            Ok(p) => Some(p.has_overlay),
            Err(_) => None,
        },
        overlay_size: match pe {
            Ok(p) => Some(p.overlay_size),
            Err(_) => None,
        },
    }
}

/// Builds the digest, string-count and PE fields of the indicator panel for one file.
pub fn build_ioc_fields(data: &[u8], file_path: &str) -> (r: IocFields)
    ensures
        r@ == ioc_fields(data@, file_path@),
        r.file@ == file_path@,
        r.file_size == data@.len(),
        r.md5@ == hex_lower_bytes(md5_digest(data@)),
        r.sha1@ == hex_lower_bytes(sha1_digest(data@)),
        r.sha256@ == hex_lower_bytes(sha256_digest(data@)),
        r.md5@.len() == 32,
        r.sha1@.len() == 40,
        r.sha256@.len() == 64,
        r.is_pe == pe_parse(data@, file_path@) is Ok,
{
    let ascii = extract_ascii_strings(data, IOC_MIN_STRING_LENGTH);
    let utf16 = extract_utf16le_strings(data, IOC_MIN_STRING_LENGTH);
    let a = (ascii.len() as u64) % 0x1_0000_0000;
    let b = (utf16.len() as u64) % 0x1_0000_0000;
    let count = ((a + b) % 0x1_0000_0000) as u32;
    proof {
        assert(ascii@.len() == crate::schema::hits_view(ascii@).len());
        assert(utf16@.len() == crate::schema::hits_view(utf16@).len());
        vstd::arithmetic::div_mod::lemma_add_mod_noop(
            ascii@.len() as int,
            utf16@.len() as int,
            0x1_0000_0000,
        );
    }
    let pe = parse_pe(data, file_path);
    let is_pe = pe.is_ok();
    let (machine, imp_hash, imported_dll_count, has_overlay, overlay_size) = match pe {
        Ok(p) => (
            Some(p.machine),
            p.imp_hash,
            Some(p.imported_dll_count),
            Some(p.has_overlay),
            Some(p.overlay_size),
        ),
        Err(_) => (None, None, None, None, None),
    };
    let md5 = md5_hex(data);
    let sha1 = sha1_hex(data);
    let sha256 = sha256_hex(data);
    proof {
        lemma_ioc_digests_of_contents(data@, file_path@);
    }
    IocFields {
        file: String::from_str(file_path),
        file_size: data.len() as u64,
        md5,
        sha1,
        sha256,
        printable_string_count: count,
        is_pe,
        machine,
        imp_hash,
        imported_dll_count,
        has_overlay,
        overlay_size,
    }
}


/// Law: the panel describes the file it was given: its path and size, and the lowercase
/// hexadecimal MD5, SHA-1 and SHA-256 digests of its bytes, each over the whole contents.
pub proof fn lemma_ioc_digests_of_contents(data: Seq<u8>, file: Seq<char>)
    ensures
        ioc_fields(data, file).file == file,
        ioc_fields(data, file).file_size == data.len() as u64,
        ioc_fields(data, file).md5 == hex_lower_bytes(md5_digest(data)),
        ioc_fields(data, file).sha1 == hex_lower_bytes(sha1_digest(data)),
        ioc_fields(data, file).sha256 == hex_lower_bytes(sha256_digest(data)),
{
}

/// Law: the panel's PE fields follow `is_pe`: all five are null for a file that is not a
/// PE; for a PE, machine, DLL count and overlay fields are present and equal to the PE
/// summary's, and the imphash is the summary's.
pub proof fn lemma_ioc_pe_fields_follow_is_pe(data: Seq<u8>, file: Seq<char>)
    ensures
        ({
            let f = ioc_fields(data, file);
            &&& f.is_pe == pe_parse(data, file) is Ok
            &&& !f.is_pe ==> {
                &&& f.machine is None
                &&& f.imp_hash is None
                &&& f.imported_dll_count is None
                &&& f.has_overlay is None
                &&& f.overlay_size is None
            }
            &&& pe_parse(data, file) matches Ok(p) ==> {
                &&& f.machine == Some(p.machine)
                &&& f.imp_hash == p.imp_hash
                &&& f.imported_dll_count == Some(p.imported_dll_count)
                &&& f.has_overlay == Some(p.has_overlay)
                &&& f.overlay_size == Some(p.overlay_size)
            }
        }),
{
}

} // verus!
