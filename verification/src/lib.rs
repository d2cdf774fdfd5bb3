//! Static-triage primitives for Windows PE files and raw byte buffers:
//! string extraction, PE header parsing, import hashing and indicator panels.

pub mod text;
pub mod schema;
pub mod strings;
pub mod digest;
pub mod pe_image;
pub mod pe_format;
pub mod pe;
pub mod imports;
pub mod ioc;
pub mod entropy;
pub mod yara_scan;
pub mod ordinals;
