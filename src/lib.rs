//! Decoder for SARC archives: a header, a file allocation table (SFAT), a
//! name table (SFNT) and a data region, all laid out big-endian.
pub mod error;
pub mod reader;
pub mod format;
pub mod archive;
pub mod laws;

pub use archive::{SARC, SARCOutputFile, is_yaz0};
pub use error::SarcError;
pub use format::{ByteOrder, SARCHeader, SFAT, SFATHeader, SFATNode, SFNT, SFNTHeader};
pub use reader::ByteReader;
