//! Random access to the members of a ZIP archive that are stored without
//! compression.
//!
//! The archive is read through a [`ZipIO`] byte source, a few bytes at a time:
//! neither the archive nor its directory is ever held in memory as a whole.
//! Both the classic (32-bit) and the ZIP64 (64-bit) layouts are understood.
//! Members that are compressed are listed, and refused when opened.
//!
//! Every function here carries a contract that Verus proves. The contracts
//! are stated over the content of the byte source, a `Seq<u8>`:
//!
//! - [`layout`] and [`records`] say what the bytes of a record mean;
//! - [`scan`] and [`content`] hold the steps that need no byte source: the
//!   search for the end of the directory, and the bounds of a member;
//! - [`archive`] describes what an archive holds, and [`reader`] reads it;
//! - [`laws`] and [`written`] prove what follows: that an archive lists the
//!   members that were written into it and returns their content, and that
//!   a damaged directory fails the listing.

pub mod archive;
pub mod content;
pub mod entry;
pub mod error;
pub mod io;
pub mod laws;
pub mod layout;
pub mod reader;
pub mod records;
pub mod scan;
pub mod select;
pub mod written;

pub use entry::ZipEntry;
pub use error::{Structure, ZipError};
pub use io::{fetch, ZipIO};
pub use layout::{
    CENTRAL_DIR_HEADER_SIGNATURE, COMPRESSION_STORED, EOCD_SIGNATURE, LOCAL_FILE_HEADER_SIGNATURE,
    ZIP64_EOCD_LOCATOR_SIGNATURE, ZIP64_EOCD_SIGNATURE,
};
pub use reader::{ZipFileReader, ZipReader};
