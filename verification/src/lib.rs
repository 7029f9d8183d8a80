//! A verified parser for a process's memory-mapping table: the textual
//! listing of virtual address ranges, permissions, and backing files that
//! the operating system maintains for a running process.
//!
//! One line of that listing is parsed into a [`MapsEntry`] with strict
//! validation; a sequence of lines becomes a table of entries; an address
//! can be tested against an entry's range. Reading the listing itself is
//! the caller's business: the library works on plain lines of text.

pub mod entry;
pub mod hex;
pub mod lex;
pub mod table;

pub use entry::MapsEntry;
pub use entry::MapsField;
pub use entry::ParseError;
pub use hex::parse_hex;
pub use lex::tokenize;
pub use table::parse_maps_lines;
pub use table::LoadError;
