//! The mapping table: every row of the listing, in file order.
//!
//! Loading is fail-fast: a table is built from all of its lines or not at
//! all. A single malformed line rejects the whole load — symbolization
//! must not work from silently truncated mapping data — and the error
//! names the first offending line's fault.

use vstd::prelude::*;

use crate::entry::{entry_of_line, line_err, line_ok, MapsEntry, ParseError};

verus! {

/// Why a table could not be loaded.
#[derive(Clone, Copy, PartialEq, Eq, Debug)]
pub enum LoadError {
    /// The mapping-table resource could not be opened.
    Unavailable,
    /// A line could not be read from the resource.
    ReadFailed,
    /// A line was read but does not parse.
    Malformed(ParseError),
}

/// Parses the lines of a mapping-table listing, in order.
///
/// Succeeds exactly when every line parses, and then yields one entry per
/// line, each denoted by its line. Otherwise the whole load fails with
/// `Malformed` carrying the error of the first line that does not parse;
/// no partial table is returned.
pub fn parse_maps_lines(lines: &Vec<String>) -> (r: Result<Vec<MapsEntry>, LoadError>)
    ensures
        r is Ok <==> (forall|j: int| 0 <= j < lines@.len() ==> line_ok((#[trigger] lines@[j])@)),
        r matches Ok(es) ==> es@.len() == lines@.len() && (forall|j: int|
            0 <= j < lines@.len() ==> entry_of_line(#[trigger] es@[j], lines@[j]@)),
        r matches Err(le) ==> exists|j: int|
            {
                &&& 0 <= j < lines@.len()
                &&& !line_ok((#[trigger] lines@[j])@)
                &&& forall|m: int| 0 <= m < j ==> line_ok((#[trigger] lines@[m])@)
                &&& le == LoadError::Malformed(line_err(lines@[j]@))
            },
{
    let mut entries: Vec<MapsEntry> = Vec::new();
    let mut i: usize = 0;
    while i < lines.len()
        invariant
            i <= lines@.len(),
            entries@.len() == i,
            forall|m: int| 0 <= m < i ==> line_ok((#[trigger] lines@[m])@),
            forall|m: int| 0 <= m < i ==> entry_of_line(#[trigger] entries@[m], lines@[m]@),
        decreases lines@.len() - i,
    {
        match MapsEntry::from_str(lines[i].as_str()) {
            Ok(e) => entries.push(e),
            Err(pe) => {
                return Err(LoadError::Malformed(pe));
            },
        }
        i += 1;
    }
    Ok(entries)
}

} // verus!
