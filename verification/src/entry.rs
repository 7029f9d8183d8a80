//! One row of the mapping table.
//!
//! A row reads `<range> <perms> <offset> <dev> <inode> [pathname]`, the
//! fields separated by one or more spaces. [`MapsEntry::from_str`] parses
//! one row with strict validation and never panics: it returns either an
//! entry whose numeric fields are the exact values of the hexadecimal
//! text, or the specific [`ParseError`] the row earns. The contract pins
//! both down over [`tokens`], the field model of the line.

use vstd::prelude::*;

use crate::hex::{hex_token_value, is_hex_token, parse_hex};
use crate::lex::{
    first_index_of, lemma_first_index_is, lemma_space_insertion, tokenize, tokens,
};

verus! {

/// The mandatory fields of a row, in the order they are consumed.
#[derive(Clone, Copy, PartialEq, Eq, Debug)]
pub enum MapsField {
    AddressRange,
    Perms,
    Offset,
    Dev,
    Inode,
}

/// Why a row was rejected. A row is rejected atomically: no partial entry
/// is ever produced.
#[derive(Clone, Copy, PartialEq, Eq, Debug)]
pub enum ParseError {
    /// A mandatory field before the pathname is absent.
    MissingField(MapsField),
    /// The range field does not split on `-`.
    InvalidRange,
    /// The permission field has fewer than four characters.
    InsufficientPerms,
    /// The permission field has more than four characters.
    TooManyPerms,
    /// A numeric field is not a hexadecimal number that fits a machine word.
    InvalidHex,
    /// The device field does not split on `:`.
    InvalidDev,
}

/// One row of the mapping table.
#[derive(Debug, PartialEq, Eq)]
pub struct MapsEntry {
    /// Start (inclusive) and limit (exclusive) of the address range.
    ///
    /// Well-formed input has `start <= limit`; that is trusted from the
    /// source, not re-validated here.
    pub address: (usize, usize),
    /// The four permission flag characters, positionally read, write,
    /// execute, and sharing mode. Any characters are accepted.
    pub perms: [char; 4],
    /// Byte offset into the backing file.
    pub offset: usize,
    /// Device identifier as (major, minor).
    pub dev: (usize, usize),
    /// Inode on the device; 0 means no backing inode.
    pub inode: usize,
    /// The raw pathname field: a filesystem path, a bracketed pseudo-path
    /// such as `[stack]` or `[vdso]`, or empty for an anonymous mapping.
    /// Stored verbatim, never interpreted.
    pub pathname: String,
}

/// The mandatory field that is missing from a row of `n` fields, `n < 5`.
pub open spec fn missing_field(n: int) -> MapsField {
    if n == 0 {
        MapsField::AddressRange
    } else if n == 1 {
        MapsField::Perms
    } else if n == 2 {
        MapsField::Offset
    } else if n == 3 {
        MapsField::Dev
    } else {
        MapsField::Inode
    }
}

/// Whether `t` splits once on `c`: `c` occurs, the left half is everything
/// before its first occurrence, the right half everything after.
pub open spec fn splits_on(t: Seq<char>, c: char) -> bool {
    first_index_of(t, c) < t.len()
}

pub open spec fn split_left(t: Seq<char>, c: char) -> Seq<char> {
    t.subrange(0, first_index_of(t, c))
}

pub open spec fn split_right(t: Seq<char>, c: char) -> Seq<char> {
    t.subrange(first_index_of(t, c) + 1, t.len() as int)
}

/// A valid range field: two hexadecimal numbers joined by `-`.
pub open spec fn range_ok(t: Seq<char>) -> bool {
    splits_on(t, '-') && is_hex_token(split_left(t, '-')) && is_hex_token(split_right(t, '-'))
}

/// A valid device field: two hexadecimal numbers joined by `:`.
pub open spec fn dev_ok(t: Seq<char>) -> bool {
    splits_on(t, ':') && is_hex_token(split_left(t, ':')) && is_hex_token(split_right(t, ':'))
}

/// A field sequence that yields an entry: five mandatory fields, each
/// well-formed. A sixth field, and anything after it, costs nothing.
pub open spec fn fields_ok(ts: Seq<Seq<char>>) -> bool {
    &&& ts.len() >= 5
    &&& range_ok(ts[0])
    &&& ts[1].len() == 4
    &&& is_hex_token(ts[2])
    &&& dev_ok(ts[3])
    &&& is_hex_token(ts[4])
}

/// The error a rejected field sequence earns, checking the fields in the
/// order they are consumed. Unconstrained when `fields_ok` holds.
pub open spec fn fields_err(ts: Seq<Seq<char>>) -> ParseError {
    if ts.len() < 5 {
        ParseError::MissingField(missing_field(ts.len() as int))
    } else if !splits_on(ts[0], '-') {
        ParseError::InvalidRange
    } else if !(is_hex_token(split_left(ts[0], '-')) && is_hex_token(split_right(ts[0], '-'))) {
        ParseError::InvalidHex
    } else if ts[1].len() < 4 {
        ParseError::InsufficientPerms
    } else if ts[1].len() > 4 {
        ParseError::TooManyPerms
    } else if !is_hex_token(ts[2]) {
        ParseError::InvalidHex
    } else if !splits_on(ts[3], ':') {
        ParseError::InvalidDev
    } else if !(is_hex_token(split_left(ts[3], ':')) && is_hex_token(split_right(ts[3], ':'))) {
        ParseError::InvalidHex
    } else {
        ParseError::InvalidHex
    }
}

/// The entry a valid field sequence denotes: every numeric field is the
/// exact value of its hexadecimal text, the permission characters are kept
/// positionally, and the pathname is the sixth field verbatim — or empty
/// when the row ends at the inode.
pub open spec fn entry_matches(e: MapsEntry, ts: Seq<Seq<char>>) -> bool {
    &&& e.address.0 as nat == hex_token_value(split_left(ts[0], '-'))
    &&& e.address.1 as nat == hex_token_value(split_right(ts[0], '-'))
    &&& e.perms@ == ts[1]
    &&& e.offset as nat == hex_token_value(ts[2])
    &&& e.dev.0 as nat == hex_token_value(split_left(ts[3], ':'))
    &&& e.dev.1 as nat == hex_token_value(split_right(ts[3], ':'))
    &&& e.inode as nat == hex_token_value(ts[4])
    &&& e.pathname@ == if ts.len() >= 6 {
        ts[5]
    } else {
        Seq::<char>::empty()
    }
}

/// A line that parses into an entry.
pub open spec fn line_ok(s: Seq<char>) -> bool {
    fields_ok(tokens(s))
}

/// The error a rejected line earns.
pub open spec fn line_err(s: Seq<char>) -> ParseError {
    fields_err(tokens(s))
}

/// The entry a line denotes.
pub open spec fn entry_of_line(e: MapsEntry, s: Seq<char>) -> bool {
    entry_matches(e, tokens(s))
}

/// Splits `t` once on `c`, as the range and device fields require:
/// everything before the first occurrence of `c`, and everything after it.
fn split_once_char<'a>(t: &'a str, c: char) -> (r: Option<(&'a str, &'a str)>)
    ensures
        r is Some <==> splits_on(t@, c),
        r matches Some((a, b)) ==> a@ == split_left(t@, c) && b@ == split_right(t@, c),
{
    let n = t.unicode_len();
    let mut i: usize = 0;
    while i < n
        invariant
            i <= n,
            n == t@.len(),
            forall|m: int| 0 <= m < i ==> t@[m] != c,
        decreases n - i,
    {
        if t.get_char(i) == c {
            proof {
                lemma_first_index_is(t@, c, i as int);
            }
            return Some((t.substring_char(0, i), t.substring_char(i + 1, n)));
        }
        i += 1;
    }
    proof {
        lemma_first_index_is(t@, c, n as int);
    }
    None
}

impl MapsEntry {
    /// Parses one row of the mapping table.
    ///
    /// Never panics, whatever the input. Succeeds exactly on the lines
    /// [`line_ok`] describes, and then every field of the entry equals the
    /// literally decoded value; any other line is rejected whole, with the
    /// specific error [`line_err`] assigns it.
    pub fn from_str(s: &str) -> (r: Result<MapsEntry, ParseError>)
        ensures
            r is Ok <==> line_ok(s@),
            r matches Ok(e) ==> entry_of_line(e, s@),
            r matches Err(pe) ==> pe == line_err(s@),
    {
        let ghost ts = tokens(s@);
        let toks = tokenize(s);
        proof {
            assert(toks@.map_values(|t: String| t@).len() == ts.len());
            assert(forall|m: int| 0 <= m < toks@.len() ==> (#[trigger] toks@[m])@ == ts[m]);
        }
        if toks.len() < 5 {
            let f = match toks.len() {
                0 => MapsField::AddressRange,
                1 => MapsField::Perms,
                2 => MapsField::Offset,
                3 => MapsField::Dev,
                _ => MapsField::Inode,
            };
            return Err(ParseError::MissingField(f));
        }
        // range: two hexadecimal numbers joined by '-'
        let (start_s, limit_s) = match split_once_char(toks[0].as_str(), '-') {
            Some(p) => p,
            None => {
                return Err(ParseError::InvalidRange);
            },
        };
        let start = match parse_hex(start_s) {
            Some(v) => v,
            None => {
                return Err(ParseError::InvalidHex);
            },
        };
        let limit = match parse_hex(limit_s) {
            Some(v) => v,
            None => {
                return Err(ParseError::InvalidHex);
            },
        };
        // perms: exactly four flag characters, any characters accepted
        let ptok = toks[1].as_str();
        let pn = ptok.unicode_len();
        if pn < 4 {
            return Err(ParseError::InsufficientPerms);
        }
        if pn > 4 {
            return Err(ParseError::TooManyPerms);
        }
        let perms: [char; 4] = [
            ptok.get_char(0),
            ptok.get_char(1),
            ptok.get_char(2),
            ptok.get_char(3),
        ];
        proof {
            assert(perms@ =~= ts[1]);
        }
        // offset: one hexadecimal number
        let offset = match parse_hex(toks[2].as_str()) {
            Some(v) => v,
            None => {
                return Err(ParseError::InvalidHex);
            },
        };
        // dev: two hexadecimal numbers joined by ':'
        let (major_s, minor_s) = match split_once_char(toks[3].as_str(), ':') {
            Some(p) => p,
            None => {
                return Err(ParseError::InvalidDev);
            },
        };
        let major = match parse_hex(major_s) {
            Some(v) => v,
            None => {
                return Err(ParseError::InvalidHex);
            },
        };
        let minor = match parse_hex(minor_s) {
            Some(v) => v,
            None => {
                return Err(ParseError::InvalidHex);
            },
        };
        // inode: one hexadecimal number (hex like the rest, despite the name)
        let inode = match parse_hex(toks[4].as_str()) {
            Some(v) => v,
            None => {
                return Err(ParseError::InvalidHex);
            },
        };
        // pathname: the sixth field verbatim, or empty when the row ends
        // at the inode; a pathname with embedded spaces is truncated at
        // the first (a known simplification of the format, kept as is)
        let pathname = if toks.len() >= 6 {
            toks[5].clone()
        } else {
            String::new()
        };
        Ok(
            MapsEntry {
                address: (start, limit),
                perms,
                offset,
                dev: (major, minor),
                inode,
                pathname,
            },
        )
    }

    /// The raw pathname field of this entry.
    pub fn pathname(&self) -> (r: &String)
        ensures
            r@ == self.pathname@,
    {
        &self.pathname
    }

    /// Whether `ip` falls in this entry's address range: at or above the
    /// inclusive start and strictly below the exclusive limit.
    pub fn ip_matches(&self, ip: usize) -> (r: bool)
        ensures
            r == (self.address.0 <= ip && ip < self.address.1),
    {
        self.address.0 <= ip && ip < self.address.1
    }
}

/// A row with no pathname field — its fields end at the inode — parses
/// into an entry whose pathname is empty.
pub proof fn lemma_no_pathname_field(s: Seq<char>, e: MapsEntry)
    requires
        tokens(s).len() == 5,
        entry_of_line(e, s),
    ensures
        e.pathname@ == Seq::<char>::empty(),
{
}

/// Widening an interior run of spaces — duplicating a space the line
/// already holds — produces no spurious empty field and shifts no field:
/// whether the line parses, the entry it denotes, and the error it earns
/// are all unchanged.
pub proof fn lemma_interior_padding(s: Seq<char>, i: int)
    requires
        0 <= i < s.len(),
        s[i] == ' ',
    ensures
        line_ok(s.insert(i, ' ')) == line_ok(s),
        line_err(s.insert(i, ' ')) == line_err(s),
        forall|e: MapsEntry| entry_of_line(e, s.insert(i, ' ')) == entry_of_line(e, s),
{
    lemma_space_insertion(s, i);
}

} // verus!
