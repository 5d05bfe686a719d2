//! The error type of the NE operations and its messages.

use vstd::prelude::*;
use vstd::string::StringExecFns;

use crate::text::{dec_chars, hex_chars, push_dec, push_hex};

verus! {

/// Errors reported by the NE parsing operations.
#[derive(Debug, Clone, Copy, PartialEq, Eq)]
pub enum Error {
    /// The file does not start with the `MZ` signature.
    InvalidDOSSignature(u16),
    /// The word at `e_lfanew` is not the `NE` signature.
    InvalidNESignature(u16),
    /// A read reached past the end of the buffer (the end offset it needed).
    HeaderOutOfBounds(usize),
    /// The buffer is too short for the header it must hold.
    HeaderTooSmall,
    /// The header is not a v5 header.
    HeaderVersionMismatch,
    /// Header data truncated (offset, expected size).
    HeaderTruncated(usize, usize),
    /// Segment number not found.
    SegmentNotFound(u16),
    /// Entry ordinal not found.
    EntryNotFound(u16),
    /// Resource not found.
    ResourceNotFound,
    /// A record of the entry table does not fit the declared table size.
    EntryTableCorrupt,
    /// A Pascal string is not valid UTF-8.
    InvalidPascalString,
    /// The header does not reference the named table.
    TableNotPresent(&'static str),
    /// Reading the named table went past a bound (table, offset, bound).
    TableOutOfBounds(&'static str, usize, usize),
    /// The entry table holds more than `u16::MAX` ordinals.
    EntryTableOverflow,
    /// A relocation chain does not end.
    RelocationChainCorrupt,
    /// The resource table's size shift is out of range.
    InvalidResourceAlignment(u16),
    /// The buffer is shorter than the DOS header.
    InvalidDOSStubFields,
}

/// The message of an error: numbers in uppercase hexadecimal (at least
/// four digits, after `0x`) or in decimal.
pub open spec fn error_message(e: Error) -> Seq<char> {
    match e {
        Error::InvalidDOSSignature(sig) => "invalid DOS signature: 0x"@ + hex_chars(sig as nat, 4, true) + " (expected 0x5A4D)"@,
        Error::InvalidNESignature(sig) => "invalid NE signature at offset: 0x"@ + hex_chars(sig as nat, 4, true) + " (expected 0x0045)"@,
        Error::HeaderOutOfBounds(offset) => "header field offset 0x"@ + hex_chars(offset as nat, 4, true) + " is out of bounds"@,
        Error::HeaderTooSmall => "file too short to contain claimed header size"@,
        Error::HeaderVersionMismatch => "header version indicators are inconsistent (v4 vs v5)"@,
        Error::HeaderTruncated(offset, expected) => "header truncated at offset 0x"@ + hex_chars(offset as nat, 4, true) + ", expected "@ + dec_chars(expected as nat) + " bytes"@,
        Error::SegmentNotFound(seg) => "segment number "@ + dec_chars(seg as nat) + " not found"@,
        Error::EntryNotFound(ordinal) => "entry ordinal "@ + dec_chars(ordinal as nat) + " not found"@,
        Error::ResourceNotFound => "resource not found"@,
        Error::EntryTableCorrupt => "entry table corrupt: malformed bundle chain"@,
        Error::InvalidPascalString => "invalid Pascal string: exceeds buffer or not valid ASCII"@,
        Error::TableNotPresent(name) => "table not present: "@ + name@,
        Error::TableOutOfBounds(name, offset, bound) => "table '"@ + name@ + "' out of bounds: offset 0x"@ + hex_chars(offset as nat, 4, true) + " (bound 0x"@ + hex_chars(bound as nat, 4, true) + ")"@,
        Error::EntryTableOverflow => "entry table bundle chain exceeded maximum length"@,
        Error::RelocationChainCorrupt => "relocation chain corrupt: cycle detected in segment"@,
        Error::InvalidResourceAlignment(shift) => "invalid resource alignment shift: "@ + dec_chars(shift as nat) + " (must be > 0)"@,
        Error::InvalidDOSStubFields => "invalid DOS stub fields: file too short to contain DOS header (e_lfarlc is not used for NE detection)"@,
    }
}

impl Error {
    /// The human-readable message of the error.
    pub fn message(&self) -> (r: String)
        ensures
            r@ == error_message(*self),
    {
        let mut s = String::new();
        match self {
            Error::InvalidDOSSignature(sig) => {
                s.append("invalid DOS signature: 0x");
                push_hex(&mut s, *sig as u64, 4, true);
                s.append(" (expected 0x5A4D)");
            },
            Error::InvalidNESignature(sig) => {
                s.append("invalid NE signature at offset: 0x");
                push_hex(&mut s, *sig as u64, 4, true);
                s.append(" (expected 0x0045)");
            },
            Error::HeaderOutOfBounds(offset) => {
                s.append("header field offset 0x");
                push_hex(&mut s, *offset as u64, 4, true);
                s.append(" is out of bounds");
            },
            Error::HeaderTooSmall => {
                s.append("file too short to contain claimed header size");
            },
            Error::HeaderVersionMismatch => {
                s.append("header version indicators are inconsistent (v4 vs v5)");
            },
            Error::HeaderTruncated(offset, expected) => {
                s.append("header truncated at offset 0x");
                push_hex(&mut s, *offset as u64, 4, true);
                s.append(", expected ");
                push_dec(&mut s, *expected as u64);
                s.append(" bytes");
            },
            Error::SegmentNotFound(seg) => {
                s.append("segment number ");
                push_dec(&mut s, *seg as u64);
                s.append(" not found");
            },
            Error::EntryNotFound(ordinal) => {
                s.append("entry ordinal ");
                push_dec(&mut s, *ordinal as u64);
                s.append(" not found");
            },
            Error::ResourceNotFound => {
                s.append("resource not found");
            },
            Error::EntryTableCorrupt => {
                s.append("entry table corrupt: malformed bundle chain");
            },
            Error::InvalidPascalString => {
                s.append("invalid Pascal string: exceeds buffer or not valid ASCII");
            },
            Error::TableNotPresent(name) => {
                s.append("table not present: ");
                s.append(name);
            },
            Error::TableOutOfBounds(name, offset, bound) => {
                s.append("table '");
                s.append(name);
                s.append("' out of bounds: offset 0x");
                push_hex(&mut s, *offset as u64, 4, true);
                s.append(" (bound 0x");
                push_hex(&mut s, *bound as u64, 4, true);
                s.append(")");
            },
            Error::EntryTableOverflow => {
                s.append("entry table bundle chain exceeded maximum length");
            },
            Error::RelocationChainCorrupt => {
                s.append("relocation chain corrupt: cycle detected in segment");
            },
            Error::InvalidResourceAlignment(shift) => {
                s.append("invalid resource alignment shift: ");
                push_dec(&mut s, *shift as u64);
                s.append(" (must be > 0)");
            },
            Error::InvalidDOSStubFields => {
                s.append("invalid DOS stub fields: file too short to contain DOS header (e_lfarlc is not used for NE detection)");
            },
        }
        s
    }
}

/// The message of an error that carries two numbers shows them in the
/// order of its fields: a truncated header's offset (in uppercase
/// hexadecimal, at least four digits) then the expected size (in decimal);
/// a table out of bounds's offset then its bound (both in uppercase
/// hexadecimal, at least four digits).
pub proof fn two_number_messages_read_back(
    offset: usize,
    expected: usize,
    name: &'static str,
    bound: usize,
)
    ensures
        exists|x: Seq<char>, y: Seq<char>|
            #![trigger crate::text::hex_text(x, offset as int), crate::text::dec_text(y, expected as int)]
            crate::text::hex_text(x, offset as int) && crate::text::no_lower_hex(x)
                && crate::text::dec_text(y, expected as int) && error_message(
                Error::HeaderTruncated(offset, expected),
            ) == "header truncated at offset 0x"@ + x + ", expected "@ + y + " bytes"@,
        exists|x: Seq<char>, y: Seq<char>|
            #![trigger crate::text::hex_text(x, offset as int), crate::text::hex_text(y, bound as int)]
            crate::text::hex_text(x, offset as int) && crate::text::hex_text(y, bound as int)
                && crate::text::no_lower_hex(x) && crate::text::no_lower_hex(y) && error_message(
                Error::TableOutOfBounds(name, offset, bound),
            ) == "table '"@ + name@ + "' out of bounds: offset 0x"@ + x + " (bound 0x"@ + y + ")"@,
{
    crate::text::hex_chars_reads_back(offset as nat, 4, true);
    crate::text::hex_chars_reads_back(bound as nat, 4, true);
    crate::text::dec_chars_reads_back(expected as nat);
    let x = hex_chars(offset as nat, 4, true);
    let y = dec_chars(expected as nat);
    let z = hex_chars(bound as nat, 4, true);
    assert(crate::text::hex_text(x, offset as int));
    assert(crate::text::dec_text(y, expected as int));
    assert(crate::text::hex_text(z, bound as int));
}

} // verus!
