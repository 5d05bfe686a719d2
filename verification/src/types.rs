//! Parsed NE tables. Each parser reads its table from a buffer
//! implementing [`NE`](crate::NE) when asked; nothing is read ahead.
//!
//! Table accessors of `NE` return file offsets: the header's table fields
//! are relative to the NE header, except `ne_nrestab`, a file offset.

use vstd::prelude::*;
use vstd::string::StringSliceAdditionalSpecFns;

pub mod entry;
pub mod names;
pub mod reloc;
pub mod resource;

pub use entry::{EntryTable, EntryType, ExportEntry};
pub use names::{
    ImportedNamesTable, ModuleRefTable, NonResidentNameTable, ResidentName, ResidentNameTable,
};
pub use reloc::{AddressType, OsFixupType, RelocationEntry, RelocationTable, RelocationType};
pub use resource::{ResourceId, ResourceRecord, ResourceTable, ResourceTypeId, TypeInfo};

use crate::ne::{spec_read_u8, spec_slice, Buffer, NE};
use crate::Error;

verus! {

// ---------------------------------------------------------------------------
// Pascal strings
// ---------------------------------------------------------------------------

/// Whether `bytes` is valid UTF-8, and the text it encodes: the result of
/// `core::str::from_utf8`, whose documentation promises `Ok` exactly for
/// valid UTF-8, with a string slice holding those same bytes.
#[verifier::external_body]
fn str_from_utf8<'a>(bytes: &'a [u8]) -> (r: Option<&'a str>)
    ensures
        r is Some <==> vstd::utf8::valid_utf8(bytes@),
        r matches Some(s) ==> s.spec_bytes() == bytes@,
{
    core::str::from_utf8(bytes).ok()
}

/// A length-prefixed string borrowed from the NE buffer (without its
/// length byte). Not guaranteed to be UTF-8.
#[derive(Debug, Clone, Copy, PartialEq, Eq)]
pub struct PascalString<'a> {
    pub data: &'a [u8],
}

impl<'a> View for PascalString<'a> {
    type V = Seq<u8>;

    open spec fn view(&self) -> Seq<u8> {
        self.data@
    }
}

impl<'a> PascalString<'a> {
    /// Number of bytes (without the length byte).
    pub fn len(&self) -> (r: usize)
        ensures
            r == self@.len(),
    {
        self.data.len()
    }

    /// Whether the string is empty.
    pub fn is_empty(&self) -> (r: bool)
        ensures
            r == (self@.len() == 0),
    {
        self.data.len() == 0
    }

    /// The raw bytes.
    pub fn as_bytes(&self) -> (r: &[u8])
        ensures
            r@ == self@,
    {
        self.data
    }

    /// The bytes as text when they are valid UTF-8, else
    /// `InvalidPascalString`.
    pub fn as_str(&self) -> (r: Result<&'a str, Error>)
        ensures
            r is Ok <==> vstd::utf8::valid_utf8(self@),
            r matches Ok(s) ==> s.spec_bytes() == self@,
            r matches Err(e) ==> e == Error::InvalidPascalString,
    {
        match str_from_utf8(self.data) {
            Some(s) => Ok(s),
            None => Err(Error::InvalidPascalString),
        }
    }
}

impl<'a> core::ops::Deref for PascalString<'a> {
    type Target = [u8];

    fn deref(&self) -> (r: &[u8])
        ensures
            r@ == self@,
    {
        self.data
    }
}

/// The Pascal string whose length byte is at `pos`: the byte must be
/// readable, then the `len` bytes after it.
pub open spec fn spec_pascal_at(b: Seq<u8>, pos: int) -> Result<Seq<u8>, Error> {
    match spec_read_u8(b, pos) {
        Err(e) => Err(e),
        Ok(n) => spec_slice(b, pos + 1, n as int),
    }
}

/// Reads the Pascal string whose length byte is at `pos`.
pub fn read_pascal<'a, P: NE>(ne: &'a P, pos: usize) -> (r: Result<PascalString<'a>, Error>)
    requires
        pos + 257 <= usize::MAX,
    ensures
        r matches Ok(s) ==> spec_pascal_at(ne.bytes(), pos as int) == Ok::<Seq<u8>, Error>(s@),
        r matches Err(e) ==> spec_pascal_at(ne.bytes(), pos as int) == Err::<Seq<u8>, Error>(e),
{
    let bytes = ne.get_slice(pos, 1)?;
    let len = bytes[0] as usize;
    let data = ne.get_slice(pos + 1, len)?;
    Ok(PascalString { data })
}

/// A result with `prefix` put in front of its `Ok` sequence.
pub open spec fn prepend_ok<T>(prefix: Seq<T>, r: Result<Seq<T>, Error>) -> Result<Seq<T>, Error> {
    match r {
        Ok(rest) => Ok(prefix + rest),
        Err(e) => Err(e),
    }
}

pub proof fn lemma_prepend_ok_assoc<T>(a: Seq<T>, c: Seq<T>, r: Result<Seq<T>, Error>)
    ensures
        prepend_ok(a, prepend_ok(c, r)) == prepend_ok(a + c, r),
{
    match r {
        Ok(rest) => {
            assert(a + (c + rest) =~= (a + c) + rest);
        },
        Err(_) => {},
    }
}

} // verus!
