//! Name tables: resident and non-resident names, the module reference
//! table and the imported names table.

use vstd::prelude::*;
use vstd::string::StringSliceAdditionalSpecFns;

use crate::codec::{addressable, le16};
use crate::ne::{spec_read_u16, spec_read_u8, spec_slice, spec_table_offset, Buffer, HeaderTable, NE};
use crate::types::{
    lemma_prepend_ok_assoc, prepend_ok, read_pascal, spec_pascal_at, PascalString,
};
use crate::{Error, ImageOS2Header};

verus! {

// ---------------------------------------------------------------------------
// Resident / non-resident name tables
// ---------------------------------------------------------------------------

/// A name-table entry: a name and its 2-byte ordinal.
#[derive(Debug, Clone, Copy, PartialEq, Eq)]
pub struct ResidentName<'a> {
    pub name: PascalString<'a>,
    pub ordinal: u16,
}

/// Each entry as its name bytes and ordinal.
pub open spec fn names_view<'a>(s: Seq<ResidentName<'a>>) -> Seq<(Seq<u8>, u16)> {
    s.map_values(|e: ResidentName<'a>| (e.name@, e.ordinal))
}

/// The entries of a name table starting at `pos`:
/// `[len][name bytes][ordinal: u16]` repeated until a zero length byte, or
/// (when `end` is given) until `pos` reaches `end`.
pub open spec fn spec_name_list(b: Seq<u8>, pos: int, end: Option<int>) -> Result<
    Seq<(Seq<u8>, u16)>,
    Error,
>
    decreases b.len() - pos,
{
    if end matches Some(e) && pos >= e {
        Ok(Seq::empty())
    } else if pos < 0 || pos + 1 > b.len() {
        Err(Error::HeaderOutOfBounds((pos + 1) as usize))
    } else if b[pos] == 0 {
        Ok(Seq::empty())
    } else if pos + 1 + b[pos] > b.len() {
        Err(Error::HeaderOutOfBounds((pos + 1 + b[pos]) as usize))
    } else if pos + 3 + b[pos] > b.len() {
        Err(Error::HeaderOutOfBounds((pos + 3 + b[pos]) as usize))
    } else {
        prepend_ok(
            seq![(b.subrange(pos + 1, pos + 1 + b[pos]), le16(b, pos + 1 + b[pos]))],
            spec_name_list(b, pos + 3 + b[pos], end),
        )
    }
}

/// An optional `usize` bound as an integer.
pub open spec fn opt_int(end: Option<usize>) -> Option<int> {
    match end {
        Some(e) => Some(e as int),
        None => None,
    }
}

/// Reads name-table entries from `start` (see `spec_name_list`).
fn parse_name_list<'a, P: NE>(ne: &'a P, start: usize, end: Option<usize>) -> (r: Result<
    Vec<ResidentName<'a>>,
    Error,
>)
    requires
        addressable(ne.bytes()),
        start <= 0x1_0001_0000,
        end is None ==> start <= 0xFFFF,
        end matches Some(e) ==> e <= ne.bytes().len(),
    ensures
        r matches Ok(v) ==> spec_name_list(ne.bytes(), start as int, opt_int(end)) == Ok::<
            Seq<(Seq<u8>, u16)>,
            Error,
        >(names_view(v@)),
        r matches Err(e) ==> spec_name_list(ne.bytes(), start as int, opt_int(end)) == Err::<
            Seq<(Seq<u8>, u16)>,
            Error,
        >(e),
{
    let ghost b = ne.bytes();
    let ghost bound = opt_int(end);
    let mut entries: Vec<ResidentName<'a>> = Vec::new();
    let mut pos = start;
    assert(names_view(entries@) =~= Seq::<(Seq<u8>, u16)>::empty());
    assert(spec_name_list(b, start as int, bound) == prepend_ok(
        names_view(entries@),
        spec_name_list(b, pos as int, bound),
    )) by {
        match spec_name_list(b, start as int, bound) {
            Ok(rest) => {
                assert(Seq::<(Seq<u8>, u16)>::empty() + rest =~= rest);
            },
            Err(_) => {},
        }
    }
    loop
        invariant
            b == ne.bytes(),
            bound == opt_int(end),
            addressable(b),
            start <= 0x1_0001_0000,
            end is None ==> start <= 0xFFFF,
            end matches Some(e) ==> e <= b.len(),
            pos <= start || pos <= b.len(),
            spec_name_list(b, start as int, bound) == prepend_ok(
                names_view(entries@),
                spec_name_list(b, pos as int, bound),
            ),
        ensures
            spec_name_list(b, start as int, bound) == Ok::<Seq<(Seq<u8>, u16)>, Error>(
                names_view(entries@),
            ),
        decreases (if pos <= b.len() {
            b.len() + 1 - pos
        } else {
            0
        }),
    {
        if let Some(e) = end {
            if pos >= e {
                assert(names_view(entries@) + Seq::<(Seq<u8>, u16)>::empty() =~= names_view(
                    entries@,
                ));
                break ;
            }
        }
        let head = ne.get_slice(pos, 1)?;
        let len_byte = head[0] as usize;
        assert(len_byte == b[pos as int]);
        if len_byte == 0 {
            assert(names_view(entries@) + Seq::<(Seq<u8>, u16)>::empty() =~= names_view(entries@));
            break ;
        }
        pos = pos + 1;
        let name_bytes = ne.get_slice(pos, len_byte)?;
        pos = pos + len_byte;
        let ordinal = ne.read_u16(pos)?;
        pos = pos + 2;
        let item = ResidentName { name: PascalString { data: name_bytes }, ordinal };
        let ghost before = entries@;
        entries.push(item);
        proof {
            assert(names_view(entries@) =~= names_view(before) + seq![(item.name@, item.ordinal)]);
            lemma_prepend_ok_assoc(
                names_view(before),
                seq![(item.name@, item.ordinal)],
                spec_name_list(b, pos as int, bound),
            );
        }
    }
    Ok(entries)
}

/// The index of the first entry with `ordinal`, if any.
pub open spec fn first_with_ordinal<'a>(s: Seq<ResidentName<'a>>, ordinal: u16, i: int) -> bool {
    &&& 0 <= i < s.len()
    &&& s[i].ordinal == ordinal
    &&& forall|j: int| 0 <= j < i ==> s[j].ordinal != ordinal
}

/// Finds the first entry with `ordinal`.
fn find_ordinal<'b, 'a>(entries: &'b Vec<ResidentName<'a>>, ordinal: u16) -> (r: Option<
    &'b ResidentName<'a>,
>)
    ensures
        r is None <==> forall|j: int| 0 <= j < entries@.len() ==> entries@[j].ordinal != ordinal,
        r matches Some(e) ==> exists|i: int|
            first_with_ordinal(entries@, ordinal, i) && *e == entries@[i],
{
    let mut i: usize = 0;
    while i < entries.len()
        invariant
            i <= entries@.len(),
            forall|j: int| 0 <= j < i ==> entries@[j].ordinal != ordinal,
        decreases entries@.len() - i,
    {
        if entries[i].ordinal == ordinal {
            assert(first_with_ordinal(entries@, ordinal, i as int));
            return Some(&entries[i]);
        }
        i = i + 1;
    }
    None
}

/// ASCII lower case of a byte.
pub open spec fn ascii_lower(c: u8) -> u8 {
    if 65 <= c <= 90 {
        (c + 32) as u8
    } else {
        c
    }
}

/// Equality of byte strings, ignoring ASCII case.
pub open spec fn eq_ignore_ascii_case(a: Seq<u8>, b: Seq<u8>) -> bool {
    &&& a.len() == b.len()
    &&& forall|i: int| 0 <= i < a.len() ==> ascii_lower(#[trigger] a[i]) == ascii_lower(b[i])
}

fn bytes_eq_ignore_ascii_case(a: &[u8], b: &[u8]) -> (r: bool)
    ensures
        r == eq_ignore_ascii_case(a@, b@),
{
    if a.len() != b.len() {
        return false;
    }
    let mut i: usize = 0;
    while i < a.len()
        invariant
            a@.len() == b@.len(),
            i <= a@.len(),
            forall|j: int| 0 <= j < i ==> ascii_lower(#[trigger] a@[j]) == ascii_lower(b@[j]),
        decreases a@.len() - i,
    {
        let x = a[i];
        let y = b[i];
        let lx = if 65 <= x && x <= 90 {
            x + 32
        } else {
            x
        };
        let ly = if 65 <= y && y <= 90 {
            y + 32
        } else {
            y
        };
        if lx != ly {
            return false;
        }
        i = i + 1;
    }
    true
}

/// The parsed resident names table.
pub struct ResidentNameTable<'a> {
    pub entries: Vec<ResidentName<'a>>,
}

/// The resident names table as `ResidentNameTable::parse` reads it: empty
/// when the header gives no table, else the entries at its file offset.
pub open spec fn spec_resident_names(b: Seq<u8>, hr: Result<ImageOS2Header, Error>) -> Result<
    Seq<(Seq<u8>, u16)>,
    Error,
> {
    let off = spec_table_offset(b, hr, HeaderTable::ResidentName);
    if off == 0 {
        Ok(Seq::empty())
    } else {
        spec_name_list(b, off as int, None)
    }
}

impl<'a> ResidentNameTable<'a> {
    /// Parses the resident names table: entries `[len][name][ordinal]`
    /// until a zero length byte; the first entry is the module name.
    pub fn parse<P: NE>(ne: &'a P) -> (r: Result<Self, Error>)
        requires
            addressable(ne.bytes()),
        ensures
            r matches Ok(t) ==> spec_resident_names(ne.bytes(), ne.spec_valid_ne_header()) == Ok::<
                Seq<(Seq<u8>, u16)>,
                Error,
            >(names_view(t.entries@)),
            r matches Err(e) ==> spec_resident_names(ne.bytes(), ne.spec_valid_ne_header())
                == Err::<Seq<(Seq<u8>, u16)>, Error>(e),
    {
        let offset = ne.resident_name_table_offset() as usize;
        if offset == 0 {
            let entries: Vec<ResidentName<'a>> = Vec::new();
            assert(names_view(entries@) =~= Seq::<(Seq<u8>, u16)>::empty());
            return Ok(ResidentNameTable { entries });
        }
        let entries = parse_name_list(ne, offset, None)?;
        Ok(ResidentNameTable { entries })
    }

    /// The first entry with `ordinal`.
    pub fn by_ordinal(&self, ordinal: u16) -> (r: Option<&ResidentName<'a>>)
        ensures
            r is None <==> forall|j: int|
                0 <= j < self.entries@.len() ==> self.entries@[j].ordinal != ordinal,
            r matches Some(e) ==> exists|i: int|
                first_with_ordinal(self.entries@, ordinal, i) && *e == self.entries@[i],
    {
        find_ordinal(&self.entries, ordinal)
    }

    /// The first entry whose name equals `name`, ignoring ASCII case.
    pub fn by_name(&self, name: &str) -> (r: Option<&ResidentName<'a>>)
        ensures
            r is None <==> forall|j: int|
                0 <= j < self.entries@.len() ==> !eq_ignore_ascii_case(
                    self.entries@[j].name@,
                    name.spec_bytes(),
                ),
            r matches Some(e) ==> exists|i: int|
                0 <= i < self.entries@.len() && *e == self.entries@[i] && eq_ignore_ascii_case(
                    self.entries@[i].name@,
                    name.spec_bytes(),
                ) && forall|j: int|
                    0 <= j < i ==> !eq_ignore_ascii_case(
                        self.entries@[j].name@,
                        name.spec_bytes(),
                    ),
    {
        let wanted = name.as_bytes();
        let mut i: usize = 0;
        while i < self.entries.len()
            invariant
                i <= self.entries@.len(),
                wanted@ == name.spec_bytes(),
                forall|j: int|
                    0 <= j < i ==> !eq_ignore_ascii_case(self.entries@[j].name@, name.spec_bytes()),
            decreases self.entries@.len() - i,
        {
            if bytes_eq_ignore_ascii_case(self.entries[i].name.as_bytes(), wanted) {
                return Some(&self.entries[i]);
            }
            i = i + 1;
        }
        None
    }
}

/// The parsed non-resident names table (same entry format, located at the
/// file offset `ne_nrestab` and bounded by `ne_cbnrestab`).
pub struct NonResidentNameTable<'a> {
    pub entries: Vec<ResidentName<'a>>,
}

/// The non-resident names table as `NonResidentNameTable::parse` reads it:
/// empty when its size or offset is 0, else the entries from its offset up
/// to its declared end (or the end of the buffer, if sooner).
pub open spec fn spec_non_resident_names(
    b: Seq<u8>,
    hr: Result<ImageOS2Header, Error>,
) -> Result<Seq<(Seq<u8>, u16)>, Error> {
    match hr {
        Err(e) => Err(e),
        Ok(h) => if h.non_res_name_size == 0 || h.non_res_name_table_offset == 0 {
            Ok(Seq::empty())
        } else {
            let end = h.non_res_name_table_offset + h.non_res_name_size;
            spec_name_list(
                b,
                h.non_res_name_table_offset as int,
                Some(
                    if end < b.len() {
                        end
                    } else {
                        b.len() as int
                    },
                ),
            )
        },
    }
}

impl<'a> NonResidentNameTable<'a> {
    /// Parses the non-resident names table.
    pub fn parse<P: NE>(ne: &'a P) -> (r: Result<Self, Error>)
        requires
            addressable(ne.bytes()),
        ensures
            r matches Ok(t) ==> spec_non_resident_names(ne.bytes(), ne.spec_valid_ne_header())
                == Ok::<Seq<(Seq<u8>, u16)>, Error>(names_view(t.entries@)),
            r matches Err(e) ==> spec_non_resident_names(ne.bytes(), ne.spec_valid_ne_header())
                == Err::<Seq<(Seq<u8>, u16)>, Error>(e),
    {
        let header = ne.get_valid_ne_header()?;
        let fields = header.common_fields();
        let size = fields.non_res_name_size as usize;
        let offset = fields.non_res_name_table_offset as usize;
        if size == 0 || offset == 0 {
            let entries: Vec<ResidentName<'a>> = Vec::new();
            assert(names_view(entries@) =~= Seq::<(Seq<u8>, u16)>::empty());
            return Ok(Self { entries });
        }
        let sum = offset as u64 + size as u64;
        let end: usize = if sum < ne.len() as u64 {
            sum as usize
        } else {
            ne.len()
        };
        let entries = parse_name_list(ne, offset, Some(end))?;
        Ok(Self { entries })
    }

    /// The first entry with `ordinal`.
    pub fn by_ordinal(&self, ordinal: u16) -> (r: Option<&ResidentName<'a>>)
        ensures
            r is None <==> forall|j: int|
                0 <= j < self.entries@.len() ==> self.entries@[j].ordinal != ordinal,
            r matches Some(e) ==> exists|i: int|
                first_with_ordinal(self.entries@, ordinal, i) && *e == self.entries@[i],
    {
        find_ordinal(&self.entries, ordinal)
    }
}

// ---------------------------------------------------------------------------
// Module reference table
// ---------------------------------------------------------------------------

/// `n` little-endian words read one after the other from `pos`; the first
/// read that fails gives the error.
pub open spec fn spec_words(b: Seq<u8>, pos: int, n: nat) -> Result<Seq<u16>, Error>
    decreases n,
{
    if n == 0 {
        Ok(Seq::empty())
    } else {
        match spec_read_u16(b, pos) {
            Err(e) => Err(e),
            Ok(w) => prepend_ok(seq![w], spec_words(b, pos + 2, (n - 1) as nat)),
        }
    }
}

/// The module reference table as `ModuleRefTable::parse` reads it:
/// `TableNotPresent` when the header gives no table, else `mod_count`
/// words at its file offset.
pub open spec fn spec_module_refs(b: Seq<u8>, hr: Result<ImageOS2Header, Error>) -> Result<
    Seq<u16>,
    Error,
> {
    let off = spec_table_offset(b, hr, HeaderTable::ModuleRef);
    if off == 0 {
        Err(Error::TableNotPresent("module_ref"))
    } else {
        match hr {
            Err(e) => Err(e),
            Ok(h) => spec_words(b, off as int, h.mod_count as nat),
        }
    }
}

/// The name that entry `index` (0-based) of `offsets` points to: the
/// Pascal string at the imported names table plus that entry's offset.
pub open spec fn spec_module_name(
    b: Seq<u8>,
    hr: Result<ImageOS2Header, Error>,
    offsets: Seq<u16>,
    index: int,
) -> Result<Seq<u8>, Error> {
    if index >= offsets.len() {
        Err(Error::TableOutOfBounds("module_ref", index as usize, offsets.len() as usize))
    } else {
        spec_pascal_at(
            b,
            spec_table_offset(b, hr, HeaderTable::ImportedNames) + offsets[index],
        )
    }
}

/// The module name of an import-ordinal relocation: `mod_ref_index` is
/// 1-based.
pub open spec fn spec_import_ordinal_name(
    b: Seq<u8>,
    hr: Result<ImageOS2Header, Error>,
    offsets: Seq<u16>,
    mod_ref_index: u16,
) -> Result<Seq<u8>, Error> {
    if mod_ref_index == 0 || mod_ref_index > offsets.len() {
        Err(
            Error::TableOutOfBounds(
                "module_ref",
                mod_ref_index as usize,
                offsets.len() as usize,
            ),
        )
    } else {
        spec_pascal_at(
            b,
            spec_table_offset(b, hr, HeaderTable::ImportedNames) + offsets[mod_ref_index - 1],
        )
    }
}

/// The parsed module reference table: offsets into the imported names
/// table, one per referenced module.
pub struct ModuleRefTable {
    pub offsets: Vec<u16>,
    pub count: u16,
}

impl ModuleRefTable {
    /// Parses the module reference table: `ne_cmod` words at `ne_modtab`.
    #[verifier::loop_isolation(false)]
    pub fn parse<P: NE>(ne: &P) -> (r: Result<Self, Error>)
        requires
            addressable(ne.bytes()),
        ensures
            r matches Ok(t) ==> spec_module_refs(ne.bytes(), ne.spec_valid_ne_header()) == Ok::<
                Seq<u16>,
                Error,
            >(t.offsets@) && (ne.spec_valid_ne_header() matches Ok(h) && t.count == h.mod_count)
                && t.offsets@.len() == t.count,
            r matches Err(e) ==> spec_module_refs(ne.bytes(), ne.spec_valid_ne_header()) == Err::<
                Seq<u16>,
                Error,
            >(e),
    {
        let offset = ne.module_ref_table_offset();
        if offset == 0 {
            return Err(Error::TableNotPresent("module_ref"));
        }
        let header = ne.get_valid_ne_header()?;
        let mod_count = header.common_fields().mod_count;
        let ghost b = ne.bytes();
        let mut offsets: Vec<u16> = Vec::new();
        let mut pos = offset as usize;
        let mut k: u16 = 0;
        assert(spec_words(b, pos as int, mod_count as nat) == prepend_ok(
            offsets@,
            spec_words(b, pos as int, mod_count as nat),
        )) by {
            match spec_words(b, pos as int, mod_count as nat) {
                Ok(rest) => {
                    assert(offsets@ + rest =~= rest);
                },
                Err(_) => {},
            }
        }
        while k < mod_count
            invariant
                b == ne.bytes(),
                k <= mod_count,
                pos == offset + 2 * k,
                offsets@.len() == k,
                offset <= 0xFFFF,
                spec_words(b, offset as int, mod_count as nat) == prepend_ok(
                    offsets@,
                    spec_words(b, pos as int, (mod_count - k) as nat),
                ),
            decreases mod_count - k,
        {
            let word = match ne.read_u16(pos) {
                Ok(w) => w,
                Err(e) => {
                    assert(spec_words(b, pos as int, (mod_count - k) as nat) == Err::<
                        Seq<u16>,
                        Error,
                    >(e));
                    return Err(e);
                },
            };
            let ghost before = offsets@;
            offsets.push(word);
            proof {
                lemma_prepend_ok_assoc(
                    before,
                    seq![word],
                    spec_words(b, pos + 2, (mod_count - k - 1) as nat),
                );
                assert(before + seq![word] =~= offsets@);
            }
            pos = pos + 2;
            k = k + 1;
        }
        assert(offsets@ + Seq::<u16>::empty() =~= offsets@);
        Ok(ModuleRefTable { offsets, count: mod_count })
    }

    /// The module name for a 0-based index into the table.
    pub fn get_name<'a, P: NE>(&self, ne: &'a P, index: usize) -> (r: Result<
        PascalString<'a>,
        Error,
    >)
        requires
            addressable(ne.bytes()),
        ensures
            r matches Ok(s) ==> spec_module_name(
                ne.bytes(),
                ne.spec_valid_ne_header(),
                self.offsets@,
                index as int,
            ) == Ok::<Seq<u8>, Error>(s@),
            r matches Err(e) ==> spec_module_name(
                ne.bytes(),
                ne.spec_valid_ne_header(),
                self.offsets@,
                index as int,
            ) == Err::<Seq<u8>, Error>(e),
    {
        if index >= self.offsets.len() {
            return Err(Error::TableOutOfBounds("module_ref", index, self.offsets.len()));
        }
        let itl_offset = ne.imported_names_table_offset() as usize;
        let str_offset = self.offsets[index] as usize + itl_offset;
        read_pascal(ne, str_offset)
    }

    /// The module name for an import-ordinal relocation (1-based index).
    pub fn resolve_import_ordinal_name<'a, P: NE>(&self, ne: &'a P, mod_ref_index: u16) -> (r:
        Result<PascalString<'a>, Error>)
        requires
            addressable(ne.bytes()),
        ensures
            r matches Ok(s) ==> spec_import_ordinal_name(
                ne.bytes(),
                ne.spec_valid_ne_header(),
                self.offsets@,
                mod_ref_index,
            ) == Ok::<Seq<u8>, Error>(s@),
            r matches Err(e) ==> spec_import_ordinal_name(
                ne.bytes(),
                ne.spec_valid_ne_header(),
                self.offsets@,
                mod_ref_index,
            ) == Err::<Seq<u8>, Error>(e),
    {
        if mod_ref_index == 0 || mod_ref_index as usize > self.offsets.len() {
            return Err(
                Error::TableOutOfBounds("module_ref", mod_ref_index as usize, self.offsets.len()),
            );
        }
        let idx = (mod_ref_index - 1) as usize;
        let offset = self.offsets[idx] as usize;
        let itl_offset = ne.imported_names_table_offset() as usize;
        let str_offset = itl_offset + offset;
        read_pascal(ne, str_offset)
    }

    /// The procedure name for an import-name relocation: the Pascal string
    /// at the imported names table plus `proc_name_offset`.
    pub fn resolve_import_name<P: NE>(ne: &P, proc_name_offset: u16) -> (r: Result<
        PascalString<'_>,
        Error,
    >)
        requires
            addressable(ne.bytes()),
        ensures
            r matches Ok(s) ==> spec_pascal_at(
                ne.bytes(),
                spec_table_offset(ne.bytes(), ne.spec_valid_ne_header(), HeaderTable::ImportedNames)
                    + proc_name_offset,
            ) == Ok::<Seq<u8>, Error>(s@),
            r matches Err(e) ==> spec_pascal_at(
                ne.bytes(),
                spec_table_offset(ne.bytes(), ne.spec_valid_ne_header(), HeaderTable::ImportedNames)
                    + proc_name_offset,
            ) == Err::<Seq<u8>, Error>(e),
    {
        let itl_offset = ne.imported_names_table_offset() as usize;
        let str_offset = itl_offset + proc_name_offset as usize;
        read_pascal(ne, str_offset)
    }
}

// ---------------------------------------------------------------------------
// Imported names table
// ---------------------------------------------------------------------------

/// Contiguous Pascal strings from `pos` while `pos < end`.
pub open spec fn spec_pascal_list(b: Seq<u8>, pos: int, end: int) -> Result<Seq<Seq<u8>>, Error>
    decreases end - pos,
{
    if pos >= end {
        Ok(Seq::empty())
    } else {
        match spec_pascal_at(b, pos) {
            Err(e) => Err(e),
            Ok(s) => if pos + 1 + s.len() >= end {
                Ok(seq![s])
            } else {
                prepend_ok(seq![s], spec_pascal_list(b, pos + 1 + s.len(), end))
            },
        }
    }
}

/// The imported names table as `ImportedNamesTable::parse` reads it:
/// `TableNotPresent` when the header gives no table, else the strings
/// from its file offset up to the entry table (when that follows it) or to
/// the end of the buffer.
pub open spec fn spec_imported_names(b: Seq<u8>, hr: Result<ImageOS2Header, Error>) -> Result<
    Seq<Seq<u8>>,
    Error,
> {
    let off = spec_table_offset(b, hr, HeaderTable::ImportedNames);
    if off == 0 {
        Err(Error::TableNotPresent("imported_names"))
    } else {
        match hr {
            Err(e) => Err(e),
            Ok(h) => spec_pascal_list(
                b,
                off as int,
                if h.entry_table_offset > h.imported_names_table_offset {
                    off + (h.entry_table_offset - h.imported_names_table_offset)
                } else {
                    b.len() as int
                },
            ),
        }
    }
}

/// Each string as its bytes.
pub open spec fn pascal_views<'a>(s: Seq<PascalString<'a>>) -> Seq<Seq<u8>> {
    s.map_values(|p: PascalString<'a>| p@)
}

/// The parsed imported names table: the Pascal strings (module and
/// procedure names) that module references and name relocations point to.
pub struct ImportedNamesTable<'a> {
    pub module_names: Vec<PascalString<'a>>,
}

impl<'a> ImportedNamesTable<'a> {
    /// Parses the imported names table: contiguous Pascal strings from
    /// `ne_imptab`, the leading empty string included.
    #[verifier::loop_isolation(false)]
    pub fn parse<P: NE>(ne: &'a P) -> (r: Result<Self, Error>)
        requires
            addressable(ne.bytes()),
        ensures
            r matches Ok(t) ==> spec_imported_names(ne.bytes(), ne.spec_valid_ne_header()) == Ok::<
                Seq<Seq<u8>>,
                Error,
            >(pascal_views(t.module_names@)),
            r matches Err(e) ==> spec_imported_names(ne.bytes(), ne.spec_valid_ne_header())
                == Err::<Seq<Seq<u8>>, Error>(e),
    {
        let offset = ne.imported_names_table_offset();
        if offset == 0 {
            return Err(Error::TableNotPresent("imported_names"));
        }
        let header = ne.get_valid_ne_header()?;
        let itl_rva = header.imported_names_table_offset as usize;
        let end = if header.entry_table_offset as usize > itl_rva {
            offset as usize + (header.entry_table_offset as usize - itl_rva)
        } else {
            ne.len()
        };
        let ghost b = ne.bytes();
        let mut module_names: Vec<PascalString<'a>> = Vec::new();
        let mut pos = offset as usize;
        assert(spec_pascal_list(b, pos as int, end as int) == prepend_ok(
            pascal_views(module_names@),
            spec_pascal_list(b, pos as int, end as int),
        )) by {
            match spec_pascal_list(b, pos as int, end as int) {
                Ok(rest) => {
                    assert(pascal_views(module_names@) + rest =~= rest);
                },
                Err(_) => {},
            }
        }
        while pos < end
            invariant
                b == ne.bytes(),
                addressable(b),
                end <= 0x20000 || end == b.len(),
                offset <= pos,
                pos <= end || pos == offset,
                spec_pascal_list(b, offset as int, end as int) == prepend_ok(
                    pascal_views(module_names@),
                    spec_pascal_list(b, pos as int, end as int),
                ),
            decreases end - pos,
        {
            let s = read_pascal(ne, pos)?;
            let len_byte = s.len();
            let ghost before = module_names@;
            module_names.push(s);
            proof {
                assert(spec_pascal_list(b, pos as int, end as int) == prepend_ok(
                    seq![s@],
                    spec_pascal_list(b, pos + 1 + len_byte, end as int),
                )) by {
                    if pos + 1 + len_byte >= end {
                        assert(seq![s@] + Seq::<Seq<u8>>::empty() =~= seq![s@]);
                    }
                }
                lemma_prepend_ok_assoc(
                    pascal_views(before),
                    seq![s@],
                    spec_pascal_list(b, pos + 1 + len_byte, end as int),
                );
                assert(pascal_views(before) + seq![s@] =~= pascal_views(module_names@));
            }
            pos = pos + 1 + len_byte;
            if pos > end {
                proof {
                    assert(spec_pascal_list(b, pos as int, end as int) == Ok::<
                        Seq<Seq<u8>>,
                        Error,
                    >(Seq::empty()));
                    assert(pascal_views(module_names@) + Seq::<Seq<u8>>::empty() =~= pascal_views(
                        module_names@,
                    ));
                }
                return Ok(ImportedNamesTable { module_names });
            }
        }
        assert(pascal_views(module_names@) + Seq::<Seq<u8>>::empty() =~= pascal_views(
            module_names@,
        ));
        Ok(ImportedNamesTable { module_names })
    }

    /// The names as text; the first one that is not valid UTF-8 gives
    /// `InvalidPascalString`.
    pub fn names_str(&self) -> (r: Result<Vec<&'a str>, Error>)
        ensures
            r is Ok <==> forall|i: int|
                0 <= i < self.module_names@.len() ==> vstd::utf8::valid_utf8(
                    #[trigger] self.module_names@[i]@,
                ),
            r matches Ok(v) ==> v@.len() == self.module_names@.len() && forall|i: int|
                0 <= i < v@.len() ==> #[trigger] v@[i].spec_bytes() == self.module_names@[i]@,
            r matches Err(e) ==> e == Error::InvalidPascalString,
    {
        let mut out: Vec<&'a str> = Vec::new();
        let mut i: usize = 0;
        while i < self.module_names.len()
            invariant
                i <= self.module_names@.len(),
                out@.len() == i,
                forall|j: int| 0 <= j < i ==> vstd::utf8::valid_utf8(#[trigger] self.module_names@[j]@),
                forall|j: int| 0 <= j < i ==> #[trigger] out@[j].spec_bytes() == self.module_names@[j]@,
            decreases self.module_names@.len() - i,
        {
            let s = self.module_names[i].as_str()?;
            out.push(s);
            i = i + 1;
        }
        Ok(out)
    }
}

/// The name of the module at 0-based index `i` of the module reference
/// table is the name that 1-based module reference `i + 1` resolves to.
pub proof fn module_name_is_reference_name(
    b: Seq<u8>,
    hr: Result<ImageOS2Header, Error>,
    offsets: Seq<u16>,
    i: int,
)
    requires
        0 <= i < offsets.len(),
        offsets.len() <= 0xFFFF,
    ensures
        spec_module_name(b, hr, offsets, i) == spec_import_ordinal_name(
            b,
            hr,
            offsets,
            (i + 1) as u16,
        ),
{
}

// ---------------------------------------------------------------------------
// Laws of the name tables
// ---------------------------------------------------------------------------

/// The name records `ns` lie one after the other from `pos`: each is a
/// length byte (1 to 255), that many name bytes and a little-endian
/// ordinal, starting before `end` when there is one; after the last, `end`
/// is reached or a zero length byte ends the list.
pub open spec fn name_records_at(
    b: Seq<u8>,
    pos: int,
    end: Option<int>,
    ns: Seq<(Seq<u8>, u16)>,
) -> bool
    decreases ns.len(),
{
    if ns.len() == 0 {
        (end matches Some(e) && pos >= e) || (0 <= pos < b.len() && b[pos] == 0)
    } else {
        let n = ns[0].0.len();
        &&& !(end matches Some(e) && pos >= e)
        &&& 0 <= pos && pos + 3 + n <= b.len()
        &&& b[pos] == n && 1 <= n <= 255
        &&& ns[0].0 == b.subrange(pos + 1, pos + 1 + n)
        &&& ns[0].1 == le16(b, pos + 1 + n)
        &&& name_records_at(b, pos + 3 + n, end, ns.drop_first())
    }
}

/// A name list that reads is made of name records.
pub proof fn name_list_is_records(b: Seq<u8>, pos: int, end: Option<int>)
    requires
        spec_name_list(b, pos, end) is Ok,
    ensures
        name_records_at(b, pos, end, spec_name_list(b, pos, end)->Ok_0),
    decreases b.len() - pos,
{
    let ns = spec_name_list(b, pos, end)->Ok_0;
    if end matches Some(e) && pos >= e {
    } else if b[pos] == 0 {
    } else {
        let n = b[pos] as int;
        let x = (b.subrange(pos + 1, pos + 1 + n), le16(b, pos + 1 + n));
        name_list_is_records(b, pos + 3 + n, end);
        let rest = spec_name_list(b, pos + 3 + n, end)->Ok_0;
        assert(ns == seq![x] + rest);
        assert(ns.drop_first() =~= rest);
    }
}

/// The resident names table: empty when the header gives no table; else
/// the name records from the table's file offset up to the first zero
/// length byte (the first record is the module's name).
pub proof fn resident_names_are_records(b: Seq<u8>, hr: Result<ImageOS2Header, Error>)
    ensures
        spec_table_offset(b, hr, HeaderTable::ResidentName) == 0 ==> spec_resident_names(b, hr)
            == Ok::<Seq<(Seq<u8>, u16)>, Error>(Seq::empty()),
        spec_resident_names(b, hr) is Ok && spec_table_offset(b, hr, HeaderTable::ResidentName)
            != 0 ==> name_records_at(
            b,
            spec_table_offset(b, hr, HeaderTable::ResidentName) as int,
            None,
            spec_resident_names(b, hr)->Ok_0,
        ),
{
    let off = spec_table_offset(b, hr, HeaderTable::ResidentName);
    if off != 0 && spec_resident_names(b, hr) is Ok {
        name_list_is_records(b, off as int, None);
    }
}

/// The non-resident names table: a header error is passed on; empty when
/// its size or offset is 0; else the name records read from its offset (an
/// absolute file offset) while a record starts before the smaller of the
/// table's end and the buffer's end, up to the first zero length byte.
pub proof fn non_resident_names_are_records(b: Seq<u8>, hr: Result<ImageOS2Header, Error>)
    ensures
        hr matches Err(e) ==> spec_non_resident_names(b, hr) == Err::<
            Seq<(Seq<u8>, u16)>,
            Error,
        >(e),
        hr matches Ok(h) && (h.non_res_name_size == 0 || h.non_res_name_table_offset == 0)
            ==> spec_non_resident_names(b, hr) == Ok::<Seq<(Seq<u8>, u16)>, Error>(Seq::empty()),
        hr is Ok && hr->Ok_0.non_res_name_size != 0 && hr->Ok_0.non_res_name_table_offset != 0
            && spec_non_resident_names(b, hr) is Ok ==> name_records_at(
            b,
            hr->Ok_0.non_res_name_table_offset as int,
            Some(
                if hr->Ok_0.non_res_name_table_offset + hr->Ok_0.non_res_name_size < b.len() {
                    hr->Ok_0.non_res_name_table_offset + hr->Ok_0.non_res_name_size
                } else {
                    b.len() as int
                },
            ),
            spec_non_resident_names(b, hr)->Ok_0,
        ),
{
    let h = hr->Ok_0;
    if hr is Ok && h.non_res_name_size != 0 && h.non_res_name_table_offset != 0
        && spec_non_resident_names(b, hr) is Ok {
        let end = h.non_res_name_table_offset + h.non_res_name_size;
        name_list_is_records(
            b,
            h.non_res_name_table_offset as int,
            Some(
                if end < b.len() {
                    end
                } else {
                    b.len() as int
                },
            ),
        );
    }
}

/// The strings `ss` lie one after the other from `pos` as Pascal strings
/// (a length byte, then that many bytes; empty strings included), each
/// starting before `end`, and the last reaching `end` or the next start
/// being `end` or past it.
pub open spec fn pascal_records_at(b: Seq<u8>, pos: int, end: int, ss: Seq<Seq<u8>>) -> bool
    decreases ss.len(),
{
    if ss.len() == 0 {
        pos >= end
    } else {
        let n = ss[0].len();
        &&& pos < end
        &&& 0 <= pos && pos + 1 + n <= b.len()
        &&& b[pos] == n
        &&& ss[0] == b.subrange(pos + 1, pos + 1 + n)
        &&& if pos + 1 + n >= end {
            ss.len() == 1
        } else {
            pascal_records_at(b, pos + 1 + n, end, ss.drop_first())
        }
    }
}

/// A Pascal string list that reads is made of contiguous Pascal strings up
/// to its bound, empty strings kept.
pub proof fn pascal_list_is_strings(b: Seq<u8>, pos: int, end: int)
    requires
        0 <= pos,
        spec_pascal_list(b, pos, end) is Ok,
    ensures
        pascal_records_at(b, pos, end, spec_pascal_list(b, pos, end)->Ok_0),
    decreases end - pos,
{
    if pos < end {
        let x = spec_pascal_at(b, pos)->Ok_0;
        let ss = spec_pascal_list(b, pos, end)->Ok_0;
        assert(b[pos] == x.len());
        if pos + 1 + x.len() < end {
            pascal_list_is_strings(b, pos + 1 + x.len(), end);
            let rest = spec_pascal_list(b, pos + 1 + x.len(), end)->Ok_0;
            assert(ss == seq![x] + rest);
            assert(ss.drop_first() =~= rest);
        }
    }
}

/// The imported names table, when it reads, is the contiguous Pascal
/// strings from its file offset up to its bound (the entry table, when
/// that follows it, else the end of the buffer), empty strings kept.
pub proof fn imported_names_are_strings(b: Seq<u8>, hr: Result<ImageOS2Header, Error>)
    ensures
        hr is Ok && spec_imported_names(b, hr) is Ok ==> pascal_records_at(
            b,
            spec_table_offset(b, hr, HeaderTable::ImportedNames) as int,
            if hr->Ok_0.entry_table_offset > hr->Ok_0.imported_names_table_offset {
                spec_table_offset(b, hr, HeaderTable::ImportedNames) + (hr->Ok_0.entry_table_offset
                    - hr->Ok_0.imported_names_table_offset)
            } else {
                b.len() as int
            },
            spec_imported_names(b, hr)->Ok_0,
        ),
{
    let h = hr->Ok_0;
    if hr is Ok && spec_imported_names(b, hr) is Ok {
        let off = spec_table_offset(b, hr, HeaderTable::ImportedNames);
        pascal_list_is_strings(
            b,
            off as int,
            if h.entry_table_offset > h.imported_names_table_offset {
                off + (h.entry_table_offset - h.imported_names_table_offset)
            } else {
                b.len() as int
            },
        );
    }
}

/// ASCII upper case of a byte.
pub open spec fn ascii_upper(c: u8) -> u8 {
    if 97 <= c <= 122 {
        (c - 32) as u8
    } else {
        c
    }
}

/// Looking up a name by `by_name` ignores ASCII case: a stored name
/// matches a name exactly when it matches that name in ASCII upper case,
/// and exactly when it matches it in ASCII lower case.
pub proof fn by_name_ignores_ascii_case(stored: Seq<u8>, name: Seq<u8>)
    ensures
        eq_ignore_ascii_case(stored, name) == eq_ignore_ascii_case(
            stored,
            name.map_values(|c: u8| ascii_upper(c)),
        ),
        eq_ignore_ascii_case(stored, name) == eq_ignore_ascii_case(
            stored,
            name.map_values(|c: u8| ascii_lower(c)),
        ),
{
    let up = name.map_values(|c: u8| ascii_upper(c));
    let low = name.map_values(|c: u8| ascii_lower(c));
    assert forall|i: int| 0 <= i < name.len() implies ascii_lower(up[i]) == ascii_lower(name[i])
        && ascii_lower(low[i]) == ascii_lower(name[i]) by {
        assert(up[i] == ascii_upper(name[i]));
        assert(low[i] == ascii_lower(name[i]));
    }
    if eq_ignore_ascii_case(stored, up) {
        assert forall|i: int| 0 <= i < stored.len() implies ascii_lower(#[trigger] stored[i])
            == ascii_lower(name[i]) by {
            assert(ascii_lower(stored[i]) == ascii_lower(up[i]));
        }
    }
    if eq_ignore_ascii_case(stored, low) {
        assert forall|i: int| 0 <= i < stored.len() implies ascii_lower(#[trigger] stored[i])
            == ascii_lower(name[i]) by {
            assert(ascii_lower(stored[i]) == ascii_lower(low[i]));
        }
    }
    if eq_ignore_ascii_case(stored, name) {
        assert forall|i: int| 0 <= i < stored.len() implies ascii_lower(#[trigger] stored[i])
            == ascii_lower(up[i]) && ascii_lower(stored[i]) == ascii_lower(low[i]) by {
            assert(ascii_lower(stored[i]) == ascii_lower(name[i]));
        }
    }
}

proof fn lemma_words(b: Seq<u8>, pos: int, n: nat)
    requires
        0 <= pos,
    ensures
        spec_words(b, pos, n) is Ok <==> (n == 0 || pos + 2 * n <= b.len()),
        spec_words(b, pos, n) matches Ok(ws) ==> ws.len() == n,
    decreases n,
{
    if n > 0 {
        lemma_words(b, pos + 2, (n - 1) as nat);
    }
}

/// The module reference table reads exactly when the header gives a table
/// and its `mod_count` words all fit in the buffer; it then holds
/// `mod_count` words.
pub proof fn module_refs_read_all_words(b: Seq<u8>, hr: Result<ImageOS2Header, Error>)
    ensures
        spec_module_refs(b, hr) is Ok <==> (spec_table_offset(b, hr, HeaderTable::ModuleRef) != 0
            && hr is Ok && (hr->Ok_0.mod_count == 0 || spec_table_offset(
            b,
            hr,
            HeaderTable::ModuleRef,
        ) + 2 * hr->Ok_0.mod_count <= b.len())),
        spec_module_refs(b, hr) is Ok ==> hr is Ok && spec_module_refs(b, hr)->Ok_0.len()
            == hr->Ok_0.mod_count,
{
    let off = spec_table_offset(b, hr, HeaderTable::ModuleRef);
    if off != 0 && hr is Ok {
        lemma_words(b, off as int, hr->Ok_0.mod_count as nat);
    }
}

} // verus!
