//! The entry table (exports).

use vstd::prelude::*;

use crate::codec::{addressable, le16};
use crate::ne::{spec_table_offset, Buffer, HeaderTable, NE};
use crate::types::{lemma_prepend_ok_assoc, prepend_ok};
use crate::{Error, ImageOS2Header};

verus! {

/// Export entry kind, with its payload.
#[derive(Debug, Clone, Copy, PartialEq, Eq)]
#[non_exhaustive]
pub enum EntryType {
    /// Fixed entry: the record's type byte (0x01-0xFD) is the segment number.
    Fixed { seg_num: u8, offset: u16 },
    /// Constant entry (type 0xFE).
    Constant { value: u16 },
    /// Movable entry (type 0xFF).
    Movable { seg_num: u8, offset: u16 },
}

/// A single exported entry.
#[derive(Debug, Clone, Copy, PartialEq, Eq)]
pub struct ExportEntry {
    /// Flags byte (bit 7 = private).
    pub flags: u8,
    /// Kind of entry, with its payload.
    pub entry_type: EntryType,
}

impl ExportEntry {
    /// The 1-based segment number (fixed and movable entries).
    pub fn seg_num(&self) -> (r: Option<u8>)
        ensures
            r == match self.entry_type {
                EntryType::Fixed { seg_num, .. } => Some(seg_num),
                EntryType::Movable { seg_num, .. } => Some(seg_num),
                EntryType::Constant { .. } => None,
            },
    {
        match self.entry_type {
            EntryType::Fixed { seg_num, .. } => Some(seg_num),
            EntryType::Movable { seg_num, .. } => Some(seg_num),
            EntryType::Constant { .. } => None,
        }
    }

    /// The offset in the segment (fixed and movable entries).
    pub fn offset(&self) -> (r: Option<u16>)
        ensures
            r == match self.entry_type {
                EntryType::Fixed { offset, .. } => Some(offset),
                EntryType::Movable { offset, .. } => Some(offset),
                EntryType::Constant { .. } => None,
            },
    {
        match self.entry_type {
            EntryType::Fixed { offset, .. } => Some(offset),
            EntryType::Movable { offset, .. } => Some(offset),
            EntryType::Constant { .. } => None,
        }
    }

    /// The constant value (constant entries).
    pub fn constant_value(&self) -> (r: Option<u16>)
        ensures
            r == match self.entry_type {
                EntryType::Constant { value } => Some(value),
                _ => None,
            },
    {
        match self.entry_type {
            EntryType::Constant { value } => Some(value),
            _ => None,
        }
    }
}

/// Bytes per entry for a record type: 0 for unused ordinals (type 0x00),
/// 6 for movable entries (0xFF), 3 otherwise.
pub open spec fn entry_width(etype: u8) -> int {
    if etype == 0x00 {
        0
    } else if etype == 0xFF {
        6
    } else {
        3
    }
}

/// The entry of record type `etype` at `pos`: movable
/// `[flags][x][x][seg][offset: u16]`, constant `[flags][value: u16]`, fixed
/// `[flags][offset: u16]` (segment = type byte). The first read past the
/// end gives the error.
pub open spec fn spec_export_at(b: Seq<u8>, pos: int, etype: u8) -> Result<ExportEntry, Error> {
    if pos + 1 > b.len() {
        Err(Error::HeaderOutOfBounds((pos + 1) as usize))
    } else if etype == 0xFF {
        if pos + 4 > b.len() {
            Err(Error::HeaderOutOfBounds((pos + 4) as usize))
        } else if pos + 6 > b.len() {
            Err(Error::HeaderOutOfBounds((pos + 6) as usize))
        } else {
            Ok(
                ExportEntry {
                    flags: b[pos],
                    entry_type: EntryType::Movable { seg_num: b[pos + 3], offset: le16(b, pos + 4) },
                },
            )
        }
    } else if pos + 3 > b.len() {
        Err(Error::HeaderOutOfBounds((pos + 3) as usize))
    } else if etype == 0xFE {
        Ok(ExportEntry { flags: b[pos], entry_type: EntryType::Constant { value: le16(b, pos + 1) } })
    } else {
        Ok(
            ExportEntry {
                flags: b[pos],
                entry_type: EntryType::Fixed { seg_num: etype, offset: le16(b, pos + 1) },
            },
        )
    }
}

/// A fixed entry (bundle type 1-0xFD) is its flags byte then its offset
/// word, in the segment that the bundle type numbers; a constant entry
/// (0xFE) is its flags byte then its value word.
pub proof fn fixed_and_constant_exports_read_their_bytes(b: Seq<u8>, pos: int, etype: u8)
    requires
        0 <= pos,
        pos + 3 <= b.len(),
    ensures
        etype != 0xFF && etype != 0xFE ==> spec_export_at(b, pos, etype) == Ok::<
            ExportEntry,
            Error,
        >(
            ExportEntry {
                flags: b[pos],
                entry_type: EntryType::Fixed {
                    seg_num: etype,
                    offset: (b[pos + 1] + 256 * b[pos + 2]) as u16,
                },
            },
        ),
        etype == 0xFE ==> spec_export_at(b, pos, etype) == Ok::<ExportEntry, Error>(
            ExportEntry {
                flags: b[pos],
                entry_type: EntryType::Constant { value: (b[pos + 1] + 256 * b[pos + 2]) as u16 },
            },
        ),
{
}

/// `k` entries of type `etype` from `pos`.
pub open spec fn spec_bundle(b: Seq<u8>, pos: int, etype: u8, k: nat) -> Result<
    Seq<Option<ExportEntry>>,
    Error,
>
    decreases k,
{
    if k == 0 {
        Ok(Seq::empty())
    } else {
        match spec_export_at(b, pos, etype) {
            Err(e) => Err(e),
            Ok(x) => prepend_ok(seq![Some(x)], spec_bundle(b, pos + entry_width(etype), etype, (k - 1) as nat)),
        }
    }
}

/// The ordinal slots of the entry-table records from `pos` up to `end`
/// (`slots` ordinals already assigned): records `[count][type][entries]`;
/// a record with count 0 ends the table; type 0 gives `count` unused
/// ordinals (`None`). A record whose entries do not fit before `end` is
/// `EntryTableCorrupt`, and so is a record whose two header bytes do not
/// fit before `end`; more than `u16::MAX` ordinals is
/// `EntryTableOverflow`.
pub open spec fn spec_entry_records(b: Seq<u8>, pos: int, end: int, slots: nat) -> Result<
    Seq<Option<ExportEntry>>,
    Error,
>
    decreases end - pos,
{
    if pos >= end {
        Ok(Seq::empty())
    } else if pos + 1 > b.len() {
        Err(Error::HeaderOutOfBounds((pos + 1) as usize))
    } else if pos + 2 > b.len() {
        Err(Error::HeaderOutOfBounds((pos + 2) as usize))
    } else if b[pos] == 0 {
        Ok(Seq::empty())
    } else if pos + 2 > end {
        Err(Error::EntryTableCorrupt)
    } else if end - (pos + 2) < b[pos] * entry_width(b[pos + 1]) {
        Err(Error::EntryTableCorrupt)
    } else if b[pos + 1] == 0 {
        if slots + b[pos] > 0xFFFF {
            Err(Error::EntryTableOverflow)
        } else {
            prepend_ok(
                Seq::new(b[pos] as nat, |i: int| None),
                spec_entry_records(b, pos + 2, end, (slots + b[pos]) as nat),
            )
        }
    } else {
        match spec_bundle(b, pos + 2, b[pos + 1], b[pos] as nat) {
            Err(e) => Err(e),
            Ok(es) => if slots + b[pos] > 0xFFFF {
                Err(Error::EntryTableOverflow)
            } else {
                prepend_ok(
                    es,
                    spec_entry_records(
                        b,
                        pos + 2 + b[pos] * entry_width(b[pos + 1]),
                        end,
                        (slots + b[pos]) as nat,
                    ),
                )
            },
        }
    }
}

/// The entry table as `EntryTable::parse` reads it: `TableNotPresent` when
/// the header gives no entry table, else the records from its file offset
/// up to its declared size.
pub open spec fn spec_entry_table(b: Seq<u8>, hr: Result<ImageOS2Header, Error>) -> Result<
    Seq<Option<ExportEntry>>,
    Error,
> {
    let off = spec_table_offset(b, hr, HeaderTable::Entry);
    if off == 0 {
        Err(Error::TableNotPresent("entry_table"))
    } else {
        match hr {
            Err(e) => Err(e),
            Ok(h) => spec_entry_records(b, off as int, off + h.entry_table_size, 0),
        }
    }
}

/// The number of present entries.
pub open spec fn count_some(s: Seq<Option<ExportEntry>>) -> nat
    decreases s.len(),
{
    if s.len() == 0 {
        0
    } else {
        count_some(s.drop_last()) + if s.last() is Some {
            1nat
        } else {
            0nat
        }
    }
}

/// The parsed entry table: `entries[i]` is the export with ordinal
/// `i + 1`, `None` for an unused ordinal.
#[derive(Debug, Clone, Default, PartialEq, Eq)]
pub struct EntryTable {
    pub entries: Vec<Option<ExportEntry>>,
}

impl EntryTable {
    /// Reads the entry of type `etype` at `pos`.
    fn read_export<P: NE>(ne: &P, pos: usize, etype: u8) -> (r: Result<ExportEntry, Error>)
        requires
            pos + 6 <= usize::MAX,
        ensures
            r == spec_export_at(ne.bytes(), pos as int, etype),
    {
        if etype == 0xFF {
            let flags = ne.read_u8(pos)?;
            let seg_num = ne.read_u8(pos + 3)?;
            let offset = ne.read_u16(pos + 4)?;
            Ok(ExportEntry { flags, entry_type: EntryType::Movable { seg_num, offset } })
        } else if etype == 0xFE {
            let flags = ne.read_u8(pos)?;
            let value = ne.read_u16(pos + 1)?;
            Ok(ExportEntry { flags, entry_type: EntryType::Constant { value } })
        } else {
            let flags = ne.read_u8(pos)?;
            let offset = ne.read_u16(pos + 1)?;
            Ok(ExportEntry { flags, entry_type: EntryType::Fixed { seg_num: etype, offset } })
        }
    }

    /// Appends `count` entries of type `etype` read from `p`.
    fn read_bundle<P: NE>(
        ne: &P,
        p: usize,
        etype: u8,
        count: u8,
        entries: &mut Vec<Option<ExportEntry>>,
    ) -> (r: Result<(), Error>)
        requires
            etype != 0,
            p + 6 * count <= 0x30000,
        ensures
            r matches Ok(_) ==> spec_bundle(ne.bytes(), p as int, etype, count as nat) == Ok::<
                Seq<Option<ExportEntry>>,
                Error,
            >(final(entries)@.subrange(old(entries)@.len() as int, final(entries)@.len() as int))
                && final(entries)@.subrange(0, old(entries)@.len() as int) == old(entries)@
                && final(entries)@.len() == old(entries)@.len() + count,
            r matches Err(e) ==> spec_bundle(ne.bytes(), p as int, etype, count as nat) == Err::<
                Seq<Option<ExportEntry>>,
                Error,
            >(e),
    {
        let ghost b = ne.bytes();
        let ghost before = entries@;
        let bytes_per_entry: usize = if etype == 0xFF {
            6
        } else {
            3
        };
        let mut q = p;
        let mut k: u8 = 0;
        proof {
            lemma_prepend_ok_empty(spec_bundle(b, p as int, etype, count as nat));
            assert(entries@.subrange(before.len() as int, entries@.len() as int) =~= Seq::<
                Option<ExportEntry>,
            >::empty());
        }
        while k < count
            invariant
                b == ne.bytes(),
                k <= count,
                q == p + k * bytes_per_entry,
                bytes_per_entry == entry_width(etype),
                p + 6 * count <= 0x30000,
                bytes_per_entry <= 6,
                before.len() + k == entries@.len(),
                entries@.subrange(0, before.len() as int) == before,
                spec_bundle(b, p as int, etype, count as nat) == prepend_ok(
                    entries@.subrange(before.len() as int, entries@.len() as int),
                    spec_bundle(b, q as int, etype, (count - k) as nat),
                ),
            decreases count - k,
        {
            let entry = Self::read_export(ne, q, etype)?;
            let ghost mid = entries@;
            entries.push(Some(entry));
            proof {
                lemma_prepend_ok_assoc(
                    mid.subrange(before.len() as int, mid.len() as int),
                    seq![Some(entry)],
                    spec_bundle(b, q + bytes_per_entry, etype, (count - k - 1) as nat),
                );
                assert(mid.subrange(before.len() as int, mid.len() as int) + seq![Some(entry)]
                    =~= entries@.subrange(before.len() as int, entries@.len() as int));
                assert(entries@.subrange(0, before.len() as int) =~= before);
            }
            q = q + bytes_per_entry;
            k = k + 1;
        }
        proof {
            let es = entries@.subrange(before.len() as int, entries@.len() as int);
            assert(es + Seq::<Option<ExportEntry>>::empty() =~= es);
        }
        Ok(())
    }

    /// Reads the record at `pos` (before `end`): `Ok(None)` for the
    /// terminator record, `Ok(Some(next))` after appending the record's
    /// ordinal slots, with `next` the position of the following record.
    fn read_record<P: NE>(
        ne: &P,
        pos: usize,
        end: usize,
        entries: &mut Vec<Option<ExportEntry>>,
    ) -> (r: Result<Option<usize>, Error>)
        requires
            addressable(ne.bytes()),
            pos < end,
            end <= 0x20000,
            old(entries)@.len() <= 0xFFFF,
        ensures
            r matches Ok(None) ==> spec_entry_records(
                ne.bytes(),
                pos as int,
                end as int,
                old(entries)@.len(),
            ) == Ok::<Seq<Option<ExportEntry>>, Error>(Seq::empty()) && final(entries)@
                == old(entries)@,
            r matches Ok(Some(next)) ==> {
                &&& pos < next <= end
                &&& final(entries)@.len() <= 0xFFFF
                &&& old(entries)@.len() <= final(entries)@.len()
                &&& final(entries)@.subrange(0, old(entries)@.len() as int) == old(entries)@
                &&& spec_entry_records(ne.bytes(), pos as int, end as int, old(entries)@.len())
                    == prepend_ok(
                    final(entries)@.subrange(
                        old(entries)@.len() as int,
                        final(entries)@.len() as int,
                    ),
                    spec_entry_records(ne.bytes(), next as int, end as int, final(entries)@.len()),
                )
            },
            r matches Err(e) ==> spec_entry_records(
                ne.bytes(),
                pos as int,
                end as int,
                old(entries)@.len(),
            ) == Err::<Seq<Option<ExportEntry>>, Error>(e),
    {
        let ghost b = ne.bytes();
        let ghost before = entries@;
        let count = ne.read_u8(pos)?;
        let etype = ne.read_u8(pos + 1)?;
        if count == 0 {
            return Ok(None);
        }
        if end - pos < 2 {
            return Err(Error::EntryTableCorrupt);
        }
        let p = pos + 2;
        let bytes_per_entry: usize = if etype == 0x00 {
            0
        } else if etype == 0xFF {
            6
        } else {
            3
        };
        if end - p < count as usize * bytes_per_entry {
            return Err(Error::EntryTableCorrupt);
        }
        if etype == 0x00 {
            let mut k: u8 = 0;
            while k < count
                invariant
                    k <= count,
                    entries@ == before + Seq::new(k as nat, |i: int| None::<ExportEntry>),
                decreases count - k,
            {
                entries.push(None);
                proof {
                    assert(entries@ =~= before + Seq::new((k + 1) as nat, |i: int| None::<ExportEntry>));
                }
                k = k + 1;
            }
            if entries.len() > 0xFFFF {
                return Err(Error::EntryTableOverflow);
            }
            proof {
                assert(entries@.subrange(0, before.len() as int) =~= before);
                assert(entries@.subrange(before.len() as int, entries@.len() as int) =~= Seq::new(
                    count as nat,
                    |i: int| None::<ExportEntry>,
                ));
            }
            Ok(Some(p))
        } else {
            Self::read_bundle(ne, p, etype, count, entries)?;
            if entries.len() > 0xFFFF {
                return Err(Error::EntryTableOverflow);
            }
            Ok(Some(p + count as usize * bytes_per_entry))
        }
    }

    /// Parses the entry table: records `[count][type][entries...]` from
    /// `ne_enttab`, bounded by `ne_cbenttab`; ordinals are assigned from 1
    /// in record order. A record that does not fit in the declared size,
    /// header bytes included, is `EntryTableCorrupt`.
    pub fn parse<P: NE>(ne: &P) -> (r: Result<Self, Error>)
        requires
            addressable(ne.bytes()),
        ensures
            r matches Ok(t) ==> spec_entry_table(ne.bytes(), ne.spec_valid_ne_header()) == Ok::<
                Seq<Option<ExportEntry>>,
                Error,
            >(t.entries@),
            r matches Err(e) ==> spec_entry_table(ne.bytes(), ne.spec_valid_ne_header()) == Err::<
                Seq<Option<ExportEntry>>,
                Error,
            >(e),
    {
        let start = ne.entry_table_offset() as usize;
        if start == 0 {
            return Err(Error::TableNotPresent("entry_table"));
        }
        let header = ne.get_valid_ne_header()?;
        let size = header.common_fields().entry_table_size as usize;
        let end = start + size;
        let ghost b = ne.bytes();
        let ghost total = spec_entry_records(b, start as int, end as int, 0);
        assert(total == spec_entry_table(ne.bytes(), ne.spec_valid_ne_header()));
        let mut entries: Vec<Option<ExportEntry>> = Vec::new();
        let mut pos = start;
        proof {
            lemma_prepend_ok_empty(spec_entry_records(b, pos as int, end as int, 0));
        }
        while pos < end
            invariant_except_break
                pos <= end,
            invariant
                b == ne.bytes(),
                addressable(b),
                end <= 0x20000,
                entries@.len() <= 0xFFFF,
                total == prepend_ok(
                    entries@,
                    spec_entry_records(b, pos as int, end as int, entries@.len()),
                ),
                total == spec_entry_table(b, ne.spec_valid_ne_header()),
            ensures
                total == Ok::<Seq<Option<ExportEntry>>, Error>(entries@),
            decreases end - pos,
        {
            let ghost before = entries@;
            match Self::read_record(ne, pos, end, &mut entries) {
                Err(e) => {
                    assert(total == prepend_ok(
                        before,
                        Err::<Seq<Option<ExportEntry>>, Error>(e),
                    ));
                    return Err(e);
                },
                Ok(None) => {
                    assert(entries@ + Seq::<Option<ExportEntry>>::empty() =~= entries@);
                    break ;
                },
                Ok(Some(next)) => {
                    proof {
                        let added = entries@.subrange(before.len() as int, entries@.len() as int);
                        lemma_prepend_ok_assoc(
                            before,
                            added,
                            spec_entry_records(b, next as int, end as int, entries@.len()),
                        );
                        assert(before + added =~= entries@);
                    }
                    pos = next;
                },
            }
        }
        Ok(EntryTable { entries })
    }

    /// The export with `ordinal` (1-based); `None` for ordinal 0, an
    /// unused ordinal, or one past the table.
    pub fn get_export(&self, ordinal: u16) -> (r: Option<&ExportEntry>)
        ensures
            r is Some <==> (ordinal >= 1 && ordinal - 1 < self.entries@.len()
                && self.entries@[ordinal - 1] is Some),
            r matches Some(e) ==> Some(*e) == self.entries@[ordinal - 1],
    {
        if ordinal == 0 {
            return None;
        }
        let idx = (ordinal - 1) as usize;
        if idx >= self.entries.len() {
            return None;
        }
        match &self.entries[idx] {
            Some(e) => Some(e),
            None => None,
        }
    }

    /// The number of present exports (unused ordinals excluded).
    pub fn export_count(&self) -> (r: usize)
        ensures
            r == count_some(self.entries@),
    {
        let mut n: usize = 0;
        let mut i: usize = 0;
        while i < self.entries.len()
            invariant
                i <= self.entries@.len(),
                n == count_some(self.entries@.subrange(0, i as int)),
                n <= i,
            decreases self.entries@.len() - i,
        {
            proof {
                assert(self.entries@.subrange(0, i + 1).drop_last() =~= self.entries@.subrange(
                    0,
                    i as int,
                ));
            }
            if self.entries[i].is_some() {
                n = n + 1;
            }
            i = i + 1;
        }
        proof {
            assert(self.entries@.subrange(0, i as int) =~= self.entries@);
        }
        n
    }
}

proof fn lemma_prepend_ok_empty<T>(r: Result<Seq<T>, Error>)
    ensures
        prepend_ok(Seq::<T>::empty(), r) == r,
{
    match r {
        Ok(rest) => {
            assert(Seq::<T>::empty() + rest =~= rest);
        },
        Err(_) => {},
    }
}

proof fn lemma_entry_records_fit(b: Seq<u8>, pos: int, end: int, slots: nat)
    requires
        slots <= 0xFFFF,
        spec_entry_records(b, pos, end, slots) is Ok,
    ensures
        slots + spec_entry_records(b, pos, end, slots)->Ok_0.len() <= 0xFFFF,
    decreases end - pos,
{
    if pos >= end || pos + 2 > b.len() || b[pos] == 0 {
    } else if b[pos + 1] == 0 {
        let n = b[pos] as nat;
        lemma_entry_records_fit(b, pos + 2, end, slots + n);
    } else {
        lemma_bundle_len(b, pos + 2, b[pos + 1], b[pos] as nat);
        lemma_entry_records_fit(
            b,
            pos + 2 + b[pos] * entry_width(b[pos + 1]),
            end,
            (slots + b[pos]) as nat,
        );
    }
}

proof fn lemma_bundle_len(b: Seq<u8>, pos: int, etype: u8, k: nat)
    requires
        spec_bundle(b, pos, etype, k) is Ok,
    ensures
        spec_bundle(b, pos, etype, k)->Ok_0.len() == k,
    decreases k,
{
    if k > 0 {
        lemma_bundle_len(b, pos + entry_width(etype), etype, (k - 1) as nat);
    }
}

/// A parsed entry table assigns at most `u16::MAX` ordinals, so every
/// ordinal slot has a 16-bit ordinal.
pub proof fn entry_table_ordinals_fit(b: Seq<u8>, hr: Result<ImageOS2Header, Error>)
    requires
        spec_entry_table(b, hr) is Ok,
    ensures
        spec_entry_table(b, hr)->Ok_0.len() <= 0xFFFF,
{
    let off = spec_table_offset(b, hr, HeaderTable::Entry);
    let h = hr->Ok_0;
    lemma_entry_records_fit(b, off as int, off + h.entry_table_size, 0);
}

/// `get_export` finds an export for ordinal `o` of the slots `es`: `o` is
/// 1-based, within the table, and its slot holds an export.
pub open spec fn exported(es: Seq<Option<ExportEntry>>, o: u16) -> bool {
    o >= 1 && o - 1 < es.len() && es[o - 1] is Some
}

/// The ordinals `1..=es.len()` for which `get_export` finds an export, in
/// increasing order.
pub open spec fn export_ordinals(es: Seq<Option<ExportEntry>>) -> Seq<u16> {
    Seq::new(es.len(), |i: int| (i + 1) as u16).filter(|o: u16| exported(es, o))
}

proof fn lemma_export_ordinals_prefix(es: Seq<Option<ExportEntry>>, k: nat)
    requires
        k <= es.len() <= 0xFFFF,
    ensures
        Seq::new(k, |i: int| (i + 1) as u16).filter(|o: u16| exported(es, o)).len() == count_some(
            es.subrange(0, k as int),
        ),
    decreases k,
{
    reveal(Seq::filter);
    let all = Seq::new(k, |i: int| (i + 1) as u16);
    if k == 0 {
        assert(es.subrange(0, 0) =~= Seq::<Option<ExportEntry>>::empty());
    } else {
        lemma_export_ordinals_prefix(es, (k - 1) as nat);
        assert(all.drop_last() =~= Seq::new((k - 1) as nat, |i: int| (i + 1) as u16));
        assert(es.subrange(0, k as int).drop_last() =~= es.subrange(0, k - 1));
        assert(all.last() == k as u16);
        assert(es.subrange(0, k as int).last() == es[k - 1]);
    }
}

/// The export count is the number of ordinals for which `get_export`
/// finds an export, which is at most the number of ordinal slots.
pub proof fn export_count_counts_found_ordinals(es: Seq<Option<ExportEntry>>)
    requires
        es.len() <= 0xFFFF,
    ensures
        count_some(es) == export_ordinals(es).len(),
        count_some(es) <= es.len(),
{
    lemma_export_ordinals_prefix(es, es.len());
    assert(es.subrange(0, es.len() as int) =~= es);
    Seq::new(es.len(), |i: int| (i + 1) as u16).lemma_filter_len(|o: u16| exported(es, o));
}

proof fn lemma_bundle_entries(b: Seq<u8>, pos: int, etype: u8, k: nat)
    requires
        spec_bundle(b, pos, etype, k) is Ok,
    ensures
        spec_bundle(b, pos, etype, k)->Ok_0.len() == k,
        forall|i: int|
            0 <= i < k ==> #[trigger] spec_bundle(b, pos, etype, k)->Ok_0[i] == Some(
                spec_export_at(b, pos + i * entry_width(etype), etype)->Ok_0,
            ),
    decreases k,
{
    if k > 0 {
        let w = entry_width(etype);
        lemma_bundle_entries(b, pos + w, etype, (k - 1) as nat);
        let es = spec_bundle(b, pos, etype, k)->Ok_0;
        let rest = spec_bundle(b, pos + w, etype, (k - 1) as nat)->Ok_0;
        assert forall|i: int| 0 <= i < k implies #[trigger] es[i] == Some(
            spec_export_at(b, pos + i * w, etype)->Ok_0,
        ) by {
            if i > 0 {
                assert(es[i] == rest[i - 1]);
                assert(pos + w + (i - 1) * w == pos + i * w) by (nonlinear_arith);
            }
        }
    }
}

/// An entry-table record `[count][type][entries]` gives the next `count`
/// ordinals: for type 0, `count` unused ordinals; else `count` entries,
/// entry `i` read `6 * i` bytes (movable, type 0xFF) or `3 * i` bytes
/// (fixed or constant) after the record's two header bytes.
pub proof fn entry_record_gives_count_ordinals(b: Seq<u8>, pos: int, end: int, slots: nat)
    requires
        spec_entry_records(b, pos, end, slots) is Ok,
        pos < end,
        pos + 2 <= b.len(),
        b[pos] != 0,
    ensures
        spec_entry_records(b, pos, end, slots)->Ok_0.len() >= b[pos],
        forall|i: int|
            0 <= i < b[pos] ==> #[trigger] spec_entry_records(b, pos, end, slots)->Ok_0[i] == if b[pos
                + 1] == 0 {
                None
            } else {
                Some(
                    spec_export_at(
                        b,
                        pos + 2 + i * if b[pos + 1] == 0xFF {
                            6int
                        } else {
                            3int
                        },
                        b[pos + 1],
                    )->Ok_0,
                )
            },
{
    let k = b[pos] as nat;
    let t = b[pos + 1];
    if t != 0 {
        lemma_bundle_entries(b, pos + 2, t, k);
    }
}

} // verus!
