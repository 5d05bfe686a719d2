//! The resource table: type blocks (TYPEINFO) and their resource records
//! (NAMEINFO).

use vstd::arithmetic::power2::{lemma2_to64, lemma_pow2_strictly_increases, pow2};
use vstd::bits::lemma_u32_shl_is_mul;
use vstd::prelude::*;

use crate::codec::{addressable, le16};
use crate::ne::{spec_read_u16, spec_table_offset, Buffer, HeaderTable, NE};
use crate::types::{lemma_prepend_ok_assoc, prepend_ok, read_pascal, spec_pascal_at, PascalString};
use crate::{Error, ImageOS2Header};

verus! {

/// A resource or resource-type identifier as plain values: an ordinal, or
/// the bytes of a name.
pub enum IdView {
    Ordinal(u16),
    Name(Seq<u8>),
}

/// A resource record as plain values.
pub struct RecordView {
    pub offset: u32,
    pub length: u32,
    pub flags: u16,
    pub id: IdView,
    pub handle: u16,
    pub usage: u16,
}

/// A type block as plain values.
pub struct TypeInfoView {
    pub type_id: IdView,
    pub records: Seq<RecordView>,
}

/// Resource type identifier.
#[derive(Debug, Clone, Copy, PartialEq, Eq)]
pub enum ResourceTypeId<'a> {
    /// Predefined type (high bit set on disk), without the high bit.
    Ordinal(u16),
    /// Custom type name (a Pascal string in the table).
    Name(PascalString<'a>),
}

impl<'a> View for ResourceTypeId<'a> {
    type V = IdView;

    open spec fn view(&self) -> IdView {
        match self {
            ResourceTypeId::Ordinal(v) => IdView::Ordinal(*v),
            ResourceTypeId::Name(s) => IdView::Name(s@),
        }
    }
}

/// Resource identifier (ordinal or name).
#[derive(Debug, Clone, Copy, PartialEq, Eq)]
pub enum ResourceId<'a> {
    /// Predefined ordinal (high bit set on disk), without the high bit.
    Ordinal(u16),
    /// Name (a Pascal string in the table).
    Name(PascalString<'a>),
}

impl<'a> View for ResourceId<'a> {
    type V = IdView;

    open spec fn view(&self) -> IdView {
        match self {
            ResourceId::Ordinal(v) => IdView::Ordinal(*v),
            ResourceId::Name(s) => IdView::Name(s@),
        }
    }
}

/// A resource record (NAMEINFO).
#[derive(Debug, Clone, Copy)]
pub struct ResourceRecord<'a> {
    /// File offset of the data: the on-disk value shifted left by the
    /// table's size shift.
    pub offset: u32,
    /// Length of the data: the on-disk value shifted left by the size
    /// shift.
    pub length: u32,
    /// MOVEABLE, PURE, PRELOAD, DISCARDABLE flags.
    pub flags: u16,
    /// Ordinal or name.
    pub id: ResourceId<'a>,
    /// Reserved.
    pub handle: u16,
    /// Reserved.
    pub usage: u16,
}

impl<'a> View for ResourceRecord<'a> {
    type V = RecordView;

    open spec fn view(&self) -> RecordView {
        RecordView {
            offset: self.offset,
            length: self.length,
            flags: self.flags,
            id: self.id@,
            handle: self.handle,
            usage: self.usage,
        }
    }
}

/// A type block (TYPEINFO) with its records.
pub struct TypeInfo<'a> {
    pub type_id: ResourceTypeId<'a>,
    pub records: Vec<ResourceRecord<'a>>,
}

/// The records as plain values.
pub open spec fn records_view<'a>(s: Seq<ResourceRecord<'a>>) -> Seq<RecordView> {
    s.map_values(|r: ResourceRecord<'a>| r@)
}

impl<'a> View for TypeInfo<'a> {
    type V = TypeInfoView;

    open spec fn view(&self) -> TypeInfoView {
        TypeInfoView { type_id: self.type_id@, records: records_view(self.records@) }
    }
}

/// The type blocks as plain values.
pub open spec fn types_view<'a>(s: Seq<TypeInfo<'a>>) -> Seq<TypeInfoView> {
    s.map_values(|t: TypeInfo<'a>| t@)
}

/// An on-disk identifier word: with the high bit set, the ordinal in the
/// low 15 bits; otherwise the offset, from the table start `start`, of a
/// Pascal string name.
pub open spec fn spec_res_id(b: Seq<u8>, start: int, raw: u16) -> Result<IdView, Error> {
    if raw & 0x8000 != 0 {
        Ok(IdView::Ordinal(raw & 0x7FFF))
    } else {
        match spec_pascal_at(b, start + raw) {
            Err(e) => Err(e),
            Ok(s) => Ok(IdView::Name(s)),
        }
    }
}

/// A value stored right-shifted by `shift`, restored.
pub open spec fn scaled(raw: u16, shift: u16) -> u32 {
    (raw * pow2(shift as nat)) as u32
}

/// The record at `pos`: six words `[offset][length][flags][id][handle]
/// [usage]`, read in that order (the first that does not fit gives the
/// error), then its identifier.
pub open spec fn spec_res_record(b: Seq<u8>, start: int, shift: u16, pos: int) -> Result<
    RecordView,
    Error,
> {
    if pos + 2 > b.len() {
        Err(Error::HeaderOutOfBounds((pos + 2) as usize))
    } else if pos + 4 > b.len() {
        Err(Error::HeaderOutOfBounds((pos + 4) as usize))
    } else if pos + 6 > b.len() {
        Err(Error::HeaderOutOfBounds((pos + 6) as usize))
    } else if pos + 8 > b.len() {
        Err(Error::HeaderOutOfBounds((pos + 8) as usize))
    } else if pos + 10 > b.len() {
        Err(Error::HeaderOutOfBounds((pos + 10) as usize))
    } else if pos + 12 > b.len() {
        Err(Error::HeaderOutOfBounds((pos + 12) as usize))
    } else {
        match spec_res_id(b, start, le16(b, pos + 6)) {
            Err(e) => Err(e),
            Ok(id) => Ok(
                RecordView {
                    offset: scaled(le16(b, pos), shift),
                    length: scaled(le16(b, pos + 2), shift),
                    flags: le16(b, pos + 4),
                    id,
                    handle: le16(b, pos + 8),
                    usage: le16(b, pos + 10),
                },
            ),
        }
    }
}

/// `k` records from `pos`, 12 bytes each.
pub open spec fn spec_res_records(b: Seq<u8>, start: int, shift: u16, pos: int, k: nat) -> Result<
    Seq<RecordView>,
    Error,
>
    decreases k,
{
    if k == 0 {
        Ok(Seq::empty())
    } else {
        match spec_res_record(b, start, shift, pos) {
            Err(e) => Err(e),
            Ok(r) => prepend_ok(seq![r], spec_res_records(b, start, shift, pos + 12, (k - 1) as nat)),
        }
    }
}

pub proof fn lemma_res_records_fit(b: Seq<u8>, start: int, shift: u16, pos: int, k: nat)
    requires
        spec_res_records(b, start, shift, pos, k) is Ok,
        k > 0,
    ensures
        pos + 12 * k <= b.len(),
    decreases k,
{
    if k > 1 {
        lemma_res_records_fit(b, start, shift, pos + 12, (k - 1) as nat);
    }
}

/// The type blocks from `pos`: `[type id][count][reserved: u32]` followed
/// by `count` records. The table ends at a type id of 0, or when `pos`
/// reaches the resident-name table at `restab` (when there is one).
pub open spec fn spec_res_types(
    b: Seq<u8>,
    start: int,
    restab: int,
    shift: u16,
    pos: int,
) -> Result<Seq<TypeInfoView>, Error>
    decreases b.len() + 8 - pos,
{
    if restab > 0 && pos >= restab {
        Ok(Seq::empty())
    } else if pos + 2 > b.len() {
        Err(Error::HeaderOutOfBounds((pos + 2) as usize))
    } else if le16(b, pos) == 0 {
        Ok(Seq::empty())
    } else if pos + 4 > b.len() {
        Err(Error::HeaderOutOfBounds((pos + 4) as usize))
    } else {
        match spec_res_id(b, start, le16(b, pos)) {
            Err(e) => Err(e),
            Ok(type_id) => match spec_res_records(b, start, shift, pos + 8, le16(b, pos + 2) as nat) {
                Err(e) => Err(e),
                Ok(records) => {
                    proof {
                        if le16(b, pos + 2) > 0 {
                            lemma_res_records_fit(b, start, shift, pos + 8, le16(b, pos + 2) as nat);
                        }
                    }
                    prepend_ok(
                        seq![TypeInfoView { type_id, records }],
                        spec_res_types(b, start, restab, shift, pos + 8 + 12 * le16(b, pos + 2)),
                    )
                },
            },
        }
    }
}

/// The resource table as `ResourceTable::parse` reads it, as its size
/// shift and its type blocks: `TableNotPresent` without a table; an empty
/// table (shift 0) when the header declares no resources; else the size
/// shift (first word of the table, at most 16, else
/// `InvalidResourceAlignment`) and the type blocks after it.
pub open spec fn spec_resource_table(b: Seq<u8>, hr: Result<ImageOS2Header, Error>) -> Result<
    (u16, Seq<TypeInfoView>),
    Error,
> {
    let start = spec_table_offset(b, hr, HeaderTable::Resource);
    if start == 0 {
        Err(Error::TableNotPresent("resource_table"))
    } else {
        match hr {
            Err(e) => Err(e),
            Ok(h) => if h.resource_count == 0 {
                Ok((0u16, Seq::empty()))
            } else {
                match spec_read_u16(b, start as int) {
                    Err(e) => Err(e),
                    Ok(shift) => if shift > 16 {
                        Err(Error::InvalidResourceAlignment(shift))
                    } else {
                        match spec_res_types(
                            b,
                            start as int,
                            spec_table_offset(b, hr, HeaderTable::ResidentName) as int,
                            shift,
                            start + 2,
                        ) {
                            Err(e) => Err(e),
                            Ok(types) => Ok((shift, types)),
                        }
                    },
                }
            },
        }
    }
}

/// Parsed resource table.
pub struct ResourceTable<'a> {
    /// The table's own size shift (its first word), by which record
    /// offsets and lengths are stored right-shifted.
    pub alignment_shift: u16,
    pub type_info: Vec<TypeInfo<'a>>,
}

/// Restores a value stored right-shifted by `shift`.
fn unscale(raw: u16, shift: u16) -> (r: u32)
    requires
        shift <= 16,
    ensures
        r == scaled(raw, shift),
        r == raw * pow2(shift as nat),
{
    let x = raw as u32;
    proof {
        lemma2_to64();
        if shift < 16 {
            lemma_pow2_strictly_increases(shift as nat, 16);
        }
        assert(x * pow2(shift as nat) <= 0xFFFF * 65536) by (nonlinear_arith)
            requires
                x <= 0xFFFF,
                pow2(shift as nat) <= 65536,
        ;
        lemma_u32_shl_is_mul(x, shift as u32);
    }
    x << (shift as u32)
}

impl<'a> ResourceTable<'a> {
    /// Reads an identifier word's value: an ordinal, or a name at
    /// `start + raw`.
    fn read_id<P: NE>(ne: &'a P, start: usize, raw: u16) -> (r: Result<ResourceId<'a>, Error>)
        requires
            start <= 0xFFFF,
        ensures
            r matches Ok(id) ==> spec_res_id(ne.bytes(), start as int, raw) == Ok::<IdView, Error>(
                id@,
            ),
            r matches Err(e) ==> spec_res_id(ne.bytes(), start as int, raw) == Err::<IdView, Error>(
                e,
            ),
    {
        if raw & 0x8000 != 0 {
            Ok(ResourceId::Ordinal(raw & 0x7FFF))
        } else {
            let name = read_pascal(ne, start + raw as usize)?;
            Ok(ResourceId::Name(name))
        }
    }

    /// Reads the record at `pos`.
    fn read_record<P: NE>(ne: &'a P, start: usize, shift: u16, pos: usize) -> (r: Result<
        ResourceRecord<'a>,
        Error,
    >)
        requires
            start <= 0xFFFF,
            shift <= 16,
            pos + 12 <= usize::MAX,
        ensures
            r matches Ok(rec) ==> spec_res_record(ne.bytes(), start as int, shift, pos as int)
                == Ok::<RecordView, Error>(rec@),
            r matches Err(e) ==> spec_res_record(ne.bytes(), start as int, shift, pos as int)
                == Err::<RecordView, Error>(e),
    {
        let offset_raw = ne.read_u16(pos)?;
        let length_raw = ne.read_u16(pos + 2)?;
        let flags = ne.read_u16(pos + 4)?;
        let id_raw = ne.read_u16(pos + 6)?;
        let handle = ne.read_u16(pos + 8)?;
        let usage = ne.read_u16(pos + 10)?;
        let id = Self::read_id(ne, start, id_raw)?;
        Ok(
            ResourceRecord {
                offset: unscale(offset_raw, shift),
                length: unscale(length_raw, shift),
                flags,
                id,
                handle,
                usage,
            },
        )
    }

    /// Reads `count` records from `pos`.
    fn read_records<P: NE>(ne: &'a P, start: usize, shift: u16, pos: usize, count: u16) -> (r:
        Result<Vec<ResourceRecord<'a>>, Error>)
        requires
            addressable(ne.bytes()),
            start <= 0xFFFF,
            shift <= 16,
            pos <= ne.bytes().len() + 8,
        ensures
            r matches Ok(v) ==> spec_res_records(
                ne.bytes(),
                start as int,
                shift,
                pos as int,
                count as nat,
            ) == Ok::<Seq<RecordView>, Error>(records_view(v@)),
            r matches Err(e) ==> spec_res_records(
                ne.bytes(),
                start as int,
                shift,
                pos as int,
                count as nat,
            ) == Err::<Seq<RecordView>, Error>(e),
    {
        let ghost b = ne.bytes();
        let ghost total = spec_res_records(b, start as int, shift, pos as int, count as nat);
        let mut records: Vec<ResourceRecord<'a>> = Vec::new();
        let mut p = pos;
        let mut k: u16 = 0;
        proof {
            assert(records_view(records@) =~= Seq::<RecordView>::empty());
            assert(Seq::<RecordView>::empty() + total->Ok_0 =~= total->Ok_0);
        }
        while k < count
            invariant
                b == ne.bytes(),
                addressable(b),
                start <= 0xFFFF,
                shift <= 16,
                k <= count,
                p <= b.len() + 8,
                total == spec_res_records(b, start as int, shift, pos as int, count as nat),
                total == prepend_ok(
                    records_view(records@),
                    spec_res_records(b, start as int, shift, p as int, (count - k) as nat),
                ),
            decreases count - k,
        {
            let rec = Self::read_record(ne, start, shift, p)?;
            let ghost before = records@;
            records.push(rec);
            proof {
                lemma_prepend_ok_assoc(
                    records_view(before),
                    seq![rec@],
                    spec_res_records(b, start as int, shift, p + 12, (count - k - 1) as nat),
                );
                assert(records_view(before) + seq![rec@] =~= records_view(records@));
            }
            p = p + 12;
            k = k + 1;
        }
        proof {
            assert(records_view(records@) + Seq::<RecordView>::empty() =~= records_view(records@));
        }
        Ok(records)
    }

    /// Parses the resource table: `TableNotPresent` when the header gives
    /// none; an empty table when the header declares no resources;
    /// otherwise the size shift (at most 16) and the type blocks up to a
    /// zero type id or the resident-name table.
    pub fn parse<P: NE>(ne: &'a P) -> (r: Result<Self, Error>)
        requires
            addressable(ne.bytes()),
        ensures
            r matches Ok(t) ==> spec_resource_table(ne.bytes(), ne.spec_valid_ne_header()) == Ok::<
                (u16, Seq<TypeInfoView>),
                Error,
            >((t.alignment_shift, types_view(t.type_info@))),
            r matches Err(e) ==> spec_resource_table(ne.bytes(), ne.spec_valid_ne_header())
                == Err::<(u16, Seq<TypeInfoView>), Error>(e),
    {
        let ghost b = ne.bytes();
        let start = ne.resource_table_offset() as usize;
        if start == 0 {
            return Err(Error::TableNotPresent("resource_table"));
        }
        let header = ne.get_valid_ne_header()?;
        if header.common_fields().resource_count == 0 {
            let empty: Vec<TypeInfo<'a>> = Vec::new();
            assert(types_view(empty@) =~= Seq::<TypeInfoView>::empty());
            return Ok(ResourceTable { alignment_shift: 0, type_info: empty });
        }
        let size_shift = ne.read_u16(start)?;
        if size_shift > 16 {
            return Err(Error::InvalidResourceAlignment(size_shift));
        }
        let restab = ne.resident_name_table_offset() as usize;
        let ghost total = spec_res_types(b, start as int, restab as int, size_shift, start + 2);
        let mut type_info: Vec<TypeInfo<'a>> = Vec::new();
        let mut pos = start + 2;
        proof {
            assert(types_view(type_info@) =~= Seq::<TypeInfoView>::empty());
            assert(Seq::<TypeInfoView>::empty() + total->Ok_0 =~= total->Ok_0);
        }
        loop
            invariant
                b == ne.bytes(),
                addressable(b),
                1 <= start <= 0xFFFF,
                restab <= 0xFFFF,
                size_shift <= 16,
                pos <= b.len() + 8,
                spec_resource_table(b, ne.spec_valid_ne_header()) == match total {
                    Ok(ts) => Ok::<(u16, Seq<TypeInfoView>), Error>((size_shift, ts)),
                    Err(e) => Err(e),
                },
                total == prepend_ok(
                    types_view(type_info@),
                    spec_res_types(b, start as int, restab as int, size_shift, pos as int),
                ),
            ensures
                total == Ok::<Seq<TypeInfoView>, Error>(types_view(type_info@)),
            decreases b.len() + 8 - pos,
        {
            if restab > 0 && pos >= restab {
                assert(types_view(type_info@) + Seq::<TypeInfoView>::empty() =~= types_view(
                    type_info@,
                ));
                break ;
            }
            let type_id_raw = ne.read_u16(pos)?;
            if type_id_raw == 0 {
                assert(types_view(type_info@) + Seq::<TypeInfoView>::empty() =~= types_view(
                    type_info@,
                ));
                break ;
            }
            let record_count = ne.read_u16(pos + 2)?;
            let type_id = match Self::read_id(ne, start, type_id_raw)? {
                ResourceId::Ordinal(v) => ResourceTypeId::Ordinal(v),
                ResourceId::Name(name) => ResourceTypeId::Name(name),
            };
            let records = Self::read_records(ne, start, size_shift, pos + 8, record_count)?;
            let info = TypeInfo { type_id, records };
            proof {
                if record_count > 0 {
                    lemma_res_records_fit(b, start as int, size_shift, pos + 8, record_count as nat);
                }
            }
            let ghost before = type_info@;
            type_info.push(info);
            proof {
                lemma_prepend_ok_assoc(
                    types_view(before),
                    seq![info@],
                    spec_res_types(
                        b,
                        start as int,
                        restab as int,
                        size_shift,
                        pos + 8 + 12 * record_count,
                    ),
                );
                assert(types_view(before) + seq![info@] =~= types_view(type_info@));
            }
            pos = pos + 8 + 12 * record_count as usize;
        }
        Ok(ResourceTable { alignment_shift: size_shift, type_info })
    }
}

/// Restoring a shifted value loses nothing: for a size shift of at most
/// 16, the stored 16-bit value times `2^shift` fits in 32 bits, and is a
/// multiple of `2^shift`.
pub proof fn scaled_is_exact(raw: u16, shift: u16)
    requires
        shift <= 16,
    ensures
        scaled(raw, shift) == raw * pow2(shift as nat),
        scaled(raw, shift) as int % pow2(shift as nat) as int == 0,
{
    lemma2_to64();
    if shift < 16 {
        lemma_pow2_strictly_increases(shift as nat, 16);
    }
    assert(raw * pow2(shift as nat) <= 0xFFFF * 65536) by (nonlinear_arith)
        requires
            raw <= 0xFFFF,
            pow2(shift as nat) <= 65536,
    ;
    vstd::arithmetic::power2::lemma_pow2_pos(shift as nat);
    vstd::arithmetic::div_mod::lemma_mod_multiples_basic(raw as int, pow2(shift as nat) as int);
    assert(raw * pow2(shift as nat) == pow2(shift as nat) * raw) by (nonlinear_arith);
}

/// Every record's offset and length are multiples of `2^shift`.
pub open spec fn records_aligned(rs: Seq<RecordView>, shift: u16) -> bool {
    forall|j: int|
        0 <= j < rs.len() ==> (#[trigger] rs[j]).offset as int % pow2(shift as nat) as int == 0
            && rs[j].length as int % pow2(shift as nat) as int == 0
}

/// An identifier that is an ordinal is below `0x8000` (the high bit that
/// marks it on disk is cleared).
pub open spec fn id_masked(id: IdView) -> bool {
    id matches IdView::Ordinal(n) ==> n < 0x8000
}

/// The identifiers of a type block and of its records are masked.
pub open spec fn ids_masked(t: TypeInfoView) -> bool {
    &&& id_masked(t.type_id)
    &&& forall|j: int| 0 <= j < t.records.len() ==> id_masked(#[trigger] t.records[j].id)
}

proof fn lemma_res_id_masked(b: Seq<u8>, start: int, raw: u16)
    requires
        spec_res_id(b, start, raw) is Ok,
    ensures
        id_masked(spec_res_id(b, start, raw)->Ok_0),
{
    assert(raw & 0x7FFF < 0x8000) by (bit_vector);
}

proof fn lemma_records_aligned(b: Seq<u8>, start: int, shift: u16, pos: int, k: nat)
    requires
        shift <= 16,
        spec_res_records(b, start, shift, pos, k) is Ok,
    ensures
        records_aligned(spec_res_records(b, start, shift, pos, k)->Ok_0, shift),
        forall|j: int|
            0 <= j < spec_res_records(b, start, shift, pos, k)->Ok_0.len() ==> id_masked(
                (#[trigger] spec_res_records(b, start, shift, pos, k)->Ok_0[j]).id,
            ),
    decreases k,
{
    if k > 0 {
        let r = spec_res_record(b, start, shift, pos)->Ok_0;
        let rest = spec_res_records(b, start, shift, pos + 12, (k - 1) as nat)->Ok_0;
        let all = spec_res_records(b, start, shift, pos, k)->Ok_0;
        lemma_records_aligned(b, start, shift, pos + 12, (k - 1) as nat);
        scaled_is_exact(le16(b, pos), shift);
        scaled_is_exact(le16(b, pos + 2), shift);
        lemma_res_id_masked(b, start, le16(b, pos + 6));
        assert(all == seq![r] + rest);
        assert forall|j: int| 0 <= j < all.len() implies (#[trigger] all[j]).offset as int % pow2(
            shift as nat,
        ) as int == 0 && all[j].length as int % pow2(shift as nat) as int == 0 && id_masked(
            all[j].id,
        ) by {
            if j > 0 {
                assert(all[j] == rest[j - 1]);
            }
        }
    }
}

proof fn lemma_types_aligned(b: Seq<u8>, start: int, restab: int, shift: u16, pos: int)
    requires
        shift <= 16,
        spec_res_types(b, start, restab, shift, pos) is Ok,
    ensures
        forall|j: int|
            0 <= j < spec_res_types(b, start, restab, shift, pos)->Ok_0.len() ==> records_aligned(
                (#[trigger] spec_res_types(b, start, restab, shift, pos)->Ok_0[j]).records,
                shift,
            ) && ids_masked(spec_res_types(b, start, restab, shift, pos)->Ok_0[j]),
    decreases b.len() + 8 - pos,
{
    if !(restab > 0 && pos >= restab) && pos + 4 <= b.len() && le16(b, pos) != 0 {
        let count = le16(b, pos + 2);
        let all = spec_res_types(b, start, restab, shift, pos)->Ok_0;
        let records = spec_res_records(b, start, shift, pos + 8, count as nat)->Ok_0;
        let next = pos + 8 + 12 * count;
        let rest = spec_res_types(b, start, restab, shift, next)->Ok_0;
        if count > 0 {
            lemma_res_records_fit(b, start, shift, pos + 8, count as nat);
        }
        lemma_records_aligned(b, start, shift, pos + 8, count as nat);
        lemma_types_aligned(b, start, restab, shift, next);
        lemma_res_id_masked(b, start, le16(b, pos));
        assert forall|j: int| 0 <= j < all.len() implies records_aligned(
            (#[trigger] all[j]).records,
            shift,
        ) && ids_masked(all[j]) by {
            if j > 0 {
                assert(all[j] == rest[j - 1]);
            } else {
                assert(all[j].records == records);
            }
        }
    }
}

/// The offsets and lengths of the parsed resource records are multiples
/// of `2^shift`, for the table's size shift: the table stores them in units
/// of that size.
pub proof fn resource_records_aligned(
    b: Seq<u8>,
    hr: Result<ImageOS2Header, Error>,
    shift: u16,
    types: Seq<TypeInfoView>,
)
    requires
        spec_resource_table(b, hr) == Ok::<(u16, Seq<TypeInfoView>), Error>((shift, types)),
    ensures
        shift <= 16,
        forall|j: int| 0 <= j < types.len() ==> records_aligned((#[trigger] types[j]).records, shift),
{
    let start = spec_table_offset(b, hr, HeaderTable::Resource);
    let h = hr->Ok_0;
    if h.resource_count != 0 {
        lemma_types_aligned(
            b,
            start as int,
            spec_table_offset(b, hr, HeaderTable::ResidentName) as int,
            shift,
            start + 2,
        );
    }
}

/// The shape of the resource table: with a table but no declared
/// resource it is empty, with size shift 0; when it parses, its size shift
/// is at most 16, every record's offset and length are multiples of
/// `2^shift`, and every ordinal identifier (of a type or of a record) is
/// below `0x8000`.
pub proof fn resource_table_shape(b: Seq<u8>, hr: Result<ImageOS2Header, Error>)
    ensures
        spec_table_offset(b, hr, HeaderTable::Resource) != 0 && (hr matches Ok(h)
            && h.resource_count == 0) ==> spec_resource_table(b, hr) == Ok::<
            (u16, Seq<TypeInfoView>),
            Error,
        >((0u16, Seq::empty())),
        spec_resource_table(b, hr) matches Ok((shift, types)) ==> shift <= 16 && forall|j: int|
            0 <= j < types.len() ==> records_aligned((#[trigger] types[j]).records, shift)
                && ids_masked(types[j]),
{
    if spec_resource_table(b, hr) is Ok {
        let start = spec_table_offset(b, hr, HeaderTable::Resource);
        let h = hr->Ok_0;
        if h.resource_count != 0 {
            lemma_types_aligned(
                b,
                start as int,
                spec_table_offset(b, hr, HeaderTable::ResidentName) as int,
                spec_read_u16(b, start as int)->Ok_0,
                start + 2,
            );
        }
    }
}

} // verus!
