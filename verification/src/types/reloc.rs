//! Per-segment relocation records and their fixup chains.

use vstd::prelude::*;
use vstd::std_specs::convert::FromSpecImpl;

use crate::codec::{addressable, get_le16, le16};
use crate::headers::{ImageOS2Header, SegmentFlags, SegmentRecord};
use crate::ne::{spec_segment_table, Buffer, NE};
use crate::types::{lemma_prepend_ok_assoc, prepend_ok};
use crate::Error;

verus! {

/// What part of a target address a relocation fixes up.
#[derive(Debug, Clone, Copy, PartialEq, Eq, Structural)]
#[non_exhaustive]
pub enum AddressType {
    /// 0x00: low byte of a 16-bit offset.
    LowByte,
    /// 0x02: 16-bit selector.
    Selector,
    /// 0x03: 32-bit far pointer (selector:offset).
    Pointer32,
    /// 0x05: 16-bit offset.
    Offset16,
    /// 0x0B: 48-bit pointer.
    Pointer48,
    /// 0x0D: 32-bit offset.
    Offset32,
    /// Any other byte, kept as read.
    Unknown(u8),
}

/// The address type that byte `v` encodes.
pub open spec fn spec_address_type(v: u8) -> AddressType {
    if v == 0 {
        AddressType::LowByte
    } else if v == 2 {
        AddressType::Selector
    } else if v == 3 {
        AddressType::Pointer32
    } else if v == 5 {
        AddressType::Offset16
    } else if v == 11 {
        AddressType::Pointer48
    } else if v == 13 {
        AddressType::Offset32
    } else {
        AddressType::Unknown(v)
    }
}

/// The on-disk byte of an address type.
pub open spec fn spec_address_type_byte(a: AddressType) -> u8 {
    match a {
        AddressType::LowByte => 0,
        AddressType::Selector => 2,
        AddressType::Pointer32 => 3,
        AddressType::Offset16 => 5,
        AddressType::Pointer48 => 11,
        AddressType::Offset32 => 13,
        AddressType::Unknown(v) => v,
    }
}

impl AddressType {
    /// The raw on-disk byte.
    pub fn as_u8(&self) -> (r: u8)
        ensures
            r == spec_address_type_byte(*self),
    {
        match self {
            AddressType::LowByte => 0,
            AddressType::Selector => 2,
            AddressType::Pointer32 => 3,
            AddressType::Offset16 => 5,
            AddressType::Pointer48 => 11,
            AddressType::Offset32 => 13,
            AddressType::Unknown(v) => *v,
        }
    }
}

impl From<u8> for AddressType {
    fn from(v: u8) -> (r: Self) {
        if v == 0 {
            AddressType::LowByte
        } else if v == 2 {
            AddressType::Selector
        } else if v == 3 {
            AddressType::Pointer32
        } else if v == 5 {
            AddressType::Offset16
        } else if v == 11 {
            AddressType::Pointer48
        } else if v == 13 {
            AddressType::Offset32
        } else {
            AddressType::Unknown(v)
        }
    }
}

impl FromSpecImpl<u8> for AddressType {
    open spec fn obeys_from_spec() -> bool {
        true
    }

    open spec fn from_spec(v: u8) -> AddressType {
        spec_address_type(v)
    }
}

/// Relocation type: bits 0-1 of the on-disk type byte (bit 2 is the
/// additive flag).
#[derive(Debug, Clone, Copy, PartialEq, Eq, Structural)]
#[non_exhaustive]
pub enum RelocationType {
    /// 0x00: internal reference (segment:offset, or an ordinal of the
    /// module itself).
    Internal,
    /// 0x01: imported ordinal (module reference index, ordinal).
    Ordinal,
    /// 0x02: imported name (module reference index, name offset).
    Name,
    /// 0x03: OS-specific fixup (see [`OsFixupType`]).
    OSGlobal,
    /// Any other value, kept as read.
    Unknown(u8),
}

/// The relocation type that value `v` encodes.
pub open spec fn spec_relocation_type(v: u8) -> RelocationType {
    if v == 0 {
        RelocationType::Internal
    } else if v == 1 {
        RelocationType::Ordinal
    } else if v == 2 {
        RelocationType::Name
    } else if v == 3 {
        RelocationType::OSGlobal
    } else {
        RelocationType::Unknown(v)
    }
}

impl From<u8> for RelocationType {
    fn from(v: u8) -> (r: Self) {
        if v == 0 {
            RelocationType::Internal
        } else if v == 1 {
            RelocationType::Ordinal
        } else if v == 2 {
            RelocationType::Name
        } else if v == 3 {
            RelocationType::OSGlobal
        } else {
            RelocationType::Unknown(v)
        }
    }
}

impl FromSpecImpl<u8> for RelocationType {
    open spec fn obeys_from_spec() -> bool {
        true
    }

    open spec fn from_spec(v: u8) -> RelocationType {
        spec_relocation_type(v)
    }
}

/// OS-specific fixup type (floating-point instruction fixups).
#[derive(Debug, Clone, Copy, PartialEq, Eq, Structural)]
pub enum OsFixupType {
    /// 0x0001: FIARQQ/FJARQQ.
    FiArQq,
    /// 0x0002: FISRQQ/FJSRQQ.
    FiSrQq,
    /// 0x0003: FICRQQ/FJCRQQ.
    FiCrQq,
    /// 0x0004: FIERQQ.
    FiErQq,
    /// 0x0005: FIDRQQ.
    FiDrQq,
    /// 0x0006: FIWRQQ.
    FiWrQq,
    /// Any other value, kept as read.
    Unknown(u16),
}

/// The OS fixup type that value `v` encodes.
pub open spec fn spec_os_fixup_type(v: u16) -> OsFixupType {
    if v == 1 {
        OsFixupType::FiArQq
    } else if v == 2 {
        OsFixupType::FiSrQq
    } else if v == 3 {
        OsFixupType::FiCrQq
    } else if v == 4 {
        OsFixupType::FiErQq
    } else if v == 5 {
        OsFixupType::FiDrQq
    } else if v == 6 {
        OsFixupType::FiWrQq
    } else {
        OsFixupType::Unknown(v)
    }
}

impl From<u16> for OsFixupType {
    fn from(v: u16) -> (r: Self) {
        if v == 1 {
            OsFixupType::FiArQq
        } else if v == 2 {
            OsFixupType::FiSrQq
        } else if v == 3 {
            OsFixupType::FiCrQq
        } else if v == 4 {
            OsFixupType::FiErQq
        } else if v == 5 {
            OsFixupType::FiDrQq
        } else if v == 6 {
            OsFixupType::FiWrQq
        } else {
            OsFixupType::Unknown(v)
        }
    }
}

impl FromSpecImpl<u16> for OsFixupType {
    open spec fn obeys_from_spec() -> bool {
        true
    }

    open spec fn from_spec(v: u16) -> OsFixupType {
        spec_os_fixup_type(v)
    }
}


/// One 8-byte relocation record: `[address type][type byte][offset:
/// u16][target1: u16][target2: u16]`, with the number of the segment that
/// carries it. `offset` is the first link of the fixup chain in that
/// segment's data.
#[derive(Debug, Clone, Copy)]
pub struct RelocationEntry {
    /// Address type to fix up.
    pub address_type: AddressType,
    /// Relocation type (bits 0-1 of the type byte).
    pub relocation_type: RelocationType,
    /// Whether the target is added to the existing content (bit 2).
    pub is_additive: bool,
    /// 1-based number of the segment whose data holds the chain.
    pub segment_number: u16,
    /// Start of the chain, segment-relative.
    pub offset: u16,
    /// First target word.
    pub target1: u16,
    /// Second target word.
    pub target2: u16,
}

/// The links of the fixup chain at `pos` in segment data `d`, `n` links
/// having been collected before: each link is a segment offset whose word
/// is the next link, and `0xFFFF` ends the chain. More links than half the
/// data length is `RelocationChainCorrupt`; a link whose word does not fit
/// is `TableOutOfBounds`.
pub open spec fn spec_chain(d: Seq<u8>, pos: u16, n: nat) -> Result<Seq<u16>, Error>
    decreases d.len() + 2 - 2 * n,
{
    if pos == 0xFFFF {
        Ok(Seq::empty())
    } else if 2 * n > d.len() {
        Err(Error::RelocationChainCorrupt)
    } else if pos + 2 > d.len() {
        Err(Error::TableOutOfBounds("relocation_chain", pos as usize, d.len() as usize))
    } else {
        prepend_ok(seq![pos], spec_chain(d, le16(d, pos as int), n + 1))
    }
}

impl RelocationEntry {
    /// Whether this is an internal reference to the module itself
    /// (`target1 & 0xFF == 0xFF`), whose `target2` is an export ordinal.
    pub fn is_self_module_ref(&self) -> (r: bool)
        ensures
            r == (self.relocation_type == RelocationType::Internal && self.target1 & 0xFF == 0xFF),
    {
        match self.relocation_type {
            RelocationType::Internal => self.target1 & 0xFF == 0xFF,
            _ => false,
        }
    }

    /// The 1-based module reference index (ordinal and name imports).
    pub fn mod_ref_index(&self) -> (r: Option<u16>)
        ensures
            r == if self.relocation_type == RelocationType::Ordinal || self.relocation_type
                == RelocationType::Name {
                Some(self.target1)
            } else {
                None
            },
    {
        match self.relocation_type {
            RelocationType::Ordinal | RelocationType::Name => Some(self.target1),
            _ => None,
        }
    }

    /// The imported function ordinal (ordinal imports).
    pub fn ordinal_number(&self) -> (r: Option<u16>)
        ensures
            r == if self.relocation_type == RelocationType::Ordinal {
                Some(self.target2)
            } else {
                None
            },
    {
        match self.relocation_type {
            RelocationType::Ordinal => Some(self.target2),
            _ => None,
        }
    }

    /// The offset of the procedure name in the imported-names table (name
    /// imports).
    pub fn proc_name_offset(&self) -> (r: Option<u16>)
        ensures
            r == if self.relocation_type == RelocationType::Name {
                Some(self.target2)
            } else {
                None
            },
    {
        match self.relocation_type {
            RelocationType::Name => Some(self.target2),
            _ => None,
        }
    }

    /// Walks the fixup chain in `segment_data` from `offset` and returns
    /// every segment offset that receives the target.
    pub fn resolve_chain(&self, segment_data: &[u8]) -> (r: Result<Vec<u16>, Error>)
        ensures
            r matches Ok(links) ==> spec_chain(segment_data@, self.offset, 0) == Ok::<
                Seq<u16>,
                Error,
            >(links@),
            r matches Err(e) ==> spec_chain(segment_data@, self.offset, 0) == Err::<
                Seq<u16>,
                Error,
            >(e),
    {
        let ghost d = segment_data@;
        let mut links: Vec<u16> = Vec::new();
        let mut pos = self.offset;
        proof {
            assert(Seq::<u16>::empty() + spec_chain(d, pos, 0)->Ok_0 =~= spec_chain(d, pos, 0)->Ok_0);
        }
        while pos != 0xFFFF
            invariant
                d == segment_data@,
                2 * links@.len() <= d.len() + 2,
                spec_chain(d, self.offset, 0) == prepend_ok(links@, spec_chain(d, pos, links@.len())),
            decreases d.len() + 2 - 2 * links@.len(),
        {
            if links.len() > segment_data.len() / 2 {
                return Err(Error::RelocationChainCorrupt);
            }
            let p = pos as usize;
            if p + 2 > segment_data.len() {
                return Err(Error::TableOutOfBounds("relocation_chain", p, segment_data.len()));
            }
            let next = get_le16(segment_data, p);
            let ghost before = links@;
            links.push(pos);
            proof {
                lemma_prepend_ok_assoc(before, seq![pos], spec_chain(d, next, links@.len()));
                assert(before + seq![pos] =~= links@);
            }
            pos = next;
        }
        proof {
            assert(links@ + Seq::<u16>::empty() =~= links@);
        }
        Ok(links)
    }
}


/// The relocation record at `pos` of segment `seg_num`.
pub open spec fn spec_reloc_at(b: Seq<u8>, pos: int, seg_num: u16) -> RelocationEntry {
    RelocationEntry {
        address_type: spec_address_type(b[pos]),
        relocation_type: spec_relocation_type(b[pos + 1] & 0x03),
        is_additive: b[pos + 1] & 0x04 != 0,
        segment_number: seg_num,
        offset: le16(b, pos + 2),
        target1: le16(b, pos + 4),
        target2: le16(b, pos + 6),
    }
}

/// `k` relocation records of segment `seg_num` from `pos`; a record that
/// does not fit in the buffer is `TableOutOfBounds` (with its end).
pub open spec fn spec_reloc_records(b: Seq<u8>, pos: int, k: nat, seg_num: u16) -> Result<
    Seq<RelocationEntry>,
    Error,
>
    decreases k,
{
    if k == 0 {
        Ok(Seq::empty())
    } else if pos + 8 > b.len() {
        Err(Error::TableOutOfBounds("relocation_table", (pos + 8) as usize, b.len() as usize))
    } else {
        prepend_ok(
            seq![spec_reloc_at(b, pos, seg_num)],
            spec_reloc_records(b, pos + 8, (k - 1) as nat, seg_num),
        )
    }
}

/// File offset of the relocation block of segment `seg`: right after its
/// data, `(offset << alignment) + length`.
pub open spec fn spec_reloc_base(h: ImageOS2Header, seg: SegmentRecord) -> int {
    ((seg.offset as usize) << (h.alignment as usize)) + seg.length
}

/// Whether segment `seg` carries relocations (flag `RELOC_DATA`).
pub open spec fn has_reloc_data(seg: SegmentRecord) -> bool {
    seg.flags & 0x0100 == 0x0100
}

/// The relocations of segment `seg` (number `seg_num`): none without
/// `RELOC_DATA` or when its count word lies past the end, else `count`
/// records after the count word.
pub open spec fn spec_segment_relocs(
    b: Seq<u8>,
    h: ImageOS2Header,
    seg: SegmentRecord,
    seg_num: u16,
) -> Result<Seq<RelocationEntry>, Error> {
    if !has_reloc_data(seg) {
        Ok(Seq::empty())
    } else if spec_reloc_base(h, seg) + 2 > b.len() {
        Ok(Seq::empty())
    } else {
        spec_reloc_records(
            b,
            spec_reloc_base(h, seg) + 2,
            le16(b, spec_reloc_base(h, seg)) as nat,
            seg_num,
        )
    }
}

/// The relocations of the segments of `t` from index `i` on, in order.
pub open spec fn spec_relocs_from(
    b: Seq<u8>,
    h: ImageOS2Header,
    t: Seq<SegmentRecord>,
    i: int,
) -> Result<Seq<RelocationEntry>, Error>
    decreases t.len() - i,
{
    if i >= t.len() || i < 0 {
        Ok(Seq::empty())
    } else {
        match spec_segment_relocs(b, h, t[i], (i + 1) as u16) {
            Err(e) => Err(e),
            Ok(es) => prepend_ok(es, spec_relocs_from(b, h, t, i + 1)),
        }
    }
}

/// The relocation table as `RelocationTable::parse` reads it: the
/// relocations of every segment, in segment order.
pub open spec fn spec_relocation_table(b: Seq<u8>, hr: Result<ImageOS2Header, Error>) -> Result<
    Seq<RelocationEntry>,
    Error,
> {
    match hr {
        Err(e) => Err(e),
        Ok(h) => match spec_segment_table(b, hr) {
            Err(e) => Err(e),
            Ok(t) => spec_relocs_from(b, h, t, 0),
        },
    }
}

/// The relocation blocks can be located without an arithmetic fault: for
/// each segment with `RELOC_DATA`, the alignment shift is below the width
/// of `usize` and the block's count word ends at most at `usize::MAX`.
pub open spec fn relocs_defined(b: Seq<u8>, hr: Result<ImageOS2Header, Error>) -> bool {
    match hr {
        Ok(h) => match spec_segment_table(b, hr) {
            Ok(t) => forall|i: int|
                0 <= i < t.len() && #[trigger] has_reloc_data(t[i]) ==> h.alignment < usize::BITS
                    && spec_reloc_base(h, t[i]) + 2 <= usize::MAX,
            Err(_) => true,
        },
        Err(_) => true,
    }
}

/// The relocation records of all segments.
#[derive(Debug)]
pub struct RelocationTable {
    pub entries: Vec<RelocationEntry>,
}

impl RelocationTable {
    /// Appends the relocations of segment `seg` (number `seg_num`).
    fn read_segment<P: NE>(
        ne: &P,
        h: &ImageOS2Header,
        seg: SegmentRecord,
        seg_num: u16,
        entries: &mut Vec<RelocationEntry>,
    ) -> (r: Result<(), Error>)
        requires
            addressable(ne.bytes()),
            has_reloc_data(seg),
            h.alignment < usize::BITS,
            spec_reloc_base(*h, seg) + 2 <= usize::MAX,
        ensures
            r matches Ok(_) ==> spec_segment_relocs(ne.bytes(), *h, seg, seg_num) == Ok::<
                Seq<RelocationEntry>,
                Error,
            >(final(entries)@.subrange(old(entries)@.len() as int, final(entries)@.len() as int))
                && final(entries)@.subrange(0, old(entries)@.len() as int) == old(entries)@
                && old(entries)@.len() <= final(entries)@.len(),
            r matches Err(e) ==> spec_segment_relocs(ne.bytes(), *h, seg, seg_num) == Err::<
                Seq<RelocationEntry>,
                Error,
            >(e),
    {
        let ghost b = ne.bytes();
        let ghost before = entries@;
        let shift = h.common_fields().alignment as usize;
        let base = ((seg.offset as usize) << shift) + (seg.length as usize);
        if base + 2 > ne.len() {
            assert(entries@.subrange(before.len() as int, entries@.len() as int) =~= Seq::<
                RelocationEntry,
            >::empty());
            assert(entries@.subrange(0, before.len() as int) =~= before);
            return Ok(());
        }
        let reloc_count = ne.read_u16(base)? as usize;
        let mut pos = base + 2;
        let mut k: usize = 0;
        proof {
            assert(entries@.subrange(before.len() as int, entries@.len() as int) =~= Seq::<
                RelocationEntry,
            >::empty());
            assert(Seq::<RelocationEntry>::empty() + spec_reloc_records(
                b,
                pos as int,
                reloc_count as nat,
                seg_num,
            )->Ok_0 =~= spec_reloc_records(b, pos as int, reloc_count as nat, seg_num)->Ok_0);
        }
        while k < reloc_count
            invariant
                b == ne.bytes(),
                addressable(b),
                k <= reloc_count,
                pos <= b.len() + 2,
                before.len() <= entries@.len(),
                entries@.subrange(0, before.len() as int) == before,
                spec_segment_relocs(b, *h, seg, seg_num) == prepend_ok(
                    entries@.subrange(before.len() as int, entries@.len() as int),
                    spec_reloc_records(b, pos as int, (reloc_count - k) as nat, seg_num),
                ),
            decreases reloc_count - k,
        {
            if pos + 8 > ne.len() {
                return Err(Error::TableOutOfBounds("relocation_table", pos + 8, ne.len()));
            }
            let raw = ne.get_slice(pos, 8)?;
            let type_raw = raw[1];
            let entry = RelocationEntry {
                address_type: AddressType::from(raw[0]),
                relocation_type: RelocationType::from(type_raw & 0x03),
                is_additive: type_raw & 0x04 != 0,
                segment_number: seg_num,
                offset: get_le16(raw, 2),
                target1: get_le16(raw, 4),
                target2: get_le16(raw, 6),
            };
            proof {
                assert(raw@ =~= b.subrange(pos as int, pos + 8));
                assert(entry == spec_reloc_at(b, pos as int, seg_num));
            }
            let ghost mid = entries@;
            entries.push(entry);
            proof {
                lemma_prepend_ok_assoc(
                    mid.subrange(before.len() as int, mid.len() as int),
                    seq![entry],
                    spec_reloc_records(b, pos + 8, (reloc_count - k - 1) as nat, seg_num),
                );
                assert(mid.subrange(before.len() as int, mid.len() as int) + seq![entry]
                    =~= entries@.subrange(before.len() as int, entries@.len() as int));
                assert(entries@.subrange(0, before.len() as int) =~= before);
            }
            pos = pos + 8;
            k = k + 1;
        }
        proof {
            let es = entries@.subrange(before.len() as int, entries@.len() as int);
            assert(es + Seq::<RelocationEntry>::empty() =~= es);
        }
        Ok(())
    }

    /// Parses the relocation records of every segment with `RELOC_DATA`:
    /// the block right after the segment's data holds a `u16` count and
    /// that many 8-byte records. A segment whose count word lies past the
    /// end of the buffer contributes nothing.
    pub fn parse<P: NE>(ne: &P) -> (r: Result<Self, Error>)
        requires
            addressable(ne.bytes()),
            relocs_defined(ne.bytes(), ne.spec_valid_ne_header()),
        ensures
            r matches Ok(t) ==> spec_relocation_table(ne.bytes(), ne.spec_valid_ne_header())
                == Ok::<Seq<RelocationEntry>, Error>(t.entries@),
            r matches Err(e) ==> spec_relocation_table(ne.bytes(), ne.spec_valid_ne_header())
                == Err::<Seq<RelocationEntry>, Error>(e),
    {
        let ghost b = ne.bytes();
        let header = ne.get_valid_ne_header()?;
        let segments = ne.get_segment_table()?;
        let ghost t = segments@;
        let mut entries: Vec<RelocationEntry> = Vec::new();
        let mut i: usize = 0;
        proof {
            assert(Seq::<RelocationEntry>::empty() + spec_relocs_from(b, header, t, 0)->Ok_0
                =~= spec_relocs_from(b, header, t, 0)->Ok_0);
        }
        while i < segments.len()
            invariant
                b == ne.bytes(),
                addressable(b),
                t == segments@,
                t.len() <= 0xFFFF,
                i <= t.len(),
                relocs_defined(b, Ok::<ImageOS2Header, Error>(header)),
                spec_relocation_table(b, ne.spec_valid_ne_header()) == spec_relocs_from(
                    b,
                    header,
                    t,
                    0,
                ),
                spec_segment_table(b, Ok::<ImageOS2Header, Error>(header)) == Ok::<
                    Seq<SegmentRecord>,
                    Error,
                >(t),
                spec_relocs_from(b, header, t, 0) == prepend_ok(
                    entries@,
                    spec_relocs_from(b, header, t, i as int),
                ),
            decreases t.len() - i,
        {
            let seg = segments[i];
            let ghost before = entries@;
            if seg.segment_flags().contains(SegmentFlags::RELOC_DATA) {
                let seg_num = i as u16 + 1;
                assert(has_reloc_data(t[i as int]));
                assert(spec_segment_table(b, Ok::<ImageOS2Header, Error>(header))->Ok_0 == t);
                assert(header.alignment < usize::BITS && spec_reloc_base(header, t[i as int]) + 2
                    <= usize::MAX);
                Self::read_segment(ne, &header, seg, seg_num, &mut entries)?;
                proof {
                    let added = entries@.subrange(before.len() as int, entries@.len() as int);
                    lemma_prepend_ok_assoc(before, added, spec_relocs_from(b, header, t, i + 1));
                    assert(before + added =~= entries@);
                }
            } else {
                proof {
                    assert(before + Seq::<RelocationEntry>::empty() =~= before);
                }
            }
            i = i + 1;
        }
        proof {
            assert(entries@ + Seq::<RelocationEntry>::empty() =~= entries@);
        }
        Ok(RelocationTable { entries })
    }
}

proof fn lemma_chain_linked(d: Seq<u8>, pos: u16, n: nat, links: Seq<u16>)
    requires
        2 * n <= d.len() + 2,
        spec_chain(d, pos, n) == Ok::<Seq<u16>, Error>(links),
    ensures
        links.len() == 0 <==> pos == 0xFFFF,
        links.len() > 0 ==> links[0] == pos,
        forall|i: int| 0 <= i < links.len() ==> #[trigger] links[i] != 0xFFFF && links[i] + 2 <= d.len(),
        forall|i: int| 0 <= i < links.len() - 1 ==> #[trigger] links[i + 1] == le16(d, links[i] as int),
        links.len() > 0 ==> le16(d, links[links.len() - 1] as int) == 0xFFFF,
        2 * (n + links.len()) <= d.len() + 2,
    decreases d.len() + 2 - 2 * n,
{
    if pos != 0xFFFF {
        let next = le16(d, pos as int);
        let rest = spec_chain(d, next, n + 1)->Ok_0;
        lemma_chain_linked(d, next, n + 1, rest);
        assert(links == seq![pos] + rest);
        assert forall|i: int| 0 <= i < links.len() - 1 implies #[trigger] links[i + 1] == le16(
            d,
            links[i] as int,
        ) by {
            assert(links[i + 1] == rest[i]);
            if i > 0 {
                let j = i - 1;
                assert(rest[j + 1] == le16(d, rest[j] as int));
                assert(links[i] == rest[j]);
            }
        }
    }
}

/// The chain that `resolve_chain` returns walks the segment data: it is
/// empty exactly when it starts at `0xFFFF`; otherwise it starts at the
/// given offset, every link's word lies inside the data and is the next
/// link, and the word at the last link is the terminator `0xFFFF`. It holds
/// at most one link per two bytes of data, plus one.
pub proof fn resolved_chain_is_linked(d: Seq<u8>, start: u16, links: Seq<u16>)
    requires
        spec_chain(d, start, 0) == Ok::<Seq<u16>, Error>(links),
    ensures
        links.len() == 0 <==> start == 0xFFFF,
        links.len() > 0 ==> links[0] == start,
        forall|i: int| 0 <= i < links.len() ==> #[trigger] links[i] != 0xFFFF && links[i] + 2 <= d.len(),
        forall|i: int| 0 <= i < links.len() - 1 ==> #[trigger] links[i + 1] == le16(d, links[i] as int),
        links.len() > 0 ==> le16(d, links[links.len() - 1] as int) == 0xFFFF,
        2 * links.len() <= d.len() + 2,
{
    lemma_chain_linked(d, start, 0, links);
}

/// Link `k` of the walk from `start`: `start`, then each time the word at
/// the previous link.
pub open spec fn walk_link(d: Seq<u8>, start: u16, k: nat) -> u16
    decreases k,
{
    if k == 0 {
        start
    } else {
        le16(d, walk_link(d, start, (k - 1) as nat) as int)
    }
}

/// The walk from `start` takes its first `k` steps: none of its first `k`
/// links is the terminator, each one's word lies inside the data, and no
/// more than one link per two bytes has been taken.
pub open spec fn walk_continues(d: Seq<u8>, start: u16, k: nat) -> bool {
    forall|j: nat|
        j < k ==> #[trigger] walk_link(d, start, j) != 0xFFFF && walk_link(d, start, j) + 2
            <= d.len() && 2 * j <= d.len()
}

proof fn lemma_chain_walk(d: Seq<u8>, start: u16, m: nat, k: nat)
    requires
        m <= k,
        walk_continues(d, start, k),
        spec_chain(d, walk_link(d, start, k), k) is Err,
    ensures
        spec_chain(d, walk_link(d, start, m), m) == spec_chain(d, walk_link(d, start, k), k),
    decreases k - m,
{
    if m < k {
        lemma_chain_walk(d, start, m + 1, k);
        let p = walk_link(d, start, m);
        assert(p != 0xFFFF && p + 2 <= d.len() && 2 * m <= d.len());
        assert(walk_link(d, start, m + 1) == le16(d, p as int));
    }
}

/// The walk fails where it leaves the data: when, after `k` steps, it
/// reaches a link that is not the terminator and whose word does not fit
/// in the data, `resolve_chain` gives `TableOutOfBounds` with that link and
/// the data's length.
pub proof fn chain_out_of_bounds(d: Seq<u8>, start: u16, k: nat)
    requires
        walk_continues(d, start, k),
        walk_link(d, start, k) != 0xFFFF,
        walk_link(d, start, k) + 2 > d.len(),
        2 * k <= d.len(),
    ensures
        spec_chain(d, start, 0) == Err::<Seq<u16>, Error>(
            Error::TableOutOfBounds(
                "relocation_chain",
                walk_link(d, start, k) as usize,
                d.len() as usize,
            ),
        ),
{
    lemma_chain_walk(d, start, 0, k);
}

/// The walk fails when it runs too long: when, after `k` steps inside the
/// data, more than one link per two bytes would be taken and the link
/// reached is not the terminator, `resolve_chain` gives
/// `RelocationChainCorrupt` (the chain loops).
pub proof fn chain_too_long(d: Seq<u8>, start: u16, k: nat)
    requires
        walk_continues(d, start, k),
        walk_link(d, start, k) != 0xFFFF,
        2 * k > d.len(),
    ensures
        spec_chain(d, start, 0) == Err::<Seq<u16>, Error>(Error::RelocationChainCorrupt),
{
    lemma_chain_walk(d, start, 0, k);
}

proof fn lemma_records_of_segment(b: Seq<u8>, pos: int, k: nat, seg_num: u16)
    requires
        spec_reloc_records(b, pos, k, seg_num) is Ok,
    ensures
        forall|j: int|
            0 <= j < spec_reloc_records(b, pos, k, seg_num)->Ok_0.len() ==> (#[trigger] spec_reloc_records(
                b,
                pos,
                k,
                seg_num,
            )->Ok_0[j]).segment_number == seg_num,
    decreases k,
{
    if k > 0 && pos + 8 <= b.len() {
        lemma_records_of_segment(b, pos + 8, (k - 1) as nat, seg_num);
        let rest = spec_reloc_records(b, pos + 8, (k - 1) as nat, seg_num)->Ok_0;
        let all = spec_reloc_records(b, pos, k, seg_num)->Ok_0;
        assert(all == seq![spec_reloc_at(b, pos, seg_num)] + rest);
        assert forall|j: int| 0 <= j < all.len() implies (#[trigger] all[j]).segment_number
            == seg_num by {
            if j > 0 {
                assert(all[j] == rest[j - 1]);
            }
        }
    }
}

proof fn lemma_relocs_from_segments(b: Seq<u8>, h: ImageOS2Header, t: Seq<SegmentRecord>, i: int)
    requires
        0 <= i,
        t.len() <= 0xFFFF,
        spec_relocs_from(b, h, t, i) is Ok,
    ensures
        forall|j: int|
            0 <= j < spec_relocs_from(b, h, t, i)->Ok_0.len() ==> {
                let n = (#[trigger] spec_relocs_from(b, h, t, i)->Ok_0[j]).segment_number;
                &&& i + 1 <= n <= t.len()
                &&& has_reloc_data(t[n - 1])
            },
        forall|j: int, k: int|
            0 <= j < k < spec_relocs_from(b, h, t, i)->Ok_0.len() ==> (#[trigger] spec_relocs_from(
                b,
                h,
                t,
                i,
            )->Ok_0[j]).segment_number <= (#[trigger] spec_relocs_from(b, h, t, i)->Ok_0[k]).segment_number,
    decreases t.len() - i,
{
    if i < t.len() {
        let num = (i + 1) as u16;
        let es = spec_segment_relocs(b, h, t[i], num)->Ok_0;
        let rest = spec_relocs_from(b, h, t, i + 1)->Ok_0;
        let all = spec_relocs_from(b, h, t, i)->Ok_0;
        lemma_relocs_from_segments(b, h, t, i + 1);
        assert(all == es + rest);
        if has_reloc_data(t[i]) && spec_reloc_base(h, t[i]) + 2 <= b.len() {
            lemma_records_of_segment(
                b,
                spec_reloc_base(h, t[i]) + 2,
                le16(b, spec_reloc_base(h, t[i])) as nat,
                num,
            );
        } else {
            assert(es.len() == 0);
        }
        assert forall|j: int| 0 <= j < all.len() implies {
            let n = (#[trigger] all[j]).segment_number;
            &&& i + 1 <= n <= t.len()
            &&& has_reloc_data(t[n - 1])
        } by {
            if j < es.len() {
                assert(all[j] == es[j]);
                assert(es[j].segment_number == num);
            } else {
                assert(all[j] == rest[j - es.len()]);
            }
        }
        assert forall|j: int, k: int| 0 <= j < k < all.len() implies (#[trigger] all[j]).segment_number
            <= (#[trigger] all[k]).segment_number by {
            if j < es.len() {
                assert(all[j] == es[j]);
                if k < es.len() {
                    assert(all[k] == es[k]);
                } else {
                    assert(all[k] == rest[k - es.len()]);
                }
            } else {
                assert(all[j] == rest[j - es.len()]);
                assert(all[k] == rest[k - es.len()]);
            }
        }
    }
}

/// Every parsed relocation names the segment that carries it: a segment
/// of the table with `RELOC_DATA`; and the relocations come in segment
/// order.
pub proof fn relocations_name_their_segments(
    b: Seq<u8>,
    hr: Result<ImageOS2Header, Error>,
    entries: Seq<RelocationEntry>,
)
    requires
        spec_relocation_table(b, hr) == Ok::<Seq<RelocationEntry>, Error>(entries),
    ensures
        forall|j: int|
            0 <= j < entries.len() ==> {
                let n = (#[trigger] entries[j]).segment_number;
                &&& 1 <= n <= spec_segment_table(b, hr)->Ok_0.len()
                &&& has_reloc_data(spec_segment_table(b, hr)->Ok_0[n - 1])
            },
        forall|j: int, k: int|
            0 <= j < k < entries.len() ==> (#[trigger] entries[j]).segment_number
                <= (#[trigger] entries[k]).segment_number,
{
    let h = hr->Ok_0;
    let t = spec_segment_table(b, hr)->Ok_0;
    assert(t.len() <= 0xFFFF);
    lemma_relocs_from_segments(b, h, t, 0);
}

/// Whether every relocation block can be located without an arithmetic
/// fault (see `relocs_defined`): what `RelocationTable::parse` needs of its
/// input.
pub fn reloc_blocks_addressable<P: NE>(ne: &P) -> (r: bool)
    requires
        addressable(ne.bytes()),
    ensures
        r == relocs_defined(ne.bytes(), ne.spec_valid_ne_header()),
{
    let header = match ne.get_valid_ne_header() {
        Ok(h) => h,
        Err(_) => return true,
    };
    let segments = match ne.get_segment_table() {
        Ok(s) => s,
        Err(_) => return true,
    };
    let ghost t = segments@;
    let mut i: usize = 0;
    while i < segments.len()
        invariant
            t == segments@,
            ne.spec_valid_ne_header() == Ok::<ImageOS2Header, Error>(header),
            spec_segment_table(ne.bytes(), ne.spec_valid_ne_header()) == Ok::<
                Seq<SegmentRecord>,
                Error,
            >(t),
            i <= t.len(),
            forall|j: int|
                0 <= j < i && #[trigger] has_reloc_data(t[j]) ==> header.alignment < usize::BITS
                    && spec_reloc_base(header, t[j]) + 2 <= usize::MAX,
        decreases t.len() - i,
    {
        let seg = segments[i];
        if seg.segment_flags().contains(SegmentFlags::RELOC_DATA) {
            assert(has_reloc_data(t[i as int]));
            assert(spec_segment_table(ne.bytes(), ne.spec_valid_ne_header())->Ok_0 == t);
            if header.alignment as u32 >= usize::BITS {
                return false;
            }
            let start = (seg.offset as usize) << (header.alignment as usize);
            if start > usize::MAX - 2 - seg.length as usize {
                assert(spec_reloc_base(header, t[i as int]) + 2 > usize::MAX);
                return false;
            }
        }
        i = i + 1;
    }
    true
}

/// The records of segment `seg`'s relocation block, written out: none
/// without `RELOC_DATA` or when the count word lies past the end; else,
/// for the count word at the block's start, that many 8-byte records after
/// it, record `k` at `base + 2 + 8k`.
pub open spec fn block_records(
    b: Seq<u8>,
    h: ImageOS2Header,
    seg: SegmentRecord,
    seg_num: u16,
) -> Seq<RelocationEntry> {
    let base = spec_reloc_base(h, seg);
    if !has_reloc_data(seg) || base + 2 > b.len() {
        Seq::empty()
    } else {
        Seq::new(le16(b, base) as nat, |k: int| spec_reloc_at(b, base + 2 + 8 * k, seg_num))
    }
}

/// Every relocation block whose count word lies in the buffer lies in it
/// whole.
pub open spec fn blocks_fit(b: Seq<u8>, h: ImageOS2Header, t: Seq<SegmentRecord>) -> bool {
    forall|i: int|
        0 <= i < t.len() && #[trigger] has_reloc_data(t[i]) && spec_reloc_base(h, t[i]) + 2
            <= b.len() ==> spec_reloc_base(h, t[i]) + 2 + 8 * le16(b, spec_reloc_base(h, t[i]))
            <= b.len()
}

/// The blocks of the segments of `t` from index `i` on, concatenated in
/// table order; segment `i` is numbered `i + 1`.
pub open spec fn concat_blocks(b: Seq<u8>, h: ImageOS2Header, t: Seq<SegmentRecord>, i: int) -> Seq<
    RelocationEntry,
>
    decreases t.len() - i,
{
    if i >= t.len() || i < 0 {
        Seq::empty()
    } else {
        block_records(b, h, t[i], (i + 1) as u16) + concat_blocks(b, h, t, i + 1)
    }
}

proof fn lemma_records_written_out(b: Seq<u8>, pos: int, k: nat, seg_num: u16)
    requires
        pos + 8 * k <= b.len(),
    ensures
        spec_reloc_records(b, pos, k, seg_num) == Ok::<Seq<RelocationEntry>, Error>(
            Seq::new(k, |j: int| spec_reloc_at(b, pos + 8 * j, seg_num)),
        ),
    decreases k,
{
    if k > 0 {
        lemma_records_written_out(b, pos + 8, (k - 1) as nat, seg_num);
        let rest = Seq::new((k - 1) as nat, |j: int| spec_reloc_at(b, pos + 8 + 8 * j, seg_num));
        let all = Seq::new(k, |j: int| spec_reloc_at(b, pos + 8 * j, seg_num));
        assert forall|j: int| 0 <= j < k implies (seq![spec_reloc_at(b, pos, seg_num)] + rest)[j]
            == all[j] by {
            if j > 0 {
                assert(pos + 8 + 8 * (j - 1) == pos + 8 * j);
            }
        }
        assert(seq![spec_reloc_at(b, pos, seg_num)] + rest =~= all);
    } else {
        assert(Seq::new(k, |j: int| spec_reloc_at(b, pos + 8 * j, seg_num)) =~= Seq::<
            RelocationEntry,
        >::empty());
    }
}

proof fn lemma_relocs_from_blocks(b: Seq<u8>, h: ImageOS2Header, t: Seq<SegmentRecord>, i: int)
    requires
        0 <= i,
        blocks_fit(b, h, t),
    ensures
        spec_relocs_from(b, h, t, i) == Ok::<Seq<RelocationEntry>, Error>(
            concat_blocks(b, h, t, i),
        ),
    decreases t.len() - i,
{
    if i < t.len() {
        lemma_relocs_from_blocks(b, h, t, i + 1);
        let seg = t[i];
        let base = spec_reloc_base(h, seg);
        if has_reloc_data(seg) && base + 2 <= b.len() {
            lemma_records_written_out(b, base + 2, le16(b, base) as nat, (i + 1) as u16);
        }
        let es = block_records(b, h, seg, (i + 1) as u16);
        assert(spec_segment_relocs(b, h, seg, (i + 1) as u16) == Ok::<Seq<RelocationEntry>, Error>(
            es,
        ));
    }
}

/// The relocation table is the segments' relocation blocks, concatenated
/// in table order over the segments that carry relocation data: when
/// every block whose count word is in the buffer lies in it whole, the
/// table reads, and its entries are, for each such segment in order, the
/// records written out by `block_records`.
pub proof fn relocation_table_is_blocks(b: Seq<u8>, hr: Result<ImageOS2Header, Error>)
    requires
        hr is Ok,
        spec_segment_table(b, hr) is Ok,
        blocks_fit(b, hr->Ok_0, spec_segment_table(b, hr)->Ok_0),
    ensures
        spec_relocation_table(b, hr) == Ok::<Seq<RelocationEntry>, Error>(
            concat_blocks(b, hr->Ok_0, spec_segment_table(b, hr)->Ok_0, 0),
        ),
{
    lemma_relocs_from_blocks(b, hr->Ok_0, spec_segment_table(b, hr)->Ok_0, 0);
}

/// The address type byte read back: `as_u8` undoes `from`.
pub proof fn address_type_byte_roundtrip(v: u8)
    ensures
        spec_address_type_byte(spec_address_type(v)) == v,
{
}

} // verus!
