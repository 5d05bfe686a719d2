//! NE header structures: the header itself, its flag words, and the
//! segment records, with their on-disk byte layout.

use vstd::prelude::*;

use crate::codec::{lemma_u32_at, get_le16, get_le32, le16, le32, push_u16, push_u32, u16_bytes, u32_bytes};
use crate::{Error, NE_HEADER_SIZE_V4, NE_HEADER_SIZE_V5};

verus! {

// ---------------------------------------------------------------------------
// NE executable type (ne_exetyp)
// ---------------------------------------------------------------------------

/// Target operating system for this NE file.
#[derive(Debug, Clone, Copy, PartialEq, Eq)]
pub enum ExeType {
    /// Invalid or unknown executable type
    Invalid,
    /// OS/2 16-bit
    Os2,
    /// Windows 16-bit
    Win,
}

/// The executable type named by the raw `ne_exetyp` byte: 1 is OS/2, 2 is
/// Windows, every other value is `Invalid`.
pub open spec fn spec_exe_type(value: u8) -> ExeType {
    if value == 1 {
        ExeType::Os2
    } else if value == 2 {
        ExeType::Win
    } else {
        ExeType::Invalid
    }
}

impl ExeType {
    /// Creates the type from a raw byte (always `Some`; unknown values map
    /// to `Invalid`).
    pub fn from_u8(value: u8) -> (r: Option<Self>)
        ensures
            r == Some(spec_exe_type(value)),
    {
        match value {
            1 => Some(ExeType::Os2),
            2 => Some(ExeType::Win),
            _ => Some(ExeType::Invalid),
        }
    }

    /// Creates the type from a raw `u16`, truncated to its low byte.
    pub fn from_u16(value: u16) -> (r: Option<Self>)
        ensures
            r == Some(spec_exe_type((value % 256) as u8)),
    {
        let low = (value % 256) as u8;
        Self::from_u8(low)
    }

    /// The display name of the type.
    pub fn to_string(&self) -> (r: String)
        ensures
            r@ == match self {
                ExeType::Invalid => "Invalid"@,
                ExeType::Os2 => "OS/2 16-bit"@,
                ExeType::Win => "Windows 16-bit"@,
            },
    {
        match self {
            ExeType::Invalid => "Invalid".to_owned(),
            ExeType::Os2 => "OS/2 16-bit".to_owned(),
            ExeType::Win => "Windows 16-bit".to_owned(),
        }
    }
}

// ---------------------------------------------------------------------------
// NE module flags (ne_flags)
// ---------------------------------------------------------------------------

/// NE module flags (header offset 0x0C); only the defined bits are kept.
#[derive(Debug, Clone, Copy, PartialEq, Eq)]
pub struct NeFlags {
    bits: u16,
}

/// The defined NE module flag bits.
pub open spec fn ne_flags_mask() -> u16 {
    0xA803u16
}

impl View for NeFlags {
    type V = u16;

    closed spec fn view(&self) -> u16 {
        self.bits
    }
}

impl NeFlags {
    /// SINGLEDATA: module has one data segment; set for DLLs.
    pub const SINGLEDATA: u16 = 0x0001;

    /// MULTIPLEDATA: module has multiple data segments; set for applications.
    pub const MULTIPLEDATA: u16 = 0x0002;

    /// First segment contains code that loads the application.
    pub const FIRST_SEG_CONTAINS_LOADER: u16 = 0x0800;

    /// Linker detected errors at link time but created the file anyway.
    pub const LINKER_ERRORS: u16 = 0x2000;

    /// Library module (DLL).
    pub const LIBRARY: u16 = 0x8000;

    /// Keeps the defined bits of `bits` and drops the others.
    pub fn from_bits_truncate(bits: u16) -> (r: NeFlags)
        ensures
            r@ == bits & ne_flags_mask(),
    {
        NeFlags { bits: bits & 0xA803 }
    }

    /// The flag word.
    pub fn bits(&self) -> (r: u16)
        ensures
            r == self@,
    {
        self.bits
    }

    /// Whether every bit of `flags` is set.
    pub fn contains(&self, flags: u16) -> (r: bool)
        ensures
            r == (self@ & flags == flags),
    {
        self.bits & flags == flags
    }
}

// ---------------------------------------------------------------------------
// Segment flags
// ---------------------------------------------------------------------------

/// Segment flags of a segment record (every bit is defined).
#[derive(Debug, Clone, Copy, PartialEq, Eq)]
pub struct SegmentFlags {
    bits: u16,
}

impl View for SegmentFlags {
    type V = u16;

    closed spec fn view(&self) -> u16 {
        self.bits
    }
}

impl SegmentFlags {
    /// Data segment (as opposed to code).
    pub const DATA: u16 = 0x0001;

    /// Allocated segment.
    pub const ALLOCATED: u16 = 0x0002;

    /// Loaded segment.
    pub const LOADED: u16 = 0x0004;

    /// Iterated segment.
    pub const ITERATED: u16 = 0x0008;

    /// Moveable segment.
    pub const MOVEABLE: u16 = 0x0010;

    /// Shareable segment.
    pub const SHAREABLE: u16 = 0x0020;

    /// Preloaded segment.
    pub const PRELOAD: u16 = 0x0040;

    /// Read-only / execute-only segment.
    pub const READONLY: u16 = 0x0080;

    /// Segment carries relocation data.
    pub const RELOC_DATA: u16 = 0x0100;

    /// Self-loading segment.
    pub const SELFLOAD: u16 = 0x0800;

    /// Discardable segment.
    pub const DISCARDABLE: u16 = 0x1000;

    /// 32-bit segment.
    pub const FLAGS32BIT: u16 = 0x2000;

    /// All flag bits.
    pub const FLAGS_MASK: u16 = 0xFFFF;

    /// Keeps the defined bits of `bits` (the mask covers every bit).
    pub fn from_bits_truncate(bits: u16) -> (r: SegmentFlags)
        ensures
            r@ == bits,
    {
        SegmentFlags { bits }
    }

    /// The flag word.
    pub fn bits(&self) -> (r: u16)
        ensures
            r == self@,
    {
        self.bits
    }

    /// Whether every bit of `flags` is set.
    pub fn contains(&self, flags: u16) -> (r: bool)
        ensures
            r == (self@ & flags == flags),
    {
        self.bits & flags == flags
    }
}

// ---------------------------------------------------------------------------
// Segment alignment
// ---------------------------------------------------------------------------

/// NE sector alignment, as encoded by the header's shift count.
#[derive(Debug, Clone, Copy, PartialEq, Eq)]
pub enum SegmentAlignment {
    /// 1-byte sectors (shift 0)
    Shift0,
    /// 2-byte sectors (shift 1)
    Shift1,
    /// 4-byte sectors (shift 2)
    Shift2,
    /// 8-byte sectors (shift 3)
    Shift3,
    /// 16-byte sectors (shift 4)
    Shift4,
    /// 32-byte sectors (shift 5)
    Shift5,
    /// Any other shift count
    Reserved(u8),
}

impl SegmentAlignment {
    /// The raw shift count of this alignment.
    pub open spec fn spec_shift(&self) -> u32 {
        match self {
            SegmentAlignment::Shift0 => 0,
            SegmentAlignment::Shift1 => 1,
            SegmentAlignment::Shift2 => 2,
            SegmentAlignment::Shift3 => 3,
            SegmentAlignment::Shift4 => 4,
            SegmentAlignment::Shift5 => 5,
            SegmentAlignment::Reserved(v) => *v as u32,
        }
    }

    /// Creates the alignment from a shift count (always `Some`).
    pub fn from_u8(value: u8) -> (r: Option<Self>)
        ensures
            r matches Some(a) && a.spec_shift() == value,
            value <= 5 ==> r.unwrap() !is Reserved,
            value > 5 ==> r == Some(SegmentAlignment::Reserved(value)),
    {
        match value {
            0 => Some(SegmentAlignment::Shift0),
            1 => Some(SegmentAlignment::Shift1),
            2 => Some(SegmentAlignment::Shift2),
            3 => Some(SegmentAlignment::Shift3),
            4 => Some(SegmentAlignment::Shift4),
            5 => Some(SegmentAlignment::Shift5),
            v => Some(SegmentAlignment::Reserved(v)),
        }
    }

    /// The raw shift count.
    pub fn shift(&self) -> (r: u32)
        ensures
            r == self.spec_shift(),
    {
        match self {
            SegmentAlignment::Shift0 => 0,
            SegmentAlignment::Shift1 => 1,
            SegmentAlignment::Shift2 => 2,
            SegmentAlignment::Shift3 => 3,
            SegmentAlignment::Shift4 => 4,
            SegmentAlignment::Shift5 => 5,
            SegmentAlignment::Reserved(v) => *v as u32,
        }
    }

    /// The sector size in bytes, `2^shift`, or `usize::MAX` when that does
    /// not fit in `usize`.
    pub fn alignment_bytes(&self) -> (r: usize)
        ensures
            self.spec_shift() < usize::BITS ==> r == vstd::arithmetic::power2::pow2(
                self.spec_shift() as nat,
            ),
            self.spec_shift() >= usize::BITS ==> r == usize::MAX,
    {
        let s = self.shift();
        if s < usize::BITS {
            let r: usize = 1usize << s;
            proof {
                vstd::bits::lemma_usize_pow2_no_overflow(s as nat);
                vstd::bits::lemma_usize_shl_is_mul(1, s as usize);
            }
            r
        } else {
            usize::MAX
        }
    }
}

// ---------------------------------------------------------------------------
// Segment combine type
// ---------------------------------------------------------------------------

/// How segments of the same name are combined.
#[derive(Debug, Clone, Copy, PartialEq, Eq)]
pub enum SegmentCombine {
    /// Null (no combining)
    Null,
    /// System (OS/2)
    System,
    /// Common (shared data)
    Common,
    /// Public (standard combining)
    Public,
    /// Unused (4-7 are reserved)
    Reserved(u8),
}

impl SegmentCombine {
    /// Creates the combine type from a raw byte (always `Some`).
    pub fn from_u8(value: u8) -> (r: Option<Self>)
        ensures
            r == Some(
                if value == 0 {
                    SegmentCombine::Null
                } else if value == 1 {
                    SegmentCombine::System
                } else if value == 2 {
                    SegmentCombine::Common
                } else if value == 3 {
                    SegmentCombine::Public
                } else {
                    SegmentCombine::Reserved(value)
                },
            ),
    {
        match value {
            0 => Some(SegmentCombine::Null),
            1 => Some(SegmentCombine::System),
            2 => Some(SegmentCombine::Common),
            3 => Some(SegmentCombine::Public),
            v => Some(SegmentCombine::Reserved(v)),
        }
    }
}

// ---------------------------------------------------------------------------
// IMAGE_OS2_HEADER -- the NE header
// ---------------------------------------------------------------------------

/// The NE header: the 64-byte layout of the Windows `IMAGE_OS2_HEADER`
/// (offsets 0x00-0x3F). True v4 headers are 60 bytes on disk; their last
/// two fields (`swap_area`, `expected_version`) do not exist there.
#[derive(Debug, Clone, Copy, PartialEq, Eq)]
pub struct ImageOS2Header {
    /// "NE" signature (0x454E)
    pub signature: u16,
    /// Linker major version
    pub linker_version: u8,
    /// Linker minor version
    pub linker_minor_version: u8,
    /// Entry table offset (relative to the NE header)
    pub entry_table_offset: u16,
    /// Entry table size in bytes
    pub entry_table_size: u16,
    /// Checksum
    pub checksum: u32,
    /// Module flags (`ne_flags`)
    pub flags: u16,
    /// Automatic data segment number
    pub auto_data_sel: u16,
    /// Initial heap size
    pub heap_init: u16,
    /// Initial stack size
    pub stack_init: u16,
    /// Initial CS:IP (selector in the high word)
    pub csip: u32,
    /// Initial SS:SP (selector in the high word)
    pub sssp: u32,
    /// Segment count
    pub seg_count: u16,
    /// Module reference count
    pub mod_count: u16,
    /// Non-resident name table size in bytes
    pub non_res_name_size: u16,
    /// Segment table offset (relative to the NE header)
    pub seg_table_offset: u16,
    /// Resource table offset (relative to the NE header)
    pub resource_table_offset: u16,
    /// Resident name table offset (relative to the NE header)
    pub res_name_table_offset: u16,
    /// Module reference table offset (relative to the NE header)
    pub mod_table_offset: u16,
    /// Imported names table offset (relative to the NE header)
    pub imported_names_table_offset: u16,
    /// Non-resident name table offset (a file offset)
    pub non_res_name_table_offset: u32,
    /// Number of movable entry points
    pub mod_internal_entries: u16,
    /// Sector alignment shift count
    pub alignment: u16,
    /// Resource segment count
    pub resource_count: u16,
    /// Target operating system (`ne_exetyp`)
    pub exe_type: u8,
    /// Other flags
    pub other_flags: u8,
    /// Return thunk offset / start of the fast-load area
    pub ret_thunk_offset: u16,
    /// Segment reference bytes offset / size of the fast-load area
    pub seg_ref_bytes_offset: u16,
    /// Swap area (v5 only)
    pub swap_area: u16,
    /// Expected Windows version (v5 only)
    pub expected_version: u16,
}

/// The header whose on-disk bytes start at `b[at]` (64 bytes).
pub open spec fn spec_header_at(b: Seq<u8>, at: int) -> ImageOS2Header {
    ImageOS2Header {
        signature: le16(b, at),
        linker_version: b[at + 0x02],
        linker_minor_version: b[at + 0x03],
        entry_table_offset: le16(b, at + 0x04),
        entry_table_size: le16(b, at + 0x06),
        checksum: le32(b, at + 0x08),
        flags: le16(b, at + 0x0C),
        auto_data_sel: le16(b, at + 0x0E),
        heap_init: le16(b, at + 0x10),
        stack_init: le16(b, at + 0x12),
        csip: le32(b, at + 0x14),
        sssp: le32(b, at + 0x18),
        seg_count: le16(b, at + 0x1C),
        mod_count: le16(b, at + 0x1E),
        non_res_name_size: le16(b, at + 0x20),
        seg_table_offset: le16(b, at + 0x22),
        resource_table_offset: le16(b, at + 0x24),
        res_name_table_offset: le16(b, at + 0x26),
        mod_table_offset: le16(b, at + 0x28),
        imported_names_table_offset: le16(b, at + 0x2A),
        non_res_name_table_offset: le32(b, at + 0x2C),
        mod_internal_entries: le16(b, at + 0x30),
        alignment: le16(b, at + 0x32),
        resource_count: le16(b, at + 0x34),
        exe_type: b[at + 0x36],
        other_flags: b[at + 0x37],
        ret_thunk_offset: le16(b, at + 0x38),
        seg_ref_bytes_offset: le16(b, at + 0x3A),
        swap_area: le16(b, at + 0x3C),
        expected_version: le16(b, at + 0x3E),
    }
}

/// Reading a header at `at` is reading it from the 64 bytes there.
pub proof fn lemma_header_at_subrange(b: Seq<u8>, at: int)
    requires
        0 <= at,
        at + 64 <= b.len(),
    ensures
        spec_header_at(b, at) == spec_header_at(b.subrange(at, at + 64), 0),
{
    let s = b.subrange(at, at + 64);
    assert forall|k: int| 0 <= k < 64 implies s[k] == b[at + k] by {}
}

/// The v4 header whose 60 on-disk bytes start at `b[at]`: the two v5-only
/// fields do not exist on disk and read as zero.
pub open spec fn spec_header_v4_at(b: Seq<u8>, at: int) -> ImageOS2Header {
    ImageOS2Header { swap_area: 0, expected_version: 0, ..spec_header_at(b, at) }
}

/// The 64 on-disk bytes of a header.
pub open spec fn spec_header_bytes(h: ImageOS2Header) -> Seq<u8> {
    u16_bytes(h.signature) + seq![h.linker_version, h.linker_minor_version] + u16_bytes(
        h.entry_table_offset,
    ) + u16_bytes(h.entry_table_size) + u32_bytes(h.checksum) + u16_bytes(h.flags) + u16_bytes(
        h.auto_data_sel,
    ) + u16_bytes(h.heap_init) + u16_bytes(h.stack_init) + u32_bytes(h.csip) + u32_bytes(h.sssp)
        + u16_bytes(h.seg_count) + u16_bytes(h.mod_count) + u16_bytes(h.non_res_name_size)
        + u16_bytes(h.seg_table_offset) + u16_bytes(h.resource_table_offset) + u16_bytes(
        h.res_name_table_offset,
    ) + u16_bytes(h.mod_table_offset) + u16_bytes(h.imported_names_table_offset) + u32_bytes(
        h.non_res_name_table_offset,
    ) + u16_bytes(h.mod_internal_entries) + u16_bytes(h.alignment) + u16_bytes(h.resource_count)
        + seq![h.exe_type, h.other_flags] + u16_bytes(h.ret_thunk_offset) + u16_bytes(
        h.seg_ref_bytes_offset,
    ) + u16_bytes(h.swap_area) + u16_bytes(h.expected_version)
}

/// The fields common to v4 and v5 headers, read from a header.
pub open spec fn spec_common_fields(h: ImageOS2Header) -> CommonFields {
    CommonFields {
        linker_version: h.linker_version,
        linker_minor_version: h.linker_minor_version,
        entry_table_offset: h.entry_table_offset,
        entry_table_size: h.entry_table_size,
        checksum: h.checksum,
        flags: h.flags,
        auto_data_sel: h.auto_data_sel,
        heap_init: h.heap_init,
        stack_init: h.stack_init,
        csip: h.csip,
        sssp: h.sssp,
        seg_count: h.seg_count,
        mod_count: h.mod_count,
        non_res_name_size: h.non_res_name_size,
        seg_table_offset: h.seg_table_offset,
        resource_table_offset: h.resource_table_offset,
        res_name_table_offset: h.res_name_table_offset,
        mod_table_offset: h.mod_table_offset,
        imported_names_table_offset: h.imported_names_table_offset,
        non_res_name_table_offset: h.non_res_name_table_offset,
        mod_internal_entries: h.mod_internal_entries,
        alignment: h.alignment,
        resource_count: h.resource_count,
        exe_type: h.exe_type,
        other_flags: h.other_flags,
        ret_thunk_offset: h.ret_thunk_offset,
        seg_ref_bytes_offset: h.seg_ref_bytes_offset,
    }
}

impl ImageOS2Header {
    /// A header is v5 when its linker major version is at least 5.
    pub open spec fn spec_is_v5(&self) -> bool {
        self.linker_version >= 5
    }

    /// Parses the header from the first 64 bytes of `s`.
    pub fn from_bytes(s: &[u8]) -> (r: ImageOS2Header)
        requires
            s@.len() >= 64,
        ensures
            r == spec_header_at(s@, 0),
    {
        ImageOS2Header {
            signature: get_le16(s, 0x00),
            linker_version: s[0x02],
            linker_minor_version: s[0x03],
            entry_table_offset: get_le16(s, 0x04),
            entry_table_size: get_le16(s, 0x06),
            checksum: get_le32(s, 0x08),
            flags: get_le16(s, 0x0C),
            auto_data_sel: get_le16(s, 0x0E),
            heap_init: get_le16(s, 0x10),
            stack_init: get_le16(s, 0x12),
            csip: get_le32(s, 0x14),
            sssp: get_le32(s, 0x18),
            seg_count: get_le16(s, 0x1C),
            mod_count: get_le16(s, 0x1E),
            non_res_name_size: get_le16(s, 0x20),
            seg_table_offset: get_le16(s, 0x22),
            resource_table_offset: get_le16(s, 0x24),
            res_name_table_offset: get_le16(s, 0x26),
            mod_table_offset: get_le16(s, 0x28),
            imported_names_table_offset: get_le16(s, 0x2A),
            non_res_name_table_offset: get_le32(s, 0x2C),
            mod_internal_entries: get_le16(s, 0x30),
            alignment: get_le16(s, 0x32),
            resource_count: get_le16(s, 0x34),
            exe_type: s[0x36],
            other_flags: s[0x37],
            ret_thunk_offset: get_le16(s, 0x38),
            seg_ref_bytes_offset: get_le16(s, 0x3A),
            swap_area: get_le16(s, 0x3C),
            expected_version: get_le16(s, 0x3E),
        }
    }

    /// Parses a 60-byte v4 header from the first 60 bytes of `s`; the two
    /// v5-only fields, which a v4 header does not hold, read as zero.
    pub fn from_bytes_v4(s: &[u8]) -> (r: ImageOS2Header)
        requires
            s@.len() >= 60,
        ensures
            r == spec_header_v4_at(s@, 0),
    {
        ImageOS2Header {
            signature: get_le16(s, 0x00),
            linker_version: s[0x02],
            linker_minor_version: s[0x03],
            entry_table_offset: get_le16(s, 0x04),
            entry_table_size: get_le16(s, 0x06),
            checksum: get_le32(s, 0x08),
            flags: get_le16(s, 0x0C),
            auto_data_sel: get_le16(s, 0x0E),
            heap_init: get_le16(s, 0x10),
            stack_init: get_le16(s, 0x12),
            csip: get_le32(s, 0x14),
            sssp: get_le32(s, 0x18),
            seg_count: get_le16(s, 0x1C),
            mod_count: get_le16(s, 0x1E),
            non_res_name_size: get_le16(s, 0x20),
            seg_table_offset: get_le16(s, 0x22),
            resource_table_offset: get_le16(s, 0x24),
            res_name_table_offset: get_le16(s, 0x26),
            mod_table_offset: get_le16(s, 0x28),
            imported_names_table_offset: get_le16(s, 0x2A),
            non_res_name_table_offset: get_le32(s, 0x2C),
            mod_internal_entries: get_le16(s, 0x30),
            alignment: get_le16(s, 0x32),
            resource_count: get_le16(s, 0x34),
            exe_type: s[0x36],
            other_flags: s[0x37],
            ret_thunk_offset: get_le16(s, 0x38),
            seg_ref_bytes_offset: get_le16(s, 0x3A),
            swap_area: 0,
            expected_version: 0,
        }
    }

    /// The 64 on-disk bytes of this header.
    pub fn to_bytes(&self) -> (r: Vec<u8>)
        ensures
            r@ == spec_header_bytes(*self),
            r@.len() == 64,
    {
        let mut v: Vec<u8> = Vec::new();
        push_u16(&mut v, self.signature);
        v.push(self.linker_version);
        v.push(self.linker_minor_version);
        push_u16(&mut v, self.entry_table_offset);
        push_u16(&mut v, self.entry_table_size);
        push_u32(&mut v, self.checksum);
        push_u16(&mut v, self.flags);
        push_u16(&mut v, self.auto_data_sel);
        push_u16(&mut v, self.heap_init);
        push_u16(&mut v, self.stack_init);
        push_u32(&mut v, self.csip);
        push_u32(&mut v, self.sssp);
        push_u16(&mut v, self.seg_count);
        push_u16(&mut v, self.mod_count);
        push_u16(&mut v, self.non_res_name_size);
        push_u16(&mut v, self.seg_table_offset);
        push_u16(&mut v, self.resource_table_offset);
        push_u16(&mut v, self.res_name_table_offset);
        push_u16(&mut v, self.mod_table_offset);
        push_u16(&mut v, self.imported_names_table_offset);
        push_u32(&mut v, self.non_res_name_table_offset);
        push_u16(&mut v, self.mod_internal_entries);
        push_u16(&mut v, self.alignment);
        push_u16(&mut v, self.resource_count);
        v.push(self.exe_type);
        v.push(self.other_flags);
        push_u16(&mut v, self.ret_thunk_offset);
        push_u16(&mut v, self.seg_ref_bytes_offset);
        push_u16(&mut v, self.swap_area);
        push_u16(&mut v, self.expected_version);
        assert(v@ =~= spec_header_bytes(*self));
        v
    }

    /// Size of this header on disk: 64 bytes for v5, 60 bytes for v4.
    pub fn header_size(&self) -> (r: usize)
        ensures
            r == if self.spec_is_v5() {
                NE_HEADER_SIZE_V5
            } else {
                NE_HEADER_SIZE_V4
            },
    {
        if self.is_v5() {
            NE_HEADER_SIZE_V5
        } else {
            NE_HEADER_SIZE_V4
        }
    }

    /// Whether this is a v5 header (linker major version at least 5).
    pub fn is_v5(&self) -> (r: bool)
        ensures
            r == self.spec_is_v5(),
    {
        self.linker_version >= 5
    }

    /// The executable type named by the `exe_type` byte.
    pub fn exe_type(&self) -> (r: ExeType)
        ensures
            r == spec_exe_type(self.exe_type),
    {
        match ExeType::from_u8(self.exe_type) {
            Some(t) => t,
            None => ExeType::Invalid,
        }
    }

    /// The header version as text.
    pub fn version(&self) -> (r: &'static str)
        ensures
            r == if self.spec_is_v5() {
                "NE v5 (Windows 3.1)"
            } else {
                "NE v4 (OS/2)"
            },
    {
        if self.is_v5() {
            "NE v5 (Windows 3.1)"
        } else {
            "NE v4 (OS/2)"
        }
    }

    /// `Ok` for a v5 header, `HeaderVersionMismatch` otherwise.
    pub fn ensure_v5(&self) -> (r: Result<(), Error>)
        ensures
            r == if self.spec_is_v5() {
                Ok::<(), Error>(())
            } else {
                Err(Error::HeaderVersionMismatch)
            },
    {
        if self.is_v5() {
            Ok(())
        } else {
            Err(Error::HeaderVersionMismatch)
        }
    }

    /// The v5-only fields, for v5 headers.
    pub fn v5_fields(&self) -> (r: Option<V5Fields>)
        ensures
            r == if self.spec_is_v5() {
                Some(V5Fields { swap_area: self.swap_area, expected_version: self.expected_version })
            } else {
                None
            },
    {
        if self.is_v5() {
            Some(V5Fields { swap_area: self.swap_area, expected_version: self.expected_version })
        } else {
            None
        }
    }

    /// The fields common to v4 and v5 headers.
    pub fn common_fields(&self) -> (r: CommonFields)
        ensures
            r == spec_common_fields(*self),
    {
        CommonFields {
            linker_version: self.linker_version,
            linker_minor_version: self.linker_minor_version,
            entry_table_offset: self.entry_table_offset,
            entry_table_size: self.entry_table_size,
            checksum: self.checksum,
            flags: self.flags,
            auto_data_sel: self.auto_data_sel,
            heap_init: self.heap_init,
            stack_init: self.stack_init,
            csip: self.csip,
            sssp: self.sssp,
            seg_count: self.seg_count,
            mod_count: self.mod_count,
            non_res_name_size: self.non_res_name_size,
            seg_table_offset: self.seg_table_offset,
            resource_table_offset: self.resource_table_offset,
            res_name_table_offset: self.res_name_table_offset,
            mod_table_offset: self.mod_table_offset,
            imported_names_table_offset: self.imported_names_table_offset,
            non_res_name_table_offset: self.non_res_name_table_offset,
            mod_internal_entries: self.mod_internal_entries,
            alignment: self.alignment,
            resource_count: self.resource_count,
            exe_type: self.exe_type,
            other_flags: self.other_flags,
            ret_thunk_offset: self.ret_thunk_offset,
            seg_ref_bytes_offset: self.seg_ref_bytes_offset,
        }
    }
}

/// Parsing the 64 bytes written for a header gives back that header.
pub proof fn lemma_header_bytes_roundtrip(h: ImageOS2Header)
    ensures
        spec_header_bytes(h).len() == 64,
        spec_header_at(spec_header_bytes(h), 0) == h,
{
    let s = spec_header_bytes(h);
    assert(s.len() == 64);
    assert(le16(s, 0x00) == h.signature);
    assert(s[0x02] == h.linker_version);
    assert(s[0x03] == h.linker_minor_version);
    assert(le16(s, 0x04) == h.entry_table_offset);
    assert(le16(s, 0x06) == h.entry_table_size);
    lemma_u32_at(s, 0x08, h.checksum);
    assert(le16(s, 0x0C) == h.flags);
    assert(le16(s, 0x0E) == h.auto_data_sel);
    assert(le16(s, 0x10) == h.heap_init);
    assert(le16(s, 0x12) == h.stack_init);
    lemma_u32_at(s, 0x14, h.csip);
    lemma_u32_at(s, 0x18, h.sssp);
    assert(le16(s, 0x1C) == h.seg_count);
    assert(le16(s, 0x1E) == h.mod_count);
    assert(le16(s, 0x20) == h.non_res_name_size);
    assert(le16(s, 0x22) == h.seg_table_offset);
    assert(le16(s, 0x24) == h.resource_table_offset);
    assert(le16(s, 0x26) == h.res_name_table_offset);
    assert(le16(s, 0x28) == h.mod_table_offset);
    assert(le16(s, 0x2A) == h.imported_names_table_offset);
    lemma_u32_at(s, 0x2C, h.non_res_name_table_offset);
    assert(le16(s, 0x30) == h.mod_internal_entries);
    assert(le16(s, 0x32) == h.alignment);
    assert(le16(s, 0x34) == h.resource_count);
    assert(s[0x36] == h.exe_type);
    assert(s[0x37] == h.other_flags);
    assert(le16(s, 0x38) == h.ret_thunk_offset);
    assert(le16(s, 0x3A) == h.seg_ref_bytes_offset);
    assert(le16(s, 0x3C) == h.swap_area);
    assert(le16(s, 0x3E) == h.expected_version);
}

/// Common (v4/v5) header fields, valid for all NE headers.
#[derive(Debug, Clone, Copy, PartialEq, Eq)]
pub struct CommonFields {
    pub linker_version: u8,
    pub linker_minor_version: u8,
    pub entry_table_offset: u16,
    pub entry_table_size: u16,
    pub checksum: u32,
    pub flags: u16,
    pub auto_data_sel: u16,
    pub heap_init: u16,
    pub stack_init: u16,
    pub csip: u32,
    pub sssp: u32,
    pub seg_count: u16,
    pub mod_count: u16,
    pub non_res_name_size: u16,
    pub seg_table_offset: u16,
    pub resource_table_offset: u16,
    pub res_name_table_offset: u16,
    pub mod_table_offset: u16,
    pub imported_names_table_offset: u16,
    pub non_res_name_table_offset: u32,
    pub mod_internal_entries: u16,
    pub alignment: u16,
    pub resource_count: u16,
    pub exe_type: u8,
    pub other_flags: u8,
    pub ret_thunk_offset: u16,
    pub seg_ref_bytes_offset: u16,
}

/// The v5-only header fields (offsets 0x3C-0x3F).
#[derive(Debug, Clone, Copy, PartialEq, Eq)]
pub struct V5Fields {
    pub swap_area: u16,
    pub expected_version: u16,
}

// ---------------------------------------------------------------------------
// Segment record (8 bytes)
// ---------------------------------------------------------------------------

/// Segment record of the NE segment table (8 bytes on disk).
#[derive(Debug, Clone, Copy, PartialEq, Eq)]
pub struct SegmentRecord {
    /// Segment data offset in sectors from the file start
    /// (file offset = `offset << alignment_shift`).
    pub offset: u16,
    /// Length of the segment data on disk.
    pub length: u16,
    /// Segment flags.
    pub flags: u16,
    /// Minimum allocation size.
    pub minalloc: u16,
}

/// The segment record whose bytes start at `b[at]` (8 bytes).
pub open spec fn spec_segment_at(b: Seq<u8>, at: int) -> SegmentRecord {
    SegmentRecord {
        offset: le16(b, at),
        length: le16(b, at + 2),
        flags: le16(b, at + 4),
        minalloc: le16(b, at + 6),
    }
}

/// A segment record holds, in this order, four little-endian words: the
/// data offset in sectors, the length on disk, the flags and the minimum
/// allocation.
pub proof fn segment_record_words_in_order(b: Seq<u8>, at: int)
    requires
        0 <= at,
        at + 8 <= b.len(),
    ensures
        spec_segment_at(b, at).offset == b[at] + 256 * b[at + 1],
        spec_segment_at(b, at).length == b[at + 2] + 256 * b[at + 3],
        spec_segment_at(b, at).flags == b[at + 4] + 256 * b[at + 5],
        spec_segment_at(b, at).minalloc == b[at + 6] + 256 * b[at + 7],
{
}

impl SegmentRecord {
    /// Parses a record from the first 8 bytes of `s`.
    pub fn from_bytes(s: &[u8]) -> (r: SegmentRecord)
        requires
            s@.len() >= 8,
        ensures
            r == spec_segment_at(s@, 0),
    {
        SegmentRecord {
            offset: get_le16(s, 0),
            length: get_le16(s, 2),
            flags: get_le16(s, 4),
            minalloc: get_le16(s, 6),
        }
    }

    /// The segment flags.
    pub fn segment_flags(&self) -> (r: SegmentFlags)
        ensures
            r@ == self.flags,
    {
        SegmentFlags::from_bits_truncate(self.flags)
    }

    /// Whether this is a data segment.
    pub fn is_data(&self) -> (r: bool)
        ensures
            r == (self.flags & 0x0001 == 0x0001),
    {
        self.segment_flags().contains(SegmentFlags::DATA)
    }

    /// Whether this is a moveable segment.
    pub fn is_moveable(&self) -> (r: bool)
        ensures
            r == (self.flags & 0x0010 == 0x0010),
    {
        self.segment_flags().contains(SegmentFlags::MOVEABLE)
    }

    /// Whether this is a shareable segment.
    pub fn is_shared(&self) -> (r: bool)
        ensures
            r == (self.flags & 0x0020 == 0x0020),
    {
        self.segment_flags().contains(SegmentFlags::SHAREABLE)
    }

    /// Whether this is a discardable segment.
    pub fn is_discardable(&self) -> (r: bool)
        ensures
            r == (self.flags & 0x1000 == 0x1000),
    {
        self.segment_flags().contains(SegmentFlags::DISCARDABLE)
    }

    /// Segment data offset, in sectors from the file start.
    pub fn offset(&self) -> (r: u16)
        ensures
            r == self.offset,
    {
        self.offset
    }

    /// Length of the segment data on disk.
    pub fn length(&self) -> (r: u16)
        ensures
            r == self.length,
    {
        self.length
    }

    /// Minimum allocation size.
    pub fn minalloc(&self) -> (r: u16)
        ensures
            r == self.minalloc,
    {
        self.minalloc
    }
}

/// Truncating flags twice keeps what truncating once keeps.
pub proof fn ne_flags_truncate_idempotent(bits: u16)
    ensures
        (bits & ne_flags_mask()) & ne_flags_mask() == bits & ne_flags_mask(),
{
    assert((bits & 0xA803u16) & 0xA803u16 == bits & 0xA803u16) by (bit_vector);
}

} // verus!
