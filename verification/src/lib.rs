//! Parser for the NE ("New Executable") format of 16-bit Windows and OS/2.

use vstd::arithmetic::div_mod::{lemma_fundamental_div_mod, lemma_mod_multiples_basic};
use vstd::arithmetic::power2::{lemma2_to64, lemma_pow2_strictly_increases, pow2};
use vstd::bits::{lemma_usize_low_bits_mask_is_mod, low_bits_mask};
use vstd::prelude::*;

pub mod codec;
pub mod describe;
pub mod documents;
pub mod dump;
pub mod error;
pub mod hash;
pub mod imports;
pub mod headers;
pub mod ne;
pub mod readback;
pub mod report;
pub mod text;
pub mod types;

pub use error::Error;
pub use types::{
    AddressType, EntryTable, EntryType, ExportEntry, ImportedNamesTable, ModuleRefTable,
    NonResidentNameTable, OsFixupType, PascalString, RelocationEntry, RelocationTable,
    RelocationType, ResidentName, ResidentNameTable, ResourceId, ResourceRecord, ResourceTable,
    ResourceTypeId, TypeInfo,
};
pub use ne::{Buffer, PtrNE, VecNE, DOS_E_LFARLC_OFFSET, MIN_NE_FILE_SIZE, NE};
pub use headers::{
    CommonFields, ExeType, ImageOS2Header, NeFlags, SegmentAlignment, SegmentCombine, SegmentFlags,
    SegmentRecord, V5Fields,
};

verus! {


/// DOS MZ signature ("MZ" read little-endian).
pub const DOS_SIGNATURE: u16 = 0x5A4D;

/// NE signature ("NE" read little-endian).
pub const NE_SIGNATURE: u16 = 0x454E;

/// Maximum bundle chain length.
pub const MAX_BUNDLE_CHAIN_LENGTH: u16 = 0xFFFF;

/// Default resource alignment shift (4-byte alignment).
pub const DEFAULT_RESOURCE_ALIGNMENT_SHIFT: u16 = 2;

/// NE header size on disk for v4 files (OS/2 1.x).
pub const NE_HEADER_SIZE_V4: usize = 60;

/// NE header size on disk for v5 files (the 64-byte Windows layout).
pub const NE_HEADER_SIZE_V5: usize = 64;

/// Minimum DOS header size.
pub const DOS_HEADER_SIZE: usize = 64;

/// Offset of `e_lfanew` within the DOS header.
pub const DOS_E_LFANEW_OFFSET: usize = 0x3C;

/// Whether `n` is a power of two.
pub open spec fn is_pow2(n: int) -> bool {
    exists|k: nat| n == pow2(k)
}

/// `value` rounded up to a multiple of `boundary`.
pub open spec fn round_up(value: int, boundary: int) -> int {
    ((value + boundary - 1) / boundary) * boundary
}

/// Aligns `value` up to the next multiple of `boundary`, a power of two.
pub fn align(value: usize, boundary: usize) -> (r: usize)
    requires
        is_pow2(boundary as int),
        value + boundary <= usize::MAX,
    ensures
        r == round_up(value as int, boundary as int),
        r % boundary == 0,
        value <= r < value + boundary,
{
    let ghost k = choose|k: nat| boundary == pow2(k);
    proof {
        vstd::arithmetic::power2::lemma_pow2_pos(k);
    }
    let x = value + boundary - 1;
    let m = boundary - 1;
    let r = x & !m;
    proof {
        if k >= usize::BITS {
            lemma2_to64();
            if k > usize::BITS {
                lemma_pow2_strictly_increases(usize::BITS as nat, k);
            }
            assert(pow2(usize::BITS as nat) > usize::MAX);
        }
        assert(m == low_bits_mask(k) as usize);
        lemma_usize_low_bits_mask_is_mod(x, k);
        assert((x & !m) + (x & m) == x) by (bit_vector);
        lemma_fundamental_div_mod(x as int, boundary as int);
        lemma_mod_multiples_basic(x as int / boundary as int, boundary as int);
        assert(r as int == (x as int / boundary as int) * boundary as int) by (nonlinear_arith)
            requires
                r + x % boundary == x,
                x as int == boundary * (x as int / boundary as int) + x % boundary,
        ;
    }
    r
}

/// Aligning is exact on multiples: a value already on a boundary stays
/// where it is, so aligning twice gives what aligning once gives.
pub proof fn round_up_idempotent(value: int, boundary: int)
    requires
        boundary > 0,
    ensures
        round_up(value, boundary) % boundary == 0,
        round_up(round_up(value, boundary), boundary) == round_up(value, boundary),
{
    let q = (value + boundary - 1) / boundary;
    lemma_mod_multiples_basic(q, boundary);
    let r = q * boundary;
    assert((r + boundary - 1) / boundary == q) by (nonlinear_arith)
        requires
            boundary > 0,
            r == q * boundary,
    ;
}

/// The aligned value is the least multiple of `boundary` that is at least
/// `value`.
pub proof fn round_up_is_least(value: int, boundary: int, m: int)
    requires
        boundary > 0,
        m % boundary == 0,
        m >= value,
    ensures
        value <= round_up(value, boundary) <= m,
{
    lemma_fundamental_div_mod(value + boundary - 1, boundary);
    lemma_fundamental_div_mod(m, boundary);
    let q = (value + boundary - 1) / boundary;
    let qm = m / boundary;
    assert(value <= q * boundary <= m) by (nonlinear_arith)
        requires
            boundary > 0,
            value + boundary - 1 == boundary * q + (value + boundary - 1) % boundary,
            0 <= (value + boundary - 1) % boundary < boundary,
            m == boundary * qm,
            m >= value,
    ;
}

} // verus!
