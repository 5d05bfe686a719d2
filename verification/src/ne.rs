//! The NE buffer abstraction: the `Buffer` trait (bounds-checked reads),
//! the `NE` trait (header access, segment table, address translation), and
//! the two buffers `VecNE` (owned bytes) and `PtrNE` (borrowed bytes).

use vstd::prelude::*;

use crate::codec::{addressable, get_le16, get_le32, get_le64, le16, le32, le64};
use crate::headers::{
    spec_header_at, spec_header_bytes, spec_header_v4_at, spec_segment_at, ImageOS2Header, NeFlags,
    SegmentRecord,
};
use crate::{Error, DOS_E_LFANEW_OFFSET, DOS_HEADER_SIZE, DOS_SIGNATURE, NE_HEADER_SIZE_V4,
    NE_HEADER_SIZE_V5, NE_SIGNATURE};

verus! {

/// Minimum size of a valid NE file (DOS header plus a v4 NE header).
pub const MIN_NE_FILE_SIZE: usize = 124;

/// DOS header offset of the `e_lfarlc` field (read, never used for detection).
pub const DOS_E_LFARLC_OFFSET: usize = 0x18;

// ---------------------------------------------------------------------------
// The reading model
// ---------------------------------------------------------------------------

/// The bytes `b[off..off + n]`, or the out-of-bounds error a read reports.
pub open spec fn spec_slice(b: Seq<u8>, off: int, n: int) -> Result<Seq<u8>, Error> {
    if off + n > b.len() {
        Err(Error::HeaderOutOfBounds((off + n) as usize))
    } else {
        Ok(b.subrange(off, off + n))
    }
}

/// Reading a byte at `off`.
pub open spec fn spec_read_u8(b: Seq<u8>, off: int) -> Result<u8, Error> {
    if off + 1 > b.len() {
        Err(Error::HeaderOutOfBounds((off + 1) as usize))
    } else {
        Ok(b[off])
    }
}

/// Reading a little-endian `u16` at `off`.
pub open spec fn spec_read_u16(b: Seq<u8>, off: int) -> Result<u16, Error> {
    if off + 2 > b.len() {
        Err(Error::HeaderOutOfBounds((off + 2) as usize))
    } else {
        Ok(le16(b, off))
    }
}

/// Reading a little-endian `u32` at `off`.
pub open spec fn spec_read_u32(b: Seq<u8>, off: int) -> Result<u32, Error> {
    if off + 4 > b.len() {
        Err(Error::HeaderOutOfBounds((off + 4) as usize))
    } else {
        Ok(le32(b, off))
    }
}

/// Reading a little-endian `u64` at `off`.
pub open spec fn spec_read_u64(b: Seq<u8>, off: int) -> Result<u64, Error> {
    if off + 8 > b.len() {
        Err(Error::HeaderOutOfBounds((off + 8) as usize))
    } else {
        Ok(le64(b, off))
    }
}

/// The NE header's file offset, `e_lfanew` (the `u32` at DOS offset 0x3C).
pub open spec fn e_lfanew(b: Seq<u8>) -> int {
    le32(b, 0x3C) as int
}

/// The NE header as read by `VecNE::get_ne_header`: the NE signature is
/// checked, and a v4 header (linker major below 5) is read from its 60
/// on-disk bytes with the v5-only fields as zero.
pub open spec fn spec_vec_ne_header(b: Seq<u8>) -> Result<ImageOS2Header, Error> {
    if b.len() < 0x40 {
        Err(Error::HeaderOutOfBounds(0x40))
    } else if e_lfanew(b) + 60 > b.len() {
        Err(Error::HeaderTooSmall)
    } else if le16(b, e_lfanew(b)) != NE_SIGNATURE {
        Err(Error::InvalidNESignature(le16(b, e_lfanew(b))))
    } else if b[e_lfanew(b) + 2] >= 5 {
        if e_lfanew(b) + 64 > b.len() {
            Err(Error::HeaderOutOfBounds((e_lfanew(b) + 64) as usize))
        } else {
            Ok(spec_header_at(b, e_lfanew(b)))
        }
    } else {
        Ok(spec_header_v4_at(b, e_lfanew(b)))
    }
}

/// The 64 bytes at `e_lfanew` read as a header, without checking the
/// signature (what `get_ne_header_ref` reads).
pub open spec fn spec_raw_ne_header(b: Seq<u8>) -> Result<ImageOS2Header, Error> {
    if b.len() < 0x40 {
        Err(Error::HeaderOutOfBounds(0x40))
    } else if e_lfanew(b) + 64 > b.len() {
        Err(Error::HeaderTooSmall)
    } else {
        Ok(spec_header_at(b, e_lfanew(b)))
    }
}

/// Header validation of `VecNE`: DOS size and signature, room for the
/// header at `e_lfanew`, the NE signature, then the header as
/// `spec_vec_ne_header` reads it.
pub open spec fn spec_vec_valid_ne_header(b: Seq<u8>) -> Result<ImageOS2Header, Error> {
    if b.len() < 64 {
        Err(Error::HeaderTooSmall)
    } else if le16(b, 0) != DOS_SIGNATURE {
        Err(Error::InvalidDOSSignature(le16(b, 0)))
    } else if e_lfanew(b) + 60 > b.len() {
        Err(Error::HeaderTooSmall)
    } else if le16(b, e_lfanew(b)) != NE_SIGNATURE {
        Err(Error::InvalidNESignature(le16(b, e_lfanew(b))))
    } else if e_lfanew(b) + 64 > b.len() {
        Err(Error::HeaderTooSmall)
    } else if b[e_lfanew(b) + 2] >= 5 {
        Ok(spec_header_at(b, e_lfanew(b)))
    } else {
        Ok(spec_header_v4_at(b, e_lfanew(b)))
    }
}

/// The header at `at` by its version: all 64 bytes for a v5 header
/// (linker major version 5 or more); for a v4 header its 60 on-disk
/// bytes, the v5-only fields reading as zero.
pub open spec fn spec_versioned_header_at(b: Seq<u8>, at: int) -> ImageOS2Header {
    if b[at + 2] >= 5 {
        spec_header_at(b, at)
    } else {
        spec_header_v4_at(b, at)
    }
}

/// The header of a `PtrNE`: room for the 64-byte header at `e_lfanew`, the
/// NE signature there, then the header by its version.
pub open spec fn spec_ptr_ne_header(b: Seq<u8>) -> Result<ImageOS2Header, Error> {
    if b.len() < 0x40 {
        Err(Error::HeaderOutOfBounds(0x40))
    } else if e_lfanew(b) + 64 > b.len() {
        Err(Error::HeaderTooSmall)
    } else if le16(b, e_lfanew(b)) != NE_SIGNATURE {
        Err(Error::InvalidNESignature(le16(b, e_lfanew(b))))
    } else {
        Ok(spec_versioned_header_at(b, e_lfanew(b)))
    }
}

/// Header validation of `PtrNE`: DOS size and signature, room for the
/// 64-byte header at `e_lfanew`, the NE signature, then the header by its
/// version.
pub open spec fn spec_ptr_valid_ne_header(b: Seq<u8>) -> Result<ImageOS2Header, Error> {
    if b.len() < 64 {
        Err(Error::HeaderTooSmall)
    } else if le16(b, 0) != DOS_SIGNATURE {
        Err(Error::InvalidDOSSignature(le16(b, 0)))
    } else if e_lfanew(b) + 64 > b.len() {
        Err(Error::HeaderTooSmall)
    } else if le16(b, e_lfanew(b)) != NE_SIGNATURE {
        Err(Error::InvalidNESignature(le16(b, e_lfanew(b))))
    } else {
        Ok(spec_versioned_header_at(b, e_lfanew(b)))
    }
}

/// `h` is a validated header of `b`: `b` starts with `MZ`, the 64 bytes at
/// `e_lfanew` fit, they start with `NE`, and every field that a v4 header
/// holds is read from there.
pub open spec fn header_in_place(b: Seq<u8>, h: ImageOS2Header) -> bool {
    &&& b.len() >= 64
    &&& le16(b, 0) == DOS_SIGNATURE
    &&& e_lfanew(b) + 64 <= b.len()
    &&& h.signature == NE_SIGNATURE
    &&& spec_header_v4_at(b, e_lfanew(b)) == ImageOS2Header {
        swap_area: 0,
        expected_version: 0,
        ..h
    }
}

/// A table offset of the header (relative to the NE header) as the file
/// offset that the `NE` accessors report: 0 stays 0 ("not present"), any
/// other value is added to `e_lfanew` and truncated to 16 bits.
pub open spec fn rva_to_file_u16(b: Seq<u8>, rel: u16) -> u16 {
    if rel == 0 {
        0
    } else {
        ((e_lfanew(b) + rel) as usize) as u16
    }
}

/// The tables whose header offsets are relative to the NE header.
pub enum HeaderTable {
    Entry,
    Segment,
    Resource,
    ResidentName,
    ModuleRef,
    ImportedNames,
}

/// The header field that locates `t`.
pub open spec fn header_rva(h: ImageOS2Header, t: HeaderTable) -> u16 {
    match t {
        HeaderTable::Entry => h.entry_table_offset,
        HeaderTable::Segment => h.seg_table_offset,
        HeaderTable::Resource => h.resource_table_offset,
        HeaderTable::ResidentName => h.res_name_table_offset,
        HeaderTable::ModuleRef => h.mod_table_offset,
        HeaderTable::ImportedNames => h.imported_names_table_offset,
    }
}

/// The file offset that the `NE` accessor of table `t` reports: 0 when the
/// header does not validate.
pub open spec fn spec_table_offset(
    b: Seq<u8>,
    hr: Result<ImageOS2Header, Error>,
    t: HeaderTable,
) -> u16 {
    match hr {
        Ok(h) => rva_to_file_u16(b, header_rva(h, t)),
        Err(_) => 0,
    }
}

/// The segment table: `seg_count` records of 8 bytes at `e_lfanew +
/// seg_table_offset`, which must lie inside the buffer.
pub open spec fn spec_segment_table(b: Seq<u8>, hr: Result<ImageOS2Header, Error>) -> Result<
    Seq<SegmentRecord>,
    Error,
> {
    match hr {
        Err(e) => Err(e),
        Ok(h) => if h.seg_count == 0 {
            Ok(Seq::empty())
        } else if e_lfanew(b) + h.seg_table_offset + 8 * h.seg_count > b.len() {
            Err(
                Error::TableOutOfBounds(
                    "segment_table",
                    (e_lfanew(b) + h.seg_table_offset + 8 * h.seg_count) as usize,
                    b.len() as usize,
                ),
            )
        } else {
            Ok(
                Seq::new(
                    h.seg_count as nat,
                    |i: int| spec_segment_at(b, e_lfanew(b) + h.seg_table_offset + 8 * i),
                ),
            )
        },
    }
}

/// The segment with 1-based number `num`, if the table parses and holds it.
pub open spec fn spec_segment_by_number(
    b: Seq<u8>,
    hr: Result<ImageOS2Header, Error>,
    num: u16,
) -> Option<SegmentRecord> {
    if num == 0 {
        None
    } else {
        match spec_segment_table(b, hr) {
            Ok(t) => if num - 1 < t.len() {
                Some(t[num - 1])
            } else {
                None
            },
            Err(_) => None,
        }
    }
}

/// File offset of the start of segment `num` (1-based) of table `t`:
/// its sector offset shifted left by the header's alignment shift.
pub open spec fn spec_segment_start(h: ImageOS2Header, t: Seq<SegmentRecord>, num: u16) -> usize {
    (t[num - 1].offset as usize) << (h.alignment as usize)
}

/// File offset of the end of segment `num`: start plus length, or the end
/// of the buffer for a segment of length 0.
pub open spec fn spec_segment_end(
    b: Seq<u8>,
    h: ImageOS2Header,
    t: Seq<SegmentRecord>,
    num: u16,
) -> int {
    if t[num - 1].length == 0 {
        b.len() as int
    } else {
        spec_segment_start(h, t, num) + t[num - 1].length
    }
}

/// Segment `num` can be located without an arithmetic fault: the
/// alignment shift is below the width of `usize`, and the segment's end
/// does not overflow nor (for a length-0 segment) lie before its start.
pub open spec fn segment_data_defined(
    b: Seq<u8>,
    hr: Result<ImageOS2Header, Error>,
    num: u16,
) -> bool {
    match spec_segment_table(b, hr) {
        Err(_) => true,
        Ok(t) => (1 <= num && num - 1 < t.len()) ==> match hr {
            Ok(h) => {
                &&& h.alignment < usize::BITS
                &&& t[num - 1].length == 0 ==> spec_segment_start(h, t, num) <= b.len()
                &&& t[num - 1].length != 0 ==> spec_segment_start(h, t, num) + t[num - 1].length
                    <= usize::MAX
            },
            Err(_) => true,
        },
    }
}

/// The data of segment `num`: the bytes from its start to its end.
pub open spec fn spec_segment_data(
    b: Seq<u8>,
    hr: Result<ImageOS2Header, Error>,
    num: u16,
) -> Result<Seq<u8>, Error> {
    match spec_segment_table(b, hr) {
        Err(e) => Err(e),
        Ok(t) => if num == 0 || num - 1 >= t.len() {
            Err(Error::SegmentNotFound(num))
        } else {
            match hr {
                Ok(h) => spec_slice(
                    b,
                    spec_segment_start(h, t, num) as int,
                    spec_segment_end(b, h, t, num) - spec_segment_start(h, t, num),
                ),
                Err(e) => Err(e),
            }
        },
    }
}

/// The file offset of the logical address `num:offset`.
pub open spec fn spec_logical_to_offset(
    b: Seq<u8>,
    hr: Result<ImageOS2Header, Error>,
    num: u16,
    offset: u16,
) -> Result<usize, Error> {
    match spec_segment_data(b, hr, num) {
        Err(e) => Err(e),
        Ok(d) => if offset > d.len() {
            Err(Error::HeaderOutOfBounds(offset as usize))
        } else {
            match (hr, spec_segment_table(b, hr)) {
                (Ok(h), Ok(t)) => Ok((spec_segment_start(h, t, num) + offset) as usize),
                _ => Err(Error::HeaderTooSmall),
            }
        },
    }
}

/// The bytes of `b` with the 64 bytes at `e_lfanew` replaced by the
/// encoding of `h`.
pub open spec fn spec_write_header(b: Seq<u8>, h: ImageOS2Header) -> Seq<u8> {
    b.subrange(0, e_lfanew(b)) + spec_header_bytes(h) + b.subrange(e_lfanew(b) + 64, b.len() as int)
}

/// Processor modes `(real, protected)` that a header declares: Windows
/// modules are protected-mode when v5 with an expected major version of 3
/// or more, other modules when v5; real mode is supported when protected
/// mode is not, or when a Windows module sets the "Windows 2.x in protected
/// mode" bit (0x02) of `other_flags`.
pub open spec fn spec_processor_modes(h: ImageOS2Header) -> (bool, bool) {
    let is_windows = h.exe_type == 2;
    let protected = if is_windows {
        h.spec_is_v5() && h.expected_version / 256 >= 3
    } else {
        h.spec_is_v5()
    };
    let win2x_in_pm = is_windows && h.other_flags & 0x02 != 0;
    (!protected || win2x_in_pm, protected)
}

// ---------------------------------------------------------------------------
// Buffer trait
// ---------------------------------------------------------------------------

/// Bounds-checked access to the bytes of an NE buffer.
pub trait Buffer {
    /// The bytes of the buffer.
    spec fn bytes(&self) -> Seq<u8>;

    /// The bytes `[offset, offset + len)`, or `HeaderOutOfBounds(offset +
    /// len)` when that range extends past the end.
    fn get_slice(&self, offset: usize, len: usize) -> (r: Result<&[u8], Error>)
        requires
            offset + len <= usize::MAX,
        ensures
            offset + len <= self.bytes().len() ==> (r matches Ok(s) && s@ == self.bytes().subrange(
                offset as int,
                offset + len,
            )),
            offset + len > self.bytes().len() ==> r == Err::<&[u8], Error>(
                Error::HeaderOutOfBounds((offset + len) as usize),
            ),
    ;

    /// The length of the buffer in bytes.
    fn len(&self) -> (r: usize)
        ensures
            r == self.bytes().len(),
    ;

    /// Whether the buffer is empty.
    fn is_empty(&self) -> (r: bool)
        ensures
            r == (self.bytes().len() == 0),
    {
        self.len() == 0
    }

    /// Reads a byte.
    fn read_u8(&self, offset: usize) -> (r: Result<u8, Error>)
        requires
            offset + 1 <= usize::MAX,
        ensures
            r == spec_read_u8(self.bytes(), offset as int),
    {
        let bytes = self.get_slice(offset, 1)?;
        Ok(bytes[0])
    }

    /// Reads a little-endian `u16`.
    fn read_u16(&self, offset: usize) -> (r: Result<u16, Error>)
        requires
            offset + 2 <= usize::MAX,
        ensures
            r == spec_read_u16(self.bytes(), offset as int),
    {
        let bytes = self.get_slice(offset, 2)?;
        Ok(get_le16(bytes, 0))
    }

    /// Reads a little-endian `u32`.
    fn read_u32(&self, offset: usize) -> (r: Result<u32, Error>)
        requires
            offset + 4 <= usize::MAX,
        ensures
            r == spec_read_u32(self.bytes(), offset as int),
    {
        let bytes = self.get_slice(offset, 4)?;
        Ok(get_le32(bytes, 0))
    }

    /// Reads a little-endian `u64`.
    fn read_u64(&self, offset: usize) -> (r: Result<u64, Error>)
        requires
            offset + 8 <= usize::MAX,
        ensures
            r == spec_read_u64(self.bytes(), offset as int),
    {
        let bytes = self.get_slice(offset, 8)?;
        Ok(get_le64(bytes, 0))
    }
}

// ---------------------------------------------------------------------------
// NE trait
// ---------------------------------------------------------------------------

/// NE-specific operations on a buffer.
pub trait NE: Buffer {
    /// What `get_ne_header` reads.
    spec fn spec_ne_header(&self) -> Result<ImageOS2Header, Error>;

    /// What `get_valid_ne_header` reads.
    spec fn spec_valid_ne_header(&self) -> Result<ImageOS2Header, Error>;

    /// The NE header (copied out of the buffer): `InvalidNESignature` when
    /// the header's room lies in the buffer but does not start with `NE`.
    fn get_ne_header(&self) -> (r: Result<ImageOS2Header, Error>)
        requires
            addressable(self.bytes()),
        ensures
            r == self.spec_ne_header(),
            self.bytes().len() >= 0x40 && e_lfanew(self.bytes()) + 64 <= self.bytes().len() && le16(
                self.bytes(),
                e_lfanew(self.bytes()) as int,
            ) != NE_SIGNATURE ==> r == Err::<ImageOS2Header, Error>(
                Error::InvalidNESignature(le16(self.bytes(), e_lfanew(self.bytes()) as int)),
            ),
    ;

    /// The NE header validated: DOS header size and signature, the NE
    /// signature at `e_lfanew`, and room for the header.
    fn get_valid_ne_header(&self) -> (r: Result<ImageOS2Header, Error>)
        requires
            addressable(self.bytes()),
        ensures
            r == self.spec_valid_ne_header(),
            r matches Ok(h) ==> header_in_place(self.bytes(), h),
    ;

    /// All the bytes of the buffer.
    fn as_slice(&self) -> (r: &[u8])
        ensures
            r@ == self.bytes(),
    ;

    /// The 64 bytes at `e_lfanew` read as a header, without checking the
    /// signature.
    fn get_ne_header_ref(&self) -> (r: Result<ImageOS2Header, Error>)
        requires
            addressable(self.bytes()),
        ensures
            r == spec_raw_ne_header(self.bytes()),
    {
        let lfanew = self.read_u32(DOS_E_LFANEW_OFFSET)? as usize;
        if lfanew > self.len() || self.len() - lfanew < NE_HEADER_SIZE_V5 {
            return Err(Error::HeaderTooSmall);
        }
        let bytes = self.get_slice(lfanew, NE_HEADER_SIZE_V5)?;
        Ok(ImageOS2Header::from_bytes(bytes))
    }

    /// `Ok` when the buffer holds a whole DOS header, else
    /// `InvalidDOSStubFields` (`e_lfarlc` is read but not checked).
    fn validate_dos_stub_fields(&self) -> (r: Result<(), Error>)
        ensures
            r == if self.bytes().len() < DOS_HEADER_SIZE {
                Err(Error::InvalidDOSStubFields)
            } else {
                Ok::<(), Error>(())
            },
    {
        if self.len() < DOS_HEADER_SIZE {
            return Err(Error::InvalidDOSStubFields);
        }
        let _e_lfarlc = self.read_u16(DOS_E_LFARLC_OFFSET)?;
        Ok(())
    }

    /// Whether the module is a library (DLL): bit 15 of the header flags.
    fn is_library(&self) -> (r: bool)
        requires
            addressable(self.bytes()),
        ensures
            r == (self.spec_ne_header() matches Ok(h) && h.flags & 0x8000 == 0x8000),
    {
        match self.get_ne_header() {
            Ok(header) => {
                let f = header.flags;
                assert((f & 0xA803u16) & 0x8000u16 == 0x8000u16 <==> f & 0x8000u16 == 0x8000u16)
                    by (bit_vector);
                NeFlags::from_bits_truncate(header.flags).contains(NeFlags::LIBRARY)
            },
            Err(_) => false,
        }
    }

    /// The processor modes `(real, protected)` the module supports;
    /// `(false, false)` when the header cannot be read.
    fn supported_processor_modes(&self) -> (r: (bool, bool))
        requires
            addressable(self.bytes()),
        ensures
            r == match self.spec_ne_header() {
                Ok(h) => spec_processor_modes(h),
                Err(_) => (false, false),
            },
    {
        let header = match self.get_ne_header() {
            Ok(h) => h,
            Err(_) => return (false, false),
        };
        let is_windows = header.exe_type == 2;
        let ev = header.expected_version;
        let expver_major = if header.is_v5() {
            (ev >> 8) & 0xFF
        } else {
            0
        };
        assert((ev >> 8u16) & 0xFFu16 == ev / 256) by (bit_vector);
        let win2x_in_pm = is_windows && header.other_flags & 0x02 != 0;
        let protected = if is_windows {
            header.is_v5() && expver_major >= 3
        } else {
            header.is_v5()
        };
        let real_mode = !protected || win2x_in_pm;
        (real_mode, protected)
    }

    /// The file offset of the NE header (`e_lfanew`, the `u32` at 0x3C).
    fn ne_header_file_offset(&self) -> (r: Result<usize, Error>)
        ensures
            r == if self.bytes().len() < 0x40 {
                Err(Error::HeaderOutOfBounds(0x40))
            } else {
                Ok::<usize, Error>(e_lfanew(self.bytes()) as usize)
            },
    {
        let lfanew = self.read_u32(DOS_E_LFANEW_OFFSET)? as usize;
        Ok(lfanew)
    }

    /// A header-relative offset as a file offset; 0 stays 0 ("not present").
    fn ne_offset_to_file(&self, relative: u16) -> (r: Result<usize, Error>)
        requires
            addressable(self.bytes()),
            relative == 0 || self.bytes().len() < 0x40 || e_lfanew(self.bytes()) + relative
                <= usize::MAX,
        ensures
            r == if relative == 0 {
                Ok::<usize, Error>(0)
            } else if self.bytes().len() < 0x40 {
                Err(Error::HeaderOutOfBounds(0x40))
            } else {
                Ok::<usize, Error>((e_lfanew(self.bytes()) + relative) as usize)
            },
    {
        if relative == 0 {
            return Ok(0);
        }
        let lfanew = self.ne_header_file_offset()?;
        Ok(lfanew + relative as usize)
    }

    /// The segment table: `seg_count` 8-byte records.
    fn get_segment_table(&self) -> (r: Result<Vec<SegmentRecord>, Error>)
        requires
            addressable(self.bytes()),
        ensures
            r matches Ok(t) ==> spec_segment_table(self.bytes(), self.spec_valid_ne_header())
                == Ok::<Seq<SegmentRecord>, Error>(t@),
            r matches Err(e) ==> spec_segment_table(self.bytes(), self.spec_valid_ne_header())
                == Err::<Seq<SegmentRecord>, Error>(e),
    {
        let header = self.get_valid_ne_header()?;
        let seg_count = header.seg_count as usize;
        if seg_count == 0 {
            let empty: Vec<SegmentRecord> = Vec::new();
            assert(empty@ =~= Seq::<SegmentRecord>::empty());
            return Ok(empty);
        }
        let lfanew = self.ne_header_file_offset()?;
        let table = lfanew + header.seg_table_offset as usize;
        let total = seg_count * 8;
        if table + total > self.len() {
            return Err(Error::TableOutOfBounds("segment_table", table + total, self.len()));
        }
        let ghost b = self.bytes();
        let mut segments: Vec<SegmentRecord> = Vec::new();
        let mut i: usize = 0;
        while i < seg_count
            invariant
                b == self.bytes(),
                addressable(b),
                i <= seg_count,
                seg_count == header.seg_count,
                table == e_lfanew(b) + header.seg_table_offset,
                table + seg_count * 8 <= b.len(),
                segments@.len() == i,
                forall|j: int|
                    0 <= j < i ==> #[trigger] segments@[j] == spec_segment_at(b, table + 8 * j),
            decreases seg_count - i,
        {
            let bytes = self.get_slice(table + i * 8, 8)?;
            let rec = SegmentRecord::from_bytes(bytes);
            assert(rec == spec_segment_at(b, table + 8 * i));
            segments.push(rec);
            i = i + 1;
        }
        assert(segments@ =~= Seq::new(
            header.seg_count as nat,
            |j: int| spec_segment_at(b, e_lfanew(b) + header.seg_table_offset + 8 * j),
        ));
        Ok(segments)
    }

    /// The segment with 1-based number `num`, if present.
    fn segment_by_number(&self, num: u16) -> (r: Option<SegmentRecord>)
        requires
            addressable(self.bytes()),
        ensures
            r == spec_segment_by_number(self.bytes(), self.spec_valid_ne_header(), num),
    {
        if num == 0 {
            return None;
        }
        let segments = match self.get_segment_table() {
            Ok(s) => s,
            Err(_) => return None,
        };
        let idx = (num - 1) as usize;
        if idx < segments.len() {
            Some(segments[idx])
        } else {
            None
        }
    }

    /// The data of segment `seg_num` (1-based): from its start (sector
    /// offset shifted by the alignment) for `length` bytes, or to the end of
    /// the buffer when `length` is 0.
    fn get_segment_data(&self, seg_num: u16) -> (r: Result<&[u8], Error>)
        requires
            addressable(self.bytes()),
            segment_data_defined(self.bytes(), self.spec_valid_ne_header(), seg_num),
        ensures
            r matches Ok(s) ==> spec_segment_data(
                self.bytes(),
                self.spec_valid_ne_header(),
                seg_num,
            ) == Ok::<Seq<u8>, Error>(s@),
            r matches Err(e) ==> spec_segment_data(
                self.bytes(),
                self.spec_valid_ne_header(),
                seg_num,
            ) == Err::<Seq<u8>, Error>(e),
    {
        let segments = self.get_segment_table()?;
        if seg_num == 0 || (seg_num - 1) as usize >= segments.len() {
            return Err(Error::SegmentNotFound(seg_num));
        }
        let idx = (seg_num - 1) as usize;
        let seg = segments[idx];
        let header = self.get_valid_ne_header()?;
        let start = (seg.offset as usize) << (header.alignment as usize);
        let end = if seg.length == 0 {
            self.len()
        } else {
            start + seg.length as usize
        };
        self.get_slice(start, end - start)
    }

    /// The file offset of the logical address `seg_num:offset`: the
    /// segment's start plus `offset`, which may be at most the segment's
    /// data length.
    fn logical_to_offset(&self, seg_num: u16, offset: u16) -> (r: Result<usize, Error>)
        requires
            addressable(self.bytes()),
            segment_data_defined(self.bytes(), self.spec_valid_ne_header(), seg_num),
        ensures
            r == spec_logical_to_offset(
                self.bytes(),
                self.spec_valid_ne_header(),
                seg_num,
                offset,
            ),
    {
        let segments = self.get_segment_table()?;
        if seg_num == 0 || (seg_num - 1) as usize >= segments.len() {
            return Err(Error::SegmentNotFound(seg_num));
        }
        let idx = (seg_num - 1) as usize;
        let seg_data = self.get_segment_data(seg_num)?;
        if offset as usize > seg_data.len() {
            return Err(Error::HeaderOutOfBounds(offset as usize));
        }
        let header = self.get_valid_ne_header()?;
        let start = (segments[idx].offset as usize) << (header.alignment as usize);
        Ok(start + offset as usize)
    }

    /// The DOS stub: the bytes between the 64-byte DOS header and the NE
    /// header, when there are any.
    fn get_dos_stub(&self) -> (r: Option<&[u8]>)
        ensures
            r is Some <==> (self.bytes().len() >= 0x40 && DOS_HEADER_SIZE < e_lfanew(self.bytes())
                <= self.bytes().len()),
            r matches Some(s) ==> s@ == self.bytes().subrange(
                DOS_HEADER_SIZE as int,
                e_lfanew(self.bytes()),
            ),
    {
        let lfanew = match self.read_u32(DOS_E_LFANEW_OFFSET) {
            Ok(v) => v as usize,
            Err(_) => return None,
        };
        if lfanew > DOS_HEADER_SIZE {
            match self.get_slice(DOS_HEADER_SIZE, lfanew - DOS_HEADER_SIZE) {
                Ok(s) => Some(s),
                Err(_) => None,
            }
        } else {
            None
        }
    }

    /// The number of segments; 0 when the header does not validate.
    fn segment_count(&self) -> (r: u16)
        requires
            addressable(self.bytes()),
        ensures
            r == match self.spec_valid_ne_header() {
                Ok(h) => h.seg_count,
                Err(_) => 0,
            },
    {
        match self.get_valid_ne_header() {
            Ok(h) => h.common_fields().seg_count,
            Err(_) => 0,
        }
    }

    /// File offset of the entry table (truncated to 16 bits; 0 if absent).
    fn entry_table_offset(&self) -> (r: u16)
        requires
            addressable(self.bytes()),
        ensures
            r == spec_table_offset(self.bytes(), self.spec_valid_ne_header(), HeaderTable::Entry),
    {
        match self.get_valid_ne_header() {
            Ok(h) => match self.ne_offset_to_file(h.entry_table_offset) {
                Ok(v) => v as u16,
                Err(_) => 0,
            },
            Err(_) => 0,
        }
    }

    /// File offset of the segment table (truncated to 16 bits; 0 if absent).
    fn segment_table_offset(&self) -> (r: u16)
        requires
            addressable(self.bytes()),
        ensures
            r == spec_table_offset(
                self.bytes(),
                self.spec_valid_ne_header(),
                HeaderTable::Segment,
            ),
    {
        match self.get_valid_ne_header() {
            Ok(h) => match self.ne_offset_to_file(h.seg_table_offset) {
                Ok(v) => v as u16,
                Err(_) => 0,
            },
            Err(_) => 0,
        }
    }

    /// File offset of the resource table (truncated to 16 bits; 0 if absent).
    fn resource_table_offset(&self) -> (r: u16)
        requires
            addressable(self.bytes()),
        ensures
            r == spec_table_offset(
                self.bytes(),
                self.spec_valid_ne_header(),
                HeaderTable::Resource,
            ),
    {
        match self.get_valid_ne_header() {
            Ok(h) => match self.ne_offset_to_file(h.resource_table_offset) {
                Ok(v) => v as u16,
                Err(_) => 0,
            },
            Err(_) => 0,
        }
    }

    /// File offset of the resident name table (truncated to 16 bits).
    fn resident_name_table_offset(&self) -> (r: u16)
        requires
            addressable(self.bytes()),
        ensures
            r == spec_table_offset(
                self.bytes(),
                self.spec_valid_ne_header(),
                HeaderTable::ResidentName,
            ),
    {
        match self.get_valid_ne_header() {
            Ok(h) => match self.ne_offset_to_file(h.res_name_table_offset) {
                Ok(v) => v as u16,
                Err(_) => 0,
            },
            Err(_) => 0,
        }
    }

    /// File offset of the module reference table (truncated to 16 bits).
    fn module_ref_table_offset(&self) -> (r: u16)
        requires
            addressable(self.bytes()),
        ensures
            r == spec_table_offset(
                self.bytes(),
                self.spec_valid_ne_header(),
                HeaderTable::ModuleRef,
            ),
    {
        match self.get_valid_ne_header() {
            Ok(h) => match self.ne_offset_to_file(h.mod_table_offset) {
                Ok(v) => v as u16,
                Err(_) => 0,
            },
            Err(_) => 0,
        }
    }

    /// File offset of the imported names table (truncated to 16 bits).
    fn imported_names_table_offset(&self) -> (r: u16)
        requires
            addressable(self.bytes()),
        ensures
            r == spec_table_offset(
                self.bytes(),
                self.spec_valid_ne_header(),
                HeaderTable::ImportedNames,
            ),
    {
        match self.get_valid_ne_header() {
            Ok(h) => match self.ne_offset_to_file(h.imported_names_table_offset) {
                Ok(v) => v as u16,
                Err(_) => 0,
            },
            Err(_) => 0,
        }
    }

    /// NE files hold no global relocation table: always 0.
    fn relocation_table_offset(&self) -> (r: u16)
        ensures
            r == 0,
    {
        0
    }

    /// The non-resident name table offset (already a file offset); 0 when
    /// the header does not validate.
    fn non_resident_name_table_offset(&self) -> (r: u32)
        requires
            addressable(self.bytes()),
        ensures
            r == match self.spec_valid_ne_header() {
                Ok(h) => h.non_res_name_table_offset,
                Err(_) => 0,
            },
    {
        match self.get_valid_ne_header() {
            Ok(h) => h.common_fields().non_res_name_table_offset,
            Err(_) => 0,
        }
    }

    /// The entry table size field; 0 when the header does not validate.
    fn entry_table_entry_count(&self) -> (r: u16)
        requires
            addressable(self.bytes()),
        ensures
            r == match self.spec_valid_ne_header() {
                Ok(h) => h.entry_table_size,
                Err(_) => 0,
            },
    {
        match self.get_valid_ne_header() {
            Ok(h) => h.common_fields().entry_table_size,
            Err(_) => 0,
        }
    }

    /// The header's on-disk bytes: 64 for v5, 60 for v4.
    fn header_slice(&self) -> (r: Result<&[u8], Error>)
        requires
            addressable(self.bytes()),
        ensures
            r matches Ok(s) ==> (self.spec_valid_ne_header() matches Ok(h) && s@
                == self.bytes().subrange(
                e_lfanew(self.bytes()),
                e_lfanew(self.bytes()) + if h.spec_is_v5() {
                    64int
                } else {
                    60int
                },
            )),
            r matches Err(e) ==> self.spec_valid_ne_header() == Err::<ImageOS2Header, Error>(e),
    {
        let header = self.get_valid_ne_header()?;
        let size = header.header_size();
        let lfanew = self.ne_header_file_offset()?;
        self.get_slice(lfanew, size)
    }
}

// ---------------------------------------------------------------------------
// VecNE -- owned bytes
// ---------------------------------------------------------------------------

/// In-memory NE buffer that owns its bytes.
pub struct VecNE {
    data: Vec<u8>,
}

impl VecNE {
    /// A buffer over `data`.
    pub fn from_memory(data: Vec<u8>) -> (r: Self)
        ensures
            r.bytes() == data@,
    {
        VecNE { data }
    }

    /// A buffer over a copy of `data`.
    pub fn from_slice(data: &[u8]) -> (r: Self)
        ensures
            r.bytes() == data@,
    {
        VecNE { data: vstd::slice::slice_to_vec(data) }
    }

    /// The on-disk header size at `e_lfanew`: 64 when the linker major
    /// version is at least 5, else 60; checks room for 60 bytes and the NE
    /// signature.
    fn detect_header_size(&self, lfanew: usize) -> (r: Result<usize, Error>)
        requires
            addressable(self.bytes()),
            lfanew <= u32::MAX,
        ensures
            r == if lfanew + 60 > self.bytes().len() {
                Err(Error::HeaderTooSmall)
            } else if le16(self.bytes(), lfanew as int) != NE_SIGNATURE {
                Err(Error::InvalidNESignature(le16(self.bytes(), lfanew as int)))
            } else if self.bytes()[lfanew + 2] >= 5 {
                Ok::<usize, Error>(64)
            } else {
                Ok::<usize, Error>(60)
            },
    {
        if lfanew > self.len() || self.len() - lfanew < NE_HEADER_SIZE_V4 {
            return Err(Error::HeaderTooSmall);
        }
        let ne_sig = self.read_u16(lfanew)?;
        if ne_sig != NE_SIGNATURE {
            return Err(Error::InvalidNESignature(ne_sig));
        }
        let linker_version = self.read_u8(lfanew + 2)?;
        Ok(
            if linker_version >= 5 {
                NE_HEADER_SIZE_V5
            } else {
                NE_HEADER_SIZE_V4
            },
        )
    }

    /// Reads the header at `lfanew`; a v4 header is read from its 60
    /// on-disk bytes with the v5-only fields as zero.
    #[verifier::rlimit(40)]
    fn read_header_at(&self, lfanew: usize) -> (r: Result<ImageOS2Header, Error>)
        requires
            addressable(self.bytes()),
            self.bytes().len() >= 0x40,
            lfanew == e_lfanew(self.bytes()),
        ensures
            r == spec_vec_ne_header(self.bytes()),
    {
        let header_size = self.detect_header_size(lfanew)?;
        let bytes = self.get_slice(lfanew, header_size)?;
        if header_size == NE_HEADER_SIZE_V5 {
            Ok(ImageOS2Header::from_bytes(bytes))
        } else {
            Ok(ImageOS2Header::from_bytes_v4(bytes))
        }
    }

    /// Writes `header` in place at `e_lfanew` once the existing header
    /// validates; the other bytes stay as they were.
    #[verifier::rlimit(30)]
    pub fn write_ne_header(&mut self, header: &ImageOS2Header) -> (r: Result<(), Error>)
        requires
            addressable(old(self).bytes()),
        ensures
            r == match spec_vec_valid_ne_header(old(self).bytes()) {
                Ok(_) => Ok::<(), Error>(()),
                Err(e) => Err(e),
            },
            r is Ok ==> final(self).bytes() == spec_write_header(old(self).bytes(), *header),
            r is Err ==> final(self).bytes() == old(self).bytes(),
    {
        self.get_valid_ne_header()?;
        let lfanew = self.read_u32(DOS_E_LFANEW_OFFSET)? as usize;
        if lfanew > self.data.len() || self.data.len() - lfanew < NE_HEADER_SIZE_V5 {
            return Err(Error::HeaderTooSmall);
        }
        let bytes = header.to_bytes();
        let ghost old_data = self.data@;
        let mut i: usize = 0;
        while i < NE_HEADER_SIZE_V5
            invariant
                i <= 64,
                bytes@ == spec_header_bytes(*header),
                bytes@.len() == 64,
                lfanew + 64 <= old_data.len(),
                old_data.len() <= usize::MAX,
                self.data@.len() == old_data.len(),
                forall|k: int|
                    0 <= k < old_data.len() ==> #[trigger] self.data@[k] == if lfanew <= k
                        < lfanew + i {
                        bytes@[k - lfanew]
                    } else {
                        old_data[k]
                    },
            decreases 64 - i,
        {
            self.data.set(lfanew + i, bytes[i]);
            i = i + 1;
        }
        assert(self.data@ =~= old_data.subrange(0, lfanew as int) + spec_header_bytes(*header)
            + old_data.subrange(lfanew + 64, old_data.len() as int));
        Ok(())
    }
}

impl Buffer for VecNE {
    closed spec fn bytes(&self) -> Seq<u8> {
        self.data@
    }

    fn get_slice(&self, offset: usize, len: usize) -> (r: Result<&[u8], Error>) {
        if offset + len > self.data.len() {
            return Err(Error::HeaderOutOfBounds(offset + len));
        }
        Ok(vstd::slice::slice_subrange(self.data.as_slice(), offset, offset + len))
    }

    fn len(&self) -> (r: usize) {
        self.data.len()
    }
}

impl NE for VecNE {
    open spec fn spec_ne_header(&self) -> Result<ImageOS2Header, Error> {
        spec_vec_ne_header(self.bytes())
    }

    open spec fn spec_valid_ne_header(&self) -> Result<ImageOS2Header, Error> {
        spec_vec_valid_ne_header(self.bytes())
    }

    fn get_ne_header(&self) -> (r: Result<ImageOS2Header, Error>) {
        let lfanew = self.read_u32(DOS_E_LFANEW_OFFSET)? as usize;
        self.read_header_at(lfanew)
    }

    fn get_valid_ne_header(&self) -> (r: Result<ImageOS2Header, Error>) {
        if self.len() < DOS_HEADER_SIZE {
            return Err(Error::HeaderTooSmall);
        }
        let dos_sig = self.read_u16(0)?;
        if dos_sig != DOS_SIGNATURE {
            return Err(Error::InvalidDOSSignature(dos_sig));
        }
        let lfanew = self.read_u32(DOS_E_LFANEW_OFFSET)? as usize;
        self.detect_header_size(lfanew)?;
        if lfanew > self.len() || self.len() - lfanew < NE_HEADER_SIZE_V5 {
            return Err(Error::HeaderTooSmall);
        }
        self.get_ne_header()
    }

    fn as_slice(&self) -> (r: &[u8]) {
        self.data.as_slice()
    }
}

// ---------------------------------------------------------------------------
// PtrNE -- borrowed bytes
// ---------------------------------------------------------------------------

/// NE buffer over borrowed bytes (for images already in memory).
pub struct PtrNE<'a> {
    data: &'a [u8],
}

impl<'a> PtrNE<'a> {
    /// A buffer over `data`.
    pub fn from_memory(data: &'a [u8]) -> (r: Self)
        ensures
            r.bytes() == data@,
    {
        PtrNE { data }
    }
}

impl<'a> Buffer for PtrNE<'a> {
    closed spec fn bytes(&self) -> Seq<u8> {
        self.data@
    }

    fn get_slice(&self, offset: usize, len: usize) -> (r: Result<&[u8], Error>) {
        if offset + len > self.data.len() {
            return Err(Error::HeaderOutOfBounds(offset + len));
        }
        Ok(vstd::slice::slice_subrange(self.data, offset, offset + len))
    }

    fn len(&self) -> (r: usize) {
        self.data.len()
    }
}

impl<'a> NE for PtrNE<'a> {
    open spec fn spec_ne_header(&self) -> Result<ImageOS2Header, Error> {
        spec_ptr_ne_header(self.bytes())
    }

    open spec fn spec_valid_ne_header(&self) -> Result<ImageOS2Header, Error> {
        spec_ptr_valid_ne_header(self.bytes())
    }

    fn get_ne_header(&self) -> (r: Result<ImageOS2Header, Error>) {
        let lfanew = self.read_u32(DOS_E_LFANEW_OFFSET)? as usize;
        if lfanew > self.len() || self.len() - lfanew < NE_HEADER_SIZE_V5 {
            return Err(Error::HeaderTooSmall);
        }
        let ne_sig = self.read_u16(lfanew)?;
        if ne_sig != NE_SIGNATURE {
            return Err(Error::InvalidNESignature(ne_sig));
        }
        let bytes = self.get_slice(lfanew, NE_HEADER_SIZE_V5)?;
        let v = bytes[2];
        if v >= 5 {
            Ok(ImageOS2Header::from_bytes(bytes))
        } else {
            Ok(ImageOS2Header::from_bytes_v4(bytes))
        }
    }

    fn get_valid_ne_header(&self) -> (r: Result<ImageOS2Header, Error>) {
        if self.len() < DOS_HEADER_SIZE {
            return Err(Error::HeaderTooSmall);
        }
        let dos_sig = self.read_u16(0)?;
        if dos_sig != DOS_SIGNATURE {
            return Err(Error::InvalidDOSSignature(dos_sig));
        }
        self.validate_dos_stub_fields()?;
        let lfanew = self.read_u32(DOS_E_LFANEW_OFFSET)? as usize;
        if lfanew > self.len() || self.len() - lfanew < NE_HEADER_SIZE_V5 {
            return Err(Error::HeaderTooSmall);
        }
        let ne_sig = self.read_u16(lfanew)?;
        if ne_sig != NE_SIGNATURE {
            return Err(Error::InvalidNESignature(ne_sig));
        }
        self.get_ne_header()
    }

    fn as_slice(&self) -> (r: &[u8]) {
        self.data
    }
}

/// Whether segment `seg_num` can be located without an arithmetic fault
/// (see `segment_data_defined`): what `get_segment_data` and
/// `logical_to_offset` need of their input.
pub fn segment_data_addressable<P: NE>(ne: &P, seg_num: u16) -> (r: bool)
    requires
        addressable(ne.bytes()),
    ensures
        r == segment_data_defined(ne.bytes(), ne.spec_valid_ne_header(), seg_num),
{
    let segments = match ne.get_segment_table() {
        Ok(s) => s,
        Err(_) => return true,
    };
    if seg_num == 0 {
        return true;
    }
    let idx = (seg_num - 1) as usize;
    if idx >= segments.len() {
        return true;
    }
    let header = match ne.get_valid_ne_header() {
        Ok(h) => h,
        Err(_) => return true,
    };
    if header.alignment as u32 >= usize::BITS {
        return false;
    }
    let seg = segments[idx];
    let start = (seg.offset as usize) << (header.alignment as usize);
    if seg.length == 0 {
        start <= ne.len()
    } else {
        start <= usize::MAX - seg.length as usize
    }
}

// ---------------------------------------------------------------------------
// Laws
// ---------------------------------------------------------------------------

/// What `write_ne_header` writes is what the header reads give back: after
/// the write, the raw header at `e_lfanew` is the written header, and the
/// buffer keeps its length and its `e_lfanew`, provided the header does not
/// overlap the DOS header's `e_lfanew` field.
pub proof fn written_header_reads_back(b: Seq<u8>, h: ImageOS2Header)
    requires
        spec_vec_valid_ne_header(b) is Ok,
        e_lfanew(b) >= 0x40,
    ensures
        spec_write_header(b, h).len() == b.len(),
        e_lfanew(spec_write_header(b, h)) == e_lfanew(b),
        spec_raw_ne_header(spec_write_header(b, h)) == Ok::<ImageOS2Header, Error>(h),
{
    let lf = e_lfanew(b);
    let pre = b.subrange(0, lf);
    let post = b.subrange(lf + 64, b.len() as int);
    let w = spec_write_header(b, h);
    crate::headers::lemma_header_bytes_roundtrip(h);
    assert(w.len() == b.len());
    assert forall|i: int| 0 <= i < 0x40 implies w[i] == b[i] by {
        assert(w[i] == pre[i]);
    }
    assert(e_lfanew(w) == lf);
    assert(w.subrange(lf, lf + 64) =~= spec_header_bytes(h));
    crate::headers::lemma_header_at_subrange(w, lf);
}

/// A readable header always declares at least one processor mode: real
/// mode, protected mode, or both.
pub proof fn some_processor_mode(h: ImageOS2Header)
    ensures
        spec_processor_modes(h).0 || spec_processor_modes(h).1,
{
}

/// The file offset of `num:offset` is where byte `offset` of the
/// segment's data lies: the byte there is that data byte.
pub proof fn logical_offset_locates_segment_byte(
    b: Seq<u8>,
    hr: Result<ImageOS2Header, Error>,
    num: u16,
    offset: u16,
    p: usize,
    d: Seq<u8>,
)
    requires
        addressable(b),
        segment_data_defined(b, hr, num),
        spec_logical_to_offset(b, hr, num, offset) == Ok::<usize, Error>(p),
        spec_segment_data(b, hr, num) == Ok::<Seq<u8>, Error>(d),
        offset < d.len(),
    ensures
        p < b.len(),
        b[p as int] == d[offset as int],
{
    assert(spec_segment_table(b, hr) is Ok);
    assert(hr is Ok);
    let h = hr->Ok_0;
    let t = spec_segment_table(b, hr)->Ok_0;
    let start = spec_segment_start(h, t, num) as int;
    let n = spec_segment_end(b, h, t, num) - start;
    assert(spec_slice(b, start, n) == Ok::<Seq<u8>, Error>(d));
    assert(start + n <= b.len());
    assert(0 <= n);
    assert(d == b.subrange(start, start + n));
    assert(p as int == start + offset);
}

/// A header read as v4 (linker major version below 5) has no v5-only
/// fields: they read as zero.
pub proof fn v4_header_has_no_v5_fields(b: Seq<u8>, h: ImageOS2Header)
    requires
        spec_vec_ne_header(b) == Ok::<ImageOS2Header, Error>(h) || spec_vec_valid_ne_header(b)
            == Ok::<ImageOS2Header, Error>(h) || spec_ptr_ne_header(b) == Ok::<
            ImageOS2Header,
            Error,
        >(h) || spec_ptr_valid_ne_header(b) == Ok::<ImageOS2Header, Error>(h),
        !h.spec_is_v5(),
    ensures
        h.swap_area == 0,
        h.expected_version == 0,
{
}

/// The two buffers agree on headers: when the 64 header bytes fit,
/// reading and validating over owned bytes and over borrowed bytes give
/// the same results.
pub proof fn buffers_agree_on_headers(b: Seq<u8>)
    requires
        b.len() >= 64,
        e_lfanew(b) + 64 <= b.len(),
    ensures
        spec_vec_valid_ne_header(b) == spec_ptr_valid_ne_header(b),
        spec_vec_ne_header(b) == spec_ptr_ne_header(b),
{
}

/// A file validates as an NE image exactly when it holds at least the
/// 64-byte DOS header, starts with the bytes `M` `Z`, holds the 64-byte
/// header at `e_lfanew`, and that header starts with the bytes `N` `E`.
/// A file that does not start with `M` `Z` is refused for its DOS
/// signature, with the word found there; one that does, and whose header
/// fits but does not start with `N` `E`, is refused for its NE signature,
/// with the word found there.
pub proof fn validation_wants_mz_then_ne(b: Seq<u8>)
    ensures
        spec_ptr_valid_ne_header(b) is Ok <==> (b.len() >= 64 && b[0] == 0x4D && b[1] == 0x5A
            && e_lfanew(b) + 64 <= b.len() && b[e_lfanew(b)] == 0x4E && b[e_lfanew(b) + 1] == 0x45),
        spec_vec_valid_ne_header(b) is Ok <==> (b.len() >= 64 && b[0] == 0x4D && b[1] == 0x5A
            && e_lfanew(b) + 64 <= b.len() && b[e_lfanew(b)] == 0x4E && b[e_lfanew(b) + 1] == 0x45),
        b.len() >= 64 && !(b[0] == 0x4D && b[1] == 0x5A) ==> spec_ptr_valid_ne_header(b) == Err::<
            ImageOS2Header,
            Error,
        >(Error::InvalidDOSSignature((b[0] + 256 * b[1]) as u16)) && spec_vec_valid_ne_header(b)
            == Err::<ImageOS2Header, Error>(Error::InvalidDOSSignature((b[0] + 256 * b[1]) as u16)),
        b.len() >= 64 && b[0] == 0x4D && b[1] == 0x5A && e_lfanew(b) + 64 <= b.len() && !(
        b[e_lfanew(b)] == 0x4E && b[e_lfanew(b) + 1] == 0x45) ==> spec_ptr_valid_ne_header(b)
            == Err::<ImageOS2Header, Error>(
            Error::InvalidNESignature((b[e_lfanew(b)] + 256 * b[e_lfanew(b) + 1]) as u16),
        ) && spec_vec_valid_ne_header(b) == Err::<ImageOS2Header, Error>(
            Error::InvalidNESignature((b[e_lfanew(b)] + 256 * b[e_lfanew(b) + 1]) as u16),
        ),
{
}

} // verus!
