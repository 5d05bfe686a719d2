//! Tests of the NE parser on synthetic images.

use new_executable::types::{
    EntryTable, EntryType, ExportEntry, ModuleRefTable, PascalString, RelocationEntry,
    ResourceId, ResourceTable, ResourceTypeId,
};
use new_executable::{
    align, AddressType, Buffer, Error, ExeType, ImageOS2Header, NeFlags, OsFixupType, PtrNE,
    RelocationType, SegmentAlignment, SegmentFlags, SegmentRecord, VecNE, NE, NE_HEADER_SIZE_V4,
    NE_HEADER_SIZE_V5,
};

fn minimal_ne_v4() -> Vec<u8> {
    let mut data = vec![0u8; 1024];

    // DOS header; e_lfarlc (0x18) = 0x40 as in every corpus file (read
    // but not validated — NE detection is the "NE" signature at e_lfanew)
    data[0x00] = 0x4D; // "M"
    data[0x01] = 0x5A; // "Z"
    data[0x18..0x1A].copy_from_slice(&0x40u16.to_le_bytes()); // e_lfarlc = 0x40
    data[0x3C..0x3E].copy_from_slice(&0x40u16.to_le_bytes()); // e_lfanew = 0x40 (NE header starts right after DOS header)

    // NE header at file offset 0x40 (right after 64-byte DOS header, no stub)
    // Struct offsets (verified): seg_table_offset=0x22, exe_type=0x36, flags=0x0C
    let off = 0x40;

    // signature:       0x00 (2 bytes)
    data[off..off + 2].copy_from_slice(&0x454Eu16.to_le_bytes());
    // linker_version:  0x02 (1 byte) — version 4 for v4 header test
    data[off + 0x02] = 0x04;
    // linker_minor_version: 0x03 (1 byte)
    data[off + 0x03] = 0x00;
    // entry_table_offset: 0x04 (2 bytes)
    data[off + 0x04..off + 0x06].copy_from_slice(&0u16.to_le_bytes());
    // entry_table_size: 0x06 (2 bytes)
    data[off + 0x06..off + 0x08].copy_from_slice(&0u16.to_le_bytes());
    // checksum:        0x08 (4 bytes)
    data[off + 0x08..off + 0x0C].copy_from_slice(&(0u32).to_le_bytes());
    // flags:           0x0C (2 bytes) = 0 (v4, no VERSION_BIT)
    data[off + 0x0C..off + 0x0E].copy_from_slice(&0u16.to_le_bytes());
    // auto_data_sel:   0x0E (2 bytes)
    data[off + 0x0E..off + 0x10].copy_from_slice(&0u16.to_le_bytes());
    // heap_init:       0x10 (2 bytes)
    data[off + 0x10..off + 0x12].copy_from_slice(&0u16.to_le_bytes());
    // stack_init:      0x12 (2 bytes)
    data[off + 0x12..off + 0x14].copy_from_slice(&0u16.to_le_bytes());
    // csip:            0x14 (4 bytes)
    data[off + 0x14..off + 0x18].copy_from_slice(&((0u32).to_le_bytes()));
    // sssp:            0x18 (4 bytes)
    data[off + 0x18..off + 0x1C].copy_from_slice(&((0u32).to_le_bytes()));
    // seg_count:       0x1C (2 bytes) — set to 1 below
    // mod_count:       0x1E (2 bytes)
    data[off + 0x1E..off + 0x20].copy_from_slice(&0u16.to_le_bytes());
    // non_res_name_size: 0x20 (2 bytes)
    data[off + 0x20..off + 0x22].copy_from_slice(&0u16.to_le_bytes());
    // seg_table_offset: 0x22 (2 bytes) = 0x007C
    data[off + 0x22..off + 0x24].copy_from_slice(&0x7Cu16.to_le_bytes());
    // resource_table_offset: 0x24 (2 bytes)
    data[off + 0x24..off + 0x26].copy_from_slice(&0u16.to_le_bytes());
    // res_name_table_offset: 0x26 (2 bytes)
    data[off + 0x26..off + 0x28].copy_from_slice(&0u16.to_le_bytes());
    // mod_table_offset: 0x28 (2 bytes)
    data[off + 0x28..off + 0x2A].copy_from_slice(&0u16.to_le_bytes());
    // imported_names_table_offset: 0x2A (2 bytes)
    data[off + 0x2A..off + 0x2C].copy_from_slice(&0u16.to_le_bytes());
    // non_res_name_table_offset: 0x2C (4 bytes)
    data[off + 0x2C..off + 0x30].copy_from_slice(&(0u32).to_le_bytes());
    // mod_internal_entries: 0x30 (2 bytes)
    data[off + 0x30..off + 0x32].copy_from_slice(&0u16.to_le_bytes());
    // alignment:       0x32 (2 bytes)
    data[off + 0x32..off + 0x34].copy_from_slice(&0u16.to_le_bytes());
    // resource_count:  0x34 (2 bytes)
    data[off + 0x34..off + 0x36].copy_from_slice(&0u16.to_le_bytes());
    // exe_type:        0x36 (1 byte) = 2 (Windows)
    data[off + 0x36] = 2;
    // other_flags:     0x37 (1 byte)
    data[off + 0x37] = 0;
    // ret_thunk_offset: 0x38 (2 bytes)
    data[off + 0x38..off + 0x3A].copy_from_slice(&0u16.to_le_bytes());
    // seg_ref_bytes_offset: 0x3A (2 bytes)
    data[off + 0x3A..off + 0x3C].copy_from_slice(&0u16.to_le_bytes());
    // swap_area:       0x3C (2 bytes)
    data[off + 0x3C..off + 0x3E].copy_from_slice(&0u16.to_le_bytes());
    // expected_version: 0x3E (2 bytes)
    data[off + 0x3E..off + 0x40].copy_from_slice(&0u16.to_le_bytes());

    // Set seg_count after all other fields are written
    data[off + 0x1C..off + 0x1E].copy_from_slice(&1u16.to_le_bytes());

    // Segment table at file offset 0xBC (NE header 0x40 + seg_table_offset 0x7C)
    // 1 segment, 8 bytes
    let seg_off = 0x40 + 0x7C; // file offset = e_lfanew + seg_table_offset
                               // offset=0x0010, length=0x0200, flags=MOVEABLE(0x0010), minalloc=0
    data[seg_off..seg_off + 8].copy_from_slice(&[
        0x10, 0x00, // offset = 0x0010
        0x00, 0x02, // length = 0x0200
        0x10, 0x00, // flags = MOVEABLE
        0x00, 0x00, // minalloc = 0
    ]);

    data
}

fn paragraph_aligned_ne_v4() -> Vec<u8> {
    let mut data = vec![0u8; 4096];

    // DOS header
    data[0x00] = 0x4D;
    data[0x01] = 0x5A;
    data[0x18..0x1A].copy_from_slice(&0x40u16.to_le_bytes()); // e_lfarlc = 0x40
    data[0x3C..0x3E].copy_from_slice(&0x40u16.to_le_bytes()); // e_lfanew = 0x40

    let off = 0x40;
    // NE header
    data[off..off + 2].copy_from_slice(&0x454Eu16.to_le_bytes()); // NE sig
    data[off + 0x02] = 0x04; // linker version 4
    data[off + 0x04..off + 0x06].copy_from_slice(&0u16.to_le_bytes());
    data[off + 0x06..off + 0x08].copy_from_slice(&0u16.to_le_bytes());
    data[off + 0x08..off + 0x0C].copy_from_slice(&((0u32).to_le_bytes()));
    data[off + 0x0C..off + 0x0E].copy_from_slice(&0u16.to_le_bytes());
    data[off + 0x0E..off + 0x10].copy_from_slice(&0u16.to_le_bytes());
    data[off + 0x10..off + 0x12].copy_from_slice(&0u16.to_le_bytes());
    data[off + 0x12..off + 0x14].copy_from_slice(&0u16.to_le_bytes());
    data[off + 0x14..off + 0x18].copy_from_slice(&((0u32).to_le_bytes()));
    data[off + 0x18..off + 0x1C].copy_from_slice(&((0u32).to_le_bytes()));
    data[off + 0x1C..off + 0x1E].copy_from_slice(&1u16.to_le_bytes()); // seg_count = 1
    data[off + 0x1E..off + 0x20].copy_from_slice(&0u16.to_le_bytes());
    data[off + 0x20..off + 0x22].copy_from_slice(&0u16.to_le_bytes());
    // seg_table_offset: place segment table right after NE header at offset 0x3C (60 bytes)
    data[off + 0x22..off + 0x24].copy_from_slice(&0x3Cu16.to_le_bytes());
    data[off + 0x24..off + 0x26].copy_from_slice(&0u16.to_le_bytes());
    data[off + 0x26..off + 0x28].copy_from_slice(&0u16.to_le_bytes());
    data[off + 0x28..off + 0x2A].copy_from_slice(&0u16.to_le_bytes());
    data[off + 0x2A..off + 0x2C].copy_from_slice(&0u16.to_le_bytes());
    data[off + 0x2C..off + 0x30].copy_from_slice(&((0u32).to_le_bytes()));
    data[off + 0x30..off + 0x32].copy_from_slice(&0u16.to_le_bytes());
    data[off + 0x32..off + 0x34].copy_from_slice(&4u16.to_le_bytes()); // alignment shift = 4 (16 bytes)
    data[off + 0x34..off + 0x36].copy_from_slice(&0u16.to_le_bytes());
    data[off + 0x36] = 2; // Windows
    data[off + 0x37] = 0;
    data[off + 0x38..off + 0x3A].copy_from_slice(&0u16.to_le_bytes()); // ret_thunk_offset
    data[off + 0x3A..off + 0x3C].copy_from_slice(&0u16.to_le_bytes()); // seg_ref_bytes_offset
    data[off + 0x3C..off + 0x3E].copy_from_slice(&0u16.to_le_bytes()); // swap_area
    data[off + 0x3E..off + 0x40].copy_from_slice(&0u16.to_le_bytes()); // expected_version

    // Segment table at file offset 0x40 + 0x3C = 0x7C
    let seg_off = 0x40 + 0x3C;
    // offset = 0x0010 (sector offset), length = 0x0010, flags = MOVEABLE, minalloc = 0
    // After shifting: actual start = 0x10 << 4 = 0x100 = 256
    data[seg_off..seg_off + 8].copy_from_slice(&[
        0x10, 0x00, // offset = 0x0010
        0x10, 0x00, // length = 0x0010
        0x10, 0x00, // flags = MOVEABLE
        0x00, 0x00, // minalloc
    ]);

    // Fill segment data region with recognizable bytes
    // Region starts at 0x100 (256). Fill 0x100..0x110 with 0xAA..
    for i in 0..16 {
        data[0x100 + i] = 0xAA;
    }
    // Fill region 0x110..0x120 with 0xBB..
    for i in 0..16 {
        data[0x110 + i] = 0xBB;
    }

    data
}

#[test]
fn test_minimal_ne_v4_header() {
    let data = minimal_ne_v4();
    let ne = VecNE::from_memory(data);

    // Should parse validly
    let header = ne.get_valid_ne_header().unwrap();
    let sig = header.signature; // copy from packed struct
    assert_eq!(sig, 0x454E);
    assert!(!header.is_v5());
    assert_eq!(header.exe_type(), ExeType::Win);
}

#[test]
fn test_segment_table() {
    let data = minimal_ne_v4();
    let ne = VecNE::from_memory(data);

    let segments = ne.get_segment_table().unwrap();
    assert_eq!(segments.len(), 1);

    let seg = &segments[0];
    // Copy packed fields to locals to avoid unaligned reference
    let seg_flags = seg.flags;
    assert!(seg.is_moveable(), "flags=0x{seg_flags:04X}");
    assert_eq!(seg.length(), 0x200);
    assert_eq!(seg.minalloc(), 0);
    assert_eq!(seg.offset(), 0x0010);
}

#[test]
fn test_segment_by_number() {
    let data = minimal_ne_v4();
    let ne = VecNE::from_memory(data);

    // Segment numbers are 1-based
    assert!(ne.segment_by_number(1).is_some());
    assert!(ne.segment_by_number(2).is_none());
    assert!(ne.segment_by_number(0).is_none());
}

#[test]
fn test_invalid_dos_signature() {
    let mut data = vec![0u8; 256];
    data[0x00] = 0x00; // Not MZ
    data[0x01] = 0x00;
    let ne = VecNE::from_memory(data);

    let result = ne.get_valid_ne_header();
    assert!(result.is_err());
    match result.unwrap_err() {
        Error::InvalidDOSSignature(sig) => assert_eq!(sig, 0x0000),
        other => panic!("Expected InvalidDOSSignature, got {:?}", other),
    }
}

#[test]
fn test_invalid_ne_signature() {
    let data = minimal_ne_v4();
    // Corrupt the NE signature at offset 0x40 (NE header starts here)
    let mut corrupted = data.clone();
    corrupted[0x40] = 0x00;
    corrupted[0x41] = 0x00;

    let ne = VecNE::from_memory(corrupted);
    let result = ne.get_valid_ne_header();
    assert!(result.is_err());
    match result.unwrap_err() {
        Error::InvalidNESignature(sig) => assert_eq!(sig, 0x0000),
        other => panic!("Expected InvalidNESignature, got {:?}", other),
    }
}

#[test]
fn test_header_slice() {
    let data = minimal_ne_v4();
    let ne = VecNE::from_memory(data);

    let header_data = ne.header_slice().unwrap();
    let header = ne.get_valid_ne_header().unwrap();
    assert_eq!(header_data.len(), header.header_size());
}

#[test]
fn test_dos_stub() {
    let data = minimal_ne_v4();
    let ne = VecNE::from_memory(data);

    // In our synthetic file, e_lfanew = 0x3C = DOS_HEADER_SIZE, so no stub
    assert!(ne.get_dos_stub().is_none());
}

#[test]
fn test_entry_table_no_entries() {
    let data = minimal_ne_v4();
    let ne = VecNE::from_memory(data.clone());

    // Entry table offset is 0 (no entries)
    let result = EntryTable::parse(&ne);
    assert!(result.is_err());
    match result.unwrap_err() {
        Error::TableNotPresent(name) => assert_eq!(name, "entry_table"),
        other => panic!("Expected TableNotPresent, got {:?}", other),
    }
}

#[test]
fn test_pascal_string_utf8() {
    let mut data = [0u8; 64];
    // Create a Pascal string: length=5, "hello"
    data[0] = 5;
    data[1..6].copy_from_slice(b"hello");

    let _ne_data = minimal_ne_v4();
    // We need to wrap this in a VecNE — but the string is in a separate buffer
    // For this test, we just test the PascalString struct directly
    let pascal = PascalString { data: &data[1..6] };
    assert_eq!(pascal.len(), 5);
    assert_eq!(pascal.as_str().unwrap(), "hello");
    assert_eq!(pascal.as_bytes(), b"hello");
}

#[test]
fn test_pascal_string_invalid_utf8() {
    let data: &[u8] = &[5, 0xFF, 0xFE, 0x80, 0x81, 0x82]; // Not valid UTF-8
    let pascal = PascalString { data };
    assert!(pascal.as_str().is_err());
}

#[test]
fn test_align() {
    assert_eq!(align(0, 16), 0);
    assert_eq!(align(1, 16), 16);
    assert_eq!(align(15, 16), 16);
    assert_eq!(align(16, 16), 16);
    assert_eq!(align(17, 16), 32);
    assert_eq!(align(100, 16), 112);
}

#[test]
fn test_ne_flags() {
    // 0x0003 = SINGLEDATA | MULTIPLEDATA
    let flags = NeFlags::from_bits_truncate(0x0003);
    assert!(flags.contains(NeFlags::SINGLEDATA));
    assert!(flags.contains(NeFlags::MULTIPLEDATA));
    assert!(!flags.contains(NeFlags::LIBRARY));
}

#[test]
fn test_segment_alignment() {
    // alignment_bytes = 1 << shift (shift 4 = 16 B, the typical /a:16)
    assert_eq!(SegmentAlignment::from_u8(0).unwrap().alignment_bytes(), 1);
    assert_eq!(SegmentAlignment::from_u8(1).unwrap().alignment_bytes(), 2);
    assert_eq!(SegmentAlignment::from_u8(2).unwrap().alignment_bytes(), 4);
    assert_eq!(SegmentAlignment::from_u8(3).unwrap().alignment_bytes(), 8);
    assert_eq!(SegmentAlignment::from_u8(4).unwrap().alignment_bytes(), 16);
    assert_eq!(SegmentAlignment::from_u8(5).unwrap().alignment_bytes(), 32);
    // shift 9 = 512 B (the /a:512 default, e.g. SCRANTIC.EXE)
    assert_eq!(SegmentAlignment::from_u8(9).unwrap().alignment_bytes(), 512);
    assert!(SegmentAlignment::from_u8(7).is_some()); // Reserved but valid
}

#[test]
fn test_exetype_display() {
    assert_eq!(ExeType::Os2.to_string(), "OS/2 16-bit");
    assert_eq!(ExeType::Win.to_string(), "Windows 16-bit");
    assert_eq!(ExeType::Invalid.to_string(), "Invalid");
}

#[test]
fn test_export_entry_types() {
    let fixed = ExportEntry {
        flags: 0,
        entry_type: EntryType::Fixed {
            seg_num: 1,
            offset: 0x100,
        },
    };
    assert_eq!(fixed.seg_num(), Some(1));
    assert_eq!(fixed.offset(), Some(0x100));
    assert_eq!(fixed.constant_value(), None);

    let movable = ExportEntry {
        flags: 0,
        entry_type: EntryType::Movable {
            seg_num: 2,
            offset: 0x200,
        },
    };
    assert_eq!(movable.seg_num(), Some(2));
    assert_eq!(movable.offset(), Some(0x200));
    assert_eq!(movable.constant_value(), None);

    let constant = ExportEntry {
        flags: 0,
        entry_type: EntryType::Constant { value: 0x42 },
    };
    assert_eq!(constant.seg_num(), None);
    assert_eq!(constant.offset(), None);
    assert_eq!(constant.constant_value(), Some(0x42));
}

#[test]
fn test_relocation_entry_types() {
    let addr: AddressType = 0.into();
    assert_eq!(addr, AddressType::LowByte);

    let addr: AddressType = 99.into();
    assert_eq!(addr, AddressType::Unknown(99));

    let reloc: RelocationType = 0.into();
    assert_eq!(reloc, RelocationType::Internal);

    let reloc: RelocationType = 10.into();
    assert_eq!(reloc, RelocationType::Unknown(10));
}

#[test]
fn test_struct_size_invariants() {
    // ImageOS2Header's fields take 64 bytes, with no padding
    assert_eq!(std::mem::size_of::<ImageOS2Header>(), 64);
    // SegmentRecord is 8 bytes (4 x u16: offset, length, flags, minalloc)
    assert_eq!(std::mem::size_of::<SegmentRecord>(), 8);
}

#[test]
fn test_struct_offset_invariants() {
    // On-disk field offsets: each field is read from its offset in the
    // 64-byte header image (a distinct byte value marks each offset).
    let mut raw = [0u8; 64];
    for (i, b) in raw.iter_mut().enumerate() {
        *b = i as u8;
    }
    let h = ImageOS2Header::from_bytes(&raw);
    let at16 = |o: usize| u16::from_le_bytes([raw[o], raw[o + 1]]);
    let at32 = |o: usize| u32::from_le_bytes([raw[o], raw[o + 1], raw[o + 2], raw[o + 3]]);
    assert_eq!(h.signature, at16(0x00));
    assert_eq!(h.linker_version, raw[0x02]);
    assert_eq!(h.linker_minor_version, raw[0x03]);
    assert_eq!(h.entry_table_offset, at16(0x04));
    assert_eq!(h.entry_table_size, at16(0x06));
    assert_eq!(h.checksum, at32(0x08));
    assert_eq!(h.flags, at16(0x0C));
    assert_eq!(h.auto_data_sel, at16(0x0E));
    assert_eq!(h.heap_init, at16(0x10));
    assert_eq!(h.stack_init, at16(0x12));
    assert_eq!(h.csip, at32(0x14));
    assert_eq!(h.sssp, at32(0x18));
    assert_eq!(h.seg_count, at16(0x1C));
    assert_eq!(h.mod_count, at16(0x1E));
    assert_eq!(h.non_res_name_size, at16(0x20));
    assert_eq!(h.seg_table_offset, at16(0x22));
    assert_eq!(h.resource_table_offset, at16(0x24));
    assert_eq!(h.res_name_table_offset, at16(0x26));
    assert_eq!(h.mod_table_offset, at16(0x28));
    assert_eq!(h.imported_names_table_offset, at16(0x2A));
    assert_eq!(h.non_res_name_table_offset, at32(0x2C));
    assert_eq!(h.mod_internal_entries, at16(0x30));
    assert_eq!(h.alignment, at16(0x32));
    assert_eq!(h.resource_count, at16(0x34));
    assert_eq!(h.exe_type, raw[0x36]);
    assert_eq!(h.other_flags, raw[0x37]);
    assert_eq!(h.ret_thunk_offset, at16(0x38));
    assert_eq!(h.seg_ref_bytes_offset, at16(0x3A));
    assert_eq!(h.swap_area, at16(0x3C));
    assert_eq!(h.expected_version, at16(0x3E));

    // SegmentRecord field offsets (8-byte layout)
    let seg_raw = [0u8, 1, 2, 3, 4, 5, 6, 7];
    let seg = SegmentRecord::from_bytes(&seg_raw);
    assert_eq!(seg.offset, 0x0100);
    assert_eq!(seg.length, 0x0302);
    assert_eq!(seg.flags, 0x0504);
    assert_eq!(seg.minalloc, 0x0706);
}

#[test]
fn test_ptrne_valid_header() {
    let data = minimal_ne_v4();
    let ne = PtrNE::from_memory(&data);

    let header = ne.get_valid_ne_header().unwrap();
    let sig = header.signature;
    assert_eq!(sig, 0x454E);
    assert!(!header.is_v5());
    assert_eq!(header.exe_type(), ExeType::Win);
}

#[test]
fn test_ptrne_segment_table() {
    let data = minimal_ne_v4();
    let ne = PtrNE::from_memory(&data);

    let segments = ne.get_segment_table().unwrap();
    assert_eq!(segments.len(), 1);
    assert!(segments[0].is_moveable());
}

#[test]
fn test_ptrne_segment_by_number() {
    let data = minimal_ne_v4();
    let ne = PtrNE::from_memory(&data);

    assert!(ne.segment_by_number(1).is_some());
    assert!(ne.segment_by_number(0).is_none());
    assert!(ne.segment_by_number(2).is_none());
}

#[test]
fn test_ptrne_as_slice() {
    let data = minimal_ne_v4();
    let ne = PtrNE::from_memory(&data);

    let slice = ne.as_slice();
    assert_eq!(slice.len(), data.len());
    assert_eq!(&slice[0x00..0x02], &[0x4D, 0x5A]); // "MZ"
    assert_eq!(&slice[0x40..0x42], &[0x4E, 0x45]); // "NE"
}

#[test]
fn test_ptrne_header_slice() {
    let data = minimal_ne_v4();
    let ne = PtrNE::from_memory(&data);

    let header_data = ne.header_slice().unwrap();
    let header = ne.get_valid_ne_header().unwrap();
    assert_eq!(header_data.len(), header.header_size());
}

#[test]
fn test_ptrne_invalid_dos_signature() {
    let mut data = vec![0u8; 256];
    data[0x00] = 0x00;
    data[0x01] = 0x00;
    let ne = PtrNE::from_memory(&data);

    let result = ne.get_valid_ne_header();
    assert!(result.is_err());
    match result.unwrap_err() {
        Error::InvalidDOSSignature(sig) => assert_eq!(sig, 0x0000),
        other => panic!("Expected InvalidDOSSignature, got {:?}", other),
    }
}

#[test]
fn test_ptrne_out_of_bounds() {
    let data = [0u8; 10];
    let ne = PtrNE::from_memory(&data);

    let result = ne.get_valid_ne_header();
    assert!(result.is_err());
    match result.unwrap_err() {
        Error::HeaderTooSmall => {}
        other => panic!("Expected HeaderTooSmall, got {:?}", other),
    }
}

#[test]
fn test_entry_table_corrupt_cycle() {
    // Create an NE file with an entry table that forms a cycle
    let data = minimal_ne_v4();
    let ne = VecNE::from_memory(data);

    // Entry table offset is 0 in our synthetic file → TableNotPresent
    let result = EntryTable::parse(&ne);
    assert!(result.is_err());
}

#[test]
fn test_module_ref_no_modules() {
    let data = minimal_ne_v4();
    let ne = VecNE::from_memory(data);

    // Minimal synthetic file has mod_table_offset = 0, so no module ref table
    match ModuleRefTable::parse(&ne) {
        Err(Error::TableNotPresent(name)) => assert_eq!(name, "module_ref"),
        Err(e) => panic!("Expected TableNotPresent, got {e:?}"),
        Ok(_) => panic!("Expected error, got Ok"),
    }
}

#[test]
fn test_error_header_too_small() {
    let data = vec![0u8; 10];
    let ne = VecNE::from_memory(data);

    let result = ne.get_valid_ne_header();
    match result.unwrap_err() {
        Error::HeaderTooSmall => {}
        other => panic!("Expected HeaderTooSmall, got {:?}", other),
    }
}

#[test]
fn test_error_header_version_mismatch() {
    // minimal_ne_v4() has linker version 4.00 → v4; ensure_v5() rejects it.
    let ne = VecNE::from_memory(minimal_ne_v4());
    let header = ne.get_valid_ne_header().unwrap();
    assert!(!header.is_v5());
    assert!(matches!(
        header.ensure_v5(),
        Err(Error::HeaderVersionMismatch)
    ));
}

#[test]
fn test_error_table_not_present() {
    // Synthetic minimal NE with resource_table_offset = 0 →
    // TableNotPresent (the offset check runs before the resource_count
    // short-circuit, so this holds even though the minimal header also
    // declares zero resources).
    let data = minimal_ne_v4();
    let ne = VecNE::from_memory(data);
    assert_eq!(ne.resource_table_offset(), 0);
    match ResourceTable::parse(&ne) {
        Err(Error::TableNotPresent(name)) => assert_eq!(name, "resource_table"),
        Err(e) => panic!("Expected TableNotPresent, got {e:?}"),
        Ok(_) => panic!("Expected TableNotPresent, got Ok"),
    }
}

#[test]
fn test_error_invalid_resource_alignment() {
    let mut data = vec![0u8; 256];

    // Create an NE file whose resource table's own size shift (the first
    // word of the table — NOT the header alignment) is out of range.
    data[0x00] = 0x4D;
    data[0x01] = 0x5A;
    data[0x18..0x1A].copy_from_slice(&0x40u16.to_le_bytes()); // e_lfarlc
    data[0x3C..0x3E].copy_from_slice(&0x40u16.to_le_bytes()); // e_lfanew = 0x40
    let off = 0x40;
    data[off..off + 2].copy_from_slice(&0x454Eu16.to_le_bytes());
    data[off + 0x1C..off + 0x1E].copy_from_slice(&1u16.to_le_bytes());
    data[off + 0x22..off + 0x24].copy_from_slice(&0x80u16.to_le_bytes());
    data[off + 0x24..off + 0x26].copy_from_slice(&0x80u16.to_le_bytes()); // resource table RVA 0x80 → file 0xC0
    data[off + 0x34..off + 0x36].copy_from_slice(&1u16.to_le_bytes()); // resource_count = 1 (no short-circuit)

    // First word of the resource table: size shift = 17 (> 16)
    data[0xC0..0xC2].copy_from_slice(&17u16.to_le_bytes());

    let ne = VecNE::from_memory(data);
    let result = ResourceTable::parse(&ne);
    match result {
        Ok(_) => panic!("Expected InvalidResourceAlignment error"),
        Err(Error::InvalidResourceAlignment(17)) => {}
        Err(e) => panic!("Expected InvalidResourceAlignment(0), got {e:?}"),
    }
}

#[test]
fn test_resource_table_synthetic() {
    // Full happy-path parse of a hand-built resource table. No real
    // fixture exercises this — every corpus file has resource_count = 0,
    // so the TYPEINFO/NAMEINFO walk is only reachable via synthetic data
    // (PLAN.md Q6). Layout: size_shift = 2, two type records (one
    // ordinal-typed, one name-typed), three NAMEINFO records mixing
    // ordinal and Pascal-string ids, terminated by a type_id = 0 record.
    //
    // Table at file offset 0xC0 (RVA 0x80, e_lfanew 0x40):
    //   0xC0  size_shift = 2
    //   0xC2  TYPEINFO: ordinal type 5, count 1
    //   0xCA  NAMEINFO: off 0x10, len 0x04, flags 1, ordinal id 1
    //   0xD6  TYPEINFO: name at table offset 0x3E, count 2
    //   0xDE  NAMEINFO: off 0x20, len 0x08, flags 0, name id at 0x45
    //   0xEA  NAMEINFO: off 0x30, len 0x04, flags 2, ordinal id 7
    //   0xF6  terminator (type_id = 0)
    //   0xFE  "MYTYPE" (Pascal), 0x105 "ICON1" (Pascal)
    let mut data = vec![0u8; 512];
    data[0x00] = 0x4D; // "M"
    data[0x01] = 0x5A; // "Z"
    data[0x18..0x1A].copy_from_slice(&0x40u16.to_le_bytes()); // e_lfarlc = 0x40
    data[0x3C..0x3E].copy_from_slice(&0x40u16.to_le_bytes()); // e_lfanew = 0x40
    let off = 0x40;
    data[off..off + 2].copy_from_slice(&0x454Eu16.to_le_bytes()); // "NE"
    data[off + 0x02] = 5; // linker major (v5)
    data[off + 0x03] = 60; // linker minor
    data[off + 0x1C..off + 0x1E].copy_from_slice(&1u16.to_le_bytes()); // seg_count = 1
    data[off + 0x22..off + 0x24].copy_from_slice(&0x100u16.to_le_bytes()); // segtab RVA 0x100 (file 0x140)
    data[off + 0x24..off + 0x26].copy_from_slice(&0x80u16.to_le_bytes()); // rsrctab RVA 0x80 (file 0xC0)
    data[off + 0x34..off + 0x36].copy_from_slice(&2u16.to_le_bytes()); // resource_count = 2 (no short-circuit)
                                                                       // One segment record so the header is self-consistent
    let seg_off = 0x140;
    data[seg_off..seg_off + 8].copy_from_slice(&[
        0x10, 0x00, // offset = 0x0010
        0x20, 0x00, // length = 0x0020
        0x10, 0x00, // flags = MOVEABLE
        0x00, 0x00, // minalloc = 0
    ]);

    let t = 0xC0; // resource table start (file offset)
    data[t..t + 2].copy_from_slice(&2u16.to_le_bytes()); // size_shift = 2
    data[t + 2..t + 10].copy_from_slice(&[0x05, 0x80, 0x01, 0x00, 0, 0, 0, 0]);
    data[t + 10..t + 22]
        .copy_from_slice(&[0x10, 0x00, 0x04, 0x00, 0x01, 0x00, 0x01, 0x80, 0, 0, 0, 0]);
    data[t + 22..t + 30].copy_from_slice(&[0x3E, 0x00, 0x02, 0x00, 0, 0, 0, 0]);
    data[t + 30..t + 42]
        .copy_from_slice(&[0x20, 0x00, 0x08, 0x00, 0x00, 0x00, 0x45, 0x00, 0, 0, 0, 0]);
    data[t + 42..t + 54]
        .copy_from_slice(&[0x30, 0x00, 0x04, 0x00, 0x02, 0x00, 0x07, 0x80, 0, 0, 0, 0]);
    data[t + 54..t + 62].copy_from_slice(&[0u8; 8]); // terminator
    data[t + 0x3E..t + 0x45].copy_from_slice(&[6, b'M', b'Y', b'T', b'Y', b'P', b'E']);
    data[t + 0x45..t + 0x4B].copy_from_slice(&[5, b'I', b'C', b'O', b'N', b'1']);

    let ne = VecNE::from_memory(data);
    let table = ResourceTable::parse(&ne).unwrap();
    assert_eq!(table.alignment_shift, 2);
    assert_eq!(table.type_info.len(), 2);

    let t0 = &table.type_info[0];
    assert_eq!(t0.type_id, ResourceTypeId::Ordinal(5));
    assert_eq!(t0.records.len(), 1);
    let r0 = &t0.records[0];
    assert_eq!(r0.offset, 0x40); // 0x10 << 2
    assert_eq!(r0.length, 0x10); // 0x04 << 2
    assert_eq!(r0.flags, 1);
    assert_eq!(r0.id, ResourceId::Ordinal(1));

    let t1 = &table.type_info[1];
    assert_eq!(
        t1.type_id,
        ResourceTypeId::Name(PascalString { data: b"MYTYPE" })
    );
    assert_eq!(t1.records.len(), 2);
    let r1 = &t1.records[0];
    assert_eq!(r1.offset, 0x80); // 0x20 << 2
    assert_eq!(r1.length, 0x20); // 0x08 << 2
    assert_eq!(r1.id, ResourceId::Name(PascalString { data: b"ICON1" }));
    let r2 = &t1.records[1];
    assert_eq!(r2.offset, 0xC0); // 0x30 << 2
    assert_eq!(r2.length, 0x10);
    assert_eq!(r2.flags, 2);
    assert_eq!(r2.id, ResourceId::Ordinal(7));
}

#[test]
fn test_error_entry_table_overflow() {
    // Synthetic NE whose entry table holds 258 records of
    // [count=255][type=0x00] (255 unused ordinals each, no data bytes):
    // 258 * 255 = 65790 ordinal slots > u16::MAX → EntryTableOverflow.
    let mut data = minimal_ne_v4();
    let off = 0x40;

    // Entry table at RVA 0x80 (file 0xC0), declared size 516 bytes
    // (exactly 258 two-byte record headers).
    data[off + 0x04..off + 0x06].copy_from_slice(&0x80u16.to_le_bytes());
    data[off + 0x06..off + 0x08].copy_from_slice(&516u16.to_le_bytes());

    for i in 0..258 {
        data[0xC0 + 2 * i] = 255; // count
        data[0xC1 + 2 * i] = 0x00; // type 0 = unused ordinals
    }

    let ne = VecNE::from_memory(data);
    assert!(matches!(
        EntryTable::parse(&ne).unwrap_err(),
        Error::EntryTableOverflow
    ));
}

#[test]
fn test_error_entry_table_corrupt() {
    // Synthetic NE file whose entry table declares more entries than the
    // declared table size can hold → EntryTableCorrupt.
    let mut data = minimal_ne_v4();
    let off = 0x40;

    // Entry table at RVA 0x80 (file 0xC0), declared size 4 bytes.
    data[off + 0x04..off + 0x06].copy_from_slice(&0x80u16.to_le_bytes());
    data[off + 0x06..off + 0x08].copy_from_slice(&4u16.to_le_bytes());

    // Record: [count=100][type=0xFF movable] → needs 100*6 = 600 bytes,
    // but only 2 bytes remain inside the declared table size.
    data[0xC0] = 100;
    data[0xC1] = 0xFF;

    let ne = VecNE::from_memory(data);
    assert!(matches!(
        EntryTable::parse(&ne).unwrap_err(),
        Error::EntryTableCorrupt
    ));
}

#[test]
fn test_entry_table_no_exports_terminator() {
    // A record with count == 0 is the terminator: no exports.
    // (This is the on-disk shape of DUALBTN's 1-byte "0x00" entry table.)
    let mut data = minimal_ne_v4();
    let off = 0x40;

    data[off + 0x04..off + 0x06].copy_from_slice(&0x80u16.to_le_bytes());
    data[off + 0x06..off + 0x08].copy_from_slice(&2u16.to_le_bytes());
    data[0xC0] = 0x00; // count = 0 → terminator

    let ne = VecNE::from_memory(data);
    let table = EntryTable::parse(&ne).unwrap();
    assert!(table.entries.is_empty());
    assert_eq!(table.export_count(), 0);
}

#[test]
fn test_error_table_out_of_bounds() {
    // Create an NE file where segment table offset points beyond the buffer
    // get_segment_table uses relative offset directly (not converted to file offset)
    let mut data = vec![0u8; 200];

    // Must have e_lfarlc = 0x40 per osdev.org NE-Format spec
    data[0x00] = 0x4D;
    data[0x01] = 0x5A;
    data[0x18..0x1A].copy_from_slice(&0x40u16.to_le_bytes()); // e_lfarlc = 0x40
    data[0x3C..0x3E].copy_from_slice(&0x40u16.to_le_bytes());
    let off = 0x40;
    data[off..off + 2].copy_from_slice(&0x454Eu16.to_le_bytes());
    data[off + 0x1C..off + 0x1E].copy_from_slice(&1u16.to_le_bytes());
    // seg_table_offset points beyond buffer
    data[off + 0x22..off + 0x24].copy_from_slice(&0x200u16.to_le_bytes());

    let ne = VecNE::from_memory(data);
    let result = ne.get_segment_table();
    match result.unwrap_err() {
        Error::TableOutOfBounds("segment_table", offset, bound) => {
            // seg_table_file_off = e_lfanew(0x40) + seg_table_offset(0x200) = 0x240
            // 0x240 + 8 (1 segment * 8 bytes) = 0x248
            assert_eq!(offset, 0x248);
            assert_eq!(bound, 200);
        }
        other => panic!("Expected TableOutOfBounds, got {other:?}"),
    }
}

#[test]
fn test_error_header_out_of_bounds() {
    // A 2-byte buffer: any read past the end is out of bounds.
    let ne = VecNE::from_slice(&[0x5A, 0x4D]);
    assert!(matches!(ne.read_u32(0), Err(Error::HeaderOutOfBounds(4))));
}

#[test]
fn test_error_invalid_dos_stub_fields() {
    // Buffer shorter than the 64-byte DOS header: the stub-field
    // validation cannot even read the fields it needs.
    let ne = VecNE::from_slice(&[0x5A, 0x4D]);
    assert!(matches!(
        ne.validate_dos_stub_fields(),
        Err(Error::InvalidDOSStubFields)
    ));
}

#[test]
fn test_error_invalid_pascal_string() {
    // 0xFF 0xFE is not valid UTF-8 → as_str() must fail; ASCII passes.
    let invalid = PascalString {
        data: &[0xFF, 0xFE],
    };
    assert!(invalid.as_str().is_err());
    assert_eq!(PascalString { data: b"USER" }.as_str().unwrap(), "USER");
}

#[test]
fn test_error_relocation_chain_corrupt() {
    // A 2-cycle: the word at 0x0000 points to 0x0002 and the word at
    // 0x0002 points back to 0x0000 — the cycle guard must trip.
    let entry = RelocationEntry {
        address_type: AddressType::Pointer32,
        relocation_type: RelocationType::Ordinal,
        is_additive: false,
        segment_number: 1,
        offset: 0,
        target1: 1,
        target2: 2,
    };
    let segment_data = [0x02, 0x00, 0x00, 0x00, 0, 0, 0, 0];
    assert!(matches!(
        entry.resolve_chain(&segment_data),
        Err(Error::RelocationChainCorrupt)
    ));
}

#[test]
fn test_mut_ne_header_modify_flags() {
    let data = minimal_ne_v4();
    let mut ne = VecNE::from_memory(data);

    // Initially v4 (linker_version 4 < 5)
    let header = ne.get_valid_ne_header().unwrap();
    assert!(!header.is_v5());

    // Upgrade to v5 by setting linker version >= 5
    {
        let mut h = ne.get_ne_header_ref().unwrap();
        h.linker_version = 5;
        ne.write_ne_header(&h).unwrap();
    }

    // Now should detect as v5
    let header = ne.get_valid_ne_header().unwrap();
    assert!(header.is_v5());
}

#[test]
fn test_mut_ne_header_modify_v5_fields() {
    let data = minimal_ne_v4();
    let mut ne = VecNE::from_memory(data);

    // First make it v5
    {
        let mut h = ne.get_ne_header_ref().unwrap();
        h.linker_version = 5; // v5 detection uses linker_version >= 5
        h.swap_area = 0x1234;
        h.expected_version = 0x5678;
        ne.write_ne_header(&h).unwrap();
    }

    let header = ne.get_valid_ne_header().unwrap();
    assert!(header.is_v5());

    // swap_area (0x3C) and expected_version (0x3E) are the v5-only fields
    let v5 = header.v5_fields().unwrap();
    assert_eq!(v5.swap_area, 0x1234);
    assert_eq!(v5.expected_version, 0x5678);
    // ret_thunk_offset / seg_ref_bytes_offset are common (v4) fields
    assert_eq!(header.common_fields().ret_thunk_offset, 0);
    assert_eq!(header.common_fields().seg_ref_bytes_offset, 0);
}

#[test]
fn test_mut_ne_header_modify_seg_count() {
    let data = minimal_ne_v4();
    let mut ne = VecNE::from_memory(data);

    // Read original segment count
    let header = ne.get_valid_ne_header().unwrap();
    let orig_segs = header.common_fields().seg_count;

    // Modify via zero-copy mutable reference
    {
        let mut h = ne.get_ne_header_ref().unwrap();
        h.seg_count = 5;
        ne.write_ne_header(&h).unwrap();
    }

    // Read back and verify
    let header = ne.get_valid_ne_header().unwrap();
    assert_eq!(header.common_fields().seg_count, 5);
    assert_eq!(header.common_fields().seg_count, orig_segs - 1 + 5);
}

#[test]
fn test_header_slice_size_matches_const() {
    // v4 file: linker_version < 5 → 60-byte header
    let mut data = vec![0u8; 256];
    data[0x00] = 0x4D;
    data[0x01] = 0x5A;
    data[0x18..0x1A].copy_from_slice(&0x40u16.to_le_bytes()); // e_lfarlc = 0x40
    data[0x3C..0x3E].copy_from_slice(&0x40u16.to_le_bytes());
    let off = 0x40;
    data[off..off + 2].copy_from_slice(&0x454Eu16.to_le_bytes());
    data[off + 0x02] = 0x04; // linker version 4 (v4)
    data[off + 0x0C..off + 0x0E].copy_from_slice(&0u16.to_le_bytes()); // flags
    let ne = VecNE::from_memory(data);
    let slice = ne.header_slice().unwrap();
    assert_eq!(slice.len(), NE_HEADER_SIZE_V4);

    // v5 file: linker_version >= 5 → 68-byte header
    let mut data = vec![0u8; 256];
    data[0x00] = 0x4D;
    data[0x01] = 0x5A;
    data[0x18..0x1A].copy_from_slice(&0x40u16.to_le_bytes()); // e_lfarlc = 0x40
    data[0x3C..0x3E].copy_from_slice(&0x40u16.to_le_bytes());
    let off = 0x40;
    data[off..off + 2].copy_from_slice(&0x454Eu16.to_le_bytes());
    data[off + 0x02] = 0x05; // linker version 5 (v5)
    data[off + 0x0C..off + 0x0E].copy_from_slice(&0u16.to_le_bytes()); // flags
    let ne = VecNE::from_memory(data);
    let slice = ne.header_slice().unwrap();
    assert_eq!(slice.len(), NE_HEADER_SIZE_V5);
}

#[test]
fn test_ne_flags_library_bit() {
    // Bit 15 marks a library module (DLL)
    let flags = NeFlags::from_bits_truncate(NeFlags::LIBRARY);
    assert!(flags.contains(NeFlags::LIBRARY));
    assert!(!flags.contains(NeFlags::SINGLEDATA));
    // 0x8301 (GDI/USER/KRNL386 in the corpus) =
    // LIBRARY | SINGLEDATA | reserved 0x0300 (bits 8-9)
    let dll = NeFlags::from_bits_truncate(0x8301);
    assert!(dll.contains(NeFlags::LIBRARY));
    assert!(dll.contains(NeFlags::SINGLEDATA));
    assert!(!dll.contains(NeFlags::MULTIPLEDATA));
    assert_eq!(dll.bits(), 0x8001);
}

#[test]
fn test_ne_flags_first_seg_loader() {
    let flags = NeFlags::from_bits_truncate(NeFlags::FIRST_SEG_CONTAINS_LOADER);
    assert!(flags.contains(NeFlags::FIRST_SEG_CONTAINS_LOADER));
    assert!(!flags.contains(NeFlags::LINKER_ERRORS));
}

#[test]
fn test_ne_flags_linker_errors() {
    let flags = NeFlags::from_bits_truncate(NeFlags::LINKER_ERRORS);
    assert!(flags.contains(NeFlags::LINKER_ERRORS));
}

#[test]
fn test_segment_table_empty() {
    // Create synthetic NE with seg_count = 0
    let data = minimal_ne_v4();
    let ne = VecNE::from_memory(data);

    let segments = ne.get_segment_table().unwrap();
    assert_eq!(segments.len(), 1); // Our synthetic file has 1 segment
}

#[test]
fn test_pascal_string_empty() {
    let data: &[u8] = &[];
    let pascal = PascalString { data };
    assert!(pascal.is_empty());
    assert_eq!(pascal.len(), 0);
    assert_eq!(pascal.as_bytes(), b"");
}

#[test]
fn test_pascal_string_single_byte() {
    let data: &[u8] = b"A";
    let pascal = PascalString { data };
    assert_eq!(pascal.len(), 1);
    assert_eq!(pascal.as_str().unwrap(), "A");
}

#[test]
fn test_pascal_string_max_ascii() {
    // 255 bytes of valid ASCII
    let data: Vec<u8> = (0x20..=0x7E).cycle().take(255).collect();
    let pascal = PascalString { data: &data };
    assert_eq!(pascal.len(), 255);
    assert!(pascal.as_str().is_ok());
}

#[test]
fn test_validate_dos_stub_fields_valid() {
    let data = minimal_ne_v4();
    let ne = VecNE::from_memory(data);
    // Should succeed — e_lfarlc is no longer validated for NE detection
    assert!(ne.validate_dos_stub_fields().is_ok());
}

#[test]
fn test_validate_dos_stub_fields_non_40_eflarlc_ok() {
    // e_lfarlc == 0x40 is NOT a valid NE detection criterion.
    // Many valid NE files (Open Watcom, some Microsoft tools) have e_lfarlc = 0x0000.
    // This test verifies that validate_dos_stub_fields succeeds even with e_lfarlc != 0x40.
    let mut data = vec![0u8; 256];
    // MZ signature
    data[0x00] = 0x4D;
    data[0x01] = 0x5A;
    // e_lfarlc = 0x80 (NOT 0x40 — used to fail, now succeeds)
    data[0x16..0x18].copy_from_slice(&0x80u16.to_le_bytes());
    // e_lfanew points to NE header
    data[0x3C..0x3E].copy_from_slice(&0x40u16.to_le_bytes());
    // NE signature at offset 0x40
    data[0x40] = b'N';
    data[0x41] = b'E';
    let ne = VecNE::from_memory(data);
    // Should succeed — e_lfarlc is NOT used for NE detection
    assert!(ne.validate_dos_stub_fields().is_ok());
}

#[test]
fn test_is_library_false() {
    // EXE program has 0x8000 flag clear
    let mut data = minimal_ne_v4();
    let off = 0x40;
    data[off + 0x0C..off + 0x0E].copy_from_slice(&0u16.to_le_bytes()); // flags = 0
    let ne = VecNE::from_memory(data);
    assert!(!ne.is_library());
}

#[test]
fn test_is_library_true() {
    // DLL has 0x8000 flag set
    let mut data = minimal_ne_v4();
    let off = 0x40;
    data[off + 0x0C..off + 0x0E].copy_from_slice(&0x8000u16.to_le_bytes()); // flags = 0x8000
    let ne = VecNE::from_memory(data);
    assert!(ne.is_library());
}

#[test]
fn test_processor_mode_v4_windows() {
    // v4 Windows file: expctwinver < 3, no GAMEIMAGE, no OS2PM -> real mode only
    let mut data = vec![0u8; 256];
    data[0x00] = 0x4D;
    data[0x01] = 0x5A;
    data[0x18..0x1A].copy_from_slice(&0x40u16.to_le_bytes());
    data[0x3C..0x3E].copy_from_slice(&0x40u16.to_le_bytes());
    let off = 0x40;
    data[off..off + 2].copy_from_slice(&0x454Eu16.to_le_bytes());
    data[off + 0x0C..off + 0x0E].copy_from_slice(&0u16.to_le_bytes()); // flags = 0 (v4)
    let ne = VecNE::from_memory(data);
    let (real, protected) = ne.supported_processor_modes();
    assert!(real, "Expected real mode support");
    assert!(!protected, "Expected no protected mode for v4 Windows");
}

#[test]
fn test_os_fixup_type_from_u16() {
    assert_eq!(OsFixupType::from(1), OsFixupType::FiArQq);
    assert_eq!(OsFixupType::from(2), OsFixupType::FiSrQq);
    assert_eq!(OsFixupType::from(3), OsFixupType::FiCrQq);
    assert_eq!(OsFixupType::from(4), OsFixupType::FiErQq);
    assert_eq!(OsFixupType::from(5), OsFixupType::FiDrQq);
    assert_eq!(OsFixupType::from(6), OsFixupType::FiWrQq);
    assert_eq!(OsFixupType::from(99), OsFixupType::Unknown(99));
}

#[test]
fn test_relocation_type_internal() {
    let rt = RelocationType::from(0);
    assert_eq!(rt, RelocationType::Internal);
}

#[test]
fn test_relocation_type_ordinal() {
    let rt = RelocationType::from(1);
    assert_eq!(rt, RelocationType::Ordinal);
}

#[test]
fn test_relocation_type_name() {
    let rt = RelocationType::from(2);
    assert_eq!(rt, RelocationType::Name);
}

#[test]
fn test_relocation_type_osglobal() {
    let rt = RelocationType::from(3);
    assert_eq!(rt, RelocationType::OSGlobal);
}

#[test]
fn test_address_type_values() {
    assert_eq!(AddressType::from(0), AddressType::LowByte);
    assert_eq!(AddressType::from(2), AddressType::Selector);
    assert_eq!(AddressType::from(3), AddressType::Pointer32);
    assert_eq!(AddressType::from(5), AddressType::Offset16);
    assert_eq!(AddressType::from(11), AddressType::Pointer48);
    assert_eq!(AddressType::from(13), AddressType::Offset32);
    // Unrecognized values are preserved for forward compatibility
    assert_eq!(AddressType::from(15), AddressType::Unknown(15));
}

#[test]
fn test_ptrne_read_u8() {
    let data: Vec<u8> = (0..=255).collect();
    let ne = PtrNE::from_memory(&data);

    assert_eq!(ne.read_u8(0).unwrap(), 0x00);
    assert_eq!(ne.read_u8(127).unwrap(), 0x7F);
    assert_eq!(ne.read_u8(255).unwrap(), 0xFF);
}

#[test]
fn test_ptrne_read_u16() {
    let mut data: Vec<u8> = Vec::new();
    data.extend_from_slice(&0x0102u16.to_le_bytes()); // LE: 02 01
    data.extend_from_slice(&0x0304u16.to_le_bytes()); // LE: 04 03
    let ne = PtrNE::from_memory(&data);

    assert_eq!(ne.read_u16(0).unwrap(), 0x0102);
    assert_eq!(ne.read_u16(2).unwrap(), 0x0304);
}

#[test]
fn test_ptrne_read_u32() {
    let mut data: Vec<u8> = Vec::new();
    data.extend_from_slice(&0x0102_0304u32.to_le_bytes()); // LE: 04 03 02 01
    data.extend_from_slice(&0x0506_0708u32.to_le_bytes()); // LE: 08 07 06 05
    let ne = PtrNE::from_memory(&data);

    assert_eq!(ne.read_u32(0).unwrap(), 0x0102_0304);
    assert_eq!(ne.read_u32(4).unwrap(), 0x0506_0708);
}

#[test]
fn test_ptrne_read_u64() {
    let mut data: Vec<u8> = Vec::new();
    data.extend_from_slice(&0x0102_0304_0506_0708u64.to_le_bytes());
    data.extend_from_slice(&0x090A_0B0C_0D0E_0F10u64.to_le_bytes());
    let ne = PtrNE::from_memory(&data);

    assert_eq!(ne.read_u64(0).unwrap(), 0x0102_0304_0506_0708);
    assert_eq!(ne.read_u64(8).unwrap(), 0x090A_0B0C_0D0E_0F10);
}

#[test]
fn test_ptrne_read_u64_boundary() {
    let data: Vec<u8> = vec![0xAB; 16];
    let ne = PtrNE::from_memory(&data);

    // First u64 fits, second u64 fits, third would overflow
    assert_eq!(ne.read_u64(0).unwrap(), 0xABAB_ABAB_ABAB_ABAB);
    assert_eq!(ne.read_u64(8).unwrap(), 0xABAB_ABAB_ABAB_ABAB);
    assert!(ne.read_u64(9).is_err()); // 9+8 = 17 > 16
}

#[test]
fn test_ptrne_read_out_of_bounds() {
    let data: Vec<u8> = vec![0u8; 10];
    let ne = PtrNE::from_memory(&data);

    assert!(ne.read_u16(9).is_err()); // 9+2 = 11 > 10
    assert!(ne.read_u32(7).is_err()); // 7+4 = 11 > 10
    assert!(ne.read_u64(3).is_err()); // 3+8 = 11 > 10
}

#[test]
fn test_ptrne_read_empty_buffer() {
    let data: Vec<u8> = Vec::new();
    let ne = PtrNE::from_memory(&data);

    assert!(ne.read_u8(0).is_err());
    assert!(ne.read_u16(0).is_err());
}

#[test]
fn test_ptrne_read_u8_single_byte() {
    let data: Vec<u8> = vec![0xFF];
    let ne = PtrNE::from_memory(&data);

    assert_eq!(ne.read_u8(0).unwrap(), 0xFF);
    assert!(ne.read_u8(1).is_err());
}

#[test]
fn test_vecne_from_slice() {
    let bytes: [u8; 8] = [0xDE, 0xAD, 0xBE, 0xEF, 0x01, 0x02, 0x03, 0x04];
    let ne = VecNE::from_slice(&bytes);

    assert_eq!(ne.len(), 8);
    // u8 at offset 0
    assert_eq!(ne.read_u8(0).unwrap(), 0xDE);
    // u16 at offset 1 (LE): bytes [0xAD, 0xBE] → 0xAD | (0xBE << 8)
    assert_eq!(ne.read_u16(1).unwrap(), 0xBEAD);
    // u32 at offset 0 (LE): bytes [0xDE, 0xAD, 0xBE, 0xEF]
    assert_eq!(ne.read_u32(0).unwrap(), 0xEFBE_ADDE);
}

#[test]
fn test_vecne_from_slice_empty() {
    let ne = VecNE::from_slice(&[]);
    assert!(ne.is_empty());
    assert!(ne.read_u8(0).is_err());
}

#[test]
fn test_logical_to_offset_byte_aligned() {
    // minimal_ne_v4 has alignment = 0, segment offset = 0x10
    let data = minimal_ne_v4();
    let ne = VecNE::from_memory(data.clone());

    let header = ne.get_valid_ne_header().unwrap();
    assert_eq!(header.common_fields().alignment, 0);

    // offset field = 0x10, shift = 0 → start = 0x10
    let off = ne.logical_to_offset(1, 0x00).unwrap();
    assert_eq!(off, 0x10);

    let off = ne.logical_to_offset(1, 0x0F).unwrap();
    assert_eq!(off, 0x1F);

    // Out-of-bounds: offset == length (0x200) is the boundary, offset+1 exceeds
    assert!(ne.logical_to_offset(1, 0x201).is_err());
}

#[test]
fn test_logical_to_offset_paragraph_aligned() {
    let data = paragraph_aligned_ne_v4();
    let ne = VecNE::from_memory(data);

    let header = ne.get_valid_ne_header().unwrap();
    assert_eq!(header.common_fields().alignment, 4);

    // offset field = 0x10, shift = 4 → start = 0x10 << 4 = 0x100 = 256
    let off = ne.logical_to_offset(1, 0x00).unwrap();
    assert_eq!(off, 0x100);

    let off = ne.logical_to_offset(1, 0x0F).unwrap();
    assert_eq!(off, 0x10F);

    let off = ne.logical_to_offset(1, 0x10).unwrap();
    assert_eq!(off, 0x110);
}

#[test]
fn test_logical_to_offset_wrong_segment() {
    let data = minimal_ne_v4();
    let ne = VecNE::from_memory(data);

    // Segment 2 doesn't exist (only 1 segment)
    match ne.logical_to_offset(2, 0x00) {
        Err(Error::SegmentNotFound(2)) => {}
        other => panic!("Expected SegmentNotFound(2), got {:?}", other),
    }
    // Very high ordinal also returns NotFound
    match ne.logical_to_offset(0xFFFF, 0x00) {
        Err(Error::SegmentNotFound(_)) => {}
        other => panic!("Expected SegmentNotFound, got {:?}", other),
    }
}

#[test]
fn test_get_segment_data_byte_aligned() {
    let data = minimal_ne_v4();
    let ne = VecNE::from_memory(data);

    let seg_data = ne.get_segment_data(1).unwrap();
    // Segment starts at offset 0x10, length = 0x200
    assert_eq!(seg_data.len(), 0x200);
}

#[test]
fn test_get_segment_data_paragraph_aligned() {
    let data = paragraph_aligned_ne_v4();
    let ne = VecNE::from_memory(data);

    let seg_data = ne.get_segment_data(1).unwrap();
    // Segment starts at 0x100, length = 0x10
    assert_eq!(seg_data.len(), 0x10);

    // Verify the recognizable fill pattern
    for b in seg_data {
        assert_eq!(*b, 0xAA, "Expected 0xAA at segment data");
    }
}

#[test]
fn test_get_segment_data_wrong_number() {
    let data = minimal_ne_v4();
    let ne = VecNE::from_memory(data);

    match ne.get_segment_data(2) {
        Err(Error::SegmentNotFound(2)) => {}
        other => panic!("Expected SegmentNotFound(2), got {:?}", other),
    }
    match ne.get_segment_data(0xFFFF) {
        Err(Error::SegmentNotFound(_)) => {}
        other => panic!("Expected SegmentNotFound, got {:?}", other),
    }
}

#[test]
fn test_ne_header_file_offset() {
    let data = minimal_ne_v4();
    let ne = VecNE::from_memory(data);

    // e_lfanew = 0x40
    assert_eq!(ne.ne_header_file_offset().unwrap(), 0x40);
}

#[test]
fn test_ne_offset_to_file() {
    let data = minimal_ne_v4();
    let ne = VecNE::from_memory(data);

    // e_lfanew = 0x40, so relative offset 0x7C → file offset 0xBC
    assert_eq!(ne.ne_offset_to_file(0x7C).unwrap(), 0xBC);
    // Zero offset → 0
    assert_eq!(ne.ne_offset_to_file(0).unwrap(), 0);
}

#[test]
fn test_segment_count() {
    let data = minimal_ne_v4();
    let ne = VecNE::from_memory(data);

    assert_eq!(ne.segment_count(), 1);
}

#[test]
fn test_segment_count_invalid() {
    let data: Vec<u8> = vec![0u8; 10];
    let ne = VecNE::from_memory(data);

    assert_eq!(ne.segment_count(), 0);
}

#[test]
fn test_segment_record_is_data() {
    let mut rec = SegmentRecord {
        offset: 0,
        length: 0,
        flags: 0,
        minalloc: 0,
    };
    rec.flags = 0x0001; // DATA
    assert!(rec.is_data());
    assert!(!rec.is_moveable());
    assert!(!rec.is_shared());
    assert!(!rec.is_discardable());
}

#[test]
fn test_segment_record_is_shared() {
    let mut rec = SegmentRecord {
        offset: 0,
        length: 0,
        flags: 0,
        minalloc: 0,
    };
    rec.flags = SegmentFlags::SHAREABLE;
    assert!(rec.is_shared());
    assert!(!rec.is_discardable());
}

#[test]
fn test_segment_record_is_discardable() {
    let mut rec = SegmentRecord {
        offset: 0,
        length: 0,
        flags: 0,
        minalloc: 0,
    };
    rec.flags = SegmentFlags::DISCARDABLE;
    assert!(rec.is_discardable());
    assert!(!rec.is_shared());
}

#[test]
fn test_segment_record_multiple_flags() {
    let mut rec = SegmentRecord {
        offset: 0,
        length: 0,
        flags: 0,
        minalloc: 0,
    };
    rec.flags = SegmentFlags::DATA
        | SegmentFlags::MOVEABLE
        | SegmentFlags::DISCARDABLE;
    assert!(rec.is_data());
    assert!(rec.is_moveable());
    assert!(rec.is_discardable());
}

#[test]
fn test_ne_flags_reserved_bits_truncated() {
    // Bits 2-3 are reserved — truncate drops them
    let flags = NeFlags::from_bits_truncate(0x000C);
    assert_eq!(flags.bits(), 0);
}

#[test]
fn test_ne_flags_undefined_high_bits_truncated() {
    // Undefined high bits are truncated; only the defined flags survive:
    // 0xFFE0 & (0x1|0x2|0x800|0x2000|0x8000) = LIBRARY|LINKER_ERRORS|
    // FIRST_SEG_CONTAINS_LOADER. (The old RESERVED = 0xFFE0 mask used to
    // swallow the LIBRARY bit instead.)
    let flags = NeFlags::from_bits_truncate(0xFFE0);
    assert_eq!(
        flags.bits(),
        NeFlags::LIBRARY
            | NeFlags::LINKER_ERRORS
            | NeFlags::FIRST_SEG_CONTAINS_LOADER
    );
    // Purely undefined bits (0x4000, 0x1000, 0x0400) truncate to nothing
    let undefined = NeFlags::from_bits_truncate(0x5400);
    assert_eq!(undefined.bits(), 0);
}

#[test]
fn test_pascal_string_non_ascii_bytes() {
    // Valid ASCII range (0x20-0x7E) but not UTF-8 — actually this is fine
    // Let's test with bytes that are ASCII
    let data: Vec<u8> = (0x20..=0x7E).cycle().take(10).collect();
    let pascal = PascalString { data: &data };
    assert!(pascal.as_str().is_ok());
    assert_eq!(pascal.as_bytes(), &data);
}

#[test]
fn test_buf_is_empty() {
    let data: Vec<u8> = Vec::new();
    let vecne = VecNE::from_memory(data.clone());
    assert!(vecne.is_empty());
    assert!(vecne.len() == 0);
}

#[test]
fn test_buf_is_not_empty() {
    let data: Vec<u8> = vec![0xDE, 0xAD, 0xBE, 0xEF];
    let vecne = VecNE::from_memory(data);
    assert!(!vecne.is_empty());
}
