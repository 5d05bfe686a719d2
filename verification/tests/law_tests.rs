//! Tests on synthetic images that exercise relocations, module references
//! and the properties the library states of its results.

use new_executable::describe::{
    build_module_cache, module_name, reloc_raw_bytes, reloc_target_detail, target_str,
    wine_export_name, wine_reloc_target,
};
use new_executable::ne::segment_data_addressable;
use new_executable::types::reloc::reloc_blocks_addressable;
use new_executable::{
    align, AddressType, Buffer, EntryTable, ImageOS2Header, ModuleRefTable, NeFlags,
    NonResidentNameTable, PtrNE, RelocationTable, RelocationType, ResidentName,
    ResidentNameTable, PascalString, ResourceTable, VecNE, NE,
};

fn put16(d: &mut [u8], at: usize, v: u16) {
    d[at..at + 2].copy_from_slice(&v.to_le_bytes());
}

/// A v4 image with one segment carrying relocations, a module reference
/// table naming `USER`, and an imported names table.
///
/// Layout: NE header at 0x40; segment table at 0xBC (1 record); module
/// reference table at 0xD0; imported names at 0xE0; segment data at
/// 0x300..0x320; relocation block at 0x320.
fn reloc_image() -> Vec<u8> {
    let mut d = vec![0u8; 2048];
    d[0] = b'M';
    d[1] = b'Z';
    put16(&mut d, 0x3C, 0x40);
    let off = 0x40;
    put16(&mut d, off, 0x454E);
    d[off + 2] = 4;
    put16(&mut d, off + 0x1C, 1); // seg_count
    put16(&mut d, off + 0x1E, 1); // mod_count
    put16(&mut d, off + 0x22, 0x7C); // segment table → 0xBC
    put16(&mut d, off + 0x28, 0x90); // module references → 0xD0
    put16(&mut d, off + 0x2A, 0xA0); // imported names → 0xE0
    d[off + 0x36] = 2;
    // Segment: offset 0x300 (alignment 0), length 0x20, MOVEABLE | RELOC_DATA.
    put16(&mut d, 0xBC, 0x300);
    put16(&mut d, 0xBE, 0x20);
    put16(&mut d, 0xC0, 0x0110);
    // Module reference 1 → imported names + 1.
    put16(&mut d, 0xD0, 1);
    d[0xE0] = 0;
    d[0xE1..0xE6].copy_from_slice(&[4, b'U', b'S', b'E', b'R']);
    d[0xE6..0xED].copy_from_slice(&[6, b'W', b'I', b'N', b'E', b'X', b'E']);
    // Fixup chain in the segment data: 0x04 → 0x0A → end.
    put16(&mut d, 0x304, 0x000A);
    put16(&mut d, 0x30A, 0xFFFF);
    // Relocation block: two records.
    put16(&mut d, 0x320, 2);
    d[0x322..0x32A].copy_from_slice(&[0x03, 0x01, 0x04, 0x00, 0x01, 0x00, 0x10, 0x00]);
    d[0x32A..0x332].copy_from_slice(&[0x02, 0x04, 0xFF, 0xFF, 0xFF, 0x00, 0x05, 0x00]);
    d
}

#[test]
fn test_relocation_table_parse() {
    let ne = VecNE::from_memory(reloc_image());
    assert!(reloc_blocks_addressable(&ne));
    let t = RelocationTable::parse(&ne).unwrap();
    assert_eq!(t.entries.len(), 2);
    let e0 = &t.entries[0];
    assert_eq!(e0.address_type, AddressType::Pointer32);
    assert_eq!(e0.relocation_type, RelocationType::Ordinal);
    assert!(!e0.is_additive);
    assert_eq!(e0.segment_number, 1);
    assert_eq!((e0.offset, e0.target1, e0.target2), (4, 1, 0x10));
    let e1 = &t.entries[1];
    assert_eq!(e1.address_type, AddressType::Selector);
    assert_eq!(e1.relocation_type, RelocationType::Internal);
    assert!(e1.is_additive);
    assert!(e1.is_self_module_ref());
    assert_eq!((e1.offset, e1.target1, e1.target2), (0xFFFF, 0x00FF, 5));
    // Every relocation names a segment of the table that has RELOC_DATA.
    let segs = ne.get_segment_table().unwrap();
    for e in &t.entries {
        let seg = segs[e.segment_number as usize - 1];
        assert!(seg.flags & 0x0100 != 0);
    }
    // Re-encoding gives back the record bytes (type byte: bits 0-2).
    let raw = ne.as_slice();
    assert_eq!(reloc_raw_bytes(e0), raw[0x322..0x32A]);
    assert_eq!(reloc_raw_bytes(e1), raw[0x32A..0x332]);
}

#[test]
fn test_relocation_chain_law() {
    let ne = VecNE::from_memory(reloc_image());
    let t = RelocationTable::parse(&ne).unwrap();
    assert!(segment_data_addressable(&ne, 1));
    let data = ne.get_segment_data(1).unwrap();
    let links = t.entries[0].resolve_chain(data).unwrap();
    assert_eq!(links, vec![4, 0x0A]);
    // The chain starts at the offset, each link's word is the next link,
    // and the last link's word is the terminator.
    assert_eq!(links[0], t.entries[0].offset);
    let word = |o: u16| u16::from_le_bytes([data[o as usize], data[o as usize + 1]]);
    assert_eq!(word(links[0]), links[1]);
    assert_eq!(word(links[1]), 0xFFFF);
    // A chain that starts at the terminator is empty.
    assert!(t.entries[1].resolve_chain(data).unwrap().is_empty());
}

#[test]
fn test_relocation_targets() {
    let ne = VecNE::from_memory(reloc_image());
    let t = RelocationTable::parse(&ne).unwrap();
    let mods = ModuleRefTable::parse(&ne).unwrap();
    assert_eq!(module_name(&ne, &mods, Some(1)), "USER");
    assert_eq!(module_name(&ne, &mods, Some(2)), "?");
    assert_eq!(module_name(&ne, &mods, None), "?");
    assert_eq!(target_str(&t.entries[0], &ne, &mods), "USER.16");
    assert_eq!(target_str(&t.entries[1], &ne, &mods), "self.5");

    let cache = build_module_cache(&ne).unwrap();
    assert_eq!(cache.len(), 1);
    assert_eq!(cache.get(&0).map(String::as_str), Some("USER"));
    assert_eq!(wine_reloc_target(&t.entries[0], &ne, &cache, "SELF"), "USER.16");
    assert_eq!(wine_reloc_target(&t.entries[1], &ne, &cache, "SELF"), "SELF.5");
    assert_eq!(reloc_target_detail(&t.entries[0], &ne, &cache), "mod=USER ord=0x0010");
    assert_eq!(reloc_target_detail(&t.entries[1], &ne, &cache), "self ord=0x0005 [movable]");

    // An imported-name relocation resolves its procedure name.
    let mut name_entry = t.entries[0];
    name_entry.relocation_type = RelocationType::Name;
    name_entry.target2 = 6;
    assert_eq!(target_str(&name_entry, &ne, &mods), "USER.WINEXE");
    assert_eq!(wine_reloc_target(&name_entry, &ne, &cache, "SELF"), "USER.WINEXE");
    assert_eq!(reloc_target_detail(&name_entry, &ne, &cache), "mod=USER proc=WINEXE");
    // An OS fixup prints its raw type.
    let mut fixup = t.entries[1];
    fixup.relocation_type = RelocationType::OSGlobal;
    assert_eq!(
        wine_reloc_target(&fixup, &ne, &cache, "SELF"),
        "TYPE 7, OFFSET ffff, TARGET 00ff 0005"
    );
    assert_eq!(target_str(&fixup, &ne, &mods), "TYPE 7, OFFSET FFFF, TARGET 00FF 0005");
}

#[test]
fn test_module_name_is_reference_name() {
    let ne = VecNE::from_memory(reloc_image());
    let mods = ModuleRefTable::parse(&ne).unwrap();
    assert_eq!(mods.count, 1);
    let by_index = mods.get_name(&ne, 0).unwrap();
    let by_ref = mods.resolve_import_ordinal_name(&ne, 1).unwrap();
    assert_eq!(by_index.as_bytes(), by_ref.as_bytes());
    assert_eq!(by_index.as_str().unwrap(), "USER");
    assert!(mods.get_name(&ne, 1).is_err());
    assert!(mods.resolve_import_ordinal_name(&ne, 0).is_err());
}

#[test]
fn test_logical_offset_locates_segment_byte() {
    let ne = VecNE::from_memory(reloc_image());
    let data = ne.get_segment_data(1).unwrap().to_vec();
    for k in 0..data.len() as u16 {
        let p = ne.logical_to_offset(1, k).unwrap();
        assert_eq!(ne.as_slice()[p], data[k as usize]);
    }
    assert!(ne.logical_to_offset(1, data.len() as u16 + 1).is_err());
}

#[test]
fn test_written_header_reads_back() {
    let mut ne = VecNE::from_memory(reloc_image());
    let mut h = ne.get_ne_header_ref().unwrap();
    h.linker_version = 5;
    h.checksum = 0xDEADBEEF;
    h.expected_version = 0x030A;
    ne.write_ne_header(&h).unwrap();
    assert_eq!(ne.get_ne_header_ref().unwrap(), h);
    assert_eq!(ne.len(), 2048);
    assert_eq!(ne.ne_header_file_offset().unwrap(), 0x40);
    let v = ne.get_valid_ne_header().unwrap();
    assert!(v.is_v5());
    assert_eq!(v.checksum, 0xDEADBEEF);
    // The bytes round-trip through the header's encoding.
    assert_eq!(ImageOS2Header::from_bytes(&h.to_bytes()), h);
    // A buffer whose header does not validate is left as it was.
    let mut bad = VecNE::from_memory(vec![0u8; 128]);
    assert!(bad.write_ne_header(&h).is_err());
    assert!(bad.as_slice().iter().all(|&b| b == 0));
}

#[test]
fn test_v4_header_has_no_v5_fields() {
    let mut d = reloc_image();
    // Bytes that a v5 header would read as swap_area / expected_version.
    put16(&mut d, 0x7C, 0x1111);
    put16(&mut d, 0x7E, 0x2222);
    let ne = VecNE::from_memory(d.clone());
    let h = ne.get_valid_ne_header().unwrap();
    assert!(!h.is_v5());
    assert_eq!((h.swap_area, h.expected_version), (0, 0));
    assert!(h.v5_fields().is_none());
    // Borrowed bytes read the same header.
    let p = PtrNE::from_memory(&d);
    assert_eq!(p.get_valid_ne_header().unwrap(), h);
    assert_eq!(p.get_ne_header().unwrap(), h);
}

#[test]
fn test_buffers_agree_on_headers() {
    let mut d = reloc_image();
    d[0x42] = 5;
    put16(&mut d, 0x7C, 0x1111);
    put16(&mut d, 0x7E, 0x0300);
    let v = VecNE::from_memory(d.clone());
    let p = PtrNE::from_memory(&d);
    assert_eq!(v.get_valid_ne_header().unwrap(), p.get_valid_ne_header().unwrap());
    let (real, protected) = v.supported_processor_modes();
    assert!(protected && !real);
}

#[test]
fn test_some_processor_mode() {
    for (linker, expected, other) in [(4u8, 0u16, 0u8), (5, 0x0300, 0), (5, 0x0300, 2), (5, 0x0200, 0)] {
        let mut d = reloc_image();
        d[0x42] = linker;
        put16(&mut d, 0x7E, expected);
        d[0x40 + 0x37] = other;
        let ne = VecNE::from_memory(d);
        let (real, protected) = ne.supported_processor_modes();
        assert!(real || protected);
    }
    let ne = VecNE::from_memory(vec![0u8; 8]);
    assert_eq!(ne.supported_processor_modes(), (false, false));
}

#[test]
fn test_entry_table_ordinals_fit() {
    // 257 records of 255 unused ordinals: 65535 slots, the most there are.
    let mut d = vec![0u8; 2048];
    d[0] = b'M';
    d[1] = b'Z';
    put16(&mut d, 0x3C, 0x40);
    put16(&mut d, 0x40, 0x454E);
    put16(&mut d, 0x44, 0x80);
    put16(&mut d, 0x46, 514);
    for i in 0..257 {
        d[0xC0 + 2 * i] = 255;
    }
    let ne = VecNE::from_memory(d);
    let t = EntryTable::parse(&ne).unwrap();
    assert_eq!(t.entries.len(), 65535);
    assert_eq!(t.export_count(), 0);
    assert!(t.get_export(65535).is_none());
}

#[test]
fn test_entry_table_exports() {
    // [2][0xFF] two movable, [1][0xFE] one constant, [1][0x03] one fixed,
    // [1][0x00] one unused ordinal, then the terminator.
    let mut d = vec![0u8; 512];
    d[0] = b'M';
    d[1] = b'Z';
    put16(&mut d, 0x3C, 0x40);
    put16(&mut d, 0x40, 0x454E);
    put16(&mut d, 0x44, 0x80);
    put16(&mut d, 0x46, 32);
    let t = 0xC0;
    d[t..t + 2].copy_from_slice(&[2, 0xFF]);
    d[t + 2..t + 8].copy_from_slice(&[0x01, 0xCD, 0x3F, 2, 0x10, 0x00]);
    d[t + 8..t + 14].copy_from_slice(&[0x03, 0xCD, 0x3F, 3, 0x20, 0x00]);
    d[t + 14..t + 16].copy_from_slice(&[1, 0xFE]);
    d[t + 16..t + 19].copy_from_slice(&[0x00, 0x34, 0x12]);
    d[t + 19..t + 21].copy_from_slice(&[1, 0x03]);
    d[t + 21..t + 24].copy_from_slice(&[0x01, 0x78, 0x56]);
    d[t + 24..t + 26].copy_from_slice(&[1, 0x00]);
    d[t + 26] = 0;
    let ne = VecNE::from_memory(d);
    let table = EntryTable::parse(&ne).unwrap();
    assert_eq!(table.entries.len(), 5);
    assert_eq!(table.export_count(), 4);
    let e1 = table.get_export(1).unwrap();
    assert_eq!((e1.flags, e1.seg_num(), e1.offset()), (1, Some(2), Some(0x10)));
    let e2 = table.get_export(2).unwrap();
    assert_eq!((e2.seg_num(), e2.offset()), (Some(3), Some(0x20)));
    let e3 = table.get_export(3).unwrap();
    assert_eq!(e3.constant_value(), Some(0x1234));
    let e4 = table.get_export(4).unwrap();
    assert_eq!((e4.seg_num(), e4.offset()), (Some(3), Some(0x5678)));
    assert!(table.get_export(5).is_none());
    assert!(table.get_export(0).is_none());
    assert!(table.get_export(6).is_none());
}

#[test]
fn test_entry_table_record_header_past_end() {
    // A record whose header starts one byte before the end of the declared
    // table does not fit in it: no export is read from past the end.
    let mut d = vec![0u8; 256];
    d[0] = b'M';
    d[1] = b'Z';
    put16(&mut d, 0x3C, 0x40);
    put16(&mut d, 0x40, 0x454E);
    put16(&mut d, 0x44, 0x80); // entry table at 0xC0
    put16(&mut d, 0x46, 1); // declared size 1
    d[0xC0..0xC5].copy_from_slice(&[1, 0x01, 0, 0x34, 0x12]);
    let ne = VecNE::from_memory(d.clone());
    assert_eq!(EntryTable::parse(&ne).unwrap_err(), new_executable::Error::EntryTableCorrupt);
    // A terminator record at the last byte still ends the table.
    d[0xC0] = 0;
    let ne = VecNE::from_memory(d);
    assert!(EntryTable::parse(&ne).unwrap().entries.is_empty());
}

#[test]
fn test_resource_records_aligned() {
    let mut d = vec![0u8; 512];
    d[0] = b'M';
    d[1] = b'Z';
    put16(&mut d, 0x3C, 0x40);
    put16(&mut d, 0x40, 0x454E);
    put16(&mut d, 0x64, 0x80); // resource table → 0xC0
    put16(&mut d, 0x74, 1);
    let t = 0xC0;
    put16(&mut d, t, 4);
    d[t + 2..t + 10].copy_from_slice(&[0x0E, 0x80, 0x02, 0x00, 0, 0, 0, 0]);
    d[t + 10..t + 22].copy_from_slice(&[0x03, 0x00, 0xFF, 0xFF, 0x30, 0x00, 0x01, 0x80, 0, 0, 0, 0]);
    d[t + 22..t + 34].copy_from_slice(&[0xFF, 0xFF, 0x01, 0x00, 0x00, 0x00, 0x02, 0x80, 0, 0, 0, 0]);
    let ne = VecNE::from_memory(d);
    let table = ResourceTable::parse(&ne).unwrap();
    assert_eq!(table.alignment_shift, 4);
    assert_eq!(table.type_info.len(), 1);
    let rs = &table.type_info[0].records;
    assert_eq!(rs.len(), 2);
    assert_eq!((rs[0].offset, rs[0].length), (0x30, 0xFFFF0));
    assert_eq!((rs[1].offset, rs[1].length), (0xFFFF0, 0x10));
    for r in rs {
        assert_eq!(r.offset % 16, 0);
        assert_eq!(r.length % 16, 0);
    }
}

#[test]
fn test_resource_table_stops_at_resident_names() {
    // The resident names table follows the type block: the walk stops there.
    let mut d = vec![0u8; 512];
    d[0] = b'M';
    d[1] = b'Z';
    put16(&mut d, 0x3C, 0x40);
    put16(&mut d, 0x40, 0x454E);
    put16(&mut d, 0x64, 0x80); // resources → 0xC0
    put16(&mut d, 0x66, 0x80 + 2 + 8 + 12); // resident names → right after one type block
    put16(&mut d, 0x74, 1);
    let t = 0xC0;
    put16(&mut d, t, 0);
    d[t + 2..t + 10].copy_from_slice(&[0x01, 0x80, 0x01, 0x00, 0, 0, 0, 0]);
    d[t + 10..t + 22].copy_from_slice(&[0x08, 0x00, 0x02, 0x00, 0x00, 0x00, 0x01, 0x80, 0, 0, 0, 0]);
    d[t + 22] = 0x07; // would be read as a type id if the walk went on
    let ne = VecNE::from_memory(d);
    let table = ResourceTable::parse(&ne).unwrap();
    assert_eq!(table.type_info.len(), 1);
    assert_eq!(table.type_info[0].records[0].offset, 8);
}

#[test]
fn test_wine_export_name() {
    let names = |v: &[(&'static [u8], u16)]| -> Vec<ResidentName<'static>> {
        v.iter().map(|&(n, o)| ResidentName { name: PascalString { data: n }, ordinal: o }).collect()
    };
    let resident = ResidentNameTable { entries: names(&[(b"MODULE", 0), (b"Entry1", 1), (b"Again", 1)]) };
    let non_res = NonResidentNameTable { entries: names(&[(b"Desc", 0), (b"Hidden", 2), (b"Entry1b", 1)]) };
    assert_eq!(wine_export_name(&resident, &non_res, 1), "Entry1");
    assert_eq!(wine_export_name(&resident, &non_res, 2), "Hidden");
    // The module name (first resident entry) is not an export name.
    assert_eq!(wine_export_name(&resident, &non_res, 0), "Desc");
    assert_eq!(wine_export_name(&resident, &non_res, 9), "");
    let lone = ResidentNameTable { entries: names(&[(b"MODULE", 4)]) };
    let empty = NonResidentNameTable { entries: Vec::new() };
    assert_eq!(wine_export_name(&lone, &empty, 4), "");
}

#[test]
fn test_align_laws() {
    for b in [1usize, 2, 4, 16, 512] {
        for v in [0usize, 1, 15, 16, 17, 100, 511, 513, 4096] {
            let r = align(v, b);
            assert_eq!(r % b, 0);
            assert!(v <= r && r < v + b);
            assert_eq!(align(r, b), r);
        }
    }
}

#[test]
fn test_ne_flags_truncate_idempotent() {
    for bits in [0u16, 0xFFFF, 0x8301, 0x5400, 0x000C, 0xA803] {
        let once = NeFlags::from_bits_truncate(bits).bits();
        assert_eq!(NeFlags::from_bits_truncate(once).bits(), once);
        assert_eq!(once, bits & 0xA803);
    }
}

#[test]
fn test_address_type_byte_roundtrip() {
    for v in 0..=255u8 {
        assert_eq!(AddressType::from(v).as_u8(), v);
    }
}

fn small_v4_image() -> Vec<u8> {
    let mut d = vec![0u8; 1024];
    d[0] = b'M';
    d[1] = b'Z';
    put16(&mut d, 0x3C, 0x40);
    put16(&mut d, 0x40, 0x454E);
    d[0x42] = 4;
    d
}

#[test]
fn test_ptr_header_requires_signature() {
    let mut d = small_v4_image();
    d[0x40] = 0;
    d[0x41] = 0;
    let ne = PtrNE::from_memory(&d);
    assert_eq!(
        ne.get_ne_header().unwrap_err(),
        new_executable::Error::InvalidNESignature(0)
    );
    assert_eq!(
        ne.get_valid_ne_header().unwrap_err(),
        new_executable::Error::InvalidNESignature(0)
    );
}

#[test]
fn test_ptr_v4_header_has_no_v5_fields() {
    let mut d = small_v4_image();
    d[0x7C..0x80].copy_from_slice(&[0x34, 0x12, 0x78, 0x56]);
    let ptr = PtrNE::from_memory(&d);
    for h in [ptr.get_valid_ne_header().unwrap(), ptr.get_ne_header().unwrap()] {
        let (swap, ver) = (h.swap_area, h.expected_version);
        assert_eq!((swap, ver), (0, 0));
    }
    let vec = VecNE::from_memory(d.clone());
    assert_eq!(vec.get_valid_ne_header().unwrap(), ptr.get_valid_ne_header().unwrap());
}

#[test]
fn test_segment_zero_not_found() {
    let ne = VecNE::from_memory(reloc_image());
    assert!(segment_data_addressable(&ne, 0));
    assert_eq!(
        ne.get_segment_data(0).unwrap_err(),
        new_executable::Error::SegmentNotFound(0)
    );
    assert_eq!(
        ne.logical_to_offset(0, 0).unwrap_err(),
        new_executable::Error::SegmentNotFound(0)
    );
}

#[test]
fn test_dos_stub_bounds() {
    let mut d = small_v4_image();
    put16(&mut d, 0x3C, 0x1000);
    let ne = VecNE::from_memory(d.clone());
    assert!(ne.get_dos_stub().is_none());
    put16(&mut d, 0x3C, 0x80);
    let ne = VecNE::from_memory(d.clone());
    assert_eq!(ne.get_dos_stub().unwrap(), &d[0x40..0x80]);
    put16(&mut d, 0x3C, 0x40);
    let ne = VecNE::from_memory(d);
    assert!(ne.get_dos_stub().is_none());
}

#[test]
fn test_resource_table_shape() {
    // A resource table but no declared resource: empty, shift 0.
    let mut d = small_v4_image();
    put16(&mut d, 0x64, 0x80); // resource table → 0xC0
    put16(&mut d, 0xC0, 4);
    let ne = VecNE::from_memory(d.clone());
    let t = ResourceTable::parse(&ne).unwrap();
    assert_eq!(t.alignment_shift, 0);
    assert!(t.type_info.is_empty());
    // One declared resource; ordinal identifiers lose their high bit.
    put16(&mut d, 0x74, 1);
    d[0xC2..0xCA].copy_from_slice(&[0x03, 0x80, 0x01, 0x00, 0, 0, 0, 0]);
    d[0xCA..0xD6].copy_from_slice(&[0x02, 0x00, 0x01, 0x00, 0x00, 0x00, 0xFF, 0xFF, 0, 0, 0, 0]);
    let ne = VecNE::from_memory(d);
    let t = ResourceTable::parse(&ne).unwrap();
    assert_eq!(t.alignment_shift, 4);
    assert_eq!(t.type_info[0].type_id, new_executable::ResourceTypeId::Ordinal(3));
    let r = &t.type_info[0].records[0];
    assert_eq!(r.id, new_executable::ResourceId::Ordinal(0x7FFF));
    assert_eq!((r.offset % 16, r.length % 16), (0, 0));
}

#[test]
fn test_relocation_table_is_blocks() {
    let d = reloc_image();
    let ne = VecNE::from_memory(d.clone());
    let t = RelocationTable::parse(&ne).unwrap();
    // One segment with RELOC_DATA; its block at 0x320 holds 2 records.
    let base = 0x320;
    let count = u16::from_le_bytes([d[base], d[base + 1]]) as usize;
    assert_eq!(t.entries.len(), count);
    for (k, e) in t.entries.iter().enumerate() {
        let r = &d[base + 2 + 8 * k..base + 10 + 8 * k];
        assert_eq!(e.address_type, AddressType::from(r[0]));
        assert_eq!(e.is_additive, r[1] & 4 != 0);
        assert_eq!(e.segment_number, 1);
        assert_eq!(e.offset, u16::from_le_bytes([r[2], r[3]]));
        assert_eq!(e.target1, u16::from_le_bytes([r[4], r[5]]));
        assert_eq!(e.target2, u16::from_le_bytes([r[6], r[7]]));
    }
}

#[test]
fn test_name_tables_are_records() {
    let mut d = reloc_image();
    put16(&mut d, 0x40 + 0x26, 0x1C0); // resident names → 0x200
    d[0x200..0x208].copy_from_slice(&[5, b'H', b'E', b'L', b'L', b'O', 0, 0]);
    d[0x208..0x20F].copy_from_slice(&[4, b'M', b'a', b'i', b'n', 7, 0]);
    // Non-resident names at absolute 0x280, 9 bytes declared.
    d[0x40 + 0x20] = 9;
    d[0x40 + 0x2C..0x40 + 0x30].copy_from_slice(&0x280u32.to_le_bytes());
    d[0x280..0x286].copy_from_slice(&[3, b'A', b'B', b'C', 2, 0]);
    d[0x286..0x28C].copy_from_slice(&[3, b'X', b'Y', b'Z', 3, 0]);
    let ne = VecNE::from_memory(d);
    let res = ResidentNameTable::parse(&ne).unwrap();
    let got: Vec<(&[u8], u16)> = res.entries.iter().map(|e| (e.name.data, e.ordinal)).collect();
    assert_eq!(got, vec![(&b"HELLO"[..], 0), (&b"Main"[..], 7)]);
    // The bound 0x289 cuts the second record off.
    let non = NonResidentNameTable::parse(&ne).unwrap();
    let got: Vec<(&[u8], u16)> = non.entries.iter().map(|e| (e.name.data, e.ordinal)).collect();
    assert_eq!(got, vec![(&b"ABC"[..], 2), (&b"XYZ"[..], 3)]);
    // Lookup by name ignores ASCII case.
    for n in ["main", "MAIN", "Main"] {
        assert_eq!(res.by_name(n).map(|e| e.ordinal), Some(7));
    }
}

#[test]
fn test_imported_names_keep_empty_strings() {
    let ne = VecNE::from_memory(reloc_image());
    let t = new_executable::ImportedNamesTable::parse(&ne).unwrap();
    let names: Vec<&[u8]> = t.module_names.iter().map(|p| p.data).collect();
    assert_eq!(names[0], b"");
    assert_eq!(names[1], b"USER");
    assert_eq!(names[2], b"WINEXE");
}

#[test]
fn test_module_refs_read_all_words() {
    let ne = VecNE::from_memory(reloc_image());
    let m = ModuleRefTable::parse(&ne).unwrap();
    assert_eq!((m.count, m.offsets.len()), (1, 1));
    // 0x8000 module references do not fit in the buffer.
    let mut d = reloc_image();
    put16(&mut d, 0x40 + 0x1E, 0x8000);
    let ne = VecNE::from_memory(d);
    assert!(ModuleRefTable::parse(&ne).is_err());
}

fn chain_entry(offset: u16) -> new_executable::RelocationEntry {
    new_executable::RelocationEntry {
        address_type: AddressType::Offset16,
        relocation_type: RelocationType::Internal,
        is_additive: false,
        segment_number: 1,
        offset,
        target1: 1,
        target2: 0,
    }
}

#[test]
fn test_chain_failures() {
    // 0 -> 4 -> 9: the word at 9 does not fit in 10 bytes.
    let mut data = [0u8; 10];
    data[0..2].copy_from_slice(&4u16.to_le_bytes());
    data[4..6].copy_from_slice(&9u16.to_le_bytes());
    assert_eq!(
        chain_entry(0).resolve_chain(&data).unwrap_err(),
        new_executable::Error::TableOutOfBounds("relocation_chain", 9, 10)
    );
    // A link that points at itself loops: the walk runs too long.
    let mut data = [0u8; 4];
    data[2..4].copy_from_slice(&2u16.to_le_bytes());
    assert_eq!(
        chain_entry(2).resolve_chain(&data).unwrap_err(),
        new_executable::Error::RelocationChainCorrupt
    );
}

#[test]
fn test_export_count_counts_found_ordinals() {
    let d = {
        let mut d = vec![0u8; 512];
        d[0] = b'M';
        d[1] = b'Z';
        put16(&mut d, 0x3C, 0x40);
        put16(&mut d, 0x40, 0x454E);
        put16(&mut d, 0x44, 0x80); // entry table at 0xC0
        put16(&mut d, 0x46, 12);
        // 2 unused ordinals, then 2 fixed entries in segment 1.
        d[0xC0..0xCC].copy_from_slice(&[2, 0, 2, 1, 0, 0x10, 0, 0, 0x20, 0, 0, 0]);
        d
    };
    let ne = VecNE::from_memory(d);
    let t = EntryTable::parse(&ne).unwrap();
    let found = (1..=t.entries.len()).filter(|&o| t.get_export(o as u16).is_some()).count();
    assert_eq!(t.export_count(), found);
    assert_eq!(found, 2);
    assert!(t.export_count() <= t.entries.len());
}
