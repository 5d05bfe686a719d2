//! Tests of the report blocks on synthetic images; the expected texts are
//! built with the format strings of the inspection tool's output.

use new_executable::describe::{wine_reloc_name, wine_seg_flags};
use new_executable::dump::{dump_entry, dump_segment_line, dump_title};
use new_executable::imports::detailed_imports;
use new_executable::report::{
    detailed_exports, detailed_header, detailed_relocations, detailed_resources,
    detailed_segments, detailed_tables, json_document, section_title, winedump_report,
    winedump_resources,
};
use new_executable::{Buffer, ModuleRefTable, RelocationTable, VecNE, NE};

fn put16(d: &mut [u8], at: usize, v: u16) {
    d[at..at + 2].copy_from_slice(&v.to_le_bytes());
}

/// A v4 image with one segment carrying two relocations (an import by
/// ordinal from module 1 and an additive internal reference to the module
/// itself), a module reference table naming `USER`, and imported names.
fn reloc_image() -> Vec<u8> {
    let mut d = vec![0u8; 2048];
    d[0] = b'M';
    d[1] = b'Z';
    put16(&mut d, 0x3C, 0x40);
    let off = 0x40;
    put16(&mut d, off, 0x454E);
    d[off + 2] = 4;
    put16(&mut d, off + 0x1C, 1); // seg_count
    put16(&mut d, off + 0x1E, 1); // mod_count
    put16(&mut d, off + 0x22, 0x7C); // segment table → 0xBC
    put16(&mut d, off + 0x28, 0x90); // module references → 0xD0
    put16(&mut d, off + 0x2A, 0xA0); // imported names → 0xE0
    d[off + 0x36] = 2;
    put16(&mut d, 0xBC, 0x300);
    put16(&mut d, 0xBE, 0x20);
    put16(&mut d, 0xC0, 0x0110);
    put16(&mut d, 0xD0, 1);
    d[0xE0] = 0;
    d[0xE1..0xE6].copy_from_slice(&[4, b'U', b'S', b'E', b'R']);
    d[0xE6..0xED].copy_from_slice(&[6, b'W', b'I', b'N', b'E', b'X', b'E']);
    put16(&mut d, 0x304, 0x000A);
    put16(&mut d, 0x30A, 0xFFFF);
    put16(&mut d, 0x320, 2);
    d[0x322..0x32A].copy_from_slice(&[0x03, 0x01, 0x04, 0x00, 0x01, 0x00, 0x10, 0x00]);
    d[0x32A..0x332].copy_from_slice(&[0x02, 0x04, 0xFF, 0xFF, 0xFF, 0x00, 0x05, 0x00]);
    d
}

/// The relocation image with a second module reference, `KERNEL`.
fn two_module_image() -> Vec<u8> {
    let mut d = reloc_image();
    put16(&mut d, 0x40 + 0x1E, 2);
    put16(&mut d, 0xD2, 0x0D);
    d[0xED..0xF4].copy_from_slice(&[6, b'K', b'E', b'R', b'N', b'E', b'L']);
    d
}

/// A v4 image whose resource table (size shift 4) holds one type block of
/// `RT_GROUP_ICON` with two records.
fn resource_image() -> Vec<u8> {
    let mut d = vec![0u8; 512];
    d[0] = b'M';
    d[1] = b'Z';
    put16(&mut d, 0x3C, 0x40);
    put16(&mut d, 0x40, 0x454E);
    put16(&mut d, 0x64, 0x80);
    put16(&mut d, 0x74, 1);
    let t = 0xC0;
    put16(&mut d, t, 4);
    d[t + 2..t + 10].copy_from_slice(&[0x0E, 0x80, 0x02, 0x00, 0, 0, 0, 0]);
    d[t + 10..t + 22].copy_from_slice(&[0x03, 0x00, 0xFF, 0xFF, 0x30, 0x00, 0x01, 0x80, 0, 0, 0, 0]);
    d[t + 22..t + 34].copy_from_slice(&[0xFF, 0xFF, 0x01, 0x00, 0x00, 0x00, 0x02, 0x80, 0, 0, 0, 0]);
    d
}

#[test]
fn test_detailed_relocations_rows() {
    let ne = VecNE::from_memory(reloc_image());
    let text = detailed_relocations(&ne).unwrap().unwrap();
    let mut want = format!("  {} relocation(s):\n\n", 2);
    want += &format!(
        "  [{:>4}]  0x{:04X}  {:>10}  {:>13}  {}{}\n",
        1, 4, "POINTER32", "IMPORTORDINAL", "mod=USER ord=0x0010", ""
    );
    want += &format!(
        "  [{:>4}]  0x{:04X}  {:>10}  {:>13}  {}{}\n",
        2, 0xFFFF, "SELECTOR", "INTERNALREF", "self ord=0x0005 [movable]", " [+ADDITIVE]"
    );
    assert_eq!(text, want);
}

#[test]
fn test_detailed_relocations_none_and_refused() {
    // A segment without RELOC_DATA carries no relocation.
    let mut d = reloc_image();
    put16(&mut d, 0xC0, 0x0010);
    let ne = VecNE::from_memory(d);
    assert_eq!(detailed_relocations(&ne).unwrap().unwrap(), "  No relocations.\n");
    // An import with module reference 0 gives no block.
    let mut d = reloc_image();
    put16(&mut d, 0x326, 0);
    let ne = VecNE::from_memory(d);
    assert!(detailed_relocations(&ne).is_none());
    // A file that is not NE gives the header's error.
    let ne = VecNE::from_memory(vec![0u8; 128]);
    assert!(matches!(detailed_relocations(&ne), Some(Err(_))));
}

#[test]
fn test_detailed_tables() {
    let ne = VecNE::from_memory(two_module_image());
    let want = String::from("  Resident Names: (empty)\n")
        + &format!("  {:>6}  Module Name\n", "Index")
        + "  ------  ------\n"
        + &format!("  {:>6}  {}\n", 1, "USER")
        + &format!("  {:>6}  {}\n", 2, "KERNEL");
    assert_eq!(detailed_tables(&ne), want);
    // Without a module reference table.
    let mut d = reloc_image();
    put16(&mut d, 0x40 + 0x28, 0);
    let ne = VecNE::from_memory(d);
    assert_eq!(
        detailed_tables(&ne),
        "  Resident Names: (empty)\n  Module Refs: (not present)\n"
    );
}

#[test]
fn test_detailed_tables_resident_names() {
    let mut d = reloc_image();
    put16(&mut d, 0x40 + 0x26, 0x1C0); // resident names → 0x200
    d[0x200..0x208].copy_from_slice(&[5, b'H', b'E', b'L', b'L', b'O', 0, 0]);
    d[0x208..0x20C].copy_from_slice(&[1, 0xFF, 3, 0]);
    let ne = VecNE::from_memory(d);
    let want = format!("  {:>6}  Name\n", "Ordinal")
        + "  ------  ------\n"
        + &format!("  0x{:04X}  {}\n", 0, "HELLO")
        + &format!("  0x{:04X}  {}\n", 3, "?")
        + &format!("  {:>6}  Module Name\n", "Index")
        + "  ------  ------\n"
        + &format!("  {:>6}  {}\n", 1, "USER");
    assert_eq!(detailed_tables(&ne), want);
}

#[test]
fn test_detailed_imports_sorted() {
    let ne = VecNE::from_memory(two_module_image());
    let text = detailed_imports(&ne).unwrap();
    let want = format!("  {:<20}  {:>10}  {:>6}\n", "Module", "ModRefIdx", "Procs")
        + "  --------------------  ----------  --------\n"
        + &format!("  {:<20}  {:>10}  {:>6}\n", "KERNEL", 2, 0)
        + &format!("  {:<20}  {:>10}  {:>6}\n", "USER", 1, 1);
    assert_eq!(text, want);
}

#[test]
fn test_detailed_imports_notes() {
    let mut d = reloc_image();
    put16(&mut d, 0x40 + 0x28, 0);
    let ne = VecNE::from_memory(d);
    assert_eq!(detailed_imports(&ne).unwrap(), "  No module reference table.\n");
    let mut d = reloc_image();
    put16(&mut d, 0x40 + 0x1E, 0);
    let ne = VecNE::from_memory(d);
    assert_eq!(detailed_imports(&ne).unwrap(), "  No imports.\n");
    // An import with module reference 0 gives no block.
    let mut d = reloc_image();
    put16(&mut d, 0x326, 0);
    let ne = VecNE::from_memory(d);
    assert!(detailed_imports(&ne).is_none());
}

#[test]
fn test_detailed_imports_case_folded_order() {
    // "alfa" and "KERNEL": lowercased, "alfa" comes first, though "KERNEL"
    // comes first by its code points.
    let mut d = two_module_image();
    d[0xE2..0xE6].copy_from_slice(b"alfa");
    let ne = VecNE::from_memory(d);
    let text = detailed_imports(&ne).unwrap();
    let rows: Vec<&str> = text.lines().skip(2).collect();
    assert_eq!(rows.len(), 2);
    // The relocation names module 1, "alfa" now.
    assert_eq!(rows[0], format!("  {:<20}  {:>10}  {:>6}", "alfa", 1, 1));
    assert_eq!(rows[1], format!("  {:<20}  {:>10}  {:>6}", "KERNEL", 2, 0));
}

#[test]
fn test_detailed_resources() {
    let ne = VecNE::from_memory(resource_image());
    let text = detailed_resources(&ne).unwrap();
    let want = format!(
        "  {} resource type(s), {} entry(s), alignment shift = {}\n\n",
        1, 2, 4
    ) + "  Type: RT_GROUP_ICON\n"
        + &format!("  {:>4}  {:>10}  {:>8}  Flags\n", "ID", "Offset", "Length")
        + "  ----  ----------  --------  -----------\n"
        + &format!("  {}  0x{:06X}  0x{:04X}  {}\n", "0x0001", 0x30, 0xFFFF0, "MOVEABLE, PURE")
        + &format!("  {}  0x{:06X}  0x{:04X}  {}\n", "0x0002", 0xFFFF0, 0x10, "NONE")
        + "\n";
    assert_eq!(text, want);
    // No resource table.
    let ne = VecNE::from_memory(reloc_image());
    assert_eq!(detailed_resources(&ne).unwrap(), "  No resource table.\n");
}

#[test]
fn test_winedump_resources() {
    let ne = VecNE::from_memory(resource_image());
    let want = String::from("\nResources:\n")
        + &format!("  {} name {} flags {:04x} length {:04x}\n", "000e", "0001", 0x30, 0xFFFF0)
        + &format!("  {} name {} flags {:04x} length {:04x}\n", "000e", "0002", 0, 0x10);
    assert_eq!(winedump_resources(&ne), want);
}

#[test]
fn test_section_title() {
    let want = format!("NE Inspector — {} ({})\n{}\n", "A.EXE", "HEADER", "─".repeat(60));
    assert_eq!(section_title("A.EXE", "HEADER"), want);
}

#[test]
fn test_detailed_segments() {
    let ne = VecNE::from_memory(reloc_image());
    let segs = ne.get_segment_table().unwrap();
    let want = format!(
        "  {:>3}  {:28}  {:10}  {:10}  {:10}\n",
        "#", "Flags", "Size", "Offset", "MinAlloc"
    ) + "  ---  ----------------------------  ----------  ----------  ----------\n"
        + &format!(
            "  {:>3}  {:28}  {:10}  {:10}  {:10}\n",
            1, "MOVEABLE, RELOC_DATA", "0x0020", "0x0300", "0x0000"
        );
    assert_eq!(detailed_segments(&segs), want);
    assert_eq!(detailed_segments(&[]), "  No segments.\n");
}

#[test]
fn test_detailed_header_lines() {
    let ne = VecNE::from_memory(reloc_image());
    let h = ne.get_valid_ne_header().unwrap();
    let text = detailed_header(&h);
    let lines: Vec<&str> = text.lines().collect();
    assert_eq!(lines[0], format!("  Signature:      0x{:04X} (\"NE\")", 0x454E));
    assert!(text.contains(&format!("  Segments:       {}\n", 1)));
    assert!(text.contains(&format!("  Module Refs:    {}\n", 1)));
    assert!(text.contains(&format!("  Alignment:      {} (shift={})\n", 1, 0)));
}

#[test]
fn test_detailed_exports_without_table() {
    let ne = VecNE::from_memory(reloc_image());
    // The header gives no entry table.
    assert_eq!(detailed_exports(&ne), "  No entry table.\n");
}

#[test]
fn test_dump_entry_lines() {
    let ne = VecNE::from_memory(reloc_image());
    let segs = ne.get_segment_table().unwrap();
    let mods = ModuleRefTable::parse(&ne).unwrap();
    let t = RelocationTable::parse(&ne).unwrap();
    let want0 = format!(
        "  Entry {:2}: {}{} = {}  chain=[{}]\n",
        1, "ptr32", "", "USER.16", "0x0004 0x000A"
    ) + &format!(
        "                 raw: {}  (seg {} @ 0x{:04X})\n",
        "03 01 04 00 01 00 10 00", 1, 0x300
    );
    assert_eq!(dump_entry(0, &t.entries[0], &ne, &segs, &mods).unwrap(), want0);
    let want1 = format!("  Entry {:2}: {}{} = {}  chain=[{}]\n", 2, "sel", " add", "self.5", "")
        + &format!(
            "                 raw: {}  (seg {} @ 0x{:04X})\n",
            "02 04 FF FF FF 00 05 00", 1, 0x300
        );
    assert_eq!(dump_entry(1, &t.entries[1], &ne, &segs, &mods).unwrap(), want1);
    // Segment number 0 names no segment: no data, offset 0, no chain.
    let mut e = t.entries[0];
    e.segment_number = 0;
    let lines = dump_entry(0, &e, &ne, &segs, &mods).unwrap();
    assert!(lines.contains("chain=[]"));
    assert!(lines.ends_with("(seg 0 @ 0x0000)\n"));
}

#[test]
fn test_dump_title_and_segment_line() {
    let ne = VecNE::from_memory(reloc_image());
    let h = ne.get_valid_ne_header().unwrap();
    assert_eq!(
        dump_title("x.exe", &h),
        format!(
            "\n=== {} ===\nNE v{}, seg_count={}, align=2^{:2} ({})\n",
            "x.exe", "NE v4 (OS/2)", 1, 0, 1
        )
    );
    let segs = ne.get_segment_table().unwrap();
    assert_eq!(
        dump_segment_line(&ne, 1, &segs[0]).unwrap(),
        format!("  Segment {}: file 0x{:04X}, len 0x{:04X}, flags 0x{:04X}\n", 1, 0x300, 0x20, 0x110)
    );
}

#[test]
fn test_json_document() {
    let ne = VecNE::from_memory(reloc_image());
    let h = ne.get_valid_ne_header().unwrap();
    let text = json_document("x.exe", &ne, &h);
    assert!(text.starts_with("{\n  \"file\": \"x.exe\",\n  \"header\": {\n"));
    let summary = format!(
        "\n  \"summary\": {{\n    \"segment_count\": {},\n    \"module_count\": {},\n    \"export_count\": {},\n    \"resource_type_count\": {},\n    \"is_dll\": {}\n  }},",
        1, 1, 0, 0, false
    );
    assert!(text.contains(&summary));
    let segment = format!(
        "    {{\"number\": {}, \"offset\": \"0x{:04X}\", \"length\": \"0x{:04X}\", \"flags\": {}, \"flags_str\": \"{}\", \"minalloc\": \"0x{:04X}\"}}",
        1, 0x300, 0x20, 0x110, "MOVEABLE, RELOC_DATA", 0
    );
    assert!(text.ends_with(&format!("\n  \"segments\": [\n{}\n  ]\n}}\n", segment)));
}

#[test]
fn test_winedump_report_segments() {
    let ne = VecNE::from_memory(reloc_image());
    let h = ne.get_valid_ne_header().unwrap();
    let text = winedump_report(&ne, &h).unwrap();
    assert!(text.starts_with("File header:\n"));
    let t = RelocationTable::parse(&ne).unwrap();
    let mut block = format!("\nSegment {}:\n", 1);
    block += &format!("  File offset: {:08x}\n", 0x300);
    block += &format!("  Length:      {:08x}\n", 0x20);
    block += &format!("  Flags:       {:08x} {}\n", 0x110, wine_seg_flags(0x110));
    block += &format!("  Alloc size:  {:08x}\n", 0);
    block += "  Relocations:\n";
    block += &format!("{:6}: {} = {}\n", 1, wine_reloc_name(&t.entries[0]), "USER.16");
    // No resident name: the module itself has an empty name.
    block += &format!("{:6}: {} = {}\n", 2, wine_reloc_name(&t.entries[1]), ".5");
    assert!(text.ends_with(&block), "{text}");
    // An import with module reference 0 gives no report.
    let mut d = reloc_image();
    put16(&mut d, 0x326, 0);
    let ne = VecNE::from_memory(d);
    assert!(winedump_report(&ne, &h).is_none());
}

#[test]
fn test_detailed_report_sections() {
    let ne = VecNE::from_memory(reloc_image());
    let h = ne.get_valid_ne_header().unwrap();
    let (out, err) = new_executable::documents::detailed_report("x.exe", &ne, &h).unwrap();
    assert!(err.is_empty());
    let titles: Vec<&str> = out.lines().filter(|l| l.starts_with("NE Inspector — ")).collect();
    let want: Vec<String> = ["HEADER", "SEGMENTS", "EXPORTS", "IMPORTS", "RESOURCES", "RELOCATIONS", "TABLES"]
        .iter()
        .map(|s| format!("NE Inspector — x.exe ({s})"))
        .collect();
    assert_eq!(titles, want);
    assert!(out.contains(&format!("\n\n{}", section_title("x.exe", "TABLES"))));
    assert!(out.ends_with(&detailed_tables(&ne)));
}

#[test]
fn test_dump_image() {
    let ne = VecNE::from_memory(reloc_image());
    let h = ne.get_valid_ne_header().unwrap();
    let (out, err) = new_executable::documents::dump_image("x.exe", &ne, &h).unwrap();
    assert!(err.is_empty());
    let segs = ne.get_segment_table().unwrap();
    let mods = ModuleRefTable::parse(&ne).unwrap();
    let t = RelocationTable::parse(&ne).unwrap();
    let want = dump_title("x.exe", &h)
        + &dump_segment_line(&ne, 1, &segs[0]).unwrap()
        + &format!("Relocation entries: {}\n", 2)
        + &dump_entry(0, &t.entries[0], &ne, &segs, &mods).unwrap()
        + &dump_entry(1, &t.entries[1], &ne, &segs, &mods).unwrap();
    assert_eq!(out, want);
    // No segment.
    let mut d = reloc_image();
    put16(&mut d, 0x40 + 0x1C, 0);
    let ne = VecNE::from_memory(d);
    let h = ne.get_valid_ne_header().unwrap();
    let (out, _) = new_executable::documents::dump_image("x.exe", &ne, &h).unwrap();
    assert!(out.ends_with("  (no segments)\n"));
}
