//! The report texts of the inspection tools, line by line: the blocks of
//! the winedump-style report, of the detailed report and of the JSON
//! report, each line ended by a newline.

use vstd::prelude::*;
use vstd::string::{StrSliceExecFns, StringExecFns};

use crate::headers::ImageOS2Header;
use crate::text::{dec_chars, hex_chars, pad_left, pad_right, push_dec, push_dec_aligned, push_hex};
use crate::types::names::names_view;
use crate::codec::addressable;
use std::collections::HashMap;

use crate::describe::{
    resource_flag_names, resource_kind_name, spec_resource_flag_names, spec_resource_kind_name,
    fmt_flags, join, json_escape, set_flag_names, spec_json_escape, resource_type_name, spec_mod_ref_index, spec_resource_type_name, spec_wine_export_name,
    spec_wine_reloc_name, spec_wine_reloc_target, spec_wine_seg_flags, wine_export_name,
    wine_reloc_name, wine_reloc_target, wine_seg_flags,
};
use crate::headers::{ExeType, SegmentAlignment, SegmentRecord};
use crate::text::{push_left_aligned, push_right_aligned};
use crate::types::RelocationEntry;
use crate::ne::{spec_read_u8, spec_table_offset, Buffer, HeaderTable, NE};
use crate::types::entry::{entry_table_ordinals_fit, spec_entry_table};
use crate::types::{EntryTable, EntryType, ExportEntry};
use crate::types::resource::{
    records_view, spec_resource_table, types_view, IdView, RecordView, TypeInfoView,
};
use crate::types::{
    NonResidentNameTable, PascalString, ResidentName, ResidentNameTable, ResourceId,
    ResourceRecord, ResourceTable, ResourceTypeId, TypeInfo,
};
use crate::describe::{
    address_type_name, module_cache_or_empty, reloc_target_detail, relocation_type_name,
    spec_address_type_name, spec_module_cache, spec_reloc_target_detail,
    spec_relocation_type_name,
};
use crate::types::reloc::{reloc_blocks_addressable, relocs_defined, spec_relocation_table};
use crate::describe::{name_text, text_or};
use crate::error::error_message;
use crate::types::names::{spec_module_name, spec_module_refs, spec_resident_names};
use crate::types::ModuleRefTable;
use crate::types::RelocationTable;
use crate::Error;

verus! {

/// `v` in lowercase hexadecimal without padding (`{:x}`).
pub open spec fn hx(v: nat) -> Seq<char> {
    hex_chars(v, 1, false)
}

/// `v` in decimal (`{}`).
pub open spec fn dec(v: nat) -> Seq<char> {
    dec_chars(v)
}

/// The "File header" block of the winedump-style report: each field of
/// the header on a line of its own; the fast-load area as the return-thunk
/// offset and its end shifted by the alignment; the expected Windows
/// version for a v5 header.
pub open spec fn spec_winedump_header(h: ImageOS2Header) -> Seq<char> {
    let pret = h.ret_thunk_offset as u32;
    let segref = h.seg_ref_bytes_offset as u32;
    let shift = h.alignment as u32;
    "File header:\n"@ + "Linker version:      "@ + dec(h.linker_version as nat) + "."@ + dec(
        h.linker_minor_version as nat,
    ) + "\n"@ + "Entry table:         "@ + hx(h.entry_table_offset as nat) + " len "@ + dec(
        h.entry_table_size as nat,
    ) + "\n"@ + "Checksum:            "@ + hex_chars(h.checksum as nat, 8, false) + "\n"@
        + "Flags:               "@ + hex_chars(h.flags as nat, 4, false) + "\n"@
        + "Auto data segment:   "@ + hx(h.auto_data_sel as nat) + "\n"@ + "Heap size:           "@
        + dec(h.heap_init as nat) + " bytes\n"@ + "Stack size:          "@ + dec(
        h.stack_init as nat,
    ) + " bytes\n"@ + "Stack pointer:       "@ + hx(h.sssp as nat / 65536) + ":"@ + hex_chars(
        h.sssp as nat % 65536,
        4,
        false,
    ) + "\n"@ + "Entry point:         "@ + hx(h.csip as nat / 65536) + ":"@ + hex_chars(
        h.csip as nat % 65536,
        4,
        false,
    ) + "\n"@ + "Number of segments:  "@ + dec(h.seg_count as nat) + "\n"@
        + "Number of modrefs:   "@ + dec(h.mod_count as nat) + "\n"@ + "Segment table:       "@
        + hx(h.seg_table_offset as nat) + "\n"@ + "Resource table:      "@ + hx(
        h.resource_table_offset as nat,
    ) + "\n"@ + "Resident name table: "@ + hx(h.res_name_table_offset as nat) + "\n"@
        + "Module table:        "@ + hx(h.mod_table_offset as nat) + "\n"@
        + "Import table:        "@ + hx(h.imported_names_table_offset as nat) + "\n"@
        + "Non-resident table:  "@ + hx(h.non_res_name_table_offset as nat) + "\n"@
        + "Exe type:            "@ + hx(h.exe_type as nat) + "\n"@ + "Other flags:         "@ + hx(
        h.other_flags as nat,
    ) + "\n"@ + "Fast load area:      "@ + hx((pret << shift) as nat) + "-"@ + hx(
        (((pret + segref) as u32) << shift) as nat,
    ) + "\n"@ + if h.spec_is_v5() {
        "Expected version:    "@ + dec(h.expected_version as nat / 256) + "."@ + dec(
            h.expected_version as nat % 256,
        ) + "\n"@
    } else {
        Seq::empty()
    }
}

/// The "File header" block of the winedump-style report. The alignment
/// shift must be below 32 (the fast-load area is a 32-bit shift).
#[verifier::rlimit(40)]
pub fn winedump_header(h: &ImageOS2Header) -> (r: String)
    requires
        h.alignment < 32,
    ensures
        r@ == spec_winedump_header(*h),
{
    let pret = h.ret_thunk_offset as u32;
    let segref = h.seg_ref_bytes_offset as u32;
    let shift = h.alignment as u32;
    let mut s = String::from_str("File header:\n");
    s.append("Linker version:      ");
    push_dec(&mut s, h.linker_version as u64);
    s.append(".");
    push_dec(&mut s, h.linker_minor_version as u64);
    s.append("\n");
    s.append("Entry table:         ");
    push_hex(&mut s, h.entry_table_offset as u64, 1, false);
    s.append(" len ");
    push_dec(&mut s, h.entry_table_size as u64);
    s.append("\n");
    s.append("Checksum:            ");
    push_hex(&mut s, h.checksum as u64, 8, false);
    s.append("\n");
    s.append("Flags:               ");
    push_hex(&mut s, h.flags as u64, 4, false);
    s.append("\n");
    s.append("Auto data segment:   ");
    push_hex(&mut s, h.auto_data_sel as u64, 1, false);
    s.append("\n");
    s.append("Heap size:           ");
    push_dec(&mut s, h.heap_init as u64);
    s.append(" bytes\n");
    s.append("Stack size:          ");
    push_dec(&mut s, h.stack_init as u64);
    s.append(" bytes\n");
    s.append("Stack pointer:       ");
    push_hex(&mut s, (h.sssp / 65536) as u64, 1, false);
    s.append(":");
    push_hex(&mut s, (h.sssp % 65536) as u64, 4, false);
    s.append("\n");
    s.append("Entry point:         ");
    push_hex(&mut s, (h.csip / 65536) as u64, 1, false);
    s.append(":");
    push_hex(&mut s, (h.csip % 65536) as u64, 4, false);
    s.append("\n");
    s.append("Number of segments:  ");
    push_dec(&mut s, h.seg_count as u64);
    s.append("\n");
    s.append("Number of modrefs:   ");
    push_dec(&mut s, h.mod_count as u64);
    s.append("\n");
    s.append("Segment table:       ");
    push_hex(&mut s, h.seg_table_offset as u64, 1, false);
    s.append("\n");
    s.append("Resource table:      ");
    push_hex(&mut s, h.resource_table_offset as u64, 1, false);
    s.append("\n");
    s.append("Resident name table: ");
    push_hex(&mut s, h.res_name_table_offset as u64, 1, false);
    s.append("\n");
    s.append("Module table:        ");
    push_hex(&mut s, h.mod_table_offset as u64, 1, false);
    s.append("\n");
    s.append("Import table:        ");
    push_hex(&mut s, h.imported_names_table_offset as u64, 1, false);
    s.append("\n");
    s.append("Non-resident table:  ");
    push_hex(&mut s, h.non_res_name_table_offset as u64, 1, false);
    s.append("\n");
    s.append("Exe type:            ");
    push_hex(&mut s, h.exe_type as u64, 1, false);
    s.append("\n");
    s.append("Other flags:         ");
    push_hex(&mut s, h.other_flags as u64, 1, false);
    s.append("\n");
    s.append("Fast load area:      ");
    push_hex(&mut s, (pret << shift) as u64, 1, false);
    s.append("-");
    push_hex(&mut s, ((pret + segref) << shift) as u64, 1, false);
    s.append("\n");
    if h.is_v5() {
        s.append("Expected version:    ");
        push_dec(&mut s, (h.expected_version / 256) as u64);
        s.append(".");
        push_dec(&mut s, (h.expected_version % 256) as u64);
        s.append("\n");
    } else {
        assert(s@ =~= s@ + Seq::<char>::empty());
    }
    s
}

/// A name-table entry's line (` ordinal: name`), when its name is text.
pub open spec fn name_line(e: (Seq<u8>, u16)) -> Seq<char> {
    if vstd::utf8::valid_utf8(e.0) {
        " "@ + pad_left(dec(e.1 as nat), 4) + ": "@ + vstd::utf8::decode_utf8(e.0) + "\n"@
    } else {
        Seq::empty()
    }
}

/// The lines of a name table's entries whose names are text.
pub open spec fn name_lines(names: Seq<(Seq<u8>, u16)>) -> Seq<char>
    decreases names.len(),
{
    if names.len() == 0 {
        Seq::empty()
    } else {
        name_lines(names.drop_last()) + name_line(names.last())
    }
}

/// Appends the lines of `entries` whose names are text.
fn push_name_lines(out: &mut String, entries: &Vec<ResidentName>)
    ensures
        final(out)@ == old(out)@ + name_lines(names_view(entries@)),
{
    let ghost all = names_view(entries@);
    let mut i: usize = 0;
    proof {
        assert(all.subrange(0, 0) =~= Seq::<(Seq<u8>, u16)>::empty());
        assert(out@ =~= old(out)@ + name_lines(all.subrange(0, 0)));
    }
    while i < entries.len()
        invariant
            all == names_view(entries@),
            i <= entries@.len(),
            out@ == old(out)@ + name_lines(all.subrange(0, i as int)),
        decreases entries@.len() - i,
    {
        let e = &entries[i];
        let ghost before = out@;
        proof {
            assert(all.subrange(0, i + 1).drop_last() =~= all.subrange(0, i as int));
            assert(all.subrange(0, i + 1).last() == (e.name@, e.ordinal));
        }
        match e.name.as_str() {
            Ok(text) => {
                out.append(" ");
                push_dec_aligned(out, e.ordinal as u64, 4);
                out.append(": ");
                out.append(text);
                out.append("\n");
                proof {
                    vstd::utf8::encode_utf8_decode_utf8(text@);
                    assert(out@ =~= before + name_line((e.name@, e.ordinal)));
                }
            },
            Err(_) => {
                assert(out@ =~= before + name_line((e.name@, e.ordinal)));
            },
        }
        i = i + 1;
    }
    assert(all.subrange(0, i as int) =~= all);
}

/// The name blocks of the winedump-style report: the resident names, then
/// (when the header declares a non-resident table) the non-resident names;
/// names that are not text are left out.
pub open spec fn spec_winedump_names(
    h: ImageOS2Header,
    resident: Seq<(Seq<u8>, u16)>,
    non_resident: Seq<(Seq<u8>, u16)>,
) -> Seq<char> {
    "\nResident name table:\n"@ + name_lines(resident) + if h.non_res_name_size != 0 {
        "\nNon-resident name table:\n"@ + name_lines(non_resident)
    } else {
        Seq::empty()
    }
}

/// The name blocks of the winedump-style report.
pub fn winedump_names(
    h: &ImageOS2Header,
    resident: &ResidentNameTable,
    non_res: &NonResidentNameTable,
) -> (r: String)
    ensures
        r@ == spec_winedump_names(*h, names_view(resident.entries@), names_view(non_res.entries@)),
{
    let mut s = String::from_str("\nResident name table:\n");
    push_name_lines(&mut s, &resident.entries);
    if h.non_res_name_size != 0 {
        s.append("\nNon-resident name table:\n");
        push_name_lines(&mut s, &non_res.entries);
    } else {
        assert(s@ =~= s@ + Seq::<char>::empty());
    }
    s
}

/// Name bytes as text, or nothing when they are not UTF-8.
pub open spec fn text_or_empty(n: Seq<u8>) -> Seq<char> {
    if vstd::utf8::valid_utf8(n) {
        vstd::utf8::decode_utf8(n)
    } else {
        Seq::empty()
    }
}

/// Appends the text of a Pascal string, or nothing when it is not UTF-8.
fn push_text_or_empty(out: &mut String, p: &PascalString)
    ensures
        final(out)@ == old(out)@ + text_or_empty(p@),
{
    match p.as_str() {
        Ok(t) => {
            out.append(t);
            proof {
                vstd::utf8::encode_utf8_decode_utf8(t@);
            }
        },
        Err(_) => {
            assert(old(out)@ =~= old(out)@ + Seq::<char>::empty());
        },
    }
}

/// A resource type as the winedump-style report names it.
pub open spec fn winedump_type_text(id: IdView) -> Seq<char> {
    match id {
        IdView::Ordinal(n) => spec_resource_type_name(n),
        IdView::Name(s) => text_or_empty(s),
    }
}

/// A resource id as the winedump-style report names it.
pub open spec fn winedump_id_text(id: IdView) -> Seq<char> {
    match id {
        IdView::Ordinal(n) => hex_chars(n as nat, 4, false),
        IdView::Name(s) => text_or_empty(s),
    }
}

/// The lines of the records of a type named `type_text`.
pub open spec fn resource_record_lines(type_text: Seq<char>, rs: Seq<RecordView>) -> Seq<char>
    decreases rs.len(),
{
    if rs.len() == 0 {
        Seq::empty()
    } else {
        let r = rs.last();
        resource_record_lines(type_text, rs.drop_last()) + "  "@ + type_text + " name "@
            + winedump_id_text(r.id) + " flags "@ + hex_chars(r.flags as nat, 4, false)
            + " length "@ + hex_chars(r.length as nat, 4, false) + "\n"@
    }
}

/// The lines of the records of all types.
pub open spec fn resource_lines(types: Seq<TypeInfoView>) -> Seq<char>
    decreases types.len(),
{
    if types.len() == 0 {
        Seq::empty()
    } else {
        resource_lines(types.drop_last()) + resource_record_lines(
            winedump_type_text(types.last().type_id),
            types.last().records,
        )
    }
}

/// The "Resources" block of the winedump-style report: a line per
/// record; nothing below the title when the table does not parse.
pub open spec fn spec_winedump_resources(rt: Result<(u16, Seq<TypeInfoView>), Error>) -> Seq<
    char,
> {
    "\nResources:\n"@ + match rt {
        Ok((_, types)) => resource_lines(types),
        Err(_) => Seq::empty(),
    }
}

/// Appends the lines of the records of `info`.
fn push_resource_records(out: &mut String, info: &TypeInfo)
    ensures
        final(out)@ == old(out)@ + resource_record_lines(
            winedump_type_text(info.type_id@),
            records_view(info.records@),
        ),
{
    let mut type_text = match &info.type_id {
        ResourceTypeId::Ordinal(n) => resource_type_name(*n),
        ResourceTypeId::Name(name) => {
            let mut t = String::new();
            push_text_or_empty(&mut t, name);
            t
        },
    };
    assert(type_text@ =~= winedump_type_text(info.type_id@));
    let ghost rs = records_view(info.records@);
    let mut i: usize = 0;
    proof {
        assert(rs.subrange(0, 0) =~= Seq::<RecordView>::empty());
        assert(out@ =~= old(out)@ + resource_record_lines(type_text@, rs.subrange(0, 0)));
    }
    while i < info.records.len()
        invariant
            rs == records_view(info.records@),
            i <= rs.len(),
            out@ == old(out)@ + resource_record_lines(type_text@, rs.subrange(0, i as int)),
        decreases rs.len() - i,
    {
        let r = &info.records[i];
        let ghost before = out@;
        proof {
            assert(rs.subrange(0, i + 1).drop_last() =~= rs.subrange(0, i as int));
            assert(rs.subrange(0, i + 1).last() == r@);
        }
        out.append("  ");
        out.append(type_text.as_str());
        out.append(" name ");
        match &r.id {
            ResourceId::Ordinal(n) => push_hex(out, *n as u64, 4, false),
            ResourceId::Name(name) => push_text_or_empty(out, name),
        }
        out.append(" flags ");
        push_hex(out, r.flags as u64, 4, false);
        out.append(" length ");
        push_hex(out, r.length as u64, 4, false);
        out.append("\n");
        i = i + 1;
    }
    assert(rs.subrange(0, i as int) =~= rs);
}

/// The "Resources" block of the winedump-style report.
pub fn winedump_resources<P: NE>(ne: &P) -> (r: String)
    requires
        addressable(ne.bytes()),
    ensures
        r@ == spec_winedump_resources(spec_resource_table(ne.bytes(), ne.spec_valid_ne_header())),
{
    let mut s = String::from_str("\nResources:\n");
    match ResourceTable::parse(ne) {
        Ok(rt) => {
            let ghost types = types_view(rt.type_info@);
            let mut i: usize = 0;
            proof {
                assert(types.subrange(0, 0) =~= Seq::<TypeInfoView>::empty());
                assert(s@ =~= "\nResources:\n"@ + resource_lines(types.subrange(0, 0)));
            }
            while i < rt.type_info.len()
                invariant
                    types == types_view(rt.type_info@),
                    i <= types.len(),
                    s@ == "\nResources:\n"@ + resource_lines(types.subrange(0, i as int)),
                decreases types.len() - i,
            {
                proof {
                    assert(types.subrange(0, i + 1).drop_last() =~= types.subrange(0, i as int));
                    assert(types.subrange(0, i + 1).last() == rt.type_info@[i as int]@);
                }
                push_resource_records(&mut s, &rt.type_info[i]);
                i = i + 1;
            }
            assert(types.subrange(0, i as int) =~= types);
            s
        },
        Err(_) => {
            assert(s@ =~= "\nResources:\n"@ + Seq::<char>::empty());
            s
        },
    }
}

/// An export's line in the winedump-style report.
pub open spec fn export_line(ordinal: nat, e: ExportEntry, name: Seq<char>) -> Seq<char> {
    match e.entry_type {
        EntryType::Movable { seg_num, offset } => " "@ + pad_left(dec(ordinal), 4) + " MOVABLE "@
            + dec(seg_num as nat) + ":"@ + hex_chars(offset as nat, 4, false) + " "@ + name
            + "\n"@,
        EntryType::Constant { value } => " "@ + pad_left(dec(ordinal), 4) + " CONST     "@
            + hex_chars(value as nat, 4, false) + " "@ + name + "\n"@,
        EntryType::Fixed { seg_num, offset } => " "@ + pad_left(dec(ordinal), 4) + " FIXED   "@
            + dec(seg_num as nat) + ":"@ + hex_chars(offset as nat, 4, false) + " "@ + name
            + "\n"@,
    }
}

/// The lines of the exports among the ordinal slots `es` (ordinal `i + 1`
/// for slot `i`), named from the resident and non-resident names.
pub open spec fn export_lines(
    es: Seq<Option<ExportEntry>>,
    resident: Seq<(Seq<u8>, u16)>,
    non_resident: Seq<(Seq<u8>, u16)>,
) -> Seq<char>
    decreases es.len(),
{
    if es.len() == 0 {
        Seq::empty()
    } else {
        export_lines(es.drop_last(), resident, non_resident) + match es.last() {
            None => Seq::empty(),
            Some(e) => export_line(
                es.len(),
                e,
                spec_wine_export_name(resident, non_resident, es.len() as u16),
            ),
        }
    }
}

/// The exports block of the winedump-style report: present when the
/// header declares an entry table whose first byte is not 0, with a line
/// per export when the table parses.
pub open spec fn spec_winedump_exports(
    b: Seq<u8>,
    hr: Result<ImageOS2Header, Error>,
    h: ImageOS2Header,
    resident: Seq<(Seq<u8>, u16)>,
    non_resident: Seq<(Seq<u8>, u16)>,
) -> Seq<char> {
    if h.entry_table_size == 0 {
        Seq::empty()
    } else {
        match spec_read_u8(b, spec_table_offset(b, hr, HeaderTable::Entry) as int) {
            Err(_) => Seq::empty(),
            Ok(first) => if first == 0 {
                Seq::empty()
            } else {
                match spec_entry_table(b, hr) {
                    Ok(es) => "\nExported entry points:\n"@ + export_lines(
                        es,
                        resident,
                        non_resident,
                    ),
                    Err(_) => "\nExported entry points:\n"@,
                }
            },
        }
    }
}

/// Appends an export's line.
fn push_export_line(out: &mut String, ordinal: u16, e: &ExportEntry, name: &str)
    ensures
        final(out)@ == old(out)@ + export_line(ordinal as nat, *e, name@),
{
    out.append(" ");
    push_dec_aligned(out, ordinal as u64, 4);
    match e.entry_type {
        EntryType::Movable { seg_num, offset } => {
            out.append(" MOVABLE ");
            push_dec(out, seg_num as u64);
            out.append(":");
            push_hex(out, offset as u64, 4, false);
        },
        EntryType::Constant { value } => {
            out.append(" CONST     ");
            push_hex(out, value as u64, 4, false);
        },
        EntryType::Fixed { seg_num, offset } => {
            out.append(" FIXED   ");
            push_dec(out, seg_num as u64);
            out.append(":");
            push_hex(out, offset as u64, 4, false);
        },
    }
    out.append(" ");
    out.append(name);
    out.append("\n");
}

/// The exports block of the winedump-style report, for the validated
/// header `h`.
pub fn winedump_exports<P: NE>(
    ne: &P,
    h: &ImageOS2Header,
    resident: &ResidentNameTable,
    non_res: &NonResidentNameTable,
) -> (r: String)
    requires
        addressable(ne.bytes()),
    ensures
        r@ == spec_winedump_exports(
            ne.bytes(),
            ne.spec_valid_ne_header(),
            *h,
            names_view(resident.entries@),
            names_view(non_res.entries@),
        ),
{
    let ghost rn = names_view(resident.entries@);
    let ghost nn = names_view(non_res.entries@);
    if h.entry_table_size == 0 {
        return String::new();
    }
    let first = match ne.read_u8(ne.entry_table_offset() as usize) {
        Ok(f) => f,
        Err(_) => return String::new(),
    };
    if first == 0 {
        return String::new();
    }
    let mut s = String::from_str("\nExported entry points:\n");
    let et = match EntryTable::parse(ne) {
        Err(_) => return s,
        Ok(et) => et,
    };
    proof {
        entry_table_ordinals_fit(ne.bytes(), ne.spec_valid_ne_header());
    }
    let ghost es = et.entries@;
    let mut i: usize = 0;
    proof {
        assert(es.subrange(0, 0) =~= Seq::<Option<ExportEntry>>::empty());
        assert(s@ =~= "\nExported entry points:\n"@ + export_lines(es.subrange(0, 0), rn, nn));
    }
    while i < et.entries.len()
        invariant
            es == et.entries@,
            es.len() <= 0xFFFF,
            rn == names_view(resident.entries@),
            nn == names_view(non_res.entries@),
            i <= es.len(),
            s@ == "\nExported entry points:\n"@ + export_lines(es.subrange(0, i as int), rn, nn),
        decreases es.len() - i,
    {
        let ghost before = s@;
        proof {
            assert(es.subrange(0, i + 1).drop_last() =~= es.subrange(0, i as int));
            assert(es.subrange(0, i + 1).last() == es[i as int]);
        }
        match &et.entries[i] {
            None => {
                assert(s@ =~= before + Seq::<char>::empty());
            },
            Some(e) => {
                let ordinal = (i + 1) as u16;
                let name = wine_export_name(resident, non_res, ordinal);
                push_export_line(&mut s, ordinal, e, name.as_str());
            },
        }
        i = i + 1;
    }
    assert(es.subrange(0, i as int) =~= es);
    s
}

/// The number of relocations of segment `seg` in `rs`.
pub open spec fn count_for_segment(rs: Seq<RelocationEntry>, seg: u16) -> nat
    decreases rs.len(),
{
    if rs.len() == 0 {
        0
    } else {
        count_for_segment(rs.drop_last(), seg) + if rs.last().segment_number == seg {
            1nat
        } else {
            0nat
        }
    }
}

/// The relocation lines of segment `seg`, numbered from 1, as Wine prints
/// them.
pub open spec fn segment_reloc_lines(
    rs: Seq<RelocationEntry>,
    seg: u16,
    b: Seq<u8>,
    hr: Result<ImageOS2Header, Error>,
    cache: Map<usize, Seq<char>>,
    self_name: Seq<char>,
) -> Seq<char>
    decreases rs.len(),
{
    if rs.len() == 0 {
        Seq::empty()
    } else {
        let e = rs.last();
        segment_reloc_lines(rs.drop_last(), seg, b, hr, cache, self_name) + if e.segment_number
            == seg {
            pad_left(dec(count_for_segment(rs.drop_last(), seg) + 1), 6) + ": "@
                + spec_wine_reloc_name(e) + " = "@ + spec_wine_reloc_target(
                e,
                b,
                hr,
                cache,
                self_name,
            ) + "\n"@
        } else {
            Seq::empty()
        }
    }
}

/// No relocation of segment `seg` is an import with module reference 0.
pub open spec fn segment_relocs_printable(rs: Seq<RelocationEntry>, seg: u16) -> bool {
    forall|j: int|
        0 <= j < rs.len() && (#[trigger] rs[j]).segment_number == seg ==> spec_mod_ref_index(rs[j])
            != Some(0u16)
}

/// The lines of segment number `n` before its relocations.
pub open spec fn segment_head(n: nat, seg: SegmentRecord, shift: u32) -> Seq<char> {
    "\nSegment "@ + dec(n) + ":\n"@ + "  File offset: "@ + hex_chars(
        ((seg.offset as u32) << shift) as nat,
        8,
        false,
    ) + "\n"@ + "  Length:      "@ + hex_chars(seg.length as nat, 8, false) + "\n"@
        + "  Flags:       "@ + hex_chars(seg.flags as nat, 8, false) + " "@ + spec_wine_seg_flags(
        seg.flags,
    ) + "\n"@ + "  Alloc size:  "@ + hex_chars(seg.minalloc as nat, 8, false) + "\n"@
}

/// The block of segment number `n`: its fields, then its relocations when
/// it carries any.
pub open spec fn segment_block(
    n: nat,
    seg: SegmentRecord,
    shift: u32,
    rs: Seq<RelocationEntry>,
    b: Seq<u8>,
    hr: Result<ImageOS2Header, Error>,
    cache: Map<usize, Seq<char>>,
    self_name: Seq<char>,
) -> Seq<char> {
    segment_head(n, seg, shift) + if seg.flags & 0x0100 != 0 {
        "  Relocations:\n"@ + segment_reloc_lines(rs, n as u16, b, hr, cache, self_name)
    } else {
        Seq::empty()
    }
}

/// The blocks of the segments `t`, numbered from 1.
pub open spec fn segment_blocks(
    t: Seq<SegmentRecord>,
    shift: u32,
    rs: Seq<RelocationEntry>,
    b: Seq<u8>,
    hr: Result<ImageOS2Header, Error>,
    cache: Map<usize, Seq<char>>,
    self_name: Seq<char>,
) -> Seq<char>
    decreases t.len(),
{
    if t.len() == 0 {
        Seq::empty()
    } else {
        segment_blocks(t.drop_last(), shift, rs, b, hr, cache, self_name) + segment_block(
            t.len(),
            t.last(),
            shift,
            rs,
            b,
            hr,
            cache,
            self_name,
        )
    }
}

/// Every relocation printed under a segment of `t` can be described.
pub open spec fn segments_printable(t: Seq<SegmentRecord>, rs: Seq<RelocationEntry>) -> bool {
    forall|i: int|
        0 <= i < t.len() && (#[trigger] t[i]).flags & 0x0100 != 0 ==> segment_relocs_printable(
            rs,
            (i + 1) as u16,
        )
}

/// Appends the lines of segment number `n` before its relocations.
fn push_segment_head(out: &mut String, n: usize, seg: &SegmentRecord, shift: u32)
    requires
        shift < 32,
    ensures
        final(out)@ == old(out)@ + segment_head(n as nat, *seg, shift),
{
    let mut t = String::from_str("\nSegment ");
    push_dec(&mut t, n as u64);
    t.append(":\n");
    t.append("  File offset: ");
    push_hex(&mut t, ((seg.offset as u32) << shift) as u64, 8, false);
    t.append("\n");
    t.append("  Length:      ");
    push_hex(&mut t, seg.length as u64, 8, false);
    t.append("\n");
    t.append("  Flags:       ");
    push_hex(&mut t, seg.flags as u64, 8, false);
    t.append(" ");
    let flags = wine_seg_flags(seg.flags);
    t.append(flags.as_str());
    t.append("\n");
    t.append("  Alloc size:  ");
    push_hex(&mut t, seg.minalloc as u64, 8, false);
    t.append("\n");
    out.append(t.as_str());
}

/// Appends the relocation lines of segment `seg`; `false` (with nothing
/// promised of `out`) when one of them is an import with module
/// reference 0.
/// Line `n` of a segment's relocations.
fn wine_reloc_line<P: NE>(
    n: usize,
    e: &RelocationEntry,
    ne: &P,
    cache: &HashMap<usize, String>,
    self_module_name: &str,
) -> (r: String)
    requires
        addressable(ne.bytes()),
        spec_mod_ref_index(*e) != Some(0u16),
    ensures
        r@ == pad_left(dec(n as nat), 6) + ": "@ + spec_wine_reloc_name(*e) + " = "@
            + spec_wine_reloc_target(
            *e,
            ne.bytes(),
            ne.spec_valid_ne_header(),
            crate::describe::cache_text(cache@),
            self_module_name@,
        ) + "\n"@,
{
    let mut line = String::new();
    push_dec_aligned(&mut line, n as u64, 6);
    line.append(": ");
    let name = wine_reloc_name(e);
    line.append(name.as_str());
    line.append(" = ");
    let target = wine_reloc_target(e, ne, cache, self_module_name);
    line.append(target.as_str());
    line.append("\n");
    assert(line@ =~= pad_left(dec(n as nat), 6) + ": "@ + spec_wine_reloc_name(*e) + " = "@
        + target@ + "\n"@);
    line
}

#[verifier::rlimit(30)]
fn push_segment_relocs<P: NE>(
    out: &mut String,
    seg: u16,
    relocs: &[RelocationEntry],
    ne: &P,
    cache: &HashMap<usize, String>,
    self_module_name: &str,
) -> (r: bool)
    requires
        addressable(ne.bytes()),
    ensures
        r == segment_relocs_printable(relocs@, seg),
        r ==> final(out)@ == old(out)@ + segment_reloc_lines(
            relocs@,
            seg,
            ne.bytes(),
            ne.spec_valid_ne_header(),
            crate::describe::cache_text(cache@),
            self_module_name@,
        ),
{
    let ghost rs = relocs@;
    let ghost b = ne.bytes();
    let ghost hr = ne.spec_valid_ne_header();
    let mut n: usize = 0;
    let mut i: usize = 0;
    proof {
        assert(rs.subrange(0, 0) =~= Seq::<RelocationEntry>::empty());
        assert(out@ =~= old(out)@ + segment_reloc_lines(
            rs.subrange(0, 0),
            seg,
            b,
            hr,
            crate::describe::cache_text(cache@),
            self_module_name@,
        ));
    }
    while i < relocs.len()
        invariant
            rs == relocs@,
            b == ne.bytes(),
            hr == ne.spec_valid_ne_header(),
            addressable(b),
            i <= rs.len(),
            n == count_for_segment(rs.subrange(0, i as int), seg),
            n <= i,
            segment_relocs_printable(rs.subrange(0, i as int), seg),
            out@ == old(out)@ + segment_reloc_lines(
                rs.subrange(0, i as int),
                seg,
                b,
                hr,
                crate::describe::cache_text(cache@),
                self_module_name@,
            ),
        decreases rs.len() - i,
    {
        let e = &relocs[i];
        let ghost before = out@;
        proof {
            assert(rs.subrange(0, i + 1).drop_last() =~= rs.subrange(0, i as int));
            assert(rs.subrange(0, i + 1).last() == rs[i as int]);
        }
        if e.segment_number == seg {
            if e.mod_ref_index() == Some(0u16) {
                assert(!segment_relocs_printable(rs, seg)) by {
                    assert(rs[i as int].segment_number == seg);
                }
                return false;
            }
            let line = wine_reloc_line(n + 1, e, ne, cache, self_module_name);
            out.append(line.as_str());
            n = n + 1;
        } else {
            assert(out@ =~= before + Seq::<char>::empty());
        }
        proof {
            let sub = rs.subrange(0, i + 1);
            assert forall|j: int|
                0 <= j < sub.len() && (#[trigger] sub[j]).segment_number == seg implies spec_mod_ref_index(
                sub[j],
            ) != Some(0u16) by {
                if j < i {
                    assert(sub[j] == rs.subrange(0, i as int)[j]);
                }
            }
        }
        i = i + 1;
    }
    assert(rs.subrange(0, i as int) =~= rs);
    true
}

/// The segment blocks of the winedump-style report, for the header `h`:
/// `None` when a relocation to print is an import with module reference
/// 0. The alignment shift must be below 32 when there is a segment.
pub fn winedump_segments<P: NE>(
    ne: &P,
    h: &ImageOS2Header,
    segments: &[SegmentRecord],
    relocs: &[RelocationEntry],
    cache: &HashMap<usize, String>,
    self_module_name: &str,
) -> (r: Option<String>)
    requires
        addressable(ne.bytes()),
        segments@.len() > 0 ==> h.alignment < 32,
    ensures
        r is Some <==> segments_printable(segments@, relocs@),
        r matches Some(s) ==> s@ == segment_blocks(
            segments@,
            h.alignment as u32,
            relocs@,
            ne.bytes(),
            ne.spec_valid_ne_header(),
            crate::describe::cache_text(cache@),
            self_module_name@,
        ),
{
    let ghost t = segments@;
    let ghost b = ne.bytes();
    let ghost hr = ne.spec_valid_ne_header();
    let shift = h.alignment as u32;
    let mut s = String::new();
    let mut idx: usize = 0;
    proof {
        assert(t.subrange(0, 0) =~= Seq::<SegmentRecord>::empty());
    }
    while idx < segments.len()
        invariant
            t == segments@,
            b == ne.bytes(),
            hr == ne.spec_valid_ne_header(),
            addressable(b),
            shift == h.alignment as u32,
            t.len() > 0 ==> shift < 32,
            idx <= t.len(),
            segments_printable(t.subrange(0, idx as int), relocs@),
            s@ == segment_blocks(
                t.subrange(0, idx as int),
                shift,
                relocs@,
                b,
                hr,
                crate::describe::cache_text(cache@),
                self_module_name@,
            ),
        decreases t.len() - idx,
    {
        let seg = &segments[idx];
        let seg_num = idx + 1;
        let ghost before = s@;
        proof {
            assert(t.subrange(0, idx + 1).drop_last() =~= t.subrange(0, idx as int));
            assert(t.subrange(0, idx + 1).last() == t[idx as int]);
        }
        push_segment_head(&mut s, seg_num, seg, shift);
        if seg.flags & 0x0100 != 0 {
            s.append("  Relocations:\n");
            if !push_segment_relocs(&mut s, seg_num as u16, relocs, ne, cache, self_module_name) {
                assert(!segments_printable(t, relocs@)) by {
                    assert(t[idx as int].flags & 0x0100 != 0);
                }
                return None;
            }
        } else {
            assert(s@ =~= s@ + Seq::<char>::empty());
        }
        proof {
            let sub = t.subrange(0, idx + 1);
            assert forall|i: int|
                0 <= i < sub.len() && (#[trigger] sub[i]).flags & 0x0100 != 0 implies segment_relocs_printable(
                relocs@,
                (i + 1) as u16,
            ) by {
                if i < idx {
                    assert(sub[i] == t.subrange(0, idx as int)[i]);
                }
            }
        }
        idx = idx + 1;
    }
    assert(t.subrange(0, idx as int) =~= t);
    Some(s)
}

/// The segment flags that the detailed and JSON reports name, in order.
pub open spec fn segment_flag_table() -> Seq<(&'static str, u16)> {
    seq![
        ("DATA", 0x0001u16),
        ("MOVEABLE", 0x0010u16),
        ("SHAREABLE", 0x0020u16),
        ("PRELOAD", 0x0040u16),
        ("DISCARDABLE", 0x1000u16),
        ("READONLY", 0x0080u16),
        ("RELOC_DATA", 0x0100u16),
        ("SELFLOAD", 0x0800u16),
    ]
}

/// The names of the set segment flags, joined with `", "`, or `NONE`.
pub open spec fn segment_flag_text(flags: u16) -> Seq<char> {
    let f = join(set_flag_names(flags, segment_flag_table()), ", "@);
    if f.len() == 0 {
        "NONE"@
    } else {
        f
    }
}

/// The names of the set segment flags, joined with `", "`, or `NONE`.
pub fn segment_flag_names(flags: u16) -> (r: String)
    ensures
        r@ == segment_flag_text(flags),
{
    let table: [(&str, u16); 8] = [
        ("DATA", 0x0001u16),
        ("MOVEABLE", 0x0010u16),
        ("SHAREABLE", 0x0020u16),
        ("PRELOAD", 0x0040u16),
        ("DISCARDABLE", 0x1000u16),
        ("READONLY", 0x0080u16),
        ("RELOC_DATA", 0x0100u16),
        ("SELFLOAD", 0x0800u16),
    ];
    assert(table@ =~= segment_flag_table());
    let f = fmt_flags(flags, &table);
    if f.as_str().unicode_len() == 0 {
        String::from_str("NONE")
    } else {
        f
    }
}

/// `0x`-less uppercase hexadecimal, at least `w` digits.
pub open spec fn hex_up(v: nat, w: nat) -> Seq<char> {
    hex_chars(v, w, true)
}

/// `true` or `false`.
pub open spec fn bool_text(b: bool) -> Seq<char> {
    if b {
        "true"@
    } else {
        "false"@
    }
}

/// The display name of an executable type.
pub open spec fn exe_type_text(t: ExeType) -> Seq<char> {
    match t {
        ExeType::Invalid => "Invalid"@,
        ExeType::Os2 => "OS/2 16-bit"@,
        ExeType::Win => "Windows 16-bit"@,
    }
}

/// The header's version text.
pub open spec fn version_text(h: ImageOS2Header) -> Seq<char> {
    if h.spec_is_v5() {
        "NE v5 (Windows 3.1)"@
    } else {
        "NE v4 (OS/2)"@
    }
}

/// Appends `true` or `false`.
fn push_bool(out: &mut String, b: bool)
    ensures
        final(out)@ == old(out)@ + bool_text(b),
{
    if b {
        out.append("true");
    } else {
        out.append("false");
    }
}

/// The file name and the first header fields of the JSON report.
pub open spec fn json_header_start(basename: Seq<char>, h: ImageOS2Header) -> Seq<char> {
    "{\n  \"file\": \""@ + spec_json_escape(basename) + "\",\n  \"header\": {\n    \"signature\": \"0x"@
        + hex_up(h.signature as nat, 4) + "\",\n    \"linker_version\": \""@ + dec(
        h.linker_version as nat,
    ) + "."@ + dec(h.linker_minor_version as nat)
        + "\",\n    \"entry_table\": {\n      \"offset\": \"0x"@ + hex_up(
        h.entry_table_offset as nat,
        4,
    ) + "\",\n      \"size\": \"0x"@ + hex_up(h.entry_table_size as nat, 4)
        + "\"\n    },\n    \"checksum\": \"0x"@ + hex_up(h.checksum as nat, 8)
        + "\",\n    \"flags\": \"0x"@ + hex_up(h.flags as nat, 4) + "\",\n    \"auto_data\": \"0x"@
        + hex_up(h.auto_data_sel as nat, 4) + "\",\n    \"heap_init\": \"0x"@ + hex_up(
        h.heap_init as nat,
        4,
    ) + "\",\n    \"stack_init\": \"0x"@ + hex_up(h.stack_init as nat, 4)
}

/// The middle header fields of the JSON report: entry point, stack,
/// counts.
pub open spec fn json_header_mid(h: ImageOS2Header) -> Seq<char> {
    "\",\n    \"csip\": \"0x"@ + hex_up(h.csip as nat / 65536, 4) + ":0x"@ + hex_up(
        h.csip as nat % 65536,
        4,
    ) + "\",\n    \"sssp\": \"0x"@ + hex_up(h.sssp as nat / 65536, 4) + ":0x"@ + hex_up(
        h.sssp as nat % 65536,
        4,
    ) + "\",\n    \"segment_count\": "@ + dec(h.seg_count as nat) + ",\n    \"module_count\": "@
        + dec(h.mod_count as nat)
}

/// The last header fields of the JSON report, up to `is_v5`.
pub open spec fn json_header_end(h: ImageOS2Header, is_dll: bool) -> Seq<char> {
    ",\n    \"exe_type\": \""@ + exe_type_text(crate::headers::spec_exe_type(h.exe_type))
        + "\",\n    \"version\": \""@ + version_text(h) + "\",\n    \"is_dll\": "@ + bool_text(is_dll)
        + ",\n    \"is_v5\": "@ + bool_text(h.spec_is_v5())
}

/// The `v5_fields` object of the JSON report (for a v5 header).
pub open spec fn json_v5_fields(h: ImageOS2Header) -> Seq<char> {
    ",\n    \"v5_fields\": {\n      \"ret_thunk_offset\": \"0x"@ + hex_up(h.ret_thunk_offset as nat, 4)
        + "\",\n      \"seg_ref_bytes_offset\": \"0x"@ + hex_up(h.seg_ref_bytes_offset as nat, 4)
        + "\",\n      \"swap_area\": \"0x"@ + hex_up(h.swap_area as nat, 4)
        + "\",\n      \"expected_version\": \""@ + dec(h.expected_version as nat / 256) + "."@
        + dec(h.expected_version as nat % 256) + "\",\n      \"fast_load_area\": \"0x"@ + hx(
        (h.ret_thunk_offset << h.alignment) as nat,
    ) + "-0x"@ + hx(
        (((h.ret_thunk_offset as u32 + h.seg_ref_bytes_offset as u32) as u32) << h.alignment) as nat,
    ) + "\"\n    }"@
}

/// The `tables` object of the JSON report.
pub open spec fn json_tables(h: ImageOS2Header) -> Seq<char> {
    "\n  \"tables\": {\n    \"segment\": \"0x"@ + hex_up(h.seg_table_offset as nat, 4)
        + "\",\n    \"resource\": \"0x"@ + hex_up(h.resource_table_offset as nat, 4)
        + "\",\n    \"resident_names\": \"0x"@ + hex_up(h.res_name_table_offset as nat, 4)
        + "\",\n    \"module_refs\": \"0x"@ + hex_up(h.mod_table_offset as nat, 4)
        + "\",\n    \"imported_names\": \"0x"@ + hex_up(h.imported_names_table_offset as nat, 4)
        + "\",\n    \"non_resident_names\": \"0x"@ + hex_up(h.non_res_name_table_offset as nat, 8)
        + "\"\n  },"@
}

/// The `summary` object of the JSON report.
pub open spec fn json_summary(
    segment_count: nat,
    module_count: nat,
    export_count: nat,
    resource_type_count: nat,
    is_dll: bool,
) -> Seq<char> {
    "\n  \"summary\": {\n    \"segment_count\": "@ + dec(segment_count) + ",\n    \"module_count\": "@
        + dec(module_count) + ",\n    \"export_count\": "@ + dec(export_count)
        + ",\n    \"resource_type_count\": "@ + dec(resource_type_count) + ",\n    \"is_dll\": "@
        + bool_text(is_dll) + "\n  },"@
}

/// A segment's object in the JSON report (number `n`, from 1).
pub open spec fn json_segment(n: nat, seg: SegmentRecord) -> Seq<char> {
    "    {\"number\": "@ + dec(n) + ", \"offset\": \"0x"@ + hex_up(seg.offset as nat, 4)
        + "\", \"length\": \"0x"@ + hex_up(seg.length as nat, 4) + "\", \"flags\": "@ + dec(
        seg.flags as nat,
    ) + ", \"flags_str\": \""@ + segment_flag_text(seg.flags) + "\", \"minalloc\": \"0x"@
        + hex_up(seg.minalloc as nat, 4) + "\"}"@
}

/// The segment objects of the JSON report, separated by `",\n"`.
pub open spec fn json_segments(t: Seq<SegmentRecord>) -> Seq<char>
    decreases t.len(),
{
    if t.len() == 0 {
        Seq::empty()
    } else if t.len() == 1 {
        json_segment(1, t[0])
    } else {
        json_segments(t.drop_last()) + ",\n"@ + json_segment(t.len(), t.last())
    }
}

/// The JSON report of a file named `basename` with header `h`, followed by
/// a newline.
pub open spec fn spec_json_report(
    basename: Seq<char>,
    h: ImageOS2Header,
    is_dll: bool,
    segments: Seq<SegmentRecord>,
    module_count: nat,
    export_count: nat,
    resource_type_count: nat,
) -> Seq<char> {
    json_header_start(basename, h) + json_header_mid(h) + json_header_end(h, is_dll) + if h.spec_is_v5() {
        json_v5_fields(h)
    } else {
        Seq::empty()
    } + "\n  },"@ + json_tables(h) + json_summary(
        segments.len(),
        module_count,
        export_count,
        resource_type_count,
        is_dll,
    ) + "\n  \"segments\": [\n"@ + json_segments(segments) + "\n  ]\n}\n"@
}

#[verifier::rlimit(40)]
fn push_json_header_start(out: &mut String, basename: &str, h: &ImageOS2Header)
    ensures
        final(out)@ == old(out)@ + json_header_start(basename@, *h),
{
    out.append("{\n  \"file\": \"");
    let esc = json_escape(basename);
    out.append(esc.as_str());
    out.append("\",\n  \"header\": {\n    \"signature\": \"0x");
    push_hex(out, h.signature as u64, 4, true);
    out.append("\",\n    \"linker_version\": \"");
    push_dec(out, h.linker_version as u64);
    out.append(".");
    push_dec(out, h.linker_minor_version as u64);
    out.append("\",\n    \"entry_table\": {\n      \"offset\": \"0x");
    push_hex(out, h.entry_table_offset as u64, 4, true);
    out.append("\",\n      \"size\": \"0x");
    push_hex(out, h.entry_table_size as u64, 4, true);
    out.append("\"\n    },\n    \"checksum\": \"0x");
    push_hex(out, h.checksum as u64, 8, true);
    out.append("\",\n    \"flags\": \"0x");
    push_hex(out, h.flags as u64, 4, true);
    out.append("\",\n    \"auto_data\": \"0x");
    push_hex(out, h.auto_data_sel as u64, 4, true);
    out.append("\",\n    \"heap_init\": \"0x");
    push_hex(out, h.heap_init as u64, 4, true);
    out.append("\",\n    \"stack_init\": \"0x");
    push_hex(out, h.stack_init as u64, 4, true);
}

fn push_exe_type(out: &mut String, h: &ImageOS2Header)
    ensures
        final(out)@ == old(out)@ + exe_type_text(crate::headers::spec_exe_type(h.exe_type)),
{
    let exe = h.exe_type().to_string();
    out.append(exe.as_str());
}

fn push_version(out: &mut String, h: &ImageOS2Header)
    ensures
        final(out)@ == old(out)@ + version_text(*h),
{
    out.append(h.version());
}

fn push_json_header_mid(out: &mut String, h: &ImageOS2Header)
    ensures
        final(out)@ == old(out)@ + json_header_mid(*h),
{
    out.append("\",\n    \"csip\": \"0x");
    push_hex(out, (h.csip / 65536) as u64, 4, true);
    out.append(":0x");
    push_hex(out, (h.csip % 65536) as u64, 4, true);
    out.append("\",\n    \"sssp\": \"0x");
    push_hex(out, (h.sssp / 65536) as u64, 4, true);
    out.append(":0x");
    push_hex(out, (h.sssp % 65536) as u64, 4, true);
    out.append("\",\n    \"segment_count\": ");
    push_dec(out, h.seg_count as u64);
    out.append(",\n    \"module_count\": ");
    push_dec(out, h.mod_count as u64);
}

fn push_json_header_end(out: &mut String, h: &ImageOS2Header, is_dll: bool)
    ensures
        final(out)@ == old(out)@ + json_header_end(*h, is_dll),
{
    out.append(",\n    \"exe_type\": \"");
    push_exe_type(out, h);
    out.append("\",\n    \"version\": \"");
    push_version(out, h);
    out.append("\",\n    \"is_dll\": ");
    push_bool(out, is_dll);
    out.append(",\n    \"is_v5\": ");
    push_bool(out, h.is_v5());
}

#[verifier::rlimit(40)]
fn push_json_v5_fields(out: &mut String, h: &ImageOS2Header)
    requires
        h.alignment < 16,
    ensures
        final(out)@ == old(out)@ + json_v5_fields(*h),
{
    out.append(",\n    \"v5_fields\": {\n      \"ret_thunk_offset\": \"0x");
    push_hex(out, h.ret_thunk_offset as u64, 4, true);
    out.append("\",\n      \"seg_ref_bytes_offset\": \"0x");
    push_hex(out, h.seg_ref_bytes_offset as u64, 4, true);
    out.append("\",\n      \"swap_area\": \"0x");
    push_hex(out, h.swap_area as u64, 4, true);
    out.append("\",\n      \"expected_version\": \"");
    push_dec(out, (h.expected_version / 256) as u64);
    out.append(".");
    push_dec(out, (h.expected_version % 256) as u64);
    out.append("\",\n      \"fast_load_area\": \"0x");
    push_hex(out, (h.ret_thunk_offset << h.alignment) as u64, 1, false);
    out.append("-0x");
    push_hex(
        out,
        ((h.ret_thunk_offset as u32 + h.seg_ref_bytes_offset as u32) << h.alignment) as u64,
        1,
        false,
    );
    out.append("\"\n    }");
}

#[verifier::rlimit(40)]
fn push_json_tables(out: &mut String, h: &ImageOS2Header)
    ensures
        final(out)@ == old(out)@ + json_tables(*h),
{
    out.append("\n  \"tables\": {\n    \"segment\": \"0x");
    push_hex(out, h.seg_table_offset as u64, 4, true);
    out.append("\",\n    \"resource\": \"0x");
    push_hex(out, h.resource_table_offset as u64, 4, true);
    out.append("\",\n    \"resident_names\": \"0x");
    push_hex(out, h.res_name_table_offset as u64, 4, true);
    out.append("\",\n    \"module_refs\": \"0x");
    push_hex(out, h.mod_table_offset as u64, 4, true);
    out.append("\",\n    \"imported_names\": \"0x");
    push_hex(out, h.imported_names_table_offset as u64, 4, true);
    out.append("\",\n    \"non_resident_names\": \"0x");
    push_hex(out, h.non_res_name_table_offset as u64, 8, true);
    out.append("\"\n  },");
}

#[verifier::rlimit(40)]
fn push_json_summary(
    out: &mut String,
    segment_count: usize,
    module_count: usize,
    export_count: usize,
    resource_type_count: usize,
    is_dll: bool,
)
    ensures
        final(out)@ == old(out)@ + json_summary(
            segment_count as nat,
            module_count as nat,
            export_count as nat,
            resource_type_count as nat,
            is_dll,
        ),
{
    out.append("\n  \"summary\": {\n    \"segment_count\": ");
    push_dec(out, segment_count as u64);
    out.append(",\n    \"module_count\": ");
    push_dec(out, module_count as u64);
    out.append(",\n    \"export_count\": ");
    push_dec(out, export_count as u64);
    out.append(",\n    \"resource_type_count\": ");
    push_dec(out, resource_type_count as u64);
    out.append(",\n    \"is_dll\": ");
    push_bool(out, is_dll);
    out.append("\n  },");
}

fn push_json_segment(out: &mut String, n: usize, seg: &SegmentRecord)
    ensures
        final(out)@ == old(out)@ + json_segment(n as nat, *seg),
{
    out.append("    {\"number\": ");
    push_dec(out, n as u64);
    out.append(", \"offset\": \"0x");
    push_hex(out, seg.offset as u64, 4, true);
    out.append("\", \"length\": \"0x");
    push_hex(out, seg.length as u64, 4, true);
    out.append("\", \"flags\": ");
    push_dec(out, seg.flags as u64);
    out.append(", \"flags_str\": \"");
    let f = segment_flag_names(seg.flags);
    out.append(f.as_str());
    out.append("\", \"minalloc\": \"0x");
    push_hex(out, seg.minalloc as u64, 4, true);
    out.append("\"}");
}

fn push_json_segments(out: &mut String, segments: &[SegmentRecord])
    ensures
        final(out)@ == old(out)@ + json_segments(segments@),
{
    let ghost t = segments@;
    let mut i: usize = 0;
    proof {
        assert(t.subrange(0, 0) =~= Seq::<SegmentRecord>::empty());
        assert(out@ =~= old(out)@ + json_segments(t.subrange(0, 0)));
    }
    while i < segments.len()
        invariant
            t == segments@,
            i <= t.len(),
            out@ == old(out)@ + json_segments(t.subrange(0, i as int)),
        decreases t.len() - i,
    {
        let ghost before = out@;
        proof {
            assert(t.subrange(0, i + 1).drop_last() =~= t.subrange(0, i as int));
            assert(t.subrange(0, i + 1).last() == t[i as int]);
        }
        if i > 0 {
            out.append(",\n");
        }
        push_json_segment(out, i + 1, &segments[i]);
        proof {
            if i == 0 {
                assert(t.subrange(0, 1)[0] == t[0]);
                assert(out@ =~= old(out)@ + json_segments(t.subrange(0, 1)));
            }
        }
        i = i + 1;
    }
    assert(t.subrange(0, i as int) =~= t);
}

/// The JSON report of a file named `basename` with header `h`, followed by
/// a newline. The alignment shift of a v5 header must be below 16 (the
/// fast-load area is a 16-bit shift).
#[verifier::rlimit(40)]
pub fn json_report(
    basename: &str,
    h: &ImageOS2Header,
    is_dll: bool,
    segments: &[SegmentRecord],
    module_count: usize,
    export_count: usize,
    resource_type_count: usize,
) -> (r: String)
    requires
        h.spec_is_v5() ==> h.alignment < 16,
    ensures
        r@ == spec_json_report(
            basename@,
            *h,
            is_dll,
            segments@,
            module_count as nat,
            export_count as nat,
            resource_type_count as nat,
        ),
{
    let mut out = String::new();
    push_json_header_start(&mut out, basename, h);
    push_json_header_mid(&mut out, h);
    push_json_header_end(&mut out, h, is_dll);
    if h.is_v5() {
        push_json_v5_fields(&mut out, h);
    }
    out.append("\n  },");
    push_json_tables(&mut out, h);
    push_json_summary(&mut out, segments.len(), module_count, export_count, resource_type_count, is_dll);
    out.append("\n  \"segments\": [\n");
    push_json_segments(&mut out, segments);
    out.append("\n  ]\n}\n");
    assert(out@ =~= spec_json_report(
        basename@,
        *h,
        is_dll,
        segments@,
        module_count as nat,
        export_count as nat,
        resource_type_count as nat,
    ));
    out
}

/// The segment alignment in bytes that the detailed report shows for a
/// shift field: 2 to the power of its low byte, or `usize::MAX` when that
/// does not fit.
pub open spec fn alignment_bytes_of(alignment: u16) -> nat {
    let s = (alignment % 256) as u32;
    if s < usize::BITS {
        vstd::arithmetic::power2::pow2(s as nat)
    } else {
        usize::MAX as nat
    }
}

/// The header block of the detailed report.
pub open spec fn spec_detailed_header(h: ImageOS2Header) -> Seq<char> {
    "  Signature:      0x"@ + hex_up(h.signature as nat, 4) + " (\"NE\")\n"@ + "  Linker Version: "@
        + dec(h.linker_version as nat) + "."@ + dec(h.linker_minor_version as nat) + "\n"@
        + "  Entry Table:    0x"@ + hex_up(h.entry_table_offset as nat, 4) + " (offset) / 0x"@
        + hex_up(h.entry_table_size as nat, 4) + " (size)\n"@ + "  Checksum:       0x"@ + hex_up(
        h.checksum as nat,
        8,
    ) + "\n"@ + "  Flags:          0x"@ + hex_up(h.flags as nat, 4) + "\n"@
        + "  Auto Data:      0x"@ + hex_up(h.auto_data_sel as nat, 4) + "\n"@
        + "  Heap Init:      0x"@ + hex_up(h.heap_init as nat, 4) + " ("@ + dec(h.heap_init as nat)
        + " bytes)\n"@ + "  Stack Init:     0x"@ + hex_up(h.stack_init as nat, 4) + " ("@ + dec(
        h.stack_init as nat,
    ) + " bytes)\n"@ + "  CS:IP:          0x"@ + hex_up(h.csip as nat / 65536, 4) + ":0x"@
        + hex_up(h.csip as nat % 65536, 4) + "\n"@ + "  SS:SP:          0x"@ + hex_up(
        h.sssp as nat / 65536,
        4,
    ) + ":0x"@ + hex_up(h.sssp as nat % 65536, 4) + "\n"@ + "  Segments:       "@ + dec(
        h.seg_count as nat,
    ) + "\n"@ + "  Module Refs:    "@ + dec(h.mod_count as nat) + "\n"@ + "  Non-Res Names:  "@
        + dec(h.non_res_name_size as nat) + " bytes\n"@ + "  Exe Type:       "@ + exe_type_text(
        crate::headers::spec_exe_type(h.exe_type),
    ) + "\n"@ + "  Alignment:      "@ + dec(alignment_bytes_of(h.alignment)) + " (shift="@ + dec(
        h.alignment as nat,
    ) + ")\n"@ + "  Ret Thunk Off:  0x"@ + hex_up(h.ret_thunk_offset as nat, 4) + "\n"@
        + "  Seg Ref Bytes:  0x"@ + hex_up(h.seg_ref_bytes_offset as nat, 4) + "\n"@
        + if h.spec_is_v5() {
        "  Swap Area:      0x"@ + hex_up(h.swap_area as nat, 4) + "\n"@ + "  Expected Ver:   "@
            + dec(h.expected_version as nat / 256) + "."@ + dec(h.expected_version as nat % 256)
            + "\n"@
    } else {
        Seq::empty()
    }
}

fn push_alignment_bytes(out: &mut String, alignment: u16)
    ensures
        final(out)@ == old(out)@ + dec(alignment_bytes_of(alignment)),
{
    let align_val = (alignment % 256) as u8;
    let bytes = match SegmentAlignment::from_u8(align_val) {
        Some(a) => a.alignment_bytes(),
        None => usize::MAX,
    };
    push_dec(out, bytes as u64);
}

#[verifier::rlimit(40)]
fn push_detailed_header_start(out: &mut String, h: &ImageOS2Header)
    ensures
        final(out)@ == old(out)@ + "  Signature:      0x"@ + hex_up(h.signature as nat, 4)
            + " (\"NE\")\n"@ + "  Linker Version: "@ + dec(h.linker_version as nat) + "."@ + dec(
            h.linker_minor_version as nat,
        ) + "\n"@ + "  Entry Table:    0x"@ + hex_up(h.entry_table_offset as nat, 4)
            + " (offset) / 0x"@ + hex_up(h.entry_table_size as nat, 4) + " (size)\n"@
            + "  Checksum:       0x"@ + hex_up(h.checksum as nat, 8) + "\n"@
            + "  Flags:          0x"@ + hex_up(h.flags as nat, 4) + "\n"@
            + "  Auto Data:      0x"@ + hex_up(h.auto_data_sel as nat, 4) + "\n"@
            + "  Heap Init:      0x"@ + hex_up(h.heap_init as nat, 4) + " ("@ + dec(
            h.heap_init as nat,
        ) + " bytes)\n"@ + "  Stack Init:     0x"@ + hex_up(h.stack_init as nat, 4) + " ("@
            + dec(h.stack_init as nat) + " bytes)\n"@,
{
    out.append("  Signature:      0x");
    push_hex(out, h.signature as u64, 4, true);
    out.append(" (\"NE\")\n");
    out.append("  Linker Version: ");
    push_dec(out, h.linker_version as u64);
    out.append(".");
    push_dec(out, h.linker_minor_version as u64);
    out.append("\n");
    out.append("  Entry Table:    0x");
    push_hex(out, h.entry_table_offset as u64, 4, true);
    out.append(" (offset) / 0x");
    push_hex(out, h.entry_table_size as u64, 4, true);
    out.append(" (size)\n");
    out.append("  Checksum:       0x");
    push_hex(out, h.checksum as u64, 8, true);
    out.append("\n");
    out.append("  Flags:          0x");
    push_hex(out, h.flags as u64, 4, true);
    out.append("\n");
    out.append("  Auto Data:      0x");
    push_hex(out, h.auto_data_sel as u64, 4, true);
    out.append("\n");
    out.append("  Heap Init:      0x");
    push_hex(out, h.heap_init as u64, 4, true);
    out.append(" (");
    push_dec(out, h.heap_init as u64);
    out.append(" bytes)\n");
    out.append("  Stack Init:     0x");
    push_hex(out, h.stack_init as u64, 4, true);
    out.append(" (");
    push_dec(out, h.stack_init as u64);
    out.append(" bytes)\n");
}

/// The header block of the detailed report.
#[verifier::rlimit(40)]
pub fn detailed_header(h: &ImageOS2Header) -> (r: String)
    ensures
        r@ == spec_detailed_header(*h),
{
    let mut out = String::new();
    push_detailed_header_start(&mut out, h);
    out.append("  CS:IP:          0x");
    push_hex(&mut out, (h.csip / 65536) as u64, 4, true);
    out.append(":0x");
    push_hex(&mut out, (h.csip % 65536) as u64, 4, true);
    out.append("\n");
    out.append("  SS:SP:          0x");
    push_hex(&mut out, (h.sssp / 65536) as u64, 4, true);
    out.append(":0x");
    push_hex(&mut out, (h.sssp % 65536) as u64, 4, true);
    out.append("\n");
    out.append("  Segments:       ");
    push_dec(&mut out, h.seg_count as u64);
    out.append("\n");
    out.append("  Module Refs:    ");
    push_dec(&mut out, h.mod_count as u64);
    out.append("\n");
    out.append("  Non-Res Names:  ");
    push_dec(&mut out, h.non_res_name_size as u64);
    out.append(" bytes\n");
    out.append("  Exe Type:       ");
    push_exe_type(&mut out, h);
    out.append("\n");
    out.append("  Alignment:      ");
    push_alignment_bytes(&mut out, h.alignment);
    out.append(" (shift=");
    push_dec(&mut out, h.alignment as u64);
    out.append(")\n");
    out.append("  Ret Thunk Off:  0x");
    push_hex(&mut out, h.ret_thunk_offset as u64, 4, true);
    out.append("\n");
    out.append("  Seg Ref Bytes:  0x");
    push_hex(&mut out, h.seg_ref_bytes_offset as u64, 4, true);
    out.append("\n");
    if h.is_v5() {
        out.append("  Swap Area:      0x");
        push_hex(&mut out, h.swap_area as u64, 4, true);
        out.append("\n");
        out.append("  Expected Ver:   ");
        push_dec(&mut out, (h.expected_version / 256) as u64);
        out.append(".");
        push_dec(&mut out, (h.expected_version % 256) as u64);
        out.append("\n");
    }
    assert(out@ =~= spec_detailed_header(*h));
    out
}

/// A segment's row in the detailed report (number `n` from 1, as a
/// 16-bit value).
pub open spec fn detailed_segment_row(n: nat, seg: SegmentRecord) -> Seq<char> {
    "  "@ + pad_left(dec(n as u16 as nat), 3) + "  "@ + pad_right(segment_flag_text(seg.flags), 28)
        + "  "@ + pad_right("0x"@ + hex_up(seg.length as nat, 4), 10) + "  "@ + pad_right(
        "0x"@ + hex_up(seg.offset as nat, 4),
        10,
    ) + "  "@ + pad_right("0x"@ + hex_up(seg.minalloc as nat, 4), 10) + "\n"@
}

/// The rows of the segments `t`.
pub open spec fn detailed_segment_rows(t: Seq<SegmentRecord>) -> Seq<char>
    decreases t.len(),
{
    if t.len() == 0 {
        Seq::empty()
    } else {
        detailed_segment_rows(t.drop_last()) + detailed_segment_row(t.len(), t.last())
    }
}

/// The segments block of the detailed report: a table with a row per
/// segment, or a note that there are none.
pub open spec fn spec_detailed_segments(t: Seq<SegmentRecord>) -> Seq<char> {
    if t.len() == 0 {
        "  No segments.\n"@
    } else {
        "  "@ + pad_left("#"@, 3) + "  "@ + pad_right("Flags"@, 28) + "  "@ + pad_right("Size"@, 10)
            + "  "@ + pad_right("Offset"@, 10) + "  "@ + pad_right("MinAlloc"@, 10) + "\n"@
            + "  ---  ----------------------------  ----------  ----------  ----------\n"@
            + detailed_segment_rows(t)
    }
}

/// Appends `0x` and `v` in uppercase hexadecimal (at least four digits),
/// left-aligned in a field of 10.
fn push_hex_cell(out: &mut String, v: u16)
    ensures
        final(out)@ == old(out)@ + pad_right("0x"@ + hex_up(v as nat, 4), 10),
{
    let mut cell = String::from_str("0x");
    push_hex(&mut cell, v as u64, 4, true);
    push_left_aligned(out, cell.as_str(), 10);
}

fn push_detailed_segment_row(out: &mut String, n: usize, seg: &SegmentRecord)
    ensures
        final(out)@ == old(out)@ + detailed_segment_row(n as nat, *seg),
{
    out.append("  ");
    let mut num = String::new();
    push_dec(&mut num, (n as u16) as u64);
    push_right_aligned(out, num.as_str(), 3);
    out.append("  ");
    let flags = segment_flag_names(seg.flags);
    push_left_aligned(out, flags.as_str(), 28);
    out.append("  ");
    push_hex_cell(out, seg.length);
    out.append("  ");
    push_hex_cell(out, seg.offset);
    out.append("  ");
    push_hex_cell(out, seg.minalloc);
    out.append("\n");
}

/// The segments block of the detailed report.
pub fn detailed_segments(segments: &[SegmentRecord]) -> (r: String)
    ensures
        r@ == spec_detailed_segments(segments@),
{
    if segments.len() == 0 {
        return String::from_str("  No segments.\n");
    }
    let mut out = String::from_str("  ");
    push_right_aligned(&mut out, "#", 3);
    out.append("  ");
    push_left_aligned(&mut out, "Flags", 28);
    out.append("  ");
    push_left_aligned(&mut out, "Size", 10);
    out.append("  ");
    push_left_aligned(&mut out, "Offset", 10);
    out.append("  ");
    push_left_aligned(&mut out, "MinAlloc", 10);
    out.append("\n");
    out.append("  ---  ----------------------------  ----------  ----------  ----------\n");
    let ghost head = out@;
    let ghost t = segments@;
    let mut i: usize = 0;
    proof {
        assert(t.subrange(0, 0) =~= Seq::<SegmentRecord>::empty());
        assert(out@ =~= head + detailed_segment_rows(t.subrange(0, 0)));
    }
    while i < segments.len()
        invariant
            t == segments@,
            i <= t.len(),
            out@ == head + detailed_segment_rows(t.subrange(0, i as int)),
        decreases t.len() - i,
    {
        proof {
            assert(t.subrange(0, i + 1).drop_last() =~= t.subrange(0, i as int));
            assert(t.subrange(0, i + 1).last() == t[i as int]);
        }
        push_detailed_segment_row(&mut out, i + 1, &segments[i]);
        i = i + 1;
    }
    assert(t.subrange(0, i as int) =~= t);
    out
}

/// The title line of a section of the detailed report, and its rule.
pub open spec fn spec_section_title(basename: Seq<char>, section: Seq<char>) -> Seq<char> {
    "NE Inspector — "@ + basename + " ("@ + section + ")\n"@ + Seq::new(60, |i: int| '─') + "\n"@
}

/// The title line of a section of the detailed report, and its rule.
pub fn section_title(basename: &str, section: &str) -> (r: String)
    ensures
        r@ == spec_section_title(basename@, section@),
{
    let mut out = String::from_str("NE Inspector — ");
    out.append(basename);
    out.append(" (");
    out.append(section);
    out.append(")\n");
    let ghost head = out@;
    let mut k: usize = 0;
    while k < 60
        invariant
            k <= 60,
            out@ == head + Seq::new(k as nat, |i: int| '─'),
        decreases 60 - k,
    {
        out.append("─");
        proof {
            reveal_strlit("─");
            assert(head + Seq::new(k as nat, |i: int| '─') + "─"@ =~= head + Seq::new(
                (k + 1) as nat,
                |i: int| '─',
            ));
        }
        k = k + 1;
    }
    out.append("\n");
    out
}

/// An export's segment cell in the detailed report.
pub open spec fn export_segment_cell(e: ExportEntry) -> Seq<char> {
    match e.entry_type {
        EntryType::Fixed { seg_num, .. } => hex_up(seg_num as nat, 4),
        EntryType::Movable { seg_num, .. } => hex_up(seg_num as nat, 4),
        EntryType::Constant { .. } => "----"@,
    }
}

/// An export's offset cell in the detailed report (a constant's value for
/// a constant).
pub open spec fn export_offset_cell(e: ExportEntry) -> Seq<char> {
    match e.entry_type {
        EntryType::Fixed { offset, .. } => hex_up(offset as nat, 4),
        EntryType::Movable { offset, .. } => hex_up(offset as nat, 4),
        EntryType::Constant { value } => hex_up(value as nat, 4),
    }
}

/// An export's row in the detailed report; a name not found shows as `?`.
pub open spec fn detailed_export_row(ordinal: nat, e: ExportEntry, name: Seq<char>) -> Seq<char> {
    "  0x"@ + hex_up(ordinal, 4) + "  "@ + export_segment_cell(e) + "  "@ + export_offset_cell(e)
        + "  "@ + if name.len() == 0 {
        "?"@
    } else {
        name
    } + "\n"@
}

/// The rows of the exports among the ordinal slots `es`.
pub open spec fn detailed_export_rows(
    es: Seq<Option<ExportEntry>>,
    resident: Seq<(Seq<u8>, u16)>,
    non_resident: Seq<(Seq<u8>, u16)>,
) -> Seq<char>
    decreases es.len(),
{
    if es.len() == 0 {
        Seq::empty()
    } else {
        detailed_export_rows(es.drop_last(), resident, non_resident) + match es.last() {
            None => Seq::empty(),
            Some(e) => detailed_export_row(
                es.len(),
                e,
                spec_wine_export_name(resident, non_resident, es.len() as u16),
            ),
        }
    }
}

/// A parsed name table, or the empty one when it does not parse.
pub open spec fn names_or_empty(r: Result<Seq<(Seq<u8>, u16)>, Error>) -> Seq<(Seq<u8>, u16)> {
    match r {
        Ok(n) => n,
        Err(_) => Seq::empty(),
    }
}

/// The exports block of the detailed report: a table of the exports with
/// their names, or a note that there is no table or no export.
pub open spec fn spec_detailed_exports(b: Seq<u8>, hr: Result<ImageOS2Header, Error>) -> Seq<
    char,
> {
    match spec_entry_table(b, hr) {
        Err(_) => "  No entry table.\n"@,
        Ok(es) => if crate::types::entry::count_some(es) == 0 {
            "  No exports.\n"@
        } else {
            (
                "  "@ + dec(crate::types::entry::count_some(es)) + " export(s):\n\n"@ + "  "@
                    + pad_left("Ordinal"@, 6) + "  "@ + pad_left("Segment"@, 8) + "  "@ + pad_left(
                    "Offset"@,
                    8,
                ) + "  Name\n"@ + "  ------  --------  --------  ------\n"@ + detailed_export_rows(
                    es,
                    names_or_empty(crate::types::names::spec_resident_names(b, hr)),
                    names_or_empty(crate::types::names::spec_non_resident_names(b, hr)),
                )
            )
        },
    }
}

fn push_detailed_export_row(out: &mut String, ordinal: u16, e: &ExportEntry, name: &str)
    ensures
        final(out)@ == old(out)@ + detailed_export_row(ordinal as nat, *e, name@),
{
    out.append("  0x");
    push_hex(out, ordinal as u64, 4, true);
    out.append("  ");
    match e.seg_num() {
        Some(sn) => push_hex(out, sn as u64, 4, true),
        None => out.append("----"),
    }
    out.append("  ");
    match e.offset() {
        Some(o) => push_hex(out, o as u64, 4, true),
        None => match e.constant_value() {
            Some(v) => push_hex(out, v as u64, 4, true),
            None => out.append("----"),
        },
    }
    out.append("  ");
    if name.unicode_len() == 0 {
        out.append("?");
    } else {
        out.append(name);
    }
    out.append("\n");
}

/// The exports block of the detailed report.
pub fn detailed_exports<P: NE>(ne: &P) -> (r: String)
    requires
        addressable(ne.bytes()),
    ensures
        r@ == spec_detailed_exports(ne.bytes(), ne.spec_valid_ne_header()),
{
    let entry_table = match EntryTable::parse(ne) {
        Err(_) => return String::from_str("  No entry table.\n"),
        Ok(t) => t,
    };
    let total = entry_table.export_count();
    if total == 0 {
        return String::from_str("  No exports.\n");
    }
    proof {
        entry_table_ordinals_fit(ne.bytes(), ne.spec_valid_ne_header());
    }
    let mut out = String::from_str("  ");
    push_dec(&mut out, total as u64);
    out.append(" export(s):\n\n");
    let resident_names = match ResidentNameTable::parse(ne) {
        Ok(rnt) => rnt,
        Err(_) => ResidentNameTable { entries: Vec::new() },
    };
    let non_res_names = match NonResidentNameTable::parse(ne) {
        Ok(nrt) => nrt,
        Err(_) => NonResidentNameTable { entries: Vec::new() },
    };
    let ghost rn = names_view(resident_names.entries@);
    let ghost nn = names_view(non_res_names.entries@);
    assert(rn =~= names_or_empty(crate::types::names::spec_resident_names(ne.bytes(), ne.spec_valid_ne_header())));
    assert(nn =~= names_or_empty(crate::types::names::spec_non_resident_names(ne.bytes(), ne.spec_valid_ne_header())));
    out.append("  ");
    push_right_aligned(&mut out, "Ordinal", 6);
    out.append("  ");
    push_right_aligned(&mut out, "Segment", 8);
    out.append("  ");
    push_right_aligned(&mut out, "Offset", 8);
    out.append("  Name\n");
    out.append("  ------  --------  --------  ------\n");
    let ghost head = out@;
    let ghost es = entry_table.entries@;
    let mut i: usize = 0;
    proof {
        assert(es.subrange(0, 0) =~= Seq::<Option<ExportEntry>>::empty());
        assert(out@ =~= head + detailed_export_rows(es.subrange(0, 0), rn, nn));
    }
    while i < entry_table.entries.len()
        invariant
            es == entry_table.entries@,
            es.len() <= 0xFFFF,
            rn == names_view(resident_names.entries@),
            nn == names_view(non_res_names.entries@),
            i <= es.len(),
            out@ == head + detailed_export_rows(es.subrange(0, i as int), rn, nn),
        decreases es.len() - i,
    {
        let ghost before = out@;
        proof {
            assert(es.subrange(0, i + 1).drop_last() =~= es.subrange(0, i as int));
            assert(es.subrange(0, i + 1).last() == es[i as int]);
        }
        match &entry_table.entries[i] {
            None => {
                assert(out@ =~= before + Seq::<char>::empty());
            },
            Some(e) => {
                let ordinal = i as u16 + 1;
                let name = wine_export_name(&resident_names, &non_res_names, ordinal);
                push_detailed_export_row(&mut out, ordinal, e, name.as_str());
            },
        }
        i = i + 1;
    }
    assert(es.subrange(0, i as int) =~= es);
    out
}

/// A name as text, or `?` when it is not UTF-8.
pub open spec fn text_or_question(n: Seq<u8>) -> Seq<char> {
    if vstd::utf8::valid_utf8(n) {
        vstd::utf8::decode_utf8(n)
    } else {
        "?"@
    }
}

/// Appends the text of a Pascal string, or `?` when it is not UTF-8.
fn push_text_or_question(out: &mut String, p: &PascalString)
    ensures
        final(out)@ == old(out)@ + text_or_question(p@),
{
    match p.as_str() {
        Ok(t) => {
            out.append(t);
            proof {
                vstd::utf8::encode_utf8_decode_utf8(t@);
            }
        },
        Err(_) => out.append("?"),
    }
}

/// A resource type as the detailed report names it.
pub open spec fn detailed_type_text(id: IdView) -> Seq<char> {
    match id {
        IdView::Ordinal(n) => spec_resource_kind_name(n),
        IdView::Name(s) => text_or_question(s),
    }
}

/// A resource id as the detailed report shows it.
pub open spec fn detailed_id_text(id: IdView) -> Seq<char> {
    match id {
        IdView::Ordinal(n) => "0x"@ + hex_up(n as nat, 4),
        IdView::Name(s) => text_or_question(s),
    }
}

/// A record's row in the detailed report.
pub open spec fn detailed_record_row(r: RecordView) -> Seq<char> {
    "  "@ + detailed_id_text(r.id) + "  0x"@ + hex_up(r.offset as nat, 6) + "  0x"@ + hex_up(
        r.length as nat,
        4,
    ) + "  "@ + spec_resource_flag_names(r.flags) + "\n"@
}

/// The rows of records `rs`.
pub open spec fn detailed_record_rows(rs: Seq<RecordView>) -> Seq<char>
    decreases rs.len(),
{
    if rs.len() == 0 {
        Seq::empty()
    } else {
        detailed_record_rows(rs.drop_last()) + detailed_record_row(rs.last())
    }
}

/// A type's block in the detailed report: its name, a table of its
/// records, and a blank line.
pub open spec fn detailed_type_block(t: TypeInfoView) -> Seq<char> {
    "  Type: "@ + detailed_type_text(t.type_id) + "\n"@ + "  "@ + pad_left("ID"@, 4) + "  "@
        + pad_left("Offset"@, 10) + "  "@ + pad_left("Length"@, 8) + "  Flags\n"@
        + "  ----  ----------  --------  -----------\n"@ + detailed_record_rows(t.records)
        + "\n"@
}

/// The blocks of types `ts`.
pub open spec fn detailed_type_blocks(ts: Seq<TypeInfoView>) -> Seq<char>
    decreases ts.len(),
{
    if ts.len() == 0 {
        Seq::empty()
    } else {
        detailed_type_blocks(ts.drop_last()) + detailed_type_block(ts.last())
    }
}

/// The number of records of types `ts`.
pub open spec fn total_records(ts: Seq<TypeInfoView>) -> nat
    decreases ts.len(),
{
    if ts.len() == 0 {
        0
    } else {
        total_records(ts.drop_last()) + ts.last().records.len()
    }
}

/// The resources block of the detailed report: the counts and size shift,
/// then a block per type; or a note that there is no table or no
/// resource. `None` when the record count does not fit in `usize`.
pub open spec fn spec_detailed_resources(rt: Result<(u16, Seq<TypeInfoView>), Error>) -> Option<
    Seq<char>,
> {
    match rt {
        Err(_) => Some("  No resource table.\n"@),
        Ok((shift, ts)) => if ts.len() == 0 {
            Some("  No resources.\n"@)
        } else if total_records(ts) > usize::MAX {
            None
        } else {
            Some(
                "  "@ + dec(ts.len()) + " resource type(s), "@ + dec(total_records(ts))
                    + " entry(s), alignment shift = "@ + dec(shift as nat) + "\n\n"@
                    + detailed_type_blocks(ts),
            )
        },
    }
}

fn push_detailed_record_row(out: &mut String, r: &ResourceRecord)
    ensures
        final(out)@ == old(out)@ + detailed_record_row(r@),
{
    out.append("  ");
    match &r.id {
        ResourceId::Ordinal(n) => {
            out.append("0x");
            push_hex(out, *n as u64, 4, true);
        },
        ResourceId::Name(name) => push_text_or_question(out, name),
    }
    out.append("  0x");
    push_hex(out, r.offset as u64, 6, true);
    out.append("  0x");
    push_hex(out, r.length as u64, 4, true);
    out.append("  ");
    let flags = resource_flag_names(r.flags);
    out.append(flags.as_str());
    out.append("\n");
}

fn push_detailed_type_block(out: &mut String, info: &TypeInfo)
    ensures
        final(out)@ == old(out)@ + detailed_type_block(info@),
{
    out.append("  Type: ");
    match &info.type_id {
        ResourceTypeId::Ordinal(n) => {
            let name = resource_kind_name(*n);
            out.append(name.as_str());
        },
        ResourceTypeId::Name(name) => push_text_or_question(out, name),
    }
    out.append("\n");
    out.append("  ");
    push_right_aligned(out, "ID", 4);
    out.append("  ");
    push_right_aligned(out, "Offset", 10);
    out.append("  ");
    push_right_aligned(out, "Length", 8);
    out.append("  Flags\n");
    out.append("  ----  ----------  --------  -----------\n");
    let ghost head = out@;
    let ghost rs = records_view(info.records@);
    let mut i: usize = 0;
    proof {
        assert(rs.subrange(0, 0) =~= Seq::<RecordView>::empty());
        assert(out@ =~= head + detailed_record_rows(rs.subrange(0, 0)));
    }
    while i < info.records.len()
        invariant
            rs == records_view(info.records@),
            i <= rs.len(),
            out@ == head + detailed_record_rows(rs.subrange(0, i as int)),
        decreases rs.len() - i,
    {
        proof {
            assert(rs.subrange(0, i + 1).drop_last() =~= rs.subrange(0, i as int));
            assert(rs.subrange(0, i + 1).last() == info.records@[i as int]@);
        }
        push_detailed_record_row(out, &info.records[i]);
        i = i + 1;
    }
    assert(rs.subrange(0, i as int) =~= rs);
    out.append("\n");
}

/// The resources block of the detailed report.
pub fn detailed_resources<P: NE>(ne: &P) -> (r: Option<String>)
    requires
        addressable(ne.bytes()),
    ensures
        r is None <==> spec_detailed_resources(
            spec_resource_table(ne.bytes(), ne.spec_valid_ne_header()),
        ) is None,
        r matches Some(s) ==> spec_detailed_resources(
            spec_resource_table(ne.bytes(), ne.spec_valid_ne_header()),
        ) == Some(s@),
{
    let rt = match ResourceTable::parse(ne) {
        Ok(t) => t,
        Err(_) => return Some(String::from_str("  No resource table.\n")),
    };
    if rt.type_info.len() == 0 {
        return Some(String::from_str("  No resources.\n"));
    }
    let ghost ts = types_view(rt.type_info@);
    let mut total: usize = 0;
    let mut k: usize = 0;
    proof {
        assert(ts.subrange(0, 0) =~= Seq::<TypeInfoView>::empty());
    }
    while k < rt.type_info.len()
        invariant
            ts == types_view(rt.type_info@),
            ts.len() > 0,
            spec_resource_table(ne.bytes(), ne.spec_valid_ne_header()) == Ok::<
                (u16, Seq<TypeInfoView>),
                Error,
            >((rt.alignment_shift, ts)),
            k <= ts.len(),
            total == total_records(ts.subrange(0, k as int)),
        decreases ts.len() - k,
    {
        proof {
            assert(ts.subrange(0, k + 1).drop_last() =~= ts.subrange(0, k as int));
            assert(ts.subrange(0, k + 1).last() == ts[k as int]);
        }
        let n = rt.type_info[k].records.len();
        if total > usize::MAX - n {
            proof {
                assert(total_records(ts.subrange(0, k + 1)) == total + n);
                lemma_total_records_grows(ts, (k + 1) as int);
            }
            return None;
        }
        total = total + n;
        k = k + 1;
    }
    assert(ts.subrange(0, k as int) =~= ts);
    let mut out = String::from_str("  ");
    push_dec(&mut out, rt.type_info.len() as u64);
    out.append(" resource type(s), ");
    push_dec(&mut out, total as u64);
    out.append(" entry(s), alignment shift = ");
    push_dec(&mut out, rt.alignment_shift as u64);
    out.append("\n\n");
    let ghost head = out@;
    let mut i: usize = 0;
    proof {
        assert(out@ =~= head + detailed_type_blocks(ts.subrange(0, 0)));
    }
    while i < rt.type_info.len()
        invariant
            ts == types_view(rt.type_info@),
            i <= ts.len(),
            out@ == head + detailed_type_blocks(ts.subrange(0, i as int)),
        decreases ts.len() - i,
    {
        proof {
            assert(ts.subrange(0, i + 1).drop_last() =~= ts.subrange(0, i as int));
            assert(ts.subrange(0, i + 1).last() == rt.type_info@[i as int]@);
        }
        push_detailed_type_block(&mut out, &rt.type_info[i]);
        i = i + 1;
    }
    assert(ts.subrange(0, i as int) =~= ts);
    Some(out)
}

/// The record count of a prefix of `ts` is at most that of `ts`.
proof fn lemma_total_records_grows(ts: Seq<TypeInfoView>, k: int)
    requires
        0 <= k <= ts.len(),
    ensures
        total_records(ts.subrange(0, k)) <= total_records(ts),
    decreases ts.len() - k,
{
    if k < ts.len() {
        lemma_total_records_grows(ts, k + 1);
        assert(ts.subrange(0, k + 1).drop_last() =~= ts.subrange(0, k));
    } else {
        assert(ts.subrange(0, k) =~= ts);
    }
}

/// The row of relocation number `n` in the detailed report: the number,
/// the offset, the address and relocation types, the target and the
/// additive mark.
pub open spec fn detailed_reloc_row(
    n: nat,
    e: RelocationEntry,
    b: Seq<u8>,
    hr: Result<ImageOS2Header, Error>,
    cache: Map<usize, Seq<char>>,
) -> Seq<char> {
    "  ["@ + pad_left(dec(n), 4) + "]  0x"@ + hex_up(e.offset as nat, 4) + "  "@ + pad_left(
        spec_address_type_name(e.address_type),
        10,
    ) + "  "@ + pad_left(spec_relocation_type_name(e.relocation_type), 13) + "  "@
        + spec_reloc_target_detail(e, b, hr, cache) + if e.is_additive {
        " [+ADDITIVE]"@
    } else {
        ""@
    } + "\n"@
}

/// The rows of relocations `rs`, numbered from 1.
pub open spec fn detailed_reloc_rows(
    rs: Seq<RelocationEntry>,
    b: Seq<u8>,
    hr: Result<ImageOS2Header, Error>,
    cache: Map<usize, Seq<char>>,
) -> Seq<char>
    decreases rs.len(),
{
    if rs.len() == 0 {
        Seq::empty()
    } else {
        detailed_reloc_rows(rs.drop_last(), b, hr, cache) + detailed_reloc_row(
            rs.len(),
            rs.last(),
            b,
            hr,
            cache,
        )
    }
}

/// No relocation of `rs` is an import with module reference 0.
pub open spec fn relocs_printable(rs: Seq<RelocationEntry>) -> bool {
    forall|j: int| 0 <= j < rs.len() ==> spec_mod_ref_index(#[trigger] rs[j]) != Some(0u16)
}

/// The relocations block of the detailed report: the error of the
/// relocation table when it cannot be read; a note when there is no
/// relocation; else the count and a row per relocation. `None` when a
/// relocation is an import with module reference 0.
pub open spec fn spec_detailed_relocations(b: Seq<u8>, hr: Result<ImageOS2Header, Error>) -> Option<
    Result<Seq<char>, Error>,
> {
    match spec_relocation_table(b, hr) {
        Err(e) => Some(Err(e)),
        Ok(rs) => if rs.len() == 0 {
            Some(Ok("  No relocations.\n"@))
        } else if !relocs_printable(rs) {
            None
        } else {
            Some(
                Ok(
                    "  "@ + dec(rs.len()) + " relocation(s):\n\n"@ + detailed_reloc_rows(
                        rs,
                        b,
                        hr,
                        spec_module_cache(b, hr),
                    ),
                ),
            )
        },
    }
}

fn push_detailed_reloc_row<P: NE>(
    out: &mut String,
    n: u64,
    e: &RelocationEntry,
    ne: &P,
    cache: &HashMap<usize, String>,
)
    requires
        addressable(ne.bytes()),
        spec_mod_ref_index(*e) != Some(0u16),
    ensures
        final(out)@ == old(out)@ + detailed_reloc_row(
            n as nat,
            *e,
            ne.bytes(),
            ne.spec_valid_ne_header(),
            crate::describe::cache_text(cache@),
        ),
{
    let mut t = String::from_str("  [");
    push_dec_aligned(&mut t, n, 4);
    t.append("]  0x");
    push_hex(&mut t, e.offset as u64, 4, true);
    t.append("  ");
    let a = address_type_name(e.address_type);
    push_right_aligned(&mut t, a.as_str(), 10);
    t.append("  ");
    let k = relocation_type_name(e.relocation_type);
    push_right_aligned(&mut t, k.as_str(), 13);
    t.append("  ");
    let target = reloc_target_detail(e, ne, cache);
    t.append(target.as_str());
    if e.is_additive {
        t.append(" [+ADDITIVE]");
    } else {
        t.append("");
    }
    t.append("\n");
    out.append(t.as_str());
}

/// The relocations block of the detailed report.
pub fn detailed_relocations<P: NE>(ne: &P) -> (r: Option<Result<String, Error>>)
    requires
        addressable(ne.bytes()),
        relocs_defined(ne.bytes(), ne.spec_valid_ne_header()),
    ensures
        r is None <==> spec_detailed_relocations(ne.bytes(), ne.spec_valid_ne_header()) is None,
        r matches Some(Ok(s)) ==> spec_detailed_relocations(
            ne.bytes(),
            ne.spec_valid_ne_header(),
        ) == Some(Ok::<Seq<char>, Error>(s@)),
        r matches Some(Err(e)) ==> spec_detailed_relocations(
            ne.bytes(),
            ne.spec_valid_ne_header(),
        ) == Some(Err::<Seq<char>, Error>(e)),
{
    let ghost b = ne.bytes();
    let ghost hr = ne.spec_valid_ne_header();
    let table = match RelocationTable::parse(ne) {
        Ok(t) => t,
        Err(e) => return Some(Err(e)),
    };
    let ghost rs = table.entries@;
    if table.entries.len() == 0 {
        return Some(Ok(String::from_str("  No relocations.\n")));
    }
    let cache = module_cache_or_empty(ne);
    let mut out = String::from_str("  ");
    push_dec(&mut out, table.entries.len() as u64);
    out.append(" relocation(s):\n\n");
    let ghost head = out@;
    let mut i: usize = 0;
    proof {
        assert(rs.subrange(0, 0) =~= Seq::<RelocationEntry>::empty());
        assert(out@ =~= head + detailed_reloc_rows(
            rs.subrange(0, 0),
            b,
            hr,
            spec_module_cache(b, hr),
        ));
    }
    while i < table.entries.len()
        invariant
            b == ne.bytes(),
            hr == ne.spec_valid_ne_header(),
            addressable(b),
            rs == table.entries@,
            rs.len() > 0,
            spec_relocation_table(b, hr) == Ok::<Seq<RelocationEntry>, Error>(rs),
            crate::describe::cache_text(cache@) == spec_module_cache(b, hr),
            i <= rs.len(),
            relocs_printable(rs.subrange(0, i as int)),
            out@ == head + detailed_reloc_rows(
                rs.subrange(0, i as int),
                b,
                hr,
                spec_module_cache(b, hr),
            ),
        decreases rs.len() - i,
    {
        let e = &table.entries[i];
        if e.mod_ref_index() == Some(0u16) {
            assert(!relocs_printable(rs)) by {
                assert(rs[i as int] == *e);
            }
            return None;
        }
        proof {
            assert(rs.subrange(0, i + 1).drop_last() =~= rs.subrange(0, i as int));
            assert(rs.subrange(0, i + 1).last() == rs[i as int]);
        }
        push_detailed_reloc_row(&mut out, (i + 1) as u64, e, ne, &cache);
        proof {
            let sub = rs.subrange(0, i + 1);
            assert forall|j: int| 0 <= j < sub.len() implies spec_mod_ref_index(
                #[trigger] sub[j],
            ) != Some(0u16) by {
                if j < i {
                    assert(sub[j] == rs.subrange(0, i as int)[j]);
                }
            }
        }
        i = i + 1;
    }
    assert(rs.subrange(0, i as int) =~= rs);
    Some(Ok(out))
}

/// A resident name's row in the detailed report: its ordinal and its
/// text, `?` when it is not UTF-8.
pub open spec fn resident_name_row(e: (Seq<u8>, u16)) -> Seq<char> {
    "  0x"@ + hex_up(e.1 as nat, 4) + "  "@ + text_or_question(e.0) + "\n"@
}

/// The rows of resident names `ns`.
pub open spec fn resident_name_rows(ns: Seq<(Seq<u8>, u16)>) -> Seq<char>
    decreases ns.len(),
{
    if ns.len() == 0 {
        Seq::empty()
    } else {
        resident_name_rows(ns.drop_last()) + resident_name_row(ns.last())
    }
}

/// The resident names part of the tables block: a note when the table is
/// empty or absent, the error when it cannot be read, else a row per name.
pub open spec fn spec_resident_names_block(r: Result<Seq<(Seq<u8>, u16)>, Error>) -> Seq<char> {
    match r {
        Ok(ns) => if ns.len() == 0 {
            "  Resident Names: (empty)\n"@
        } else {
            "  Ordinal  Name\n"@ + "  ------  ------\n"@ + resident_name_rows(ns)
        },
        Err(Error::TableNotPresent(_)) => "  Resident Names: (not present)\n"@,
        Err(e) => "  Resident Names Error: "@ + error_message(e) + "\n"@,
    }
}

/// The rows of the first `n` module references: the 1-based index and
/// the module's name, `?` when it cannot be read as text.
pub open spec fn module_ref_rows(
    b: Seq<u8>,
    hr: Result<ImageOS2Header, Error>,
    offsets: Seq<u16>,
    n: nat,
) -> Seq<char>
    decreases n,
{
    if n == 0 {
        Seq::empty()
    } else {
        module_ref_rows(b, hr, offsets, (n - 1) as nat) + "  "@ + pad_left(dec(n), 6) + "  "@
            + name_text(spec_module_name(b, hr, offsets, n - 1), "?"@) + "\n"@
    }
}

/// The module references part of the tables block.
pub open spec fn spec_module_refs_block(b: Seq<u8>, hr: Result<ImageOS2Header, Error>) -> Seq<
    char,
> {
    match spec_module_refs(b, hr) {
        Ok(offsets) => if offsets.len() == 0 {
            "  Module Refs: (empty)\n"@
        } else {
            "   Index  Module Name\n"@ + "  ------  ------\n"@ + module_ref_rows(
                b,
                hr,
                offsets,
                offsets.len(),
            )
        },
        Err(Error::TableNotPresent(_)) => "  Module Refs: (not present)\n"@,
        Err(e) => "  Module Refs Error: "@ + error_message(e) + "\n"@,
    }
}

/// The tables block of the detailed report: the resident names, then the
/// module references.
pub open spec fn spec_detailed_tables(b: Seq<u8>, hr: Result<ImageOS2Header, Error>) -> Seq<char> {
    spec_resident_names_block(spec_resident_names(b, hr)) + spec_module_refs_block(b, hr)
}

fn push_resident_names_block<P: NE>(out: &mut String, ne: &P)
    requires
        addressable(ne.bytes()),
    ensures
        final(out)@ == old(out)@ + spec_resident_names_block(
            spec_resident_names(ne.bytes(), ne.spec_valid_ne_header()),
        ),
{
    match ResidentNameTable::parse(ne) {
        Ok(t) => {
            if t.entries.len() == 0 {
                out.append("  Resident Names: (empty)\n");
            } else {
                let ghost ns = names_view(t.entries@);
                let mut s = String::from_str("  Ordinal  Name\n");
                s.append("  ------  ------\n");
                let ghost head = s@;
                let mut i: usize = 0;
                proof {
                    assert(ns.subrange(0, 0) =~= Seq::<(Seq<u8>, u16)>::empty());
                    assert(s@ =~= head + resident_name_rows(ns.subrange(0, 0)));
                }
                while i < t.entries.len()
                    invariant
                        ns == names_view(t.entries@),
                        i <= ns.len(),
                        s@ == head + resident_name_rows(ns.subrange(0, i as int)),
                    decreases ns.len() - i,
                {
                    let e = &t.entries[i];
                    proof {
                        assert(ns.subrange(0, i + 1).drop_last() =~= ns.subrange(0, i as int));
                        assert(ns.subrange(0, i + 1).last() == ns[i as int]);
                    }
                    let mut row = String::from_str("  0x");
                    push_hex(&mut row, e.ordinal as u64, 4, true);
                    row.append("  ");
                    push_text_or_question(&mut row, &e.name);
                    row.append("\n");
                    s.append(row.as_str());
                    i = i + 1;
                }
                assert(ns.subrange(0, i as int) =~= ns);
                out.append(s.as_str());
            }
        },
        Err(Error::TableNotPresent(_)) => out.append("  Resident Names: (not present)\n"),
        Err(e) => {
            let mut s = String::from_str("  Resident Names Error: ");
            let m = e.message();
            s.append(m.as_str());
            s.append("\n");
            out.append(s.as_str());
        },
    }
}

fn push_module_refs_block<P: NE>(out: &mut String, ne: &P)
    requires
        addressable(ne.bytes()),
    ensures
        final(out)@ == old(out)@ + spec_module_refs_block(ne.bytes(), ne.spec_valid_ne_header()),
{
    let ghost b = ne.bytes();
    let ghost hr = ne.spec_valid_ne_header();
    match ModuleRefTable::parse(ne) {
        Ok(t) => {
            if t.count == 0 {
                out.append("  Module Refs: (empty)\n");
            } else {
                let ghost offsets = t.offsets@;
                let mut s = String::from_str("   Index  Module Name\n");
                s.append("  ------  ------\n");
                let ghost head = s@;
                let mut i: u16 = 0;
                while i < t.count
                    invariant
                        b == ne.bytes(),
                        hr == ne.spec_valid_ne_header(),
                        addressable(b),
                        offsets == t.offsets@,
                        offsets.len() == t.count,
                        i <= t.count,
                        s@ == head + module_ref_rows(b, hr, offsets, i as nat),
                    decreases t.count - i,
                {
                    let mut row = String::from_str("  ");
                    push_dec_aligned(&mut row, (i + 1) as u64, 6);
                    row.append("  ");
                    let name = text_or(t.get_name(ne, i as usize), "?");
                    row.append(name.as_str());
                    row.append("\n");
                    s.append(row.as_str());
                    i = i + 1;
                }
                out.append(s.as_str());
            }
        },
        Err(Error::TableNotPresent(_)) => out.append("  Module Refs: (not present)\n"),
        Err(e) => {
            let mut s = String::from_str("  Module Refs Error: ");
            let m = e.message();
            s.append(m.as_str());
            s.append("\n");
            out.append(s.as_str());
        },
    }
}

/// The tables block of the detailed report.
pub fn detailed_tables<P: NE>(ne: &P) -> (r: String)
    requires
        addressable(ne.bytes()),
    ensures
        r@ == spec_detailed_tables(ne.bytes(), ne.spec_valid_ne_header()),
{
    let mut out = String::new();
    push_resident_names_block(&mut out, ne);
    push_module_refs_block(&mut out, ne);
    assert(out@ =~= spec_detailed_tables(ne.bytes(), ne.spec_valid_ne_header()));
    out
}

/// The JSON report of an image: its file name, the header `h`, the
/// library flag of its raw header, its segments, the number of module
/// names that read as text, of exports and of resource types (each 0, or
/// no segment, when its table cannot be read).
pub open spec fn spec_json_document(
    basename: Seq<char>,
    b: Seq<u8>,
    hr: Result<ImageOS2Header, Error>,
    raw: Result<ImageOS2Header, Error>,
    h: ImageOS2Header,
) -> Seq<char> {
    spec_json_report(
                basename,
                h,
                raw matches Ok(x) && x.flags & 0x8000 == 0x8000,
                match crate::ne::spec_segment_table(b, hr) {
                    Ok(t) => t,
                    Err(_) => Seq::empty(),
                },
                spec_module_cache(b, hr).len(),
                match spec_entry_table(b, hr) {
                    Ok(es) => crate::types::entry::count_some(es),
                    Err(_) => 0,
                },
                match spec_resource_table(b, hr) {
                    Ok((_, ts)) => ts.len(),
                    Err(_) => 0,
                },
            )
}

/// The JSON report of an image whose header is `h`. For a v5 header the
/// alignment shift must be below 16.
pub fn json_document<P: NE>(basename: &str, ne: &P, h: &ImageOS2Header) -> (r: String)
    requires
        addressable(ne.bytes()),
        h.spec_is_v5() ==> h.alignment < 16,
    ensures
        r@ == spec_json_document(
            basename@,
            ne.bytes(),
            ne.spec_valid_ne_header(),
            ne.spec_ne_header(),
            *h,
        ),
{
    let segments: Vec<SegmentRecord> = match ne.get_segment_table() {
        Ok(t) => t,
        Err(_) => Vec::new(),
    };
    let export_count: usize = match EntryTable::parse(ne) {
        Ok(t) => t.export_count(),
        Err(_) => 0,
    };
    let cache = module_cache_or_empty(ne);
    proof {
        assert(crate::describe::cache_text(cache@).dom() =~= cache@.dom());
    }
    let module_count = cache.len();
    let resource_types: usize = match ResourceTable::parse(ne) {
        Ok(t) => t.type_info.len(),
        Err(_) => 0,
    };
    json_report(
        basename,
        h,
        ne.is_library(),
        segments.as_slice(),
        module_count,
        export_count,
        resource_types,
    )
}

/// The name of the module itself: the first resident name as text; empty
/// when there is none or it is not UTF-8.
pub open spec fn self_name_text(resident: Seq<(Seq<u8>, u16)>) -> Seq<char> {
    if resident.len() > 0 && vstd::utf8::valid_utf8(resident[0].0) {
        vstd::utf8::decode_utf8(resident[0].0)
    } else {
        ""@
    }
}

/// The winedump-style report of an image whose header is `h`: the file
/// header, the names, the resources, the exports and the segments with
/// their relocations, each table read from the bytes (empty when it
/// cannot be read). `None` when the relocation blocks cannot be located,
/// or a relocation to print is an import with module reference 0.
pub open spec fn spec_winedump_report(
    b: Seq<u8>,
    hr: Result<ImageOS2Header, Error>,
    h: ImageOS2Header,
) -> Option<Seq<char>> {
    let resident = names_or_empty(crate::types::names::spec_resident_names(b, hr));
    let non_res = names_or_empty(crate::types::names::spec_non_resident_names(b, hr));
    let exports = spec_winedump_exports(b, hr, h, resident, non_res);
    let segs = match crate::ne::spec_segment_table(b, hr) {
        Ok(t) => t,
        Err(_) => Seq::empty(),
    };
    let relocs = match spec_relocation_table(b, hr) {
        Ok(rs) => rs,
        Err(_) => Seq::empty(),
    };
    if !relocs_defined(b, hr) || !segments_printable(segs, relocs) {
        None
    } else {
        Some(
            spec_winedump_header(h) + spec_winedump_names(h, resident, non_res)
                + spec_winedump_resources(spec_resource_table(b, hr)) + exports + segment_blocks(
                segs,
                h.alignment as u32,
                relocs,
                b,
                hr,
                spec_module_cache(b, hr),
                self_name_text(resident),
            ),
        )
    }
}

/// The winedump-style report of an image whose header is `h`. The
/// alignment shift must be below 32.
pub fn winedump_report<P: NE>(ne: &P, h: &ImageOS2Header) -> (r: Option<String>)
    requires
        addressable(ne.bytes()),
        h.alignment < 32,
    ensures
        r is None <==> spec_winedump_report(ne.bytes(), ne.spec_valid_ne_header(), *h) is None,
        r matches Some(s) ==> spec_winedump_report(ne.bytes(), ne.spec_valid_ne_header(), *h)
            == Some(s@),
{
    let ghost b = ne.bytes();
    let ghost hr = ne.spec_valid_ne_header();
    let mut out = winedump_header(h);
    let resident = match ResidentNameTable::parse(ne) {
        Ok(t) => t,
        Err(_) => {
            let t = ResidentNameTable { entries: Vec::new() };
            assert(names_view(t.entries@) =~= Seq::<(Seq<u8>, u16)>::empty());
            t
        },
    };
    let non_res = match NonResidentNameTable::parse(ne) {
        Ok(t) => t,
        Err(_) => {
            let t = NonResidentNameTable { entries: Vec::new() };
            assert(names_view(t.entries@) =~= Seq::<(Seq<u8>, u16)>::empty());
            t
        },
    };
    let ghost rn = names_view(resident.entries@);
    let ghost nn = names_view(non_res.entries@);
    assert(rn == names_or_empty(crate::types::names::spec_resident_names(b, hr)));
    assert(nn == names_or_empty(crate::types::names::spec_non_resident_names(b, hr)));
    let names = winedump_names(h, &resident, &non_res);
    out.append(names.as_str());
    let resources = winedump_resources(ne);
    out.append(resources.as_str());
    let exports = winedump_exports(ne, h, &resident, &non_res);
    out.append(exports.as_str());
    if !reloc_blocks_addressable(ne) {
        return None;
    }
    let segments: Vec<SegmentRecord> = match ne.get_segment_table() {
        Ok(t) => t,
        Err(_) => Vec::new(),
    };
    let relocs: Vec<RelocationEntry> = match RelocationTable::parse(ne) {
        Ok(t) => t.entries,
        Err(_) => Vec::new(),
    };
    let cache = module_cache_or_empty(ne);
    let self_name: &str = if resident.entries.len() > 0 {
        match resident.entries[0].name.as_str() {
            Ok(t) => {
                proof {
                    vstd::utf8::encode_utf8_decode_utf8(t@);
                }
                t
            },
            Err(_) => "",
        }
    } else {
        ""
    };
    proof {
        reveal_strlit("");
    }
    assert(self_name@ == self_name_text(rn));
    let blocks = match winedump_segments(
        ne,
        h,
        segments.as_slice(),
        relocs.as_slice(),
        &cache,
        self_name,
    ) {
        Some(t) => t,
        None => return None,
    };
    out.append(blocks.as_str());
    Some(out)
}

} // verus!
