//! What the reports show, read back: each number that a report line
//! prints denotes the field that its label or key names, in the order of
//! the labels.

use vstd::prelude::*;

use crate::describe::{
    spec_address_type_name, spec_json_escape, spec_reloc_target_detail, spec_relocation_type_name,
    spec_resource_flag_names, spec_wine_export_name, spec_wine_reloc_name, spec_wine_reloc_target,
    spec_wine_seg_flags,
};
use crate::headers::{ImageOS2Header, SegmentFlags, SegmentRecord};
use crate::report::{
    alignment_bytes_of, bool_text, count_for_segment, dec, detailed_export_row,
    detailed_export_rows, detailed_id_text, detailed_record_row, detailed_reloc_row,
    detailed_segment_row, detailed_type_blocks, exe_type_text, export_line, export_lines, hex_up,
    hx, json_header_mid, json_header_start, json_segment, json_summary, json_tables, name_line,
    resident_name_row, resource_record_lines, segment_flag_table, segment_flag_text, segment_head,
    segment_reloc_lines, spec_detailed_header, spec_detailed_resources, spec_winedump_header,
    text_or_question, total_records, winedump_id_text,
};
use crate::text::{dec_chars, hex_chars, pad_left, pad_right};
use crate::types::resource::{RecordView, TypeInfoView};
use crate::types::{EntryType, ExportEntry, RelocationEntry};
use crate::Error;

verus! {

/// The relocations of a segment are those whose segment number is that
/// segment's: `count_for_segment` counts exactly them.
pub proof fn count_for_segment_counts_its_relocations(rs: Seq<RelocationEntry>, seg: u16)
    ensures
        count_for_segment(rs, seg) == rs.filter(
            |e: RelocationEntry| e.segment_number == seg,
        ).len(),
    decreases rs.len(),
{
    reveal(Seq::filter);
    if rs.len() > 0 {
        count_for_segment_counts_its_relocations(rs.drop_last(), seg);
    }
}

/// A relocation of segment `seg` adds one line to the segment's lines: its
/// number among the segment's relocations (one more than those before it)
/// in decimal, right-aligned in six columns, then its type and target. A
/// relocation of another segment adds nothing.
pub proof fn segment_reloc_line_numbers_count_up(
    rs: Seq<RelocationEntry>,
    e: RelocationEntry,
    seg: u16,
    b: Seq<u8>,
    hr: Result<ImageOS2Header, Error>,
    cache: Map<usize, Seq<char>>,
    self_name: Seq<char>,
)
    ensures
        e.segment_number == seg ==> exists|k: Seq<char>|
            #![trigger pad_left(k, 6)]
            crate::text::dec_text(
                k,
                rs.filter(|x: RelocationEntry| x.segment_number == seg).len() + 1int,
            ) && segment_reloc_lines(rs.push(e), seg, b, hr, cache, self_name)
                == segment_reloc_lines(rs, seg, b, hr, cache, self_name) + pad_left(k, 6) + ": "@
                + spec_wine_reloc_name(e) + " = "@ + spec_wine_reloc_target(
                e,
                b,
                hr,
                cache,
                self_name,
            ) + "\n"@,
        e.segment_number != seg ==> segment_reloc_lines(rs.push(e), seg, b, hr, cache, self_name)
            == segment_reloc_lines(rs, seg, b, hr, cache, self_name),
{
    assert(rs.push(e).drop_last() =~= rs);
    count_for_segment_counts_its_relocations(rs, seg);
    crate::text::dec_chars_reads_back(count_for_segment(rs, seg) + 1);
    let k = dec(count_for_segment(rs, seg) + 1);
    assert(crate::text::dec_text(
        k,
        rs.filter(|x: RelocationEntry| x.segment_number == seg).len() + 1int,
    ));
    let rs2 = rs.push(e);
    assert(rs2.last() == e);
    assert(rs2.drop_last() == rs);
    if e.segment_number == seg {
        let _ = pad_left(k, 6);
        assert(segment_reloc_lines(rs2, seg, b, hr, cache, self_name) == segment_reloc_lines(
            rs,
            seg,
            b,
            hr,
            cache,
            self_name,
        ) + pad_left(k, 6) + ": "@ + spec_wine_reloc_name(e) + " = "@ + spec_wine_reloc_target(
            e,
            b,
            hr,
            cache,
            self_name,
        ) + "\n"@);
    }
}

/// The winedump exports block shows a movable or fixed export by its
/// segment number in decimal, a colon, then its offset in four lowercase
/// hexadecimal digits, after the ordinal and before the name; a movable
/// entry's segment and offset are the bytes at 3 and the word at 4 of its
/// 6-byte record.
pub proof fn export_line_shows_segment_then_offset(
    ordinal: nat,
    flags: u8,
    seg_num: u8,
    offset: u16,
    name: Seq<char>,
    b: Seq<u8>,
    pos: int,
)
    ensures
        exists|x: Seq<char>, y: Seq<char>|
            #![trigger crate::text::dec_text(x, seg_num as int), crate::text::hex4_text(y, offset as int)]
            crate::text::dec_text(x, seg_num as int) && crate::text::hex4_text(y, offset as int)
                && crate::text::no_upper_hex(y) && export_line(
                ordinal,
                ExportEntry { flags, entry_type: EntryType::Movable { seg_num, offset } },
                name,
            ) == " "@ + pad_left(dec_chars(ordinal), 4) + " MOVABLE "@ + x + ":"@ + y + " "@
                + name + "\n"@ && export_line(
                ordinal,
                ExportEntry { flags, entry_type: EntryType::Fixed { seg_num, offset } },
                name,
            ) == " "@ + pad_left(dec_chars(ordinal), 4) + " FIXED   "@ + x + ":"@ + y + " "@
                + name + "\n"@,
        0 <= pos && pos + 6 <= b.len() ==> crate::types::entry::spec_export_at(b, pos, 0xFF)
            == Ok::<ExportEntry, Error>(
            ExportEntry {
                flags: b[pos],
                entry_type: EntryType::Movable {
                    seg_num: b[pos + 3],
                    offset: (b[pos + 4] + 256 * b[pos + 5]) as u16,
                },
            },
        ),
{
    crate::text::dec_chars_reads_back(seg_num as nat);
    crate::text::hex_chars_reads_back(offset as nat, 4, false);
    let x = dec_chars(seg_num as nat);
    let y = hex_chars(offset as nat, 4, false);
    assert(crate::text::dec_text(x, seg_num as int) && crate::text::hex4_text(y, offset as int));
}

/// A name-table entry's winedump line, when its name is text, shows its
/// ordinal (the entry's second part) in decimal, right-aligned in four
/// columns, then the name.
pub proof fn name_line_reads_back(e: (Seq<u8>, u16))
    ensures
        vstd::utf8::valid_utf8(e.0) ==> exists|x: Seq<char>|
            #![trigger crate::text::dec_text(x, e.1 as int)]
            crate::text::dec_text(x, e.1 as int) && name_line(e) == " "@ + pad_left(x, 4) + ": "@
                + vstd::utf8::decode_utf8(e.0) + "\n"@,
{
    crate::text::dec_chars_reads_back(e.1 as nat);
    let x = dec(e.1 as nat);
    assert(crate::text::dec_text(x, e.1 as int));
}

/// A resident name's row in the detailed report shows its ordinal as `0x`
/// and four uppercase hexadecimal digits, then its text.
pub proof fn resident_name_row_reads_back(e: (Seq<u8>, u16))
    ensures
        exists|o: Seq<char>|
            #![trigger crate::text::hex4_text(o, e.1 as int)]
            crate::text::hex4_text(o, e.1 as int) && crate::text::no_lower_hex(o)
                && resident_name_row(e) == "  0x"@ + o + "  "@ + text_or_question(e.0) + "\n"@,
{
    crate::text::hex_chars_reads_back(e.1 as nat, 4, true);
    let o = hex_up(e.1 as nat, 4);
    assert(crate::text::hex4_text(o, e.1 as int));
}

/// A relocation's row in the detailed report shows its number in decimal,
/// then its offset as `0x` and four uppercase hexadecimal digits, then its
/// address and relocation types and its target.
pub proof fn detailed_reloc_row_reads_back(
    n: nat,
    e: RelocationEntry,
    b: Seq<u8>,
    hr: Result<ImageOS2Header, Error>,
    cache: Map<usize, Seq<char>>,
)
    ensures
        exists|k: Seq<char>, o: Seq<char>|
            #![trigger crate::text::dec_text(k, n as int), crate::text::hex4_text(o, e.offset as int)]
            crate::text::dec_text(k, n as int) && crate::text::hex4_text(o, e.offset as int)
                && crate::text::no_lower_hex(o) && detailed_reloc_row(n, e, b, hr, cache) == "  ["@
                + pad_left(k, 4) + "]  0x"@ + o + "  "@ + pad_left(
                spec_address_type_name(e.address_type),
                10,
            ) + "  "@ + pad_left(spec_relocation_type_name(e.relocation_type), 13) + "  "@
                + spec_reloc_target_detail(e, b, hr, cache) + (if e.is_additive {
                " [+ADDITIVE]"@
            } else {
                ""@
            }) + "\n"@,
{
    crate::text::dec_chars_reads_back(n);
    crate::text::hex_chars_reads_back(e.offset as nat, 4, true);
    let k = dec(n);
    let o = hex_up(e.offset as nat, 4);
    assert(crate::text::dec_text(k, n as int));
    assert(crate::text::hex4_text(o, e.offset as int));
}

/// Each record line of the winedump resources block, after those of the
/// records before it, shows the type, the record's id, then its flags and
/// its length each in lowercase hexadecimal, under their labels and in
/// that order.
pub proof fn resource_record_line_reads_back(
    type_text: Seq<char>,
    rs: Seq<RecordView>,
    r: RecordView,
)
    ensures
        exists|f: Seq<char>, l: Seq<char>|
            #![trigger crate::text::hex_text(f, r.flags as int), crate::text::hex_text(l, r.length as int)]
            crate::text::hex_text(f, r.flags as int) && crate::text::hex_text(l, r.length as int)
                && crate::text::no_upper_hex(f) && crate::text::no_upper_hex(l)
                && resource_record_lines(type_text, rs.push(r)) == resource_record_lines(
                type_text,
                rs,
            ) + "  "@ + type_text + " name "@ + winedump_id_text(r.id) + " flags "@ + f
                + " length "@ + l + "\n"@,
{
    crate::text::hex_chars_reads_back(r.flags as nat, 4, false);
    crate::text::hex_chars_reads_back(r.length as nat, 4, false);
    assert(rs.push(r).drop_last() =~= rs);
    let f = hex_chars(r.flags as nat, 4, false);
    let l = hex_chars(r.length as nat, 4, false);
    assert(crate::text::hex_text(f, r.flags as int));
    assert(crate::text::hex_text(l, r.length as int));
}

/// A record's row in the detailed resources block shows its id, then its
/// offset and its length each as `0x` and uppercase hexadecimal digits, in
/// that order, then its flag names.
pub proof fn detailed_record_row_reads_back(r: RecordView)
    ensures
        exists|o: Seq<char>, l: Seq<char>|
            #![trigger crate::text::hex_text(o, r.offset as int), crate::text::hex_text(l, r.length as int)]
            crate::text::hex_text(o, r.offset as int) && crate::text::hex_text(l, r.length as int)
                && crate::text::no_lower_hex(o) && crate::text::no_lower_hex(l)
                && detailed_record_row(r) == "  "@ + detailed_id_text(r.id) + "  0x"@ + o + "  0x"@
                + l + "  "@ + spec_resource_flag_names(r.flags) + "\n"@,
{
    crate::text::hex_chars_reads_back(r.offset as nat, 6, true);
    crate::text::hex_chars_reads_back(r.length as nat, 4, true);
    let o = hex_up(r.offset as nat, 6);
    let l = hex_up(r.length as nat, 4);
    assert(crate::text::hex_text(o, r.offset as int));
    assert(crate::text::hex_text(l, r.length as int));
}

/// A segment's lines in the winedump report show its number in decimal,
/// then its file offset (the sector offset shifted by the alignment), its
/// length, its flags and its minimum allocation, each in lowercase
/// hexadecimal, under their labels and in that order.
pub proof fn segment_head_reads_back(n: nat, seg: SegmentRecord, shift: u32)
    ensures
        exists|a: Seq<char>, o: Seq<char>, l: Seq<char>, f: Seq<char>, m: Seq<char>|
            #![trigger crate::text::dec_text(a, n as int), crate::text::hex_text(o, ((seg.offset as u32) << shift) as int), crate::text::hex_text(l, seg.length as int), crate::text::hex_text(f, seg.flags as int), crate::text::hex_text(m, seg.minalloc as int)]
            crate::text::dec_text(a, n as int) && crate::text::hex_text(
                o,
                ((seg.offset as u32) << shift) as int,
            ) && crate::text::hex_text(l, seg.length as int) && crate::text::hex_text(
                f,
                seg.flags as int,
            ) && crate::text::hex_text(m, seg.minalloc as int) && crate::text::no_upper_hex(o)
                && crate::text::no_upper_hex(l) && crate::text::no_upper_hex(f)
                && crate::text::no_upper_hex(m) && segment_head(n, seg, shift) == "\nSegment "@ + a
                + ":\n"@ + "  File offset: "@ + o + "\n"@ + "  Length:      "@ + l + "\n"@
                + "  Flags:       "@ + f + " "@ + spec_wine_seg_flags(seg.flags) + "\n"@
                + "  Alloc size:  "@ + m + "\n"@,
{
    crate::text::dec_chars_reads_back(n);
    crate::text::hex_chars_reads_back(((seg.offset as u32) << shift) as nat, 8, false);
    crate::text::hex_chars_reads_back(seg.length as nat, 8, false);
    crate::text::hex_chars_reads_back(seg.flags as nat, 8, false);
    crate::text::hex_chars_reads_back(seg.minalloc as nat, 8, false);
    let a = dec(n);
    let o = hex_chars(((seg.offset as u32) << shift) as nat, 8, false);
    let l = hex_chars(seg.length as nat, 8, false);
    let f = hex_chars(seg.flags as nat, 8, false);
    let m = hex_chars(seg.minalloc as nat, 8, false);
    assert(crate::text::dec_text(a, n as int));
    assert(crate::text::hex_text(o, ((seg.offset as u32) << shift) as int));
    assert(crate::text::hex_text(l, seg.length as int));
    assert(crate::text::hex_text(f, seg.flags as int));
    assert(crate::text::hex_text(m, seg.minalloc as int));
}

/// A segment's object in the JSON report gives its number and flags in
/// decimal, and its offset, length and minimum allocation each as `0x` and
/// four uppercase hexadecimal digits, under their keys.
pub proof fn json_segment_reads_back(n: nat, seg: SegmentRecord)
    ensures
        exists|a: Seq<char>, o: Seq<char>, l: Seq<char>, f: Seq<char>, m: Seq<char>|
            #![trigger crate::text::dec_text(a, n as int), crate::text::hex4_text(o, seg.offset as int), crate::text::hex4_text(l, seg.length as int), crate::text::dec_text(f, seg.flags as int), crate::text::hex4_text(m, seg.minalloc as int)]
            crate::text::dec_text(a, n as int) && crate::text::hex4_text(o, seg.offset as int)
                && crate::text::hex4_text(l, seg.length as int) && crate::text::dec_text(
                f,
                seg.flags as int,
            ) && crate::text::hex4_text(m, seg.minalloc as int) && crate::text::no_lower_hex(o)
                && crate::text::no_lower_hex(l) && crate::text::no_lower_hex(m) && json_segment(
                n,
                seg,
            ) == "    {\"number\": "@ + a + ", \"offset\": \"0x"@ + o + "\", \"length\": \"0x"@ + l
                + "\", \"flags\": "@ + f + ", \"flags_str\": \""@ + segment_flag_text(seg.flags)
                + "\", \"minalloc\": \"0x"@ + m + "\"}"@,
{
    crate::text::dec_chars_reads_back(n);
    crate::text::hex_chars_reads_back(seg.offset as nat, 4, true);
    crate::text::hex_chars_reads_back(seg.length as nat, 4, true);
    crate::text::dec_chars_reads_back(seg.flags as nat);
    crate::text::hex_chars_reads_back(seg.minalloc as nat, 4, true);
    let a = dec(n);
    let o = hex_up(seg.offset as nat, 4);
    let l = hex_up(seg.length as nat, 4);
    let f = dec(seg.flags as nat);
    let m = hex_up(seg.minalloc as nat, 4);
    assert(crate::text::dec_text(a, n as int));
    assert(crate::text::hex4_text(o, seg.offset as int));
    assert(crate::text::hex4_text(l, seg.length as int));
    assert(crate::text::dec_text(f, seg.flags as int));
    assert(crate::text::hex4_text(m, seg.minalloc as int));
}

/// A segment's row in the detailed report shows its number (as a 16-bit
/// value) in decimal, its flag names, then its size (length), its offset
/// and its minimum allocation, each as `0x` and four uppercase hexadecimal
/// digits, in that order.
pub proof fn detailed_segment_row_reads_back(n: nat, seg: SegmentRecord)
    ensures
        exists|a: Seq<char>, l: Seq<char>, o: Seq<char>, m: Seq<char>|
            #![trigger crate::text::dec_text(a, n as u16 as int), crate::text::hex4_text(l, seg.length as int), crate::text::hex4_text(o, seg.offset as int), crate::text::hex4_text(m, seg.minalloc as int)]
            crate::text::dec_text(a, n as u16 as int) && crate::text::hex4_text(
                l,
                seg.length as int,
            ) && crate::text::hex4_text(o, seg.offset as int) && crate::text::hex4_text(
                m,
                seg.minalloc as int,
            ) && crate::text::no_lower_hex(l) && crate::text::no_lower_hex(o)
                && crate::text::no_lower_hex(m) && detailed_segment_row(n, seg) == "  "@ + pad_left(
                a,
                3,
            ) + "  "@ + pad_right(segment_flag_text(seg.flags), 28) + "  "@ + pad_right(
                "0x"@ + l,
                10,
            ) + "  "@ + pad_right("0x"@ + o, 10) + "  "@ + pad_right("0x"@ + m, 10) + "\n"@,
{
    crate::text::dec_chars_reads_back(n as u16 as nat);
    crate::text::hex_chars_reads_back(seg.offset as nat, 4, true);
    crate::text::hex_chars_reads_back(seg.length as nat, 4, true);
    crate::text::hex_chars_reads_back(seg.minalloc as nat, 4, true);
    let a = dec(n as u16 as nat);
    let o = hex_up(seg.offset as nat, 4);
    let l = hex_up(seg.length as nat, 4);
    let m = hex_up(seg.minalloc as nat, 4);
    assert(crate::text::dec_text(a, n as u16 as int));
    assert(crate::text::hex4_text(o, seg.offset as int));
    assert(crate::text::hex4_text(l, seg.length as int));
    assert(crate::text::hex4_text(m, seg.minalloc as int));
}

/// The lines of the detailed report's header, with the value of each line
/// (or each of its parts) in its slot of `t`, in the order they come.
pub open spec fn detailed_header_layout(t: Seq<Seq<char>>, v5: bool) -> Seq<char> {
    "  Signature:      0x"@ + t[0] + " (\"NE\")\n"@ + "  Linker Version: "@ + t[1] + "."@ + t[2]
        + "\n"@ + "  Entry Table:    0x"@ + t[3] + " (offset) / 0x"@ + t[4] + " (size)\n"@
        + "  Checksum:       0x"@ + t[5] + "\n"@ + "  Flags:          0x"@ + t[6] + "\n"@
        + "  Auto Data:      0x"@ + t[7] + "\n"@ + "  Heap Init:      0x"@ + t[8] + " ("@ + t[9]
        + " bytes)\n"@ + "  Stack Init:     0x"@ + t[10] + " ("@ + t[11] + " bytes)\n"@
        + "  CS:IP:          0x"@ + t[12] + ":0x"@ + t[13] + "\n"@ + "  SS:SP:          0x"@ + t[14]
        + ":0x"@ + t[15] + "\n"@ + "  Segments:       "@ + t[16] + "\n"@ + "  Module Refs:    "@
        + t[17] + "\n"@ + "  Non-Res Names:  "@ + t[18] + " bytes\n"@ + "  Exe Type:       "@
        + t[19] + "\n"@ + "  Alignment:      "@ + t[20] + " (shift="@ + t[21] + ")\n"@
        + "  Ret Thunk Off:  0x"@ + t[22] + "\n"@ + "  Seg Ref Bytes:  0x"@ + t[23] + "\n"@
        + if v5 {
        "  Swap Area:      0x"@ + t[24] + "\n"@ + "  Expected Ver:   "@ + t[25] + "."@ + t[26]
            + "\n"@
    } else {
        Seq::empty()
    }
}

/// The slots of `t` read back the header's fields: words in four uppercase
/// hexadecimal digits (the checksum in hexadecimal), versions, sizes,
/// counts and the alignment in decimal, and the executable type by name.
pub open spec fn detailed_header_values(t: Seq<Seq<char>>, h: ImageOS2Header) -> bool {
    &&& t.len() == 27
    &&& crate::text::hex4_text(t[0], h.signature as int)
    &&& crate::text::dec_text(t[1], h.linker_version as int)
    &&& crate::text::dec_text(t[2], h.linker_minor_version as int)
    &&& crate::text::hex4_text(t[3], h.entry_table_offset as int)
    &&& crate::text::hex4_text(t[4], h.entry_table_size as int)
    &&& crate::text::hex_text(t[5], h.checksum as int)
    &&& crate::text::hex4_text(t[6], h.flags as int)
    &&& crate::text::hex4_text(t[7], h.auto_data_sel as int)
    &&& crate::text::hex4_text(t[8], h.heap_init as int)
    &&& crate::text::dec_text(t[9], h.heap_init as int)
    &&& crate::text::hex4_text(t[10], h.stack_init as int)
    &&& crate::text::dec_text(t[11], h.stack_init as int)
    &&& crate::text::hex4_text(t[12], (h.csip >> 16u32) as int)
    &&& crate::text::hex4_text(t[13], (h.csip & 0xFFFFu32) as int)
    &&& crate::text::hex4_text(t[14], (h.sssp >> 16u32) as int)
    &&& crate::text::hex4_text(t[15], (h.sssp & 0xFFFFu32) as int)
    &&& crate::text::dec_text(t[16], h.seg_count as int)
    &&& crate::text::dec_text(t[17], h.mod_count as int)
    &&& crate::text::dec_text(t[18], h.non_res_name_size as int)
    &&& t[19] == exe_type_text(crate::headers::spec_exe_type(h.exe_type))
    &&& crate::text::dec_text(t[20], alignment_bytes_of(h.alignment) as int)
    &&& crate::text::dec_text(t[21], h.alignment as int)
    &&& crate::text::hex4_text(t[22], h.ret_thunk_offset as int)
    &&& crate::text::hex4_text(t[23], h.seg_ref_bytes_offset as int)
    &&& (h.spec_is_v5() ==> crate::text::hex4_text(t[24], h.swap_area as int)
        && crate::text::dec_text(t[25], h.expected_version as int / 256)
        && crate::text::dec_text(t[26], h.expected_version as int % 256))
    &&& forall|i: int|
        #![trigger t[i]]
        0 <= i <= 24 && (i == 0 || 3 <= i <= 8 || i == 10 || 12 <= i <= 15 || 22 <= i)
            ==> crate::text::no_lower_hex(t[i])
}

/// Each line of the detailed report's header shows the field that its
/// label names: the text is the header's layout with, in each slot, the
/// value that reads back that field.
pub proof fn detailed_header_lines_read_back(h: ImageOS2Header)
    ensures
        exists|t: Seq<Seq<char>>|
            #![trigger detailed_header_values(t, h)]
            detailed_header_values(t, h) && spec_detailed_header(h) == detailed_header_layout(
                t,
                h.spec_is_v5(),
            ),
{
    let csip = h.csip;
    let sssp = h.sssp;
    assert(csip >> 16 == csip / 65536 && csip & 0xFFFF == csip % 65536) by (bit_vector);
    assert(sssp >> 16 == sssp / 65536 && sssp & 0xFFFF == sssp % 65536) by (bit_vector);
    let t: Seq<Seq<char>> = seq![
        hex_up(h.signature as nat, 4),
        dec(h.linker_version as nat),
        dec(h.linker_minor_version as nat),
        hex_up(h.entry_table_offset as nat, 4),
        hex_up(h.entry_table_size as nat, 4),
        hex_up(h.checksum as nat, 8),
        hex_up(h.flags as nat, 4),
        hex_up(h.auto_data_sel as nat, 4),
        hex_up(h.heap_init as nat, 4),
        dec(h.heap_init as nat),
        hex_up(h.stack_init as nat, 4),
        dec(h.stack_init as nat),
        hex_up(h.csip as nat / 65536, 4),
        hex_up(h.csip as nat % 65536, 4),
        hex_up(h.sssp as nat / 65536, 4),
        hex_up(h.sssp as nat % 65536, 4),
        dec(h.seg_count as nat),
        dec(h.mod_count as nat),
        dec(h.non_res_name_size as nat),
        exe_type_text(crate::headers::spec_exe_type(h.exe_type)),
        dec(alignment_bytes_of(h.alignment)),
        dec(h.alignment as nat),
        hex_up(h.ret_thunk_offset as nat, 4),
        hex_up(h.seg_ref_bytes_offset as nat, 4),
        hex_up(h.swap_area as nat, 4),
        dec(h.expected_version as nat / 256),
        dec(h.expected_version as nat % 256),
    ];
    crate::text::hex_chars_reads_back(h.signature as nat, 4, true);
    crate::text::dec_chars_reads_back(h.linker_version as nat);
    crate::text::dec_chars_reads_back(h.linker_minor_version as nat);
    crate::text::hex_chars_reads_back(h.entry_table_offset as nat, 4, true);
    crate::text::hex_chars_reads_back(h.entry_table_size as nat, 4, true);
    crate::text::hex_chars_reads_back(h.checksum as nat, 8, true);
    crate::text::hex_chars_reads_back(h.flags as nat, 4, true);
    crate::text::hex_chars_reads_back(h.auto_data_sel as nat, 4, true);
    crate::text::hex_chars_reads_back(h.heap_init as nat, 4, true);
    crate::text::dec_chars_reads_back(h.heap_init as nat);
    crate::text::hex_chars_reads_back(h.stack_init as nat, 4, true);
    crate::text::dec_chars_reads_back(h.stack_init as nat);
    crate::text::hex_chars_reads_back(h.csip as nat / 65536, 4, true);
    crate::text::hex_chars_reads_back(h.csip as nat % 65536, 4, true);
    crate::text::hex_chars_reads_back(h.sssp as nat / 65536, 4, true);
    crate::text::hex_chars_reads_back(h.sssp as nat % 65536, 4, true);
    crate::text::dec_chars_reads_back(h.seg_count as nat);
    crate::text::dec_chars_reads_back(h.mod_count as nat);
    crate::text::dec_chars_reads_back(h.non_res_name_size as nat);
    crate::text::dec_chars_reads_back(alignment_bytes_of(h.alignment));
    crate::text::dec_chars_reads_back(h.alignment as nat);
    crate::text::hex_chars_reads_back(h.ret_thunk_offset as nat, 4, true);
    crate::text::hex_chars_reads_back(h.seg_ref_bytes_offset as nat, 4, true);
    crate::text::hex_chars_reads_back(h.swap_area as nat, 4, true);
    crate::text::dec_chars_reads_back(h.expected_version as nat / 256);
    crate::text::dec_chars_reads_back(h.expected_version as nat % 256);
    assert(detailed_header_values(t, h));
    assert(spec_detailed_header(h) == detailed_header_layout(t, h.spec_is_v5()));
}

/// An export's row in the detailed report shows `0x` and its ordinal in
/// uppercase hexadecimal, then, for an entry in a segment, the segment
/// number and the offset each in four uppercase hexadecimal digits, in that
/// order, then the name (`?` when none was found).
pub proof fn detailed_export_row_reads_back(
    ordinal: nat,
    flags: u8,
    seg_num: u8,
    offset: u16,
    name: Seq<char>,
)
    ensures
        exists|o: Seq<char>, g: Seq<char>, f: Seq<char>|
            #![trigger crate::text::hex_text(o, ordinal as int), crate::text::hex4_text(g, seg_num as int), crate::text::hex4_text(f, offset as int)]
            crate::text::hex_text(o, ordinal as int) && crate::text::hex4_text(g, seg_num as int)
                && crate::text::hex4_text(f, offset as int) && crate::text::no_lower_hex(g)
                && crate::text::no_lower_hex(f) && detailed_export_row(
                ordinal,
                ExportEntry { flags, entry_type: EntryType::Movable { seg_num, offset } },
                name,
            ) == "  0x"@ + o + "  "@ + g + "  "@ + f + "  "@ + (if name.len() == 0 {
                "?"@
            } else {
                name
            }) + "\n"@ && detailed_export_row(
                ordinal,
                ExportEntry { flags, entry_type: EntryType::Fixed { seg_num, offset } },
                name,
            ) == "  0x"@ + o + "  "@ + g + "  "@ + f + "  "@ + (if name.len() == 0 {
                "?"@
            } else {
                name
            }) + "\n"@,
{
    crate::text::hex_chars_reads_back(ordinal, 4, true);
    crate::text::hex_chars_reads_back(seg_num as nat, 4, true);
    crate::text::hex_chars_reads_back(offset as nat, 4, true);
    let o = hex_up(ordinal, 4);
    let g = hex_up(seg_num as nat, 4);
    let f = hex_up(offset as nat, 4);
    assert(crate::text::hex_text(o, ordinal as int));
    assert(crate::text::hex4_text(g, seg_num as int));
    assert(crate::text::hex4_text(f, offset as int));
}

/// The lines of the winedump file header, with the value of each line in
/// its slot of `t`, in the order in which the lines come.
pub open spec fn winedump_header_layout(t: Seq<Seq<char>>, v5: bool) -> Seq<char> {
    "File header:\n"@ + "Linker version:      "@ + t[0] + "."@ + t[1] + "\n"@
        + "Entry table:         "@ + t[2] + " len "@ + t[3] + "\n"@ + "Checksum:            "@
        + t[4] + "\n"@ + "Flags:               "@ + t[5] + "\n"@ + "Auto data segment:   "@
        + t[6] + "\n"@ + "Heap size:           "@ + t[7] + " bytes\n"@
        + "Stack size:          "@ + t[8] + " bytes\n"@ + "Stack pointer:       "@ + t[9] + ":"@
        + t[10] + "\n"@ + "Entry point:         "@ + t[11] + ":"@ + t[12] + "\n"@
        + "Number of segments:  "@ + t[13] + "\n"@ + "Number of modrefs:   "@ + t[14] + "\n"@
        + "Segment table:       "@ + t[15] + "\n"@ + "Resource table:      "@ + t[16] + "\n"@
        + "Resident name table: "@ + t[17] + "\n"@ + "Module table:        "@ + t[18] + "\n"@
        + "Import table:        "@ + t[19] + "\n"@ + "Non-resident table:  "@ + t[20] + "\n"@
        + "Exe type:            "@ + t[21] + "\n"@ + "Other flags:         "@ + t[22] + "\n"@
        + "Fast load area:      "@ + t[23] + "-"@ + t[24] + "\n"@ + if v5 {
        "Expected version:    "@ + t[25] + "."@ + t[26] + "\n"@
    } else {
        Seq::empty()
    }
}

/// The slots of `t` read back the header's fields: versions, sizes and
/// counts in decimal, offsets, flags and pointers in lowercase
/// hexadecimal (the flags and the pointers' offsets in four digits).
pub open spec fn winedump_header_values(t: Seq<Seq<char>>, h: ImageOS2Header) -> bool {
    let fast_start = ((h.ret_thunk_offset as u32) << (h.alignment as u32)) as int;
    let fast_end = ((((h.ret_thunk_offset as u32) + (h.seg_ref_bytes_offset as u32)) as u32) << (
    h.alignment as u32)) as int;
    &&& t.len() == 27
    &&& crate::text::dec_text(t[0], h.linker_version as int)
    &&& crate::text::dec_text(t[1], h.linker_minor_version as int)
    &&& crate::text::hex_text(t[2], h.entry_table_offset as int)
    &&& crate::text::dec_text(t[3], h.entry_table_size as int)
    &&& crate::text::hex_text(t[4], h.checksum as int)
    &&& crate::text::hex4_text(t[5], h.flags as int)
    &&& crate::text::hex_text(t[6], h.auto_data_sel as int)
    &&& crate::text::dec_text(t[7], h.heap_init as int)
    &&& crate::text::dec_text(t[8], h.stack_init as int)
    &&& crate::text::hex_text(t[9], (h.sssp >> 16u32) as int)
    &&& crate::text::hex4_text(t[10], (h.sssp & 0xFFFFu32) as int)
    &&& crate::text::hex_text(t[11], (h.csip >> 16u32) as int)
    &&& crate::text::hex4_text(t[12], (h.csip & 0xFFFFu32) as int)
    &&& crate::text::dec_text(t[13], h.seg_count as int)
    &&& crate::text::dec_text(t[14], h.mod_count as int)
    &&& crate::text::hex_text(t[15], h.seg_table_offset as int)
    &&& crate::text::hex_text(t[16], h.resource_table_offset as int)
    &&& crate::text::hex_text(t[17], h.res_name_table_offset as int)
    &&& crate::text::hex_text(t[18], h.mod_table_offset as int)
    &&& crate::text::hex_text(t[19], h.imported_names_table_offset as int)
    &&& crate::text::hex_text(t[20], h.non_res_name_table_offset as int)
    &&& crate::text::hex_text(t[21], h.exe_type as int)
    &&& crate::text::hex_text(t[22], h.other_flags as int)
    &&& crate::text::hex_text(t[23], fast_start)
    &&& crate::text::hex_text(t[24], fast_end)
    &&& (h.spec_is_v5() ==> crate::text::dec_text(t[25], h.expected_version as int / 256)
        && crate::text::dec_text(t[26], h.expected_version as int % 256))
    &&& forall|i: int|
        #![trigger t[i]]
        2 <= i <= 24 && i != 3 && i != 7 && i != 8 && i != 13 && i != 14
            ==> crate::text::no_upper_hex(t[i])
}

/// Each line of the winedump file header shows the field that its label
/// names: the text is the header's layout with, in each line, the value
/// that reads back that field.
pub proof fn winedump_header_lines_read_back(h: ImageOS2Header)
    ensures
        exists|t: Seq<Seq<char>>|
            #![trigger winedump_header_values(t, h)]
            winedump_header_values(t, h) && spec_winedump_header(h) == winedump_header_layout(
                t,
                h.spec_is_v5(),
            ),
{
    let csip = h.csip;
    let sssp = h.sssp;
    assert(csip >> 16 == csip / 65536 && csip & 0xFFFF == csip % 65536) by (bit_vector);
    assert(sssp >> 16 == sssp / 65536 && sssp & 0xFFFF == sssp % 65536) by (bit_vector);
    let pret = h.ret_thunk_offset as u32;
    let segref = h.seg_ref_bytes_offset as u32;
    let shift = h.alignment as u32;
    let t: Seq<Seq<char>> = seq![
        dec(h.linker_version as nat),
        dec(h.linker_minor_version as nat),
        hx(h.entry_table_offset as nat),
        dec(h.entry_table_size as nat),
        hex_chars(h.checksum as nat, 8, false),
        hex_chars(h.flags as nat, 4, false),
        hx(h.auto_data_sel as nat),
        dec(h.heap_init as nat),
        dec(h.stack_init as nat),
        hx(h.sssp as nat / 65536),
        hex_chars(h.sssp as nat % 65536, 4, false),
        hx(h.csip as nat / 65536),
        hex_chars(h.csip as nat % 65536, 4, false),
        dec(h.seg_count as nat),
        dec(h.mod_count as nat),
        hx(h.seg_table_offset as nat),
        hx(h.resource_table_offset as nat),
        hx(h.res_name_table_offset as nat),
        hx(h.mod_table_offset as nat),
        hx(h.imported_names_table_offset as nat),
        hx(h.non_res_name_table_offset as nat),
        hx(h.exe_type as nat),
        hx(h.other_flags as nat),
        hx((pret << shift) as nat),
        hx((((pret + segref) as u32) << shift) as nat),
        dec(h.expected_version as nat / 256),
        dec(h.expected_version as nat % 256),
    ];
    crate::text::dec_chars_reads_back(h.linker_version as nat);
    crate::text::dec_chars_reads_back(h.linker_minor_version as nat);
    crate::text::hex_chars_reads_back(h.entry_table_offset as nat, 1, false);
    crate::text::dec_chars_reads_back(h.entry_table_size as nat);
    crate::text::hex_chars_reads_back(h.checksum as nat, 8, false);
    crate::text::hex_chars_reads_back(h.flags as nat, 4, false);
    crate::text::hex_chars_reads_back(h.auto_data_sel as nat, 1, false);
    crate::text::dec_chars_reads_back(h.heap_init as nat);
    crate::text::dec_chars_reads_back(h.stack_init as nat);
    crate::text::hex_chars_reads_back(h.sssp as nat / 65536, 1, false);
    crate::text::hex_chars_reads_back(h.sssp as nat % 65536, 4, false);
    crate::text::hex_chars_reads_back(h.csip as nat / 65536, 1, false);
    crate::text::hex_chars_reads_back(h.csip as nat % 65536, 4, false);
    crate::text::dec_chars_reads_back(h.seg_count as nat);
    crate::text::dec_chars_reads_back(h.mod_count as nat);
    crate::text::hex_chars_reads_back(h.seg_table_offset as nat, 1, false);
    crate::text::hex_chars_reads_back(h.resource_table_offset as nat, 1, false);
    crate::text::hex_chars_reads_back(h.res_name_table_offset as nat, 1, false);
    crate::text::hex_chars_reads_back(h.mod_table_offset as nat, 1, false);
    crate::text::hex_chars_reads_back(h.imported_names_table_offset as nat, 1, false);
    crate::text::hex_chars_reads_back(h.non_res_name_table_offset as nat, 1, false);
    crate::text::hex_chars_reads_back(h.exe_type as nat, 1, false);
    crate::text::hex_chars_reads_back(h.other_flags as nat, 1, false);
    crate::text::hex_chars_reads_back((pret << shift) as nat, 1, false);
    crate::text::hex_chars_reads_back((((pret + segref) as u32) << shift) as nat, 1, false);
    crate::text::dec_chars_reads_back(h.expected_version as nat / 256);
    crate::text::dec_chars_reads_back(h.expected_version as nat % 256);
    assert(winedump_header_values(t, h));
    assert(spec_winedump_header(h) == winedump_header_layout(t, h.spec_is_v5()));
}

/// The first header fields of the JSON report, with the value of each in
/// its slot of `t`, in the order they come.
pub open spec fn json_header_start_layout(basename: Seq<char>, t: Seq<Seq<char>>) -> Seq<char> {
    "{\n  \"file\": \""@ + spec_json_escape(basename) + "\",\n  \"header\": {\n    \"signature\": \"0x"@
        + t[0] + "\",\n    \"linker_version\": \""@ + t[1] + "."@ + t[2]
        + "\",\n    \"entry_table\": {\n      \"offset\": \"0x"@ + t[3]
        + "\",\n      \"size\": \"0x"@ + t[4] + "\"\n    },\n    \"checksum\": \"0x"@ + t[5]
        + "\",\n    \"flags\": \"0x"@ + t[6] + "\",\n    \"auto_data\": \"0x"@ + t[7]
        + "\",\n    \"heap_init\": \"0x"@ + t[8] + "\",\n    \"stack_init\": \"0x"@ + t[9]
}

/// The slots of `t` read back the first header fields: the two linker
/// version bytes in decimal, the others as four uppercase hexadecimal
/// digits (the checksum as eight).
pub open spec fn json_header_start_values(t: Seq<Seq<char>>, h: ImageOS2Header) -> bool {
    &&& t.len() == 10
    &&& crate::text::hex4_text(t[0], h.signature as int)
    &&& crate::text::dec_text(t[1], h.linker_version as int)
    &&& crate::text::dec_text(t[2], h.linker_minor_version as int)
    &&& crate::text::hex4_text(t[3], h.entry_table_offset as int)
    &&& crate::text::hex4_text(t[4], h.entry_table_size as int)
    &&& crate::text::hex_text(t[5], h.checksum as int) && t[5].len() >= 8
    &&& crate::text::hex4_text(t[6], h.flags as int)
    &&& crate::text::hex4_text(t[7], h.auto_data_sel as int)
    &&& crate::text::hex4_text(t[8], h.heap_init as int)
    &&& crate::text::hex4_text(t[9], h.stack_init as int)
    &&& forall|i: int|
        #![trigger t[i]]
        0 <= i < 10 && i != 1 && i != 2 ==> crate::text::no_lower_hex(t[i])
}

/// Each of the first header fields of the JSON report shows the field
/// that its key names.
pub proof fn json_header_start_reads_back(basename: Seq<char>, h: ImageOS2Header)
    ensures
        exists|t: Seq<Seq<char>>|
            #![trigger json_header_start_values(t, h)]
            json_header_start_values(t, h) && json_header_start(basename, h)
                == json_header_start_layout(basename, t),
{
    let t: Seq<Seq<char>> = seq![
        hex_up(h.signature as nat, 4),
        dec(h.linker_version as nat),
        dec(h.linker_minor_version as nat),
        hex_up(h.entry_table_offset as nat, 4),
        hex_up(h.entry_table_size as nat, 4),
        hex_up(h.checksum as nat, 8),
        hex_up(h.flags as nat, 4),
        hex_up(h.auto_data_sel as nat, 4),
        hex_up(h.heap_init as nat, 4),
        hex_up(h.stack_init as nat, 4),
    ];
    crate::text::hex_chars_reads_back(h.signature as nat, 4, true);
    crate::text::dec_chars_reads_back(h.linker_version as nat);
    crate::text::dec_chars_reads_back(h.linker_minor_version as nat);
    crate::text::hex_chars_reads_back(h.entry_table_offset as nat, 4, true);
    crate::text::hex_chars_reads_back(h.entry_table_size as nat, 4, true);
    crate::text::hex_chars_reads_back(h.checksum as nat, 8, true);
    crate::text::hex_chars_reads_back(h.flags as nat, 4, true);
    crate::text::hex_chars_reads_back(h.auto_data_sel as nat, 4, true);
    crate::text::hex_chars_reads_back(h.heap_init as nat, 4, true);
    crate::text::hex_chars_reads_back(h.stack_init as nat, 4, true);
    assert(json_header_start_values(t, h));
    assert(json_header_start(basename, h) == json_header_start_layout(basename, t));
}

/// The `tables` object of the JSON report gives each table's offset under
/// its key, as `0x` and uppercase hexadecimal digits (four, and eight for
/// the non-resident names).
pub proof fn json_tables_read_back(h: ImageOS2Header)
    ensures
        exists|a: Seq<char>, b: Seq<char>, c: Seq<char>, d: Seq<char>, e: Seq<char>, f: Seq<char>|
            #![trigger crate::text::hex4_text(a, h.seg_table_offset as int), crate::text::hex4_text(b, h.resource_table_offset as int), crate::text::hex4_text(c, h.res_name_table_offset as int), crate::text::hex4_text(d, h.mod_table_offset as int), crate::text::hex4_text(e, h.imported_names_table_offset as int), crate::text::hex_text(f, h.non_res_name_table_offset as int)]
            crate::text::hex4_text(a, h.seg_table_offset as int) && crate::text::hex4_text(
                b,
                h.resource_table_offset as int,
            ) && crate::text::hex4_text(c, h.res_name_table_offset as int)
                && crate::text::hex4_text(d, h.mod_table_offset as int) && crate::text::hex4_text(
                e,
                h.imported_names_table_offset as int,
            ) && crate::text::hex_text(f, h.non_res_name_table_offset as int) && f.len() >= 8
                && crate::text::no_lower_hex(a) && crate::text::no_lower_hex(b)
                && crate::text::no_lower_hex(c) && crate::text::no_lower_hex(d)
                && crate::text::no_lower_hex(e) && crate::text::no_lower_hex(f) && json_tables(h)
                == "\n  \"tables\": {\n    \"segment\": \"0x"@ + a + "\",\n    \"resource\": \"0x"@
                + b + "\",\n    \"resident_names\": \"0x"@ + c + "\",\n    \"module_refs\": \"0x"@
                + d + "\",\n    \"imported_names\": \"0x"@ + e
                + "\",\n    \"non_resident_names\": \"0x"@ + f + "\"\n  },"@,
{
    crate::text::hex_chars_reads_back(h.seg_table_offset as nat, 4, true);
    crate::text::hex_chars_reads_back(h.resource_table_offset as nat, 4, true);
    crate::text::hex_chars_reads_back(h.res_name_table_offset as nat, 4, true);
    crate::text::hex_chars_reads_back(h.mod_table_offset as nat, 4, true);
    crate::text::hex_chars_reads_back(h.imported_names_table_offset as nat, 4, true);
    crate::text::hex_chars_reads_back(h.non_res_name_table_offset as nat, 8, true);
    let a = hex_up(h.seg_table_offset as nat, 4);
    let b = hex_up(h.resource_table_offset as nat, 4);
    let c = hex_up(h.res_name_table_offset as nat, 4);
    let d = hex_up(h.mod_table_offset as nat, 4);
    let e = hex_up(h.imported_names_table_offset as nat, 4);
    let f = hex_up(h.non_res_name_table_offset as nat, 8);
    assert(crate::text::hex4_text(a, h.seg_table_offset as int));
    assert(crate::text::hex4_text(b, h.resource_table_offset as int));
    assert(crate::text::hex4_text(c, h.res_name_table_offset as int));
    assert(crate::text::hex4_text(d, h.mod_table_offset as int));
    assert(crate::text::hex4_text(e, h.imported_names_table_offset as int));
    assert(crate::text::hex_text(f, h.non_res_name_table_offset as int));
}

/// The `summary` object of the JSON report gives the segment, module,
/// export and resource type counts in decimal, under their keys, in that
/// order.
pub proof fn json_summary_reads_back(
    segment_count: nat,
    module_count: nat,
    export_count: nat,
    resource_type_count: nat,
    is_dll: bool,
)
    ensures
        exists|a: Seq<char>, b: Seq<char>, c: Seq<char>, d: Seq<char>|
            #![trigger crate::text::dec_text(a, segment_count as int), crate::text::dec_text(b, module_count as int), crate::text::dec_text(c, export_count as int), crate::text::dec_text(d, resource_type_count as int)]
            crate::text::dec_text(a, segment_count as int) && crate::text::dec_text(
                b,
                module_count as int,
            ) && crate::text::dec_text(c, export_count as int) && crate::text::dec_text(
                d,
                resource_type_count as int,
            ) && json_summary(segment_count, module_count, export_count, resource_type_count, is_dll)
                == "\n  \"summary\": {\n    \"segment_count\": "@ + a + ",\n    \"module_count\": "@
                + b + ",\n    \"export_count\": "@ + c + ",\n    \"resource_type_count\": "@ + d
                + ",\n    \"is_dll\": "@ + bool_text(is_dll) + "\n  },"@,
{
    crate::text::dec_chars_reads_back(segment_count);
    crate::text::dec_chars_reads_back(module_count);
    crate::text::dec_chars_reads_back(export_count);
    crate::text::dec_chars_reads_back(resource_type_count);
    let a = dec(segment_count);
    let b = dec(module_count);
    let c = dec(export_count);
    let d = dec(resource_type_count);
    assert(crate::text::dec_text(a, segment_count as int));
    assert(crate::text::dec_text(b, module_count as int));
    assert(crate::text::dec_text(c, export_count as int));
    assert(crate::text::dec_text(d, resource_type_count as int));
}

/// The JSON header gives `csip` and `sssp` each as `0x`, the segment (the
/// high word) in four uppercase hexadecimal digits, `:0x`, then the offset
/// (the low word) in four uppercase hexadecimal digits; then the segment
/// and module counts in decimal.
pub proof fn json_header_pointers_read_back(h: ImageOS2Header)
    ensures
        exists|a: Seq<char>, b: Seq<char>, c: Seq<char>, d: Seq<char>, e: Seq<char>, f: Seq<char>|
            #![trigger crate::text::hex4_text(a, (h.csip >> 16u32) as int), crate::text::hex4_text(b, (h.csip & 0xFFFFu32) as int), crate::text::hex4_text(c, (h.sssp >> 16u32) as int), crate::text::hex4_text(d, (h.sssp & 0xFFFFu32) as int), crate::text::dec_text(e, h.seg_count as int), crate::text::dec_text(f, h.mod_count as int)]
            crate::text::hex4_text(a, (h.csip >> 16u32) as int) && crate::text::hex4_text(
                b,
                (h.csip & 0xFFFFu32) as int,
            ) && crate::text::hex4_text(c, (h.sssp >> 16u32) as int) && crate::text::hex4_text(
                d,
                (h.sssp & 0xFFFFu32) as int,
            ) && crate::text::no_lower_hex(a) && crate::text::no_lower_hex(b)
                && crate::text::no_lower_hex(c) && crate::text::no_lower_hex(d)
                && crate::text::dec_text(e, h.seg_count as int) && crate::text::dec_text(
                f,
                h.mod_count as int,
            ) && json_header_mid(h) == "\",\n    \"csip\": \"0x"@ + a + ":0x"@ + b
                + "\",\n    \"sssp\": \"0x"@ + c + ":0x"@ + d + "\",\n    \"segment_count\": "@ + e
                + ",\n    \"module_count\": "@ + f,
{
    let csip = h.csip;
    let sssp = h.sssp;
    assert(csip >> 16 == csip / 65536 && csip & 0xFFFF == csip % 65536) by (bit_vector);
    assert(sssp >> 16 == sssp / 65536 && sssp & 0xFFFF == sssp % 65536) by (bit_vector);
    crate::text::hex_chars_reads_back(h.csip as nat / 65536, 4, true);
    crate::text::hex_chars_reads_back(h.csip as nat % 65536, 4, true);
    crate::text::hex_chars_reads_back(h.sssp as nat / 65536, 4, true);
    crate::text::hex_chars_reads_back(h.sssp as nat % 65536, 4, true);
    crate::text::dec_chars_reads_back(h.seg_count as nat);
    crate::text::dec_chars_reads_back(h.mod_count as nat);
    let a = hex_up(h.csip as nat / 65536, 4);
    let b = hex_up(h.csip as nat % 65536, 4);
    let c = hex_up(h.sssp as nat / 65536, 4);
    let d = hex_up(h.sssp as nat % 65536, 4);
    let e = dec(h.seg_count as nat);
    let f = dec(h.mod_count as nat);
    assert(crate::text::hex4_text(a, (h.csip >> 16u32) as int));
    assert(crate::text::hex4_text(b, (h.csip & 0xFFFFu32) as int));
    assert(crate::text::hex4_text(c, (h.sssp >> 16u32) as int));
    assert(crate::text::hex4_text(d, (h.sssp & 0xFFFFu32) as int));
    assert(crate::text::dec_text(e, h.seg_count as int));
    assert(crate::text::dec_text(f, h.mod_count as int));
}

/// The winedump file header shows the entry point (`csip`) and the initial
/// stack pointer (`sssp`) each on a line of its own: the segment (the high
/// word) in hexadecimal, a colon, then the offset (the low word) in four
/// lowercase hexadecimal digits.
#[verifier::rlimit(100)]
#[verifier::spinoff_prover]
pub proof fn winedump_header_shows_segment_then_offset(h: ImageOS2Header)
    ensures
        exists|p: Seq<char>, x: Seq<char>, y: Seq<char>, q: Seq<char>|
            #![trigger crate::text::hex_text(x, (h.csip >> 16u32) as int), crate::text::hex4_text(y, (h.csip & 0xFFFFu32) as int), p + q]
            spec_winedump_header(h) == p + "Entry point:         "@ + x + ":"@ + y + "\n"@ + q
                && p.len() > 0 && p.last() == '\n' && crate::text::hex_text(x, (h.csip >> 16u32) as int)
                && crate::text::hex4_text(y, (h.csip & 0xFFFFu32) as int) && crate::text::no_upper_hex(x)
                && crate::text::no_upper_hex(y),
        exists|p: Seq<char>, x: Seq<char>, y: Seq<char>, q: Seq<char>|
            #![trigger crate::text::hex_text(x, (h.sssp >> 16u32) as int), crate::text::hex4_text(y, (h.sssp & 0xFFFFu32) as int), p + q]
            spec_winedump_header(h) == p + "Stack pointer:       "@ + x + ":"@ + y + "\n"@ + q
                && p.len() > 0 && p.last() == '\n' && crate::text::hex_text(x, (h.sssp >> 16u32) as int)
                && crate::text::hex4_text(y, (h.sssp & 0xFFFFu32) as int) && crate::text::no_upper_hex(x)
                && crate::text::no_upper_hex(y),
{
    let csip = h.csip;
    let sssp = h.sssp;
    assert(csip >> 16 == csip / 65536 && csip & 0xFFFF == csip % 65536) by (bit_vector);
    assert(sssp >> 16 == sssp / 65536 && sssp & 0xFFFF == sssp % 65536) by (bit_vector);
    crate::text::hex_chars_reads_back(h.csip as nat / 65536, 1, false);
    crate::text::hex_chars_reads_back(h.csip as nat % 65536, 4, false);
    crate::text::hex_chars_reads_back(h.sssp as nat / 65536, 1, false);
    crate::text::hex_chars_reads_back(h.sssp as nat % 65536, 4, false);
    reveal_strlit("\n");
    let full = spec_winedump_header(h);
    let head = "File header:\n"@ + "Linker version:      "@ + dec(h.linker_version as nat) + "."@
        + dec(h.linker_minor_version as nat) + "\n"@ + "Entry table:         "@ + hx(
        h.entry_table_offset as nat,
    ) + " len "@ + dec(h.entry_table_size as nat) + "\n"@ + "Checksum:            "@
        + hex_chars(h.checksum as nat, 8, false) + "\n"@ + "Flags:               "@ + hex_chars(
        h.flags as nat,
        4,
        false,
    ) + "\n"@ + "Auto data segment:   "@ + hx(h.auto_data_sel as nat) + "\n"@
        + "Heap size:           "@ + dec(h.heap_init as nat) + " bytes\n"@
        + "Stack size:          "@ + dec(h.stack_init as nat) + " bytes\n"@;
    let sp_x = hx(h.sssp as nat / 65536);
    let sp_y = hex_chars(h.sssp as nat % 65536, 4, false);
    let ep_x = hx(h.csip as nat / 65536);
    let ep_y = hex_chars(h.csip as nat % 65536, 4, false);
    let sp_end = head + "Stack pointer:       "@ + sp_x + ":"@ + sp_y + "\n"@;
    let ep_end = sp_end + "Entry point:         "@ + ep_x + ":"@ + ep_y + "\n"@;
    assert(full.subrange(0, ep_end.len() as int) =~= ep_end);
    assert(full.subrange(0, sp_end.len() as int) =~= sp_end) by {
        assert(ep_end.subrange(0, sp_end.len() as int) =~= sp_end);
    }
    let q1 = full.subrange(ep_end.len() as int, full.len() as int);
    assert(full =~= ep_end + q1);
    assert(sp_end.last() == '\n');
    assert(crate::text::hex_text(ep_x, (h.csip >> 16u32) as int));
    assert(crate::text::hex4_text(ep_y, (h.csip & 0xFFFFu32) as int));
    let _ = sp_end + q1;
    let q2 = full.subrange(sp_end.len() as int, full.len() as int);
    assert(full =~= sp_end + q2);
    assert(head.last() == '\n') by {
        reveal_strlit(" bytes\n");
    }
    assert(crate::text::hex_text(sp_x, (h.sssp >> 16u32) as int));
    assert(crate::text::hex4_text(sp_y, (h.sssp & 0xFFFFu32) as int));
    let _ = head + q2;
}

/// The segment flags that the detailed and JSON reports name are the
/// segment flag constants of the same names, with their bits.
pub proof fn segment_flag_names_are_the_flag_constants()
    ensures
        segment_flag_table() == seq![
            ("DATA", SegmentFlags::DATA),
            ("MOVEABLE", SegmentFlags::MOVEABLE),
            ("SHAREABLE", SegmentFlags::SHAREABLE),
            ("PRELOAD", SegmentFlags::PRELOAD),
            ("DISCARDABLE", SegmentFlags::DISCARDABLE),
            ("READONLY", SegmentFlags::READONLY),
            ("RELOC_DATA", SegmentFlags::RELOC_DATA),
            ("SELFLOAD", SegmentFlags::SELFLOAD),
        ],
{
}

/// The record count of the resources block is the number of records of
/// all the types together.
pub proof fn total_records_counts_all_records(ts: Seq<TypeInfoView>)
    ensures
        total_records(ts) == ts.map_values(|t: TypeInfoView| t.records).flatten().len(),
    decreases ts.len(),
{
    let m = ts.map_values(|t: TypeInfoView| t.records);
    m.lemma_flatten_and_flatten_alt_are_equivalent();
    if ts.len() > 0 {
        total_records_counts_all_records(ts.drop_last());
        let m2 = ts.drop_last().map_values(|t: TypeInfoView| t.records);
        assert(m.drop_last() =~= m2);
        m2.lemma_flatten_and_flatten_alt_are_equivalent();
    }
}

/// The resources block of the detailed report opens with the number of
/// types, then the number of records of all types together, then the
/// alignment shift, each in decimal and in that order.
pub proof fn detailed_resources_counts_read_back(shift: u16, ts: Seq<TypeInfoView>)
    requires
        ts.len() > 0,
        ts.map_values(|t: TypeInfoView| t.records).flatten().len() <= usize::MAX,
    ensures
        exists|a: Seq<char>, b: Seq<char>, c: Seq<char>|
            #![trigger crate::text::dec_text(a, ts.len() as int), crate::text::dec_text(c, shift as int), b + c]
            crate::text::dec_text(a, ts.len() as int) && crate::text::dec_text(
                b,
                ts.map_values(|t: TypeInfoView| t.records).flatten().len() as int,
            ) && crate::text::dec_text(c, shift as int) && spec_detailed_resources(
                Ok::<(u16, Seq<TypeInfoView>), Error>((shift, ts)),
            ) == Some(
                "  "@ + a + " resource type(s), "@ + b + " entry(s), alignment shift = "@ + c
                    + "\n\n"@ + detailed_type_blocks(ts),
            ),
{
    total_records_counts_all_records(ts);
    crate::text::dec_chars_reads_back(ts.len());
    crate::text::dec_chars_reads_back(total_records(ts));
    crate::text::dec_chars_reads_back(shift as nat);
    let a = dec(ts.len());
    let b = dec(total_records(ts));
    let c = dec(shift as nat);
    assert(crate::text::dec_text(a, ts.len() as int));
    assert(crate::text::dec_text(c, shift as int));
    let _ = b + c;
}

/// The exports block numbers its lines by ordinal slot, from 1: a slot
/// that holds an export adds that export's line with ordinal one more than
/// the slots before it (and the name found for that ordinal); an unused
/// slot adds nothing.
pub proof fn export_lines_number_slots_from_one(
    es: Seq<Option<ExportEntry>>,
    e: ExportEntry,
    resident: Seq<(Seq<u8>, u16)>,
    non_resident: Seq<(Seq<u8>, u16)>,
)
    ensures
        export_lines(es.push(Some(e)), resident, non_resident) == export_lines(
            es,
            resident,
            non_resident,
        ) + export_line(
            es.len() + 1,
            e,
            spec_wine_export_name(resident, non_resident, (es.len() + 1) as u16),
        ),
        export_lines(es.push(None), resident, non_resident) == export_lines(
            es,
            resident,
            non_resident,
        ),
{
    assert(es.push(Some(e)).drop_last() =~= es);
    assert(es.push(None::<ExportEntry>).drop_last() =~= es);
}

/// The exports table of the detailed report numbers its rows by ordinal
/// slot, from 1, as the winedump exports block does.
pub proof fn detailed_export_rows_number_slots_from_one(
    es: Seq<Option<ExportEntry>>,
    e: ExportEntry,
    resident: Seq<(Seq<u8>, u16)>,
    non_resident: Seq<(Seq<u8>, u16)>,
)
    ensures
        detailed_export_rows(es.push(Some(e)), resident, non_resident) == detailed_export_rows(
            es,
            resident,
            non_resident,
        ) + detailed_export_row(
            es.len() + 1,
            e,
            spec_wine_export_name(resident, non_resident, (es.len() + 1) as u16),
        ),
        detailed_export_rows(es.push(None), resident, non_resident) == detailed_export_rows(
            es,
            resident,
            non_resident,
        ),
{
    assert(es.push(Some(e)).drop_last() =~= es);
    assert(es.push(None::<ExportEntry>).drop_last() =~= es);
}

} // verus!
