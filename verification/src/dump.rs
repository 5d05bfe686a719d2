//! The text of the relocation dump: per file a title, the segments, and
//! per relocation its description, its fixup chain and its raw record.

use vstd::prelude::*;
use vstd::string::StringExecFns;

use crate::codec::addressable;
use crate::describe::{
    addr_name, reloc_raw_bytes, spec_addr_name, spec_reloc_bytes, spec_target_str, target_str,
};
use crate::headers::{ImageOS2Header, SegmentRecord};
use crate::ne::{segment_data_addressable, segment_data_defined, spec_logical_to_offset, NE};
use crate::text::{dec_chars, hex_chars, pad_left, push_dec, push_dec_aligned, push_hex};
use crate::types::reloc::spec_chain;
use crate::types::{ModuleRefTable, RelocationEntry};
use crate::Error;

verus! {

/// Chain links as `0xHHHH`, separated by spaces.
pub open spec fn chain_text(links: Seq<u16>) -> Seq<char>
    decreases links.len(),
{
    if links.len() == 0 {
        Seq::empty()
    } else if links.len() == 1 {
        "0x"@ + hex_chars(links[0] as nat, 4, true)
    } else {
        chain_text(links.drop_last()) + " 0x"@ + hex_chars(links.last() as nat, 4, true)
    }
}

/// Bytes as `HH`, separated by spaces.
pub open spec fn raw_text(raw: Seq<u8>) -> Seq<char>
    decreases raw.len(),
{
    if raw.len() == 0 {
        Seq::empty()
    } else if raw.len() == 1 {
        hex_chars(raw[0] as nat, 2, true)
    } else {
        raw_text(raw.drop_last()) + " "@ + hex_chars(raw.last() as nat, 2, true)
    }
}

/// The file offset of segment `num`'s data, 0 when it cannot be had.
pub open spec fn dump_seg_base(b: Seq<u8>, hr: Result<ImageOS2Header, Error>, num: u16) -> usize {
    match spec_logical_to_offset(b, hr, num, 0) {
        Ok(v) => v,
        Err(_) => 0,
    }
}

/// The length of segment `num` in `segs`, 0 when there is no such
/// segment.
pub open spec fn dump_seg_len(segs: Seq<SegmentRecord>, num: u16) -> nat {
    if 1 <= num && num - 1 < segs.len() {
        segs[num - 1].length as nat
    } else {
        0
    }
}

/// The chain from `offset` through the `len` bytes at `base`; empty when
/// those bytes lie outside the buffer or the chain cannot be followed.
pub open spec fn dump_links(b: Seq<u8>, base: int, len: int, offset: u16) -> Seq<u16> {
    let d = if base + len <= b.len() {
        b.subrange(base, base + len)
    } else {
        Seq::empty()
    };
    match spec_chain(d, offset, 0) {
        Ok(links) => links,
        Err(_) => Seq::empty(),
    }
}

/// The two lines of relocation number `n`: its address type (` add` when
/// additive), target and chain, then its raw record, segment and the
/// segment's file offset.
pub open spec fn dump_entry_text(
    n: nat,
    entry: RelocationEntry,
    target: Seq<char>,
    links: Seq<u16>,
    base: nat,
) -> Seq<char> {
    "  Entry "@ + pad_left(dec_chars(n), 2) + ": "@ + spec_addr_name(entry.address_type) + if entry.is_additive {
        " add"@
    } else {
        ""@
    } + " = "@ + target + "  chain=["@ + chain_text(links) + "]\n"@ + "                 raw: "@
        + raw_text(spec_reloc_bytes(entry)) + "  (seg "@ + dec_chars(entry.segment_number as nat)
        + " @ 0x"@ + hex_chars(base, 4, true) + ")\n"@
}

/// The lines of relocation `i` (0-based) of the dump; `None` when its
/// segment cannot be located or the segment's end does not fit in
/// `usize`. A segment number that names no segment (0 among them) has no
/// data: file offset 0 and an empty chain.
pub open spec fn spec_dump_entry(
    i: nat,
    entry: RelocationEntry,
    b: Seq<u8>,
    hr: Result<ImageOS2Header, Error>,
    segs: Seq<SegmentRecord>,
    offsets: Seq<u16>,
) -> Option<Seq<char>> {
    let num = entry.segment_number;
    if !segment_data_defined(b, hr, num) {
        None
    } else {
        let base = dump_seg_base(b, hr, num);
        let len = dump_seg_len(segs, num);
        if base + len > usize::MAX {
            None
        } else {
            Some(
                dump_entry_text(
                    i + 1,
                    entry,
                    spec_target_str(entry, b, hr, offsets),
                    dump_links(b, base as int, len as int, entry.offset),
                    base as nat,
                ),
            )
        }
    }
}

fn push_chain(out: &mut String, links: &Vec<u16>)
    ensures
        final(out)@ == old(out)@ + chain_text(links@),
{
    let ghost head = out@;
    let ghost l = links@;
    let mut i: usize = 0;
    proof {
        assert(l.subrange(0, 0) =~= Seq::<u16>::empty());
        assert(out@ =~= head + chain_text(l.subrange(0, 0)));
    }
    while i < links.len()
        invariant
            l == links@,
            i <= l.len(),
            out@ == head + chain_text(l.subrange(0, i as int)),
        decreases l.len() - i,
    {
        proof {
            assert(l.subrange(0, i + 1).drop_last() =~= l.subrange(0, i as int));
            assert(l.subrange(0, i + 1).last() == l[i as int]);
        }
        if i > 0 {
            out.append(" 0x");
        } else {
            assert(l.subrange(0, i + 1)[0] == l[0]);
            out.append("0x");
        }
        push_hex(out, links[i] as u64, 4, true);
        i = i + 1;
    }
    assert(l.subrange(0, i as int) =~= l);
}

fn push_raw(out: &mut String, raw: &[u8; 8])
    ensures
        final(out)@ == old(out)@ + raw_text(raw@),
{
    let ghost head = out@;
    let ghost l = raw@;
    let mut i: usize = 0;
    proof {
        assert(l.subrange(0, 0) =~= Seq::<u8>::empty());
        assert(out@ =~= head + raw_text(l.subrange(0, 0)));
    }
    while i < 8
        invariant
            l == raw@,
            l.len() == 8,
            i <= 8,
            out@ == head + raw_text(l.subrange(0, i as int)),
        decreases 8 - i,
    {
        proof {
            assert(l.subrange(0, i + 1).drop_last() =~= l.subrange(0, i as int));
            assert(l.subrange(0, i + 1).last() == l[i as int]);
        }
        if i > 0 {
            out.append(" ");
        } else {
            assert(l.subrange(0, i + 1)[0] == l[0]);
            assert(out@ =~= out@ + ""@) by {
                reveal_strlit("");
            }
        }
        push_hex(out, raw[i] as u64, 2, true);
        i = i + 1;
    }
    assert(l.subrange(0, i as int) =~= l);
}

/// The lines of relocation `i` (0-based) of the dump.
pub fn dump_entry<P: NE>(
    i: usize,
    entry: &RelocationEntry,
    ne: &P,
    segs: &[SegmentRecord],
    mod_table: &ModuleRefTable,
) -> (r: Option<String>)
    requires
        addressable(ne.bytes()),
        i < usize::MAX,
    ensures
        r is None <==> spec_dump_entry(
            i as nat,
            *entry,
            ne.bytes(),
            ne.spec_valid_ne_header(),
            segs@,
            mod_table.offsets@,
        ) is None,
        r matches Some(s) ==> spec_dump_entry(
            i as nat,
            *entry,
            ne.bytes(),
            ne.spec_valid_ne_header(),
            segs@,
            mod_table.offsets@,
        ) == Some(s@),
{
    let num = entry.segment_number;
    if !segment_data_addressable(ne, num) {
        return None;
    }
    let base: usize = match ne.logical_to_offset(num, 0) {
        Ok(v) => v,
        Err(_) => 0,
    };
    let len: usize = if num >= 1 && ((num - 1) as usize) < segs.len() {
        segs[(num - 1) as usize].length as usize
    } else {
        0
    };
    if base > usize::MAX - len {
        return None;
    }
    let links: Vec<u16> = match ne.get_slice(base, len) {
        Ok(data) => match entry.resolve_chain(data) {
            Ok(l) => l,
            Err(_) => Vec::new(),
        },
        Err(_) => Vec::new(),
    };
    let ghost want = dump_links(ne.bytes(), base as int, len as int, entry.offset);
    assert(links@ =~= want);
    let target = target_str(entry, ne, mod_table);
    let mut out = String::from_str("  Entry ");
    push_dec_aligned(&mut out, (i + 1) as u64, 2);
    out.append(": ");
    let a = addr_name(entry.address_type);
    out.append(a.as_str());
    if entry.is_additive {
        out.append(" add");
    } else {
        out.append("");
    }
    out.append(" = ");
    out.append(target.as_str());
    out.append("  chain=[");
    push_chain(&mut out, &links);
    out.append("]\n");
    out.append("                 raw: ");
    let raw = reloc_raw_bytes(entry);
    push_raw(&mut out, &raw);
    out.append("  (seg ");
    push_dec(&mut out, num as u64);
    out.append(" @ 0x");
    push_hex(&mut out, base as u64, 4, true);
    out.append(")\n");
    Some(out)
}

/// The title of a file's dump: its path, then its version, segment count
/// and alignment (as shift and as bytes).
pub open spec fn spec_dump_title(path: Seq<char>, h: ImageOS2Header) -> Seq<char> {
    "\n=== "@ + path + " ===\n"@ + "NE v"@ + (if h.spec_is_v5() {
        "NE v5 (Windows 3.1)"@
    } else {
        "NE v4 (OS/2)"@
    }) + ", seg_count="@ + dec_chars(
        h.seg_count as nat,
    ) + ", align=2^"@ + pad_left(dec_chars(h.alignment as nat), 2) + " ("@ + dec_chars(
        (1u32 << h.alignment as u32) as nat,
    ) + ")\n"@
}

/// The title of a file's dump shows the segment count in decimal, then
/// the alignment shift in decimal and the alignment in bytes (two to the
/// shift, as a 32-bit value) in decimal.
pub proof fn dump_title_reads_back(path: Seq<char>, h: ImageOS2Header)
    ensures
        exists|c: Seq<char>, a: Seq<char>, z: Seq<char>|
            #![trigger crate::text::dec_text(c, h.seg_count as int), crate::text::dec_text(a, h.alignment as int), crate::text::dec_text(z, (1u32 << h.alignment as u32) as int)]
            crate::text::dec_text(c, h.seg_count as int) && crate::text::dec_text(
                a,
                h.alignment as int,
            ) && crate::text::dec_text(z, (1u32 << h.alignment as u32) as int) && spec_dump_title(
                path,
                h,
            ) == "\n=== "@ + path + " ===\n"@ + "NE v"@ + (if h.spec_is_v5() {
                "NE v5 (Windows 3.1)"@
            } else {
                "NE v4 (OS/2)"@
            }) + ", seg_count="@ + c + ", align=2^"@ + pad_left(a, 2) + " ("@ + z + ")\n"@,
{
    crate::text::dec_chars_reads_back(h.seg_count as nat);
    crate::text::dec_chars_reads_back(h.alignment as nat);
    crate::text::dec_chars_reads_back((1u32 << h.alignment as u32) as nat);
    let c = dec_chars(h.seg_count as nat);
    let a = dec_chars(h.alignment as nat);
    let z = dec_chars((1u32 << h.alignment as u32) as nat);
    assert(crate::text::dec_text(c, h.seg_count as int));
    assert(crate::text::dec_text(a, h.alignment as int));
    assert(crate::text::dec_text(z, (1u32 << h.alignment as u32) as int));
}

/// The lines of a relocation in the dump show its number (from 1), then,
/// after its target, chain and raw bytes, the number of its segment in
/// decimal and the segment's file offset as `0x` and four or more
/// uppercase hexadecimal digits, in that order.
pub proof fn dump_entry_text_reads_back(
    n: nat,
    entry: RelocationEntry,
    target: Seq<char>,
    links: Seq<u16>,
    base: nat,
)
    ensures
        exists|k: Seq<char>, g: Seq<char>, o: Seq<char>|
            #![trigger crate::text::dec_text(k, n as int), crate::text::dec_text(g, entry.segment_number as int), crate::text::hex_text(o, base as int)]
            crate::text::dec_text(k, n as int) && crate::text::dec_text(
                g,
                entry.segment_number as int,
            ) && crate::text::hex_text(o, base as int) && crate::text::no_lower_hex(o)
                && dump_entry_text(n, entry, target, links, base) == "  Entry "@ + pad_left(k, 2)
                + ": "@ + spec_addr_name(entry.address_type) + (if entry.is_additive {
                " add"@
            } else {
                ""@
            }) + " = "@ + target + "  chain=["@ + chain_text(links) + "]\n"@
                + "                 raw: "@ + raw_text(spec_reloc_bytes(entry)) + "  (seg "@ + g
                + " @ 0x"@ + o + ")\n"@,
{
    crate::text::dec_chars_reads_back(n);
    crate::text::dec_chars_reads_back(entry.segment_number as nat);
    crate::text::hex_chars_reads_back(base, 4, true);
    let k = dec_chars(n);
    let g = dec_chars(entry.segment_number as nat);
    let o = hex_chars(base, 4, true);
    assert(crate::text::dec_text(k, n as int));
    assert(crate::text::dec_text(g, entry.segment_number as int));
    assert(crate::text::hex_text(o, base as int));
}

/// The title of a file's dump. The alignment shift must be below 32.
pub fn dump_title(path: &str, h: &ImageOS2Header) -> (r: String)
    requires
        h.alignment < 32,
    ensures
        r@ == spec_dump_title(path@, *h),
{
    let mut out = String::from_str("\n=== ");
    out.append(path);
    out.append(" ===\n");
    out.append("NE v");
    out.append(h.version());
    out.append(", seg_count=");
    push_dec(&mut out, h.seg_count as u64);
    out.append(", align=2^");
    push_dec_aligned(&mut out, h.alignment as u64, 2);
    out.append(" (");
    let bytes: u32 = 1u32 << (h.alignment as u32);
    push_dec(&mut out, bytes as u64);
    out.append(")\n");
    out
}

/// The line of segment number `num` of the dump: its file offset (0 when
/// it cannot be had), length and flags; `None` when it cannot be located.
pub open spec fn spec_dump_segment_line(
    b: Seq<u8>,
    hr: Result<ImageOS2Header, Error>,
    num: u16,
    seg: SegmentRecord,
) -> Option<Seq<char>> {
    if !segment_data_defined(b, hr, num) {
        None
    } else {
        Some(
            "  Segment "@ + dec_chars(num as nat) + ": file 0x"@ + hex_chars(
                dump_seg_base(b, hr, num) as nat,
                4,
                true,
            ) + ", len 0x"@ + hex_chars(seg.length as nat, 4, true) + ", flags 0x"@ + hex_chars(
                seg.flags as nat,
                4,
                true,
            ) + "\n"@,
        )
    }
}

/// A segment's line of the dump shows its number in decimal, then its
/// file offset, its length and its flags each as `0x` and four or more
/// uppercase hexadecimal digits, in that order.
pub proof fn dump_segment_line_reads_back(
    b: Seq<u8>,
    hr: Result<ImageOS2Header, Error>,
    num: u16,
    seg: SegmentRecord,
)
    ensures
        segment_data_defined(b, hr, num) ==> exists|
            a: Seq<char>,
            o: Seq<char>,
            l: Seq<char>,
            f: Seq<char>,
        |
            #![trigger crate::text::dec_text(a, num as int), crate::text::hex_text(o, dump_seg_base(b, hr, num) as int), crate::text::hex_text(l, seg.length as int), crate::text::hex_text(f, seg.flags as int)]
            crate::text::dec_text(a, num as int) && crate::text::hex_text(
                o,
                dump_seg_base(b, hr, num) as int,
            ) && crate::text::hex_text(l, seg.length as int) && crate::text::hex_text(
                f,
                seg.flags as int,
            ) && crate::text::no_lower_hex(o) && crate::text::no_lower_hex(l)
                && crate::text::no_lower_hex(f) && spec_dump_segment_line(b, hr, num, seg) == Some(
                "  Segment "@ + a + ": file 0x"@ + o + ", len 0x"@ + l + ", flags 0x"@ + f + "\n"@,
            ),
{
    crate::text::dec_chars_reads_back(num as nat);
    crate::text::hex_chars_reads_back(dump_seg_base(b, hr, num) as nat, 4, true);
    crate::text::hex_chars_reads_back(seg.length as nat, 4, true);
    crate::text::hex_chars_reads_back(seg.flags as nat, 4, true);
    let a = dec_chars(num as nat);
    let o = hex_chars(dump_seg_base(b, hr, num) as nat, 4, true);
    let l = hex_chars(seg.length as nat, 4, true);
    let f = hex_chars(seg.flags as nat, 4, true);
    assert(crate::text::dec_text(a, num as int));
    assert(crate::text::hex_text(o, dump_seg_base(b, hr, num) as int));
    assert(crate::text::hex_text(l, seg.length as int));
    assert(crate::text::hex_text(f, seg.flags as int));
}

/// The line of segment number `num` of the dump.
pub fn dump_segment_line<P: NE>(ne: &P, num: u16, seg: &SegmentRecord) -> (r: Option<String>)
    requires
        addressable(ne.bytes()),
    ensures
        r is None <==> spec_dump_segment_line(ne.bytes(), ne.spec_valid_ne_header(), num, *seg)
            is None,
        r matches Some(s) ==> spec_dump_segment_line(
            ne.bytes(),
            ne.spec_valid_ne_header(),
            num,
            *seg,
        ) == Some(s@),
{
    if !segment_data_addressable(ne, num) {
        return None;
    }
    let base: usize = match ne.logical_to_offset(num, 0) {
        Ok(v) => v,
        Err(_) => 0,
    };
    let mut out = String::from_str("  Segment ");
    push_dec(&mut out, num as u64);
    out.append(": file 0x");
    push_hex(&mut out, base as u64, 4, true);
    out.append(", len 0x");
    push_hex(&mut out, seg.length as u64, 4, true);
    out.append(", flags 0x");
    push_hex(&mut out, seg.flags as u64, 4, true);
    out.append("\n");
    Some(out)
}

} // verus!
