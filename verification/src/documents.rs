//! Whole texts of the tools: the detailed report with all its sections,
//! and the relocation dump of one file, each as what goes to standard
//! output and what goes to standard error.

use vstd::prelude::*;
use vstd::string::StringExecFns;

use crate::codec::addressable;
use crate::dump::{
    dump_entry, dump_segment_line, dump_title, spec_dump_entry, spec_dump_segment_line,
    spec_dump_title,
};
use crate::error::error_message;
use crate::headers::{ImageOS2Header, SegmentRecord};
use crate::imports::{detailed_imports, spec_detailed_imports};
use crate::ne::{spec_segment_table, NE};
use crate::report::{
    detailed_exports, detailed_header, detailed_relocations, detailed_resources,
    detailed_segments, detailed_tables, section_title, spec_detailed_exports,
    spec_detailed_header, spec_detailed_relocations, spec_detailed_resources,
    spec_detailed_segments, spec_detailed_tables, spec_section_title,
};
use crate::text::dec_chars;
use crate::types::names::spec_module_refs;
use crate::types::reloc::{reloc_blocks_addressable, relocs_defined, spec_relocation_table};
use crate::types::resource::spec_resource_table;
use crate::types::{ModuleRefTable, RelocationEntry, RelocationTable};
use crate::Error;

verus! {

/// A section of the detailed report: its title, its body, a blank line.
pub open spec fn section(basename: Seq<char>, name: Seq<char>, body: Seq<char>) -> Seq<char> {
    spec_section_title(basename, name) + body + "\n"@
}

/// The segments section's body and its error text.
pub open spec fn segments_parts(b: Seq<u8>, hr: Result<ImageOS2Header, Error>) -> (
    Seq<char>,
    Seq<char>,
) {
    match spec_segment_table(b, hr) {
        Ok(t) => (spec_detailed_segments(t), Seq::empty()),
        Err(e) => (Seq::empty(), "  Error: "@ + error_message(e) + "\n"@),
    }
}

/// The relocations section's body and its error text.
pub open spec fn relocation_parts(r: Result<Seq<char>, Error>) -> (Seq<char>, Seq<char>) {
    match r {
        Ok(s) => (s, Seq::empty()),
        Err(e) => (Seq::empty(), "  Error: "@ + error_message(e) + "\n"@),
    }
}

/// The detailed report of an image whose header is `h`, as its standard
/// output and its standard error: the sections HEADER, SEGMENTS, EXPORTS,
/// IMPORTS, RESOURCES, RELOCATIONS and TABLES, each titled with the file's
/// name and followed by a blank line but the last; a segment table or
/// relocation table that cannot be read gives its error on standard error.
/// `None` when the imports, resources or relocations block has none.
pub open spec fn spec_detailed_report(
    basename: Seq<char>,
    b: Seq<u8>,
    hr: Result<ImageOS2Header, Error>,
    h: ImageOS2Header,
) -> Option<(Seq<char>, Seq<char>)> {
    if !relocs_defined(b, hr) {
        None
    } else {
        match (
            spec_detailed_imports(b, hr),
            spec_detailed_resources(spec_resource_table(b, hr)),
            spec_detailed_relocations(b, hr),
        ) {
            (Some(imports), Some(resources), Some(relocs)) => {
                let (segs, segs_err) = segments_parts(b, hr);
                let (rel, rel_err) = relocation_parts(relocs);
                Some(
                    (
                        section(basename, "HEADER"@, spec_detailed_header(h)) + section(
                            basename,
                            "SEGMENTS"@,
                            segs,
                        ) + section(basename, "EXPORTS"@, spec_detailed_exports(b, hr)) + section(
                            basename,
                            "IMPORTS"@,
                            imports,
                        ) + section(basename, "RESOURCES"@, resources) + section(
                            basename,
                            "RELOCATIONS"@,
                            rel,
                        ) + spec_section_title(basename, "TABLES"@) + spec_detailed_tables(b, hr),
                        segs_err + rel_err,
                    ),
                )
            },
            _ => None,
        }
    }
}

/// Appends a section: its title, `body` and a blank line.
fn push_section(out: &mut String, basename: &str, name: &str, body: &str)
    ensures
        final(out)@ == old(out)@ + section(basename@, name@, body@),
{
    let t = section_title(basename, name);
    let mut s = t;
    s.append(body);
    s.append("\n");
    out.append(s.as_str());
}

/// The detailed report of an image whose header is `h`.
#[verifier::rlimit(40)]
pub fn detailed_report<P: NE>(basename: &str, ne: &P, h: &ImageOS2Header) -> (r: Option<
    (String, String),
>)
    requires
        addressable(ne.bytes()),
    ensures
        r is None <==> spec_detailed_report(basename@, ne.bytes(), ne.spec_valid_ne_header(), *h)
            is None,
        r matches Some((o, e)) ==> spec_detailed_report(
            basename@,
            ne.bytes(),
            ne.spec_valid_ne_header(),
            *h,
        ) == Some((o@, e@)),
{
    if !reloc_blocks_addressable(ne) {
        return None;
    }
    let imports = match detailed_imports(ne) {
        Some(s) => s,
        None => return None,
    };
    let resources = match detailed_resources(ne) {
        Some(s) => s,
        None => return None,
    };
    let relocs = match detailed_relocations(ne) {
        Some(r) => r,
        None => return None,
    };
    let mut out = String::new();
    let mut err = String::new();
    let header = detailed_header(h);
    push_section(&mut out, basename, "HEADER", header.as_str());
    match ne.get_segment_table() {
        Ok(segments) => {
            let body = detailed_segments(segments.as_slice());
            push_section(&mut out, basename, "SEGMENTS", body.as_str());
        },
        Err(e) => {
            push_section(&mut out, basename, "SEGMENTS", "");
            err.append("  Error: ");
            let m = e.message();
            err.append(m.as_str());
            err.append("\n");
        },
    }
    let exports = detailed_exports(ne);
    push_section(&mut out, basename, "EXPORTS", exports.as_str());
    push_section(&mut out, basename, "IMPORTS", imports.as_str());
    push_section(&mut out, basename, "RESOURCES", resources.as_str());
    match relocs {
        Ok(s) => push_section(&mut out, basename, "RELOCATIONS", s.as_str()),
        Err(e) => {
            push_section(&mut out, basename, "RELOCATIONS", "");
            err.append("  Error: ");
            let m = e.message();
            err.append(m.as_str());
            err.append("\n");
        },
    }
    let title = section_title(basename, "TABLES");
    out.append(title.as_str());
    let tables = detailed_tables(ne);
    out.append(tables.as_str());
    proof {
        reveal_strlit("");
        reveal_strlit("  Error: ");
        reveal_strlit("\n");
    }
    assert(err@ =~= segments_parts(ne.bytes(), ne.spec_valid_ne_header()).1 + relocation_parts(
        spec_detailed_relocations(ne.bytes(), ne.spec_valid_ne_header())->0,
    ).1);
    Some((out, err))
}

/// The lines of the first `n` segments of `segs` in the relocation dump;
/// `None` when one of them cannot be located.
pub open spec fn dump_segment_lines(
    b: Seq<u8>,
    hr: Result<ImageOS2Header, Error>,
    segs: Seq<SegmentRecord>,
    n: nat,
) -> Option<Seq<char>>
    decreases n,
{
    if n == 0 {
        Some(Seq::empty())
    } else {
        match (
            dump_segment_lines(b, hr, segs, (n - 1) as nat),
            spec_dump_segment_line(b, hr, n as u16, segs[n - 1]),
        ) {
            (Some(a), Some(l)) => Some(a + l),
            _ => None,
        }
    }
}

/// The lines of the first `n` relocations of `rs` in the relocation dump;
/// `None` when one of them cannot be printed.
pub open spec fn dump_entry_lines(
    rs: Seq<RelocationEntry>,
    b: Seq<u8>,
    hr: Result<ImageOS2Header, Error>,
    segs: Seq<SegmentRecord>,
    offsets: Seq<u16>,
    n: nat,
) -> Option<Seq<char>>
    decreases n,
{
    if n == 0 {
        Some(Seq::empty())
    } else {
        match (
            dump_entry_lines(rs, b, hr, segs, offsets, (n - 1) as nat),
            spec_dump_entry((n - 1) as nat, rs[n - 1], b, hr, segs, offsets),
        ) {
            (Some(a), Some(l)) => Some(a + l),
            _ => None,
        }
    }
}

/// The relocation dump of the file at `path`, whose header is `h`, as its
/// standard output and its standard error: the title; then, when the
/// segment table reads, `(no segments)` or a line per segment; then, when
/// the relocation table reads, its size and the lines of each relocation
/// (module names from the module reference table, none when it cannot be
/// read). A table that cannot be read ends the dump with its error.
/// `None` when a segment or relocation cannot be located or printed.
pub open spec fn spec_dump_image(
    path: Seq<char>,
    b: Seq<u8>,
    hr: Result<ImageOS2Header, Error>,
    h: ImageOS2Header,
) -> Option<(Seq<char>, Seq<char>)> {
    let title = spec_dump_title(path, h);
    match spec_segment_table(b, hr) {
        Err(e) => Some(
            (
                title,
                "Error getting segment table from "@ + path + ": "@ + error_message(e) + "\n"@,
            ),
        ),
        Ok(segs) => if segs.len() == 0 {
            Some((title + "  (no segments)\n"@, Seq::empty()))
        } else {
            match dump_segment_lines(b, hr, segs, segs.len()) {
                None => None,
                Some(lines) => if !relocs_defined(b, hr) {
                    None
                } else {
                    match spec_relocation_table(b, hr) {
                        Err(e) => Some(
                            (
                                title + lines,
                                "Error parsing relocations from "@ + path + ": "@ + error_message(
                                    e,
                                ) + "\n"@,
                            ),
                        ),
                        Ok(rs) => {
                            let offsets = match spec_module_refs(b, hr) {
                                Ok(o) => o,
                                Err(_) => Seq::empty(),
                            };
                            match dump_entry_lines(rs, b, hr, segs, offsets, rs.len()) {
                                None => None,
                                Some(entries) => Some(
                                    (
                                        title + lines + "Relocation entries: "@ + dec_chars(
                                            rs.len(),
                                        ) + "\n"@ + entries,
                                        Seq::empty(),
                                    ),
                                ),
                            }
                        },
                    }
                },
            }
        },
    }
}

/// The relocation dump of the file at `path`, whose header is `h`. The
/// alignment shift must be below 32.
pub fn dump_image<P: NE>(path: &str, ne: &P, h: &ImageOS2Header) -> (r: Option<(String, String)>)
    requires
        addressable(ne.bytes()),
        h.alignment < 32,
    ensures
        r is None <==> spec_dump_image(path@, ne.bytes(), ne.spec_valid_ne_header(), *h) is None,
        r matches Some((o, e)) ==> spec_dump_image(
            path@,
            ne.bytes(),
            ne.spec_valid_ne_header(),
            *h,
        ) == Some((o@, e@)),
{
    let ghost b = ne.bytes();
    let ghost hr = ne.spec_valid_ne_header();
    let mut out = dump_title(path, h);
    let segs = match ne.get_segment_table() {
        Ok(s) => s,
        Err(e) => {
            let mut err = String::from_str("Error getting segment table from ");
            err.append(path);
            err.append(": ");
            let m = e.message();
            err.append(m.as_str());
            err.append("\n");
            return Some((out, err));
        },
    };
    if segs.len() == 0 {
        out.append("  (no segments)\n");
        return Some((out, String::new()));
    }
    let ghost t = segs@;
    let ghost head = out@;
    let mut i: usize = 0;
    while i < segs.len()
        invariant
            t == segs@,
            b == ne.bytes(),
            hr == ne.spec_valid_ne_header(),
            addressable(b),
            spec_segment_table(b, hr) == Ok::<Seq<SegmentRecord>, Error>(t),
            t.len() > 0,
            i <= t.len(),
            dump_segment_lines(b, hr, t, i as nat) matches Some(l) && out@ == head + l,
        decreases t.len() - i,
    {
        let line = match dump_segment_line(ne, (i + 1) as u16, &segs[i]) {
            Some(l) => l,
            None => {
                proof {
                    lemma_segment_lines_stay_none(b, hr, t, (i + 1) as nat, t.len());
                }
                return None;
            },
        };
        out.append(line.as_str());
        i = i + 1;
    }
    if !reloc_blocks_addressable(ne) {
        return None;
    }
    let table = match RelocationTable::parse(ne) {
        Ok(t) => t,
        Err(e) => {
            let mut err = String::from_str("Error parsing relocations from ");
            err.append(path);
            err.append(": ");
            let m = e.message();
            err.append(m.as_str());
            err.append("\n");
            return Some((out, err));
        },
    };
    out.append("Relocation entries: ");
    crate::text::push_dec(&mut out, table.entries.len() as u64);
    out.append("\n");
    let mod_table = match ModuleRefTable::parse(ne) {
        Ok(m) => m,
        Err(_) => ModuleRefTable { offsets: Vec::new(), count: 0 },
    };
    let ghost offsets = mod_table.offsets@;
    assert(offsets == match spec_module_refs(b, hr) {
        Ok(o) => o,
        Err(_) => Seq::<u16>::empty(),
    });
    let ghost rs = table.entries@;
    let ghost mid = out@;
    let mut k: usize = 0;
    while k < table.entries.len()
        invariant
            rs == table.entries@,
            t == segs@,
            b == ne.bytes(),
            hr == ne.spec_valid_ne_header(),
            addressable(b),
            offsets == mod_table.offsets@,
            offsets == match spec_module_refs(b, hr) {
                Ok(o) => o,
                Err(_) => Seq::<u16>::empty(),
            },
            spec_segment_table(b, hr) == Ok::<Seq<SegmentRecord>, Error>(t),
            t.len() > 0,
            dump_segment_lines(b, hr, t, t.len()) is Some,
            relocs_defined(b, hr),
            spec_relocation_table(b, hr) == Ok::<Seq<RelocationEntry>, Error>(rs),
            k <= rs.len(),
            dump_entry_lines(rs, b, hr, t, offsets, k as nat) matches Some(l) && out@ == mid + l,
        decreases rs.len() - k,
    {
        let lines = match dump_entry(k, &table.entries[k], ne, segs.as_slice(), &mod_table) {
            Some(l) => l,
            None => {
                proof {
                    lemma_entry_lines_stay_none(rs, b, hr, t, offsets, (k + 1) as nat, rs.len());
                }
                return None;
            },
        };
        out.append(lines.as_str());
        k = k + 1;
    }
    Some((out, String::new()))
}

proof fn lemma_segment_lines_stay_none(
    b: Seq<u8>,
    hr: Result<ImageOS2Header, Error>,
    segs: Seq<SegmentRecord>,
    n: nat,
    m: nat,
)
    requires
        n <= m,
        dump_segment_lines(b, hr, segs, n) is None,
    ensures
        dump_segment_lines(b, hr, segs, m) is None,
    decreases m - n,
{
    if n < m {
        lemma_segment_lines_stay_none(b, hr, segs, n + 1, m);
    }
}

proof fn lemma_entry_lines_stay_none(
    rs: Seq<RelocationEntry>,
    b: Seq<u8>,
    hr: Result<ImageOS2Header, Error>,
    segs: Seq<SegmentRecord>,
    offsets: Seq<u16>,
    n: nat,
    m: nat,
)
    requires
        n <= m,
        dump_entry_lines(rs, b, hr, segs, offsets, n) is None,
    ensures
        dump_entry_lines(rs, b, hr, segs, offsets, m) is None,
    decreases m - n,
{
    if n < m {
        lemma_entry_lines_stay_none(rs, b, hr, segs, offsets, n + 1, m);
    }
}

} // verus!
