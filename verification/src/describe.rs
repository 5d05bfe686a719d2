//! Textual descriptions of NE records as the inspection tools print them:
//! flag names, relocation and resource type names, and JSON string
//! escaping.

use vstd::prelude::*;
use vstd::string::{StrSliceExecFns, StringExecFns};

use std::collections::HashMap;

use crate::codec::addressable;
use crate::ne::{spec_table_offset, HeaderTable, NE};
use crate::text::{dec_chars, hex_chars, push_dec, push_hex};
use crate::types::names::{
    names_view, spec_import_ordinal_name, spec_module_name, spec_module_refs,
};
use crate::types::reloc::spec_address_type_byte;
use crate::types::{
    spec_pascal_at, AddressType, ModuleRefTable, NonResidentNameTable, PascalString,
    RelocationEntry, RelocationType, ResidentNameTable,
};
use crate::Error;

verus! {

/// `word` when `flags` has a bit of `bit` set, else nothing.
pub open spec fn flag_word(flags: u16, bit: u16, word: Seq<char>) -> Seq<char> {
    if flags & bit != 0 {
        word
    } else {
        Seq::empty()
    }
}

/// Appends `word` when `flags` has a bit of `bit` set.
fn push_flag(out: &mut String, flags: u16, bit: u16, word: &str)
    ensures
        final(out)@ == old(out)@ + flag_word(flags, bit, word@),
{
    if flags & bit != 0 {
        out.append(word);
    } else {
        assert(old(out)@ + Seq::<char>::empty() =~= old(out)@);
    }
}

/// The segment flag names, each after a space, in Wine's order (bit 0x0080
/// names both EXECUTEONLY and READONLY).
pub open spec fn seg_flag_words(flags: u16) -> Seq<char> {
    flag_word(flags, 0x0001, " DATA"@) + flag_word(flags, 0x0002, " ALLOCATED"@) + flag_word(
        flags,
        0x0004,
        " LOADED"@,
    ) + flag_word(flags, 0x0008, " ITERATED"@) + flag_word(flags, 0x0010, " MOVEABLE"@)
        + flag_word(flags, 0x0020, " SHAREABLE"@) + flag_word(flags, 0x0040, " PRELOAD"@)
        + flag_word(flags, 0x0080, " EXECUTEONLY READONLY"@) + flag_word(
        flags,
        0x0100,
        " RELOC_DATA"@,
    ) + flag_word(flags, 0x0800, " SELFLOAD"@) + flag_word(flags, 0x1000, " DISCARDABLE"@)
        + flag_word(flags, 0x2000, " 32BIT"@)
}

/// Segment flags as Wine prints them: the names in parentheses, separated
/// by spaces; nothing when no named flag is set.
pub open spec fn spec_wine_seg_flags(flags: u16) -> Seq<char> {
    let w = seg_flag_words(flags);
    if w.len() == 0 {
        Seq::empty()
    } else {
        "("@ + w.drop_first() + ")"@
    }
}

/// Segment flags as Wine prints them.
pub fn wine_seg_flags(flags: u16) -> (r: String)
    ensures
        r@ == spec_wine_seg_flags(flags),
{
    let mut s = String::new();
    push_flag(&mut s, flags, 0x0001, " DATA");
    push_flag(&mut s, flags, 0x0002, " ALLOCATED");
    push_flag(&mut s, flags, 0x0004, " LOADED");
    push_flag(&mut s, flags, 0x0008, " ITERATED");
    push_flag(&mut s, flags, 0x0010, " MOVEABLE");
    push_flag(&mut s, flags, 0x0020, " SHAREABLE");
    push_flag(&mut s, flags, 0x0040, " PRELOAD");
    push_flag(&mut s, flags, 0x0080, " EXECUTEONLY READONLY");
    push_flag(&mut s, flags, 0x0100, " RELOC_DATA");
    push_flag(&mut s, flags, 0x0800, " SELFLOAD");
    push_flag(&mut s, flags, 0x1000, " DISCARDABLE");
    push_flag(&mut s, flags, 0x2000, " 32BIT");
    assert(s@ =~= seg_flag_words(flags));
    let words = s.as_str();
    let n = words.unicode_len();
    if n == 0 {
        String::new()
    } else {
        let mut r = String::from_str("(");
        r.append(words.substring_char(1, n));
        r.append(")");
        assert(words@.subrange(1, n as int) =~= words@.drop_first());
        r
    }
}

/// Wine's name for an address type byte (bit 7 ignored).
pub open spec fn wine_addr_name(v: u8) -> Seq<char> {
    let a = v & 0x7f;
    if a == 0 {
        "byte"@
    } else if a == 2 {
        "sel"@
    } else if a == 3 {
        "ptr32"@
    } else if a == 5 {
        "off16"@
    } else if a == 11 {
        "ptr48"@
    } else if a == 13 {
        "off32"@
    } else {
        "???"@
    }
}

/// The address-type name of a relocation as Wine prints it, with ` add`
/// for an additive one.
pub open spec fn spec_wine_reloc_name(entry: RelocationEntry) -> Seq<char> {
    let base = wine_addr_name(spec_address_type_byte(entry.address_type));
    if entry.is_additive {
        base + " add"@
    } else {
        base
    }
}

/// The address-type name of a relocation as Wine prints it.
pub fn wine_reloc_name(entry: &RelocationEntry) -> (r: String)
    ensures
        r@ == spec_wine_reloc_name(*entry),
{
    let a = entry.address_type.as_u8() & 0x7f;
    let base = if a == 0 {
        "byte"
    } else if a == 2 {
        "sel"
    } else if a == 3 {
        "ptr32"
    } else if a == 5 {
        "off16"
    } else if a == 11 {
        "ptr48"
    } else if a == 13 {
        "off32"
    } else {
        "???"
    };
    let mut r = String::from_str(base);
    if entry.is_additive {
        r.append(" add");
    }
    r
}

/// Wine's name for an ordinal resource type; other ordinals in
/// lowercase hexadecimal (at least four digits).
pub open spec fn spec_resource_type_name(id: u16) -> Seq<char> {
    if id == 0x8001 {
        "CURSOR"@
    } else if id == 0x8002 {
        "BITMAP"@
    } else if id == 0x8003 {
        "ICON"@
    } else if id == 0x8004 {
        "MENU"@
    } else if id == 0x8005 {
        "DIALOG"@
    } else if id == 0x8006 {
        "STRING"@
    } else if id == 0x8007 {
        "FONTDIR"@
    } else if id == 0x8008 {
        "FONT"@
    } else if id == 0x8009 {
        "ACCELERATOR"@
    } else if id == 0x800a {
        "RCDATA"@
    } else if id == 0x800c {
        "CURSOR_GROUP"@
    } else if id == 0x800e {
        "ICON_GROUP"@
    } else if id == 0x8010 {
        "VERSION"@
    } else if id == 0x80cc {
        "SCALABLE_FONTPATH"@
    } else {
        hex_chars(id as nat, 4, false)
    }
}

/// Wine's name for an ordinal resource type.
pub fn resource_type_name(id: u16) -> (r: String)
    ensures
        r@ == spec_resource_type_name(id),
{
    let name = if id == 0x8001 {
        "CURSOR"
    } else if id == 0x8002 {
        "BITMAP"
    } else if id == 0x8003 {
        "ICON"
    } else if id == 0x8004 {
        "MENU"
    } else if id == 0x8005 {
        "DIALOG"
    } else if id == 0x8006 {
        "STRING"
    } else if id == 0x8007 {
        "FONTDIR"
    } else if id == 0x8008 {
        "FONT"
    } else if id == 0x8009 {
        "ACCELERATOR"
    } else if id == 0x800a {
        "RCDATA"
    } else if id == 0x800c {
        "CURSOR_GROUP"
    } else if id == 0x800e {
        "ICON_GROUP"
    } else if id == 0x8010 {
        "VERSION"
    } else if id == 0x80cc {
        "SCALABLE_FONTPATH"
    } else {
        let mut r = String::new();
        push_hex(&mut r, id as u64, 4, false);
        assert(r@ =~= hex_chars(id as nat, 4, false));
        return r;
    };
    String::from_str(name)
}

/// The short name of an address type; an unknown type as `???(hh)`
/// (lowercase hexadecimal, at least two digits).
pub open spec fn spec_addr_name(t: AddressType) -> Seq<char> {
    match t {
        AddressType::LowByte => "byte"@,
        AddressType::Selector => "sel"@,
        AddressType::Pointer32 => "ptr32"@,
        AddressType::Offset16 => "off16"@,
        AddressType::Pointer48 => "ptr48"@,
        AddressType::Offset32 => "off32"@,
        AddressType::Unknown(v) => "???("@ + hex_chars(v as nat, 2, false) + ")"@,
    }
}

/// The short name of an address type.
pub fn addr_name(t: AddressType) -> (r: String)
    ensures
        r@ == spec_addr_name(t),
{
    match t {
        AddressType::LowByte => String::from_str("byte"),
        AddressType::Selector => String::from_str("sel"),
        AddressType::Pointer32 => String::from_str("ptr32"),
        AddressType::Offset16 => String::from_str("off16"),
        AddressType::Pointer48 => String::from_str("ptr48"),
        AddressType::Offset32 => String::from_str("off32"),
        AddressType::Unknown(v) => {
            let mut r = String::from_str("???(");
            push_hex(&mut r, v as u64, 2, false);
            r.append(")");
            r
        },
    }
}

/// The names of the entries of `table` whose bits are set in `flags`, in
/// table order.
pub open spec fn set_flag_names(flags: u16, table: Seq<(&str, u16)>) -> Seq<Seq<char>>
    decreases table.len(),
{
    if table.len() == 0 {
        Seq::empty()
    } else {
        let rest = set_flag_names(flags, table.drop_last());
        if flags & table.last().1 != 0 {
            rest.push(table.last().0@)
        } else {
            rest
        }
    }
}

/// `parts` joined with `sep` between them.
pub open spec fn join(parts: Seq<Seq<char>>, sep: Seq<char>) -> Seq<char>
    decreases parts.len(),
{
    if parts.len() == 0 {
        Seq::empty()
    } else if parts.len() == 1 {
        parts[0]
    } else {
        join(parts.drop_last(), sep) + sep + parts.last()
    }
}

/// The names of the set flags of `table`, joined with `", "`.
pub fn fmt_flags(flags: u16, table: &[(&str, u16)]) -> (r: String)
    ensures
        r@ == join(set_flag_names(flags, table@), ", "@),
{
    let mut out = String::new();
    let mut any = false;
    let mut i: usize = 0;
    while i < table.len()
        invariant
            i <= table@.len(),
            any == (set_flag_names(flags, table@.subrange(0, i as int)).len() > 0),
            out@ == join(set_flag_names(flags, table@.subrange(0, i as int)), ", "@),
        decreases table@.len() - i,
    {
        let (name, bit) = table[i];
        let ghost before = set_flag_names(flags, table@.subrange(0, i as int));
        assert(table@.subrange(0, i + 1).drop_last() =~= table@.subrange(0, i as int));
        if flags & bit != 0 {
            if any {
                out.append(", ");
            }
            out.append(name);
            any = true;
            proof {
                let now = before.push(name@);
                assert(now.drop_last() =~= before);
                if before.len() == 0 {
                    assert(out@ =~= join(now, ", "@));
                }
            }
        }
        i = i + 1;
    }
    assert(table@.subrange(0, i as int) =~= table@);
    out
}

/// The JSON escape of a character: backslash, quote, newline, carriage
/// return and tab get a backslash escape; others stay as they are.
pub open spec fn json_escape_char(c: char) -> Seq<char> {
    if c == '\\' {
        "\\\\"@
    } else if c == '"' {
        "\\\""@
    } else if c == '\n' {
        "\\n"@
    } else if c == '\r' {
        "\\r"@
    } else if c == '\t' {
        "\\t"@
    } else {
        seq![c]
    }
}

/// The JSON escape of a text, character by character.
pub open spec fn spec_json_escape(s: Seq<char>) -> Seq<char>
    decreases s.len(),
{
    if s.len() == 0 {
        Seq::empty()
    } else {
        spec_json_escape(s.drop_last()) + json_escape_char(s.last())
    }
}

/// Escapes `s` for use inside a JSON string.
pub fn json_escape(s: &str) -> (r: String)
    ensures
        r@ == spec_json_escape(s@),
{
    let n = s.unicode_len();
    let mut out = String::new();
    let mut i: usize = 0;
    while i < n
        invariant
            n == s@.len(),
            i <= n,
            out@ == spec_json_escape(s@.subrange(0, i as int)),
        decreases n - i,
    {
        let c = s.get_char(i);
        assert(s@.subrange(0, i + 1).drop_last() =~= s@.subrange(0, i as int));
        if c == '\\' {
            out.append("\\\\");
        } else if c == '"' {
            out.append("\\\"");
        } else if c == '\n' {
            out.append("\\n");
        } else if c == '\r' {
            out.append("\\r");
        } else if c == '\t' {
            out.append("\\t");
        } else {
            out.append(s.substring_char(i, i + 1));
            assert(s@.subrange(i as int, i + 1) =~= seq![c]);
        }
        i = i + 1;
    }
    assert(s@.subrange(0, n as int) =~= s@);
    out
}

/// The text that the bytes of a read name encode when they are UTF-8;
/// `default` when they are not or the read failed.
pub open spec fn name_text(r: Result<Seq<u8>, Error>, default: Seq<char>) -> Seq<char> {
    match r {
        Ok(bytes) => if vstd::utf8::valid_utf8(bytes) {
            vstd::utf8::decode_utf8(bytes)
        } else {
            default
        },
        Err(_) => default,
    }
}

/// A read Pascal string as its bytes.
pub open spec fn pascal_bytes<'a>(r: Result<PascalString<'a>, Error>) -> Result<Seq<u8>, Error> {
    match r {
        Ok(p) => Ok(p@),
        Err(e) => Err(e),
    }
}

/// The text of a read Pascal string, or `default`.
pub(crate) fn text_or(r: Result<PascalString<'_>, Error>, default: &str) -> (out: String)
    ensures
        out@ == name_text(pascal_bytes(r), default@),
{
    match r {
        Ok(p) => match p.as_str() {
            Ok(s) => {
                proof {
                    vstd::utf8::encode_utf8_decode_utf8(s@);
                }
                s.to_owned()
            },
            Err(_) => default.to_owned(),
        },
        Err(_) => default.to_owned(),
    }
}

/// The module name for a 1-based module reference index, `?` when there
/// is none or it cannot be read as text.
pub open spec fn spec_module_name_text(
    b: Seq<u8>,
    hr: Result<crate::ImageOS2Header, Error>,
    offsets: Seq<u16>,
    idx: Option<u16>,
) -> Seq<char> {
    match idx {
        None => "?"@,
        Some(i) => name_text(spec_import_ordinal_name(b, hr, offsets, i), "?"@),
    }
}

/// The module name for a 1-based module reference index, `?` when there
/// is none or it cannot be read as text.
pub fn module_name<P: NE>(ne: &P, mod_table: &ModuleRefTable, idx: Option<u16>) -> (r: String)
    requires
        addressable(ne.bytes()),
    ensures
        r@ == spec_module_name_text(
            ne.bytes(),
            ne.spec_valid_ne_header(),
            mod_table.offsets@,
            idx,
        ),
{
    match idx {
        Some(i) => text_or(mod_table.resolve_import_ordinal_name(ne, i), "?"),
        None => String::from_str("?"),
    }
}

/// The imported procedure name at `offset` in the imported names table,
/// as text, or `default`.
pub open spec fn spec_proc_name_text(
    b: Seq<u8>,
    hr: Result<crate::ImageOS2Header, Error>,
    offset: u16,
    default: Seq<char>,
) -> Seq<char> {
    name_text(
        spec_pascal_at(b, spec_table_offset(b, hr, HeaderTable::ImportedNames) + offset),
        default,
    )
}

/// The target of a relocation as the relocation dump prints it: an
/// internal reference as `seg:OFFS` or `self.ordinal`, an import as
/// `module.ordinal` or `module.procedure`, an OS fixup with its type
/// (7 when additive, else 3), offset and targets, and an unknown type by
/// its value.
pub open spec fn spec_target_str(
    entry: RelocationEntry,
    b: Seq<u8>,
    hr: Result<crate::ImageOS2Header, Error>,
    offsets: Seq<u16>,
) -> Seq<char> {
    match entry.relocation_type {
        RelocationType::Internal => if entry.target1 & 0xFF == 0xFF {
            "self."@ + dec_chars(entry.target2 as nat)
        } else {
            dec_chars(entry.target1 as nat) + ":"@ + hex_chars(entry.target2 as nat, 4, true)
        },
        RelocationType::Ordinal => spec_module_name_text(b, hr, offsets, Some(entry.target1))
            + "."@ + dec_chars(entry.target2 as nat),
        RelocationType::Name => spec_module_name_text(b, hr, offsets, Some(entry.target1))
            + "."@ + spec_proc_name_text(b, hr, entry.target2, "?"@),
        RelocationType::OSGlobal => "TYPE "@ + dec_chars(
            if entry.is_additive {
                7nat
            } else {
                3nat
            },
        ) + ", OFFSET "@ + hex_chars(entry.offset as nat, 4, true) + ", TARGET "@ + hex_chars(
            entry.target1 as nat,
            4,
            true,
        ) + " "@ + hex_chars(entry.target2 as nat, 4, true),
        RelocationType::Unknown(v) => "UNKNOWN("@ + hex_chars(v as nat, 2, false) + ")"@,
    }
}

/// The target of a relocation as the relocation dump prints it.
pub fn target_str<P: NE>(entry: &RelocationEntry, ne: &P, mod_table: &ModuleRefTable) -> (r:
    String)
    requires
        addressable(ne.bytes()),
    ensures
        r@ == spec_target_str(*entry, ne.bytes(), ne.spec_valid_ne_header(), mod_table.offsets@),
{
    match entry.relocation_type {
        RelocationType::Internal => {
            if entry.is_self_module_ref() {
                let mut r = String::from_str("self.");
                push_dec(&mut r, entry.target2 as u64);
                r
            } else {
                let mut r = String::new();
                push_dec(&mut r, entry.target1 as u64);
                r.append(":");
                push_hex(&mut r, entry.target2 as u64, 4, true);
                assert(r@ =~= dec_chars(entry.target1 as nat) + ":"@ + hex_chars(
                    entry.target2 as nat,
                    4,
                    true,
                ));
                r
            }
        },
        RelocationType::Ordinal => {
            let mut r = module_name(ne, mod_table, entry.mod_ref_index());
            r.append(".");
            push_dec(&mut r, entry.target2 as u64);
            r
        },
        RelocationType::Name => {
            let mut r = module_name(ne, mod_table, entry.mod_ref_index());
            r.append(".");
            let proc_name = match entry.proc_name_offset() {
                Some(off) => text_or(ModuleRefTable::resolve_import_name(ne, off), "?"),
                None => String::from_str("?"),
            };
            r.append(proc_name.as_str());
            r
        },
        RelocationType::OSGlobal => {
            let mut r = String::from_str("TYPE ");
            push_dec(
                &mut r,
                if entry.is_additive {
                    7
                } else {
                    3
                },
            );
            r.append(", OFFSET ");
            push_hex(&mut r, entry.offset as u64, 4, true);
            r.append(", TARGET ");
            push_hex(&mut r, entry.target1 as u64, 4, true);
            r.append(" ");
            push_hex(&mut r, entry.target2 as u64, 4, true);
            r
        },
        RelocationType::Unknown(v) => {
            let mut r = String::from_str("UNKNOWN(");
            push_hex(&mut r, v as u64, 2, false);
            r.append(")");
            r
        },
    }
}

/// A name was read and its bytes are UTF-8.
pub open spec fn reads_as_text(r: Result<Seq<u8>, Error>) -> bool {
    r matches Ok(bytes) && vstd::utf8::valid_utf8(bytes)
}

/// The module names of a module reference table by 0-based index: index
/// `i` maps to the text of module `i` whenever it reads as text.
pub open spec fn module_cache_of(
    b: Seq<u8>,
    hr: Result<crate::ImageOS2Header, Error>,
    offsets: Seq<u16>,
    m: Map<usize, String>,
) -> bool {
    &&& forall|i: usize|
        #![trigger m.contains_key(i)]
        m.contains_key(i) <==> (i < offsets.len() && reads_as_text(
            spec_module_name(b, hr, offsets, i as int),
        ))
    &&& forall|i: usize|
        #![trigger m[i]]
        m.contains_key(i) ==> m[i]@ == name_text(spec_module_name(b, hr, offsets, i as int), "?"@)
}

/// The text of each name of a module cache.
pub open spec fn cache_text(m: Map<usize, String>) -> Map<usize, Seq<char>> {
    m.map_values(|s: String| s@)
}

/// The module names of an image by 0-based index: the text of each module
/// name that reads as text; empty when there is no module reference table.
pub open spec fn spec_module_cache(b: Seq<u8>, hr: Result<crate::ImageOS2Header, Error>) -> Map<
    usize,
    Seq<char>,
> {
    match spec_module_refs(b, hr) {
        Ok(offsets) => Map::new(
            |i: usize| i < offsets.len() && reads_as_text(spec_module_name(b, hr, offsets, i as int)),
            |i: usize| name_text(spec_module_name(b, hr, offsets, i as int), "?"@),
        ),
        Err(_) => Map::empty(),
    }
}

/// Reads the module reference table and maps each 0-based index to the
/// module's name, for the names that read as text.
pub fn build_module_cache<P: NE>(ne: &P) -> (r: Result<HashMap<usize, String>, Error>)
    requires
        addressable(ne.bytes()),
    ensures
        r matches Ok(m) ==> spec_module_refs(ne.bytes(), ne.spec_valid_ne_header()) matches Ok(
            offsets,
        ) && module_cache_of(ne.bytes(), ne.spec_valid_ne_header(), offsets, m@),
        r matches Ok(m) ==> cache_text(m@) == spec_module_cache(
            ne.bytes(),
            ne.spec_valid_ne_header(),
        ),
        r matches Err(e) ==> spec_module_refs(ne.bytes(), ne.spec_valid_ne_header()) == Err::<
            Seq<u16>,
            Error,
        >(e),
{
    broadcast use vstd::std_specs::hash::group_hash_axioms;

    let mrt = ModuleRefTable::parse(ne)?;
    let ghost b = ne.bytes();
    let ghost hr = ne.spec_valid_ne_header();
    let ghost offsets = mrt.offsets@;
    let mut cache: HashMap<usize, String> = HashMap::new();
    let mut i: usize = 0;
    while i < mrt.offsets.len()
        invariant
            b == ne.bytes(),
            hr == ne.spec_valid_ne_header(),
            addressable(b),
            offsets == mrt.offsets@,
            i <= offsets.len(),
            forall|k: usize|
                #![trigger cache@.contains_key(k)]
                cache@.contains_key(k) <==> (k < i && reads_as_text(
                    spec_module_name(b, hr, offsets, k as int),
                )),
            forall|k: usize|
                #![trigger cache@[k]]
                cache@.contains_key(k) ==> cache@[k]@ == name_text(
                    spec_module_name(b, hr, offsets, k as int),
                    "?"@,
                ),
        decreases offsets.len() - i,
    {
        if let Ok(name) = mrt.get_name(ne, i) {
            if let Ok(s) = name.as_str() {
                proof {
                    vstd::utf8::encode_utf8_decode_utf8(s@);
                }
                cache.insert(i, s.to_owned());
            }
        }
        i = i + 1;
    }
    assert(cache_text(cache@) =~= spec_module_cache(b, hr));
    Ok(cache)
}

/// The module cache of an image, empty when its module reference table
/// cannot be read.
pub fn module_cache_or_empty<P: NE>(ne: &P) -> (r: HashMap<usize, String>)
    requires
        addressable(ne.bytes()),
    ensures
        cache_text(r@) == spec_module_cache(ne.bytes(), ne.spec_valid_ne_header()),
{
    match build_module_cache(ne) {
        Ok(m) => m,
        Err(_) => {
            let m: HashMap<usize, String> = HashMap::new();
            assert(cache_text(m@) =~= spec_module_cache(ne.bytes(), ne.spec_valid_ne_header()));
            m
        },
    }
}

/// The module name that a cache gives for a 1-based module reference
/// index, `?` when there is none.
pub open spec fn spec_module_name_str(cache: Map<usize, Seq<char>>, idx: Option<u16>) -> Seq<
    char,
> {
    match idx {
        Some(i) => if cache.contains_key((i - 1) as usize) {
            cache[(i - 1) as usize]
        } else {
            "?"@
        },
        None => "?"@,
    }
}

/// The module name that `module_cache` gives for a 1-based module
/// reference index, `?` when there is none.
pub fn module_name_str(module_cache: &HashMap<usize, String>, idx: Option<u16>) -> (r: String)
    requires
        idx != Some(0u16),
    ensures
        r@ == spec_module_name_str(cache_text(module_cache@), idx),
{
    broadcast use vstd::std_specs::hash::group_hash_axioms;

    match idx {
        Some(i) => match module_cache.get(&(i as usize - 1)) {
            Some(name) => name.clone(),
            None => String::from_str("?"),
        },
        None => String::from_str("?"),
    }
}

/// Entry `i` is the first entry of `names` with `ordinal`.
pub open spec fn first_named(names: Seq<(Seq<u8>, u16)>, ordinal: u16, i: int) -> bool {
    &&& 0 <= i < names.len()
    &&& names[i].1 == ordinal
    &&& forall|j: int| 0 <= j < i ==> names[j].1 != ordinal
}

/// The name of the first entry of `names` with `ordinal`.
pub open spec fn name_of_ordinal(names: Seq<(Seq<u8>, u16)>, ordinal: u16) -> Option<Seq<u8>> {
    if exists|i: int| first_named(names, ordinal, i) {
        Some(names[choose|i: int| first_named(names, ordinal, i)].0)
    } else {
        None
    }
}

/// A found name as text (nothing when it is not UTF-8).
pub open spec fn export_name_text(n: Seq<u8>) -> Seq<char> {
    if vstd::utf8::valid_utf8(n) {
        vstd::utf8::decode_utf8(n)
    } else {
        Seq::empty()
    }
}

/// The export name of `ordinal` as Wine finds it: in the resident names
/// after the first entry (the module name), then in the non-resident
/// names; nothing when neither has it.
pub open spec fn spec_wine_export_name(
    resident: Seq<(Seq<u8>, u16)>,
    non_resident: Seq<(Seq<u8>, u16)>,
    ordinal: u16,
) -> Seq<char> {
    let exported = if resident.len() > 1 {
        resident.drop_first()
    } else {
        Seq::empty()
    };
    match name_of_ordinal(exported, ordinal) {
        Some(n) => export_name_text(n),
        None => match name_of_ordinal(non_resident, ordinal) {
            Some(n) => export_name_text(n),
            None => Seq::empty(),
        },
    }
}

/// An export is named by the first resident name after the module name
/// that carries its ordinal, whatever the non-resident names hold; only
/// when no resident name carries it, by the first non-resident name that
/// does.
pub proof fn resident_names_name_exports_first(
    resident: Seq<(Seq<u8>, u16)>,
    non_resident: Seq<(Seq<u8>, u16)>,
    ordinal: u16,
    j: int,
)
    ensures
        1 <= j < resident.len() && resident[j].1 == ordinal && (forall|k: int|
            1 <= k < j ==> #[trigger] resident[k].1 != ordinal) ==> spec_wine_export_name(
            resident,
            non_resident,
            ordinal,
        ) == export_name_text(resident[j].0),
        (forall|k: int| 1 <= k < resident.len() ==> #[trigger] resident[k].1 != ordinal) && 0 <= j
            < non_resident.len() && non_resident[j].1 == ordinal && (forall|k: int|
            0 <= k < j ==> #[trigger] non_resident[k].1 != ordinal) ==> spec_wine_export_name(
            resident,
            non_resident,
            ordinal,
        ) == export_name_text(non_resident[j].0),
{
    let exported = if resident.len() > 1 {
        resident.drop_first()
    } else {
        Seq::<(Seq<u8>, u16)>::empty()
    };
    if 1 <= j < resident.len() && resident[j].1 == ordinal && (forall|k: int|
        1 <= k < j ==> #[trigger] resident[k].1 != ordinal) {
        assert(first_named(exported, ordinal, j - 1));
        let c = choose|i: int| first_named(exported, ordinal, i);
        assert(first_named(exported, ordinal, c));
        assert(c == j - 1) by {
            if c < j - 1 {
                assert(exported[c] == resident[c + 1]);
            } else if c > j - 1 {
                assert(exported[j - 1] == resident[j]);
            }
        }
    }
    if (forall|k: int| 1 <= k < resident.len() ==> #[trigger] resident[k].1 != ordinal) && 0 <= j
        < non_resident.len() && non_resident[j].1 == ordinal && (forall|k: int|
        0 <= k < j ==> #[trigger] non_resident[k].1 != ordinal) {
        assert forall|i: int| !first_named(exported, ordinal, i) by {
            if first_named(exported, ordinal, i) {
                assert(exported[i] == resident[i + 1]);
            }
        }
        assert(first_named(non_resident, ordinal, j));
        let c = choose|i: int| first_named(non_resident, ordinal, i);
        assert(first_named(non_resident, ordinal, c));
        assert(c == j) by {
            if c < j {
                assert(non_resident[c].1 != ordinal);
            }
        }
    }
}

/// The export name of `ordinal` as Wine finds it.
pub fn wine_export_name(
    resident: &ResidentNameTable,
    non_res: &NonResidentNameTable,
    ordinal: u16,
) -> (r: String)
    ensures
        r@ == spec_wine_export_name(
            names_view(resident.entries@),
            names_view(non_res.entries@),
            ordinal,
        ),
{
    let ghost rs = names_view(resident.entries@);
    let ghost exported = if rs.len() > 1 {
        rs.drop_first()
    } else {
        Seq::empty()
    };
    if resident.entries.len() > 1 {
        let mut k: usize = 1;
        while k < resident.entries.len()
            invariant
                rs == names_view(resident.entries@),
                rs.len() > 1,
                exported == rs.drop_first(),
                1 <= k <= rs.len(),
                forall|j: int| 0 <= j < k - 1 ==> exported[j].1 != ordinal,
            decreases rs.len() - k,
        {
            let e = &resident.entries[k];
            if e.ordinal == ordinal {
                proof {
                    assert(first_named(exported, ordinal, k - 1));
                    let c = choose|i: int| first_named(exported, ordinal, i);
                    assert(c == k - 1);
                    assert(exported[k - 1].0 == e.name@);
                    reveal_strlit("");
                }
                return text_or(Ok::<PascalString<'_>, Error>(e.name), "");
            }
            k = k + 1;
        }
        assert(!exists|i: int| first_named(exported, ordinal, i));
    } else {
        assert(!exists|i: int| first_named(exported, ordinal, i));
    }
    let ghost ns = names_view(non_res.entries@);
    match non_res.by_ordinal(ordinal) {
        Some(e) => {
            proof {
                let i = choose|i: int|
                    crate::types::names::first_with_ordinal(non_res.entries@, ordinal, i)
                        && *e == non_res.entries@[i];
                assert(first_named(ns, ordinal, i));
                let c = choose|i: int| first_named(ns, ordinal, i);
                assert(c == i);
                assert(ns[i].0 == e.name@);
                reveal_strlit("");
            }
            text_or(Ok::<PascalString<'_>, Error>(e.name), "")
        },
        None => {
            assert(!exists|i: int| first_named(ns, ordinal, i));
            String::new()
        },
    }
}

/// The relocation type as the low two bits of the on-disk type byte.
pub open spec fn raw_reloc_type(t: RelocationType) -> u8 {
    match t {
        RelocationType::Internal => 0,
        RelocationType::Ordinal => 1,
        RelocationType::Name => 2,
        RelocationType::OSGlobal => 3,
        RelocationType::Unknown(v) => v & 0x03,
    }
}

/// The 1-based module reference index of an ordinal or name import.
pub open spec fn spec_mod_ref_index(entry: RelocationEntry) -> Option<u16> {
    if entry.relocation_type == RelocationType::Ordinal || entry.relocation_type
        == RelocationType::Name {
        Some(entry.target1)
    } else {
        None
    }
}

/// The target of a relocation as Wine's relocation dump prints it (by the
/// low two bits of its type): `module.ordinal`, `module.procedure`, an OS
/// fixup as its raw type (with the additive bit), offset and targets in
/// lowercase hexadecimal, and an internal reference as `self.ordinal`
/// (with `self_module_name`) or `seg:offs`.
pub open spec fn spec_wine_reloc_target(
    entry: RelocationEntry,
    b: Seq<u8>,
    hr: Result<crate::ImageOS2Header, Error>,
    cache: Map<usize, Seq<char>>,
    self_module_name: Seq<char>,
) -> Seq<char> {
    let raw = raw_reloc_type(entry.relocation_type);
    if raw == 1 {
        spec_module_name_str(cache, spec_mod_ref_index(entry)) + "."@ + dec_chars(
            entry.target2 as nat,
        )
    } else if raw == 2 {
        spec_module_name_str(cache, spec_mod_ref_index(entry)) + "."@ + spec_proc_name_text(
            b,
            hr,
            entry.target2,
            ""@,
        )
    } else if raw == 3 {
        "TYPE "@ + dec_chars(
            if entry.is_additive {
                7nat
            } else {
                3nat
            },
        ) + ", OFFSET "@ + hex_chars(entry.offset as nat, 4, false) + ", TARGET "@ + hex_chars(
            entry.target1 as nat,
            4,
            false,
        ) + " "@ + hex_chars(entry.target2 as nat, 4, false)
    } else if entry.target1 & 0xFF == 0xFF {
        self_module_name + "."@ + dec_chars(entry.target2 as nat)
    } else {
        dec_chars(entry.target1 as nat) + ":"@ + hex_chars(entry.target2 as nat, 4, false)
    }
}

/// The target of a relocation as Wine's relocation dump prints it. An
/// import's module reference index must not be 0.
pub fn wine_reloc_target<P: NE>(
    entry: &RelocationEntry,
    ne: &P,
    module_cache: &HashMap<usize, String>,
    self_module_name: &str,
) -> (r: String)
    requires
        addressable(ne.bytes()),
        spec_mod_ref_index(*entry) != Some(0u16),
    ensures
        r@ == spec_wine_reloc_target(
            *entry,
            ne.bytes(),
            ne.spec_valid_ne_header(),
            cache_text(module_cache@),
            self_module_name@,
        ),
{
    let raw_type: u8 = match entry.relocation_type {
        RelocationType::Internal => 0,
        RelocationType::Ordinal => 1,
        RelocationType::Name => 2,
        RelocationType::OSGlobal => 3,
        RelocationType::Unknown(v) => v & 0x03,
    };
    if raw_type == 1 {
        let mut r = module_name_str(module_cache, entry.mod_ref_index());
        r.append(".");
        push_dec(&mut r, entry.target2 as u64);
        r
    } else if raw_type == 2 {
        let mut r = module_name_str(module_cache, entry.mod_ref_index());
        r.append(".");
        let proc_name = text_or(ModuleRefTable::resolve_import_name(ne, entry.target2), "");
        r.append(proc_name.as_str());
        r
    } else if raw_type == 3 {
        let add: u8 = if entry.is_additive {
            0x04
        } else {
            0x00
        };
        let raw = raw_type | add;
        assert(raw == 3u8 + add) by (bit_vector)
            requires
                raw_type == 3,
                add == 4 || add == 0,
                raw == raw_type | add,
        ;
        let mut r = String::from_str("TYPE ");
        push_dec(&mut r, raw as u64);
        r.append(", OFFSET ");
        push_hex(&mut r, entry.offset as u64, 4, false);
        r.append(", TARGET ");
        push_hex(&mut r, entry.target1 as u64, 4, false);
        r.append(" ");
        push_hex(&mut r, entry.target2 as u64, 4, false);
        r
    } else if (entry.target1 & 0xFF) == 0xFF {
        let mut r = String::from_str(self_module_name);
        r.append(".");
        push_dec(&mut r, entry.target2 as u64);
        r
    } else {
        let mut r = String::new();
        push_dec(&mut r, entry.target1 as u64);
        r.append(":");
        push_hex(&mut r, entry.target2 as u64, 4, false);
        assert(r@ =~= dec_chars(entry.target1 as nat) + ":"@ + hex_chars(
            entry.target2 as nat,
            4,
            false,
        ));
        r
    }
}

/// The on-disk type byte of a relocation: its type in bits 0-1 and the
/// additive flag in bit 2.
pub open spec fn spec_reloc_type_byte(entry: RelocationEntry) -> u8 {
    let t: u8 = match entry.relocation_type {
        RelocationType::Ordinal => 0x01,
        RelocationType::Name => 0x02,
        RelocationType::OSGlobal => 0x03,
        RelocationType::Unknown(v) => v & 0x03,
        RelocationType::Internal => 0x00,
    };
    t | if entry.is_additive {
        0x04u8
    } else {
        0x00u8
    }
}

/// The 8 on-disk bytes of a relocation record.
pub open spec fn spec_reloc_bytes(entry: RelocationEntry) -> Seq<u8> {
    seq![spec_address_type_byte(entry.address_type), spec_reloc_type_byte(entry)]
        + crate::codec::u16_bytes(entry.offset) + crate::codec::u16_bytes(entry.target1)
        + crate::codec::u16_bytes(entry.target2)
}

/// The 8 on-disk bytes of a relocation record, as the relocation dump
/// shows them.
pub fn reloc_raw_bytes(entry: &RelocationEntry) -> (r: [u8; 8])
    ensures
        r@ == spec_reloc_bytes(*entry),
{
    let rt: u8 = match entry.relocation_type {
        RelocationType::Ordinal => 0x01,
        RelocationType::Name => 0x02,
        RelocationType::OSGlobal => 0x03,
        RelocationType::Unknown(v) => v & 0x03,
        RelocationType::Internal => 0x00,
    };
    let add: u8 = if entry.is_additive {
        0x04
    } else {
        0x00
    };
    let r = [
        entry.address_type.as_u8(),
        rt | add,
        (entry.offset % 256) as u8,
        (entry.offset / 256) as u8,
        (entry.target1 % 256) as u8,
        (entry.target1 / 256) as u8,
        (entry.target2 % 256) as u8,
        (entry.target2 / 256) as u8,
    ];
    assert(r@ =~= spec_reloc_bytes(*entry));
    r
}

/// The long name of an address type; an unknown type as `UNKNOWN(v)` in
/// decimal.
pub open spec fn spec_address_type_name(t: AddressType) -> Seq<char> {
    match t {
        AddressType::LowByte => "LOBYTE"@,
        AddressType::Selector => "SELECTOR"@,
        AddressType::Pointer32 => "POINTER32"@,
        AddressType::Offset16 => "OFFSET16"@,
        AddressType::Pointer48 => "POINTER48"@,
        AddressType::Offset32 => "OFFSET32"@,
        AddressType::Unknown(v) => "UNKNOWN("@ + dec_chars(v as nat) + ")"@,
    }
}

/// The long name of an address type.
pub fn address_type_name(t: AddressType) -> (r: String)
    ensures
        r@ == spec_address_type_name(t),
{
    match t {
        AddressType::LowByte => String::from_str("LOBYTE"),
        AddressType::Selector => String::from_str("SELECTOR"),
        AddressType::Pointer32 => String::from_str("POINTER32"),
        AddressType::Offset16 => String::from_str("OFFSET16"),
        AddressType::Pointer48 => String::from_str("POINTER48"),
        AddressType::Offset32 => String::from_str("OFFSET32"),
        AddressType::Unknown(v) => {
            let mut r = String::from_str("UNKNOWN(");
            push_dec(&mut r, v as u64);
            r.append(")");
            r
        },
    }
}

/// The long name of a relocation type; an unknown type as `UNKNOWN(v)`
/// in decimal.
pub open spec fn spec_relocation_type_name(t: RelocationType) -> Seq<char> {
    match t {
        RelocationType::Internal => "INTERNALREF"@,
        RelocationType::Ordinal => "IMPORTORDINAL"@,
        RelocationType::Name => "IMPORTNAME"@,
        RelocationType::OSGlobal => "OSFIXUP"@,
        RelocationType::Unknown(v) => "UNKNOWN("@ + dec_chars(v as nat) + ")"@,
    }
}

/// The long name of a relocation type.
pub fn relocation_type_name(t: RelocationType) -> (r: String)
    ensures
        r@ == spec_relocation_type_name(t),
{
    match t {
        RelocationType::Internal => String::from_str("INTERNALREF"),
        RelocationType::Ordinal => String::from_str("IMPORTORDINAL"),
        RelocationType::Name => String::from_str("IMPORTNAME"),
        RelocationType::OSGlobal => String::from_str("OSFIXUP"),
        RelocationType::Unknown(v) => {
            let mut r = String::from_str("UNKNOWN(");
            push_dec(&mut r, v as u64);
            r.append(")");
            r
        },
    }
}

/// The `RT_` name of an ordinal resource type (the ordinal without its
/// high bit); others as `RT_0x` and four uppercase hexadecimal digits.
pub open spec fn spec_resource_kind_name(n: u16) -> Seq<char> {
    if n == 1 {
        "RT_CURSOR"@
    } else if n == 2 {
        "RT_BITMAP"@
    } else if n == 3 {
        "RT_ICON"@
    } else if n == 4 {
        "RT_MENU"@
    } else if n == 5 {
        "RT_DIALOG"@
    } else if n == 6 {
        "RT_STRING"@
    } else if n == 7 {
        "RT_FONTDIR"@
    } else if n == 8 {
        "RT_FONT"@
    } else if n == 9 {
        "RT_ACCEL"@
    } else if n == 10 {
        "RT_RCDATA"@
    } else if n == 11 {
        "RT_MESSAGETABLE"@
    } else if n == 12 {
        "RT_GROUP_CURSOR"@
    } else if n == 14 {
        "RT_GROUP_ICON"@
    } else if n == 16 {
        "RT_VERSION"@
    } else {
        "RT_0x"@ + hex_chars(n as nat, 4, true)
    }
}

/// The `RT_` name of an ordinal resource type.
pub fn resource_kind_name(n: u16) -> (r: String)
    ensures
        r@ == spec_resource_kind_name(n),
{
    let name = if n == 1 {
        "RT_CURSOR"
    } else if n == 2 {
        "RT_BITMAP"
    } else if n == 3 {
        "RT_ICON"
    } else if n == 4 {
        "RT_MENU"
    } else if n == 5 {
        "RT_DIALOG"
    } else if n == 6 {
        "RT_STRING"
    } else if n == 7 {
        "RT_FONTDIR"
    } else if n == 8 {
        "RT_FONT"
    } else if n == 9 {
        "RT_ACCEL"
    } else if n == 10 {
        "RT_RCDATA"
    } else if n == 11 {
        "RT_MESSAGETABLE"
    } else if n == 12 {
        "RT_GROUP_CURSOR"
    } else if n == 14 {
        "RT_GROUP_ICON"
    } else if n == 16 {
        "RT_VERSION"
    } else {
        let mut r = String::from_str("RT_0x");
        push_hex(&mut r, n as u64, 4, true);
        return r;
    };
    String::from_str(name)
}

/// `word` as a one-element list when `flags` has a bit of `bit` set, else
/// the empty list.
pub open spec fn flag_item(flags: u16, bit: u16, word: Seq<char>) -> Seq<Seq<char>> {
    if flags & bit != 0 {
        seq![word]
    } else {
        Seq::empty()
    }
}

/// The flag names of a resource record (MOVEABLE, PURE, PRELOAD), joined
/// with `", "`, or `NONE`.
pub open spec fn spec_resource_flag_names(flags: u16) -> Seq<char> {
    let names = flag_item(flags, 0x0010, "MOVEABLE"@) + flag_item(flags, 0x0020, "PURE"@)
        + flag_item(flags, 0x0040, "PRELOAD"@);
    if names.len() == 0 {
        "NONE"@
    } else {
        join(names, ", "@)
    }
}

/// Joining one more part appends the separator and the part, unless it
/// is the first.
pub proof fn lemma_join_push(parts: Seq<Seq<char>>, w: Seq<char>, sep: Seq<char>)
    ensures
        join(parts.push(w), sep) == if parts.len() == 0 {
            w
        } else {
            join(parts, sep) + sep + w
        },
{
    assert(parts.push(w).drop_last() =~= parts);
}

/// Appends `word` to a `sep`-joined list, `any` telling whether it holds
/// a part already.
fn push_part(out: &mut String, any: bool, sep: &str, word: &str, Ghost(parts): Ghost<
    Seq<Seq<char>>,
>)
    requires
        old(out)@ == join(parts, sep@),
        any == (parts.len() > 0),
    ensures
        final(out)@ == join(parts.push(word@), sep@),
{
    if any {
        out.append(sep);
    }
    out.append(word);
    proof {
        lemma_join_push(parts, word@, sep@);
        if parts.len() == 0 {
            assert(old(out)@ =~= Seq::<char>::empty());
            assert(final(out)@ =~= word@);
        }
    }
}

/// The flag names of a resource record.
pub fn resource_flag_names(flags: u16) -> (r: String)
    ensures
        r@ == spec_resource_flag_names(flags),
{
    let ghost names = flag_item(flags, 0x0010, "MOVEABLE"@) + flag_item(flags, 0x0020, "PURE"@)
        + flag_item(flags, 0x0040, "PRELOAD"@);
    let mut out = String::new();
    let mut any = false;
    let ghost mut parts = Seq::<Seq<char>>::empty();
    if flags & 0x0010 != 0 {
        push_part(&mut out, any, ", ", "MOVEABLE", Ghost(parts));
        proof {
            parts = parts.push("MOVEABLE"@);
        }
        any = true;
    }
    if flags & 0x0020 != 0 {
        push_part(&mut out, any, ", ", "PURE", Ghost(parts));
        proof {
            parts = parts.push("PURE"@);
        }
        any = true;
    }
    if flags & 0x0040 != 0 {
        push_part(&mut out, any, ", ", "PRELOAD", Ghost(parts));
        proof {
            parts = parts.push("PRELOAD"@);
        }
        any = true;
    }
    assert(parts =~= names);
    if !any {
        return String::from_str("NONE");
    }
    out
}

/// The module name that `cache` gives for the 1-based module reference
/// index `idx`, or `??(idx)`.
pub open spec fn cached_module_name(cache: Map<usize, Seq<char>>, idx: u16) -> Seq<char> {
    if cache.contains_key((idx - 1) as usize) {
        cache[(idx - 1) as usize]
    } else {
        "??("@ + dec_chars(idx as nat) + ")"@
    }
}

/// The module name that `module_cache` gives for the 1-based module
/// reference index `idx`, or `??(idx)`.
pub fn module_label(module_cache: &HashMap<usize, String>, idx: u16) -> (r: String)
    requires
        idx != 0,
    ensures
        r@ == cached_module_name(cache_text(module_cache@), idx),
{
    broadcast use vstd::std_specs::hash::group_hash_axioms;

    match module_cache.get(&(idx as usize - 1)) {
        Some(name) => name.clone(),
        None => {
            let mut n = String::from_str("??(");
            push_dec(&mut n, idx as u64);
            n.append(")");
            n
        },
    }
}

/// The target of a relocation as the detailed report shows it: an
/// internal reference as its segment and offset or as an ordinal of the
/// module itself; an import by its module (from `cache`) and its ordinal or
/// procedure name; anything else by its two target words.
pub open spec fn spec_reloc_target_detail(
    entry: RelocationEntry,
    b: Seq<u8>,
    hr: Result<crate::ImageOS2Header, Error>,
    cache: Map<usize, Seq<char>>,
) -> Seq<char> {
    if entry.relocation_type == RelocationType::Internal {
        if entry.target1 & 0xFF == 0xFF {
            "self ord=0x"@ + hex_chars(entry.target2 as nat, 4, true) + " [movable]"@
        } else {
            "seg=0x"@ + hex_chars(entry.target1 as nat, 4, true) + " off=0x"@ + hex_chars(
                entry.target2 as nat,
                4,
                true,
            )
        }
    } else if entry.relocation_type == RelocationType::Name {
        "mod="@ + cached_module_name(cache, entry.target1) + " proc="@ + spec_proc_name_text(
            b,
            hr,
            entry.target2,
            "??(0x"@ + hex_chars(entry.target2 as nat, 4, true) + ")"@,
        )
    } else if entry.relocation_type == RelocationType::Ordinal {
        "mod="@ + cached_module_name(cache, entry.target1) + " ord=0x"@ + hex_chars(
            entry.target2 as nat,
            4,
            true,
        )
    } else {
        "t1=0x"@ + hex_chars(entry.target1 as nat, 4, true) + " t2=0x"@ + hex_chars(
            entry.target2 as nat,
            4,
            true,
        )
    }
}

/// The target of a relocation as the detailed report shows it. An
/// import's module reference index must not be 0.
pub fn reloc_target_detail<P: NE>(
    entry: &RelocationEntry,
    ne: &P,
    module_cache: &HashMap<usize, String>,
) -> (r: String)
    requires
        addressable(ne.bytes()),
        spec_mod_ref_index(*entry) != Some(0u16),
    ensures
        r@ == spec_reloc_target_detail(
            *entry,
            ne.bytes(),
            ne.spec_valid_ne_header(),
            cache_text(module_cache@),
        ),
{
    broadcast use vstd::std_specs::hash::group_hash_axioms;

    if entry.relocation_type == RelocationType::Internal {
        if entry.is_self_module_ref() {
            let mut r = String::from_str("self ord=0x");
            push_hex(&mut r, entry.target2 as u64, 4, true);
            r.append(" [movable]");
            r
        } else {
            let mut r = String::from_str("seg=0x");
            push_hex(&mut r, entry.target1 as u64, 4, true);
            r.append(" off=0x");
            push_hex(&mut r, entry.target2 as u64, 4, true);
            r
        }
    } else if let Some(mod_idx) = entry.mod_ref_index() {
        let mod_name = module_label(module_cache, mod_idx);
        let mut r = String::from_str("mod=");
        r.append(mod_name.as_str());
        if entry.relocation_type == RelocationType::Name {
            let proc_name = match ModuleRefTable::resolve_import_name(ne, entry.target2) {
                Ok(p) => match p.as_str() {
                    Ok(s) => {
                        proof {
                            vstd::utf8::encode_utf8_decode_utf8(s@);
                        }
                        s.to_owned()
                    },
                    Err(_) => {
                        let mut n = String::from_str("??(0x");
                        push_hex(&mut n, entry.target2 as u64, 4, true);
                        n.append(")");
                        n
                    },
                },
                Err(_) => {
                    let mut n = String::from_str("??(0x");
                    push_hex(&mut n, entry.target2 as u64, 4, true);
                    n.append(")");
                    n
                },
            };
            r.append(" proc=");
            r.append(proc_name.as_str());
            r
        } else {
            r.append(" ord=0x");
            push_hex(&mut r, entry.target2 as u64, 4, true);
            r
        }
    } else {
        let mut r = String::from_str("t1=0x");
        push_hex(&mut r, entry.target1 as u64, 4, true);
        r.append(" t2=0x");
        push_hex(&mut r, entry.target2 as u64, 4, true);
        r
    }
}

/// Re-encoding a parsed relocation record gives back its 8 bytes, but for
/// the type byte, of which only the type and additive bits (0-2) are
/// kept.
pub proof fn reloc_bytes_reencode(b: Seq<u8>, pos: int, seg_num: u16)
    requires
        0 <= pos,
        pos + 8 <= b.len(),
    ensures
        spec_reloc_bytes(crate::types::reloc::spec_reloc_at(b, pos, seg_num)) == b.subrange(
            pos,
            pos + 8,
        ).update(1, b[pos + 1] & 0x07),
{
    let e = crate::types::reloc::spec_reloc_at(b, pos, seg_num);
    let x = b[pos + 1];
    crate::types::reloc::address_type_byte_roundtrip(b[pos]);
    crate::codec::lemma_le16_encode(b, pos + 2);
    crate::codec::lemma_le16_encode(b, pos + 4);
    crate::codec::lemma_le16_encode(b, pos + 6);
    let t = x & 0x03;
    assert(t == 0 || t == 1 || t == 2 || t == 3) by (bit_vector)
        requires
            t == x & 0x03,
    ;
    assert((t | if x & 0x04 != 0 {
        0x04u8
    } else {
        0x00u8
    }) == x & 0x07) by (bit_vector)
        requires
            t == x & 0x03,
    ;
    assert(spec_reloc_type_byte(e) == x & 0x07);
    assert(spec_reloc_bytes(e) =~= b.subrange(pos, pos + 8).update(1, x & 0x07));
}

/// The relocation dump shows an internal reference by the record's target
/// words: to a fixed segment, the segment number (first target word) in
/// decimal, a colon, then the offset (second target word) in four
/// uppercase hexadecimal digits; to an export of the module itself (first
/// target word ending in `0xFF`), `self.` and the ordinal (second target
/// word) in decimal.
pub proof fn dumped_internal_target_reads_back(
    entry: RelocationEntry,
    b: Seq<u8>,
    hr: Result<crate::ImageOS2Header, Error>,
    offsets: Seq<u16>,
)
    requires
        entry.relocation_type == RelocationType::Internal,
    ensures
        entry.target1 & 0xFF != 0xFF ==> exists|i: int|
            #![trigger spec_target_str(entry, b, hr, offsets)[i]]
            0 <= i < spec_target_str(entry, b, hr, offsets).len() && spec_target_str(
                entry,
                b,
                hr,
                offsets,
            )[i] == ':' && crate::text::dec_text(
                spec_target_str(entry, b, hr, offsets).subrange(0, i),
                entry.target1 as int,
            ) && crate::text::hex4_text(
                spec_target_str(entry, b, hr, offsets).subrange(
                    i + 1,
                    spec_target_str(entry, b, hr, offsets).len() as int,
                ),
                entry.target2 as int,
            ) && crate::text::no_lower_hex(
                spec_target_str(entry, b, hr, offsets).subrange(
                    i + 1,
                    spec_target_str(entry, b, hr, offsets).len() as int,
                ),
            ),
        entry.target1 & 0xFF == 0xFF ==> spec_target_str(entry, b, hr, offsets).subrange(0, 5)
            == "self."@ && crate::text::dec_text(
            spec_target_str(entry, b, hr, offsets).subrange(
                5,
                spec_target_str(entry, b, hr, offsets).len() as int,
            ),
            entry.target2 as int,
        ),
{
    let t = spec_target_str(entry, b, hr, offsets);
    reveal_strlit("self.");
    reveal_strlit(":");
    crate::text::dec_chars_reads_back(entry.target1 as nat);
    crate::text::dec_chars_reads_back(entry.target2 as nat);
    crate::text::hex_chars_reads_back(entry.target2 as nat, 4, true);
    if entry.target1 & 0xFF != 0xFF {
        let x = dec_chars(entry.target1 as nat);
        let y = hex_chars(entry.target2 as nat, 4, true);
        let i = x.len() as int;
        assert(t == x + ":"@ + y);
        assert(t.subrange(0, i) =~= x);
        assert(t.subrange(i + 1, t.len() as int) =~= y);
        assert(t[i] == ':');
    } else {
        let x = dec_chars(entry.target2 as nat);
        assert(t == "self."@ + x);
        assert(t.subrange(0, 5) =~= "self."@);
        assert(t.subrange(5, t.len() as int) =~= x);
    }
}

/// The relocation dump shows an import by ordinal as the module's name (by
/// the first target word), a dot, then the ordinal (second target word) in
/// decimal; an import by name as the module's name, a dot, then the
/// procedure name found at the second target word's offset in the
/// imported names table; and an OS fixup
/// as `TYPE` with 7 when additive and 3 otherwise, then its offset, its
/// first and its second target word, each in four uppercase hexadecimal
/// digits, in that order.
pub proof fn dumped_import_and_fixup_targets_read_back(
    entry: RelocationEntry,
    b: Seq<u8>,
    hr: Result<crate::ImageOS2Header, Error>,
    offsets: Seq<u16>,
)
    ensures
        entry.relocation_type == RelocationType::Ordinal ==> exists|x: Seq<char>|
            #![trigger crate::text::dec_text(x, entry.target2 as int)]
            crate::text::dec_text(x, entry.target2 as int) && spec_target_str(
                entry,
                b,
                hr,
                offsets,
            ) == spec_module_name_text(b, hr, offsets, Some(entry.target1)) + "."@ + x,
        entry.relocation_type == RelocationType::Name ==> spec_target_str(entry, b, hr, offsets)
            == spec_module_name_text(b, hr, offsets, Some(entry.target1)) + "."@
            + spec_proc_name_text(b, hr, entry.target2, "?"@),
        entry.relocation_type == RelocationType::OSGlobal ==> exists|
            a: Seq<char>,
            o: Seq<char>,
            x: Seq<char>,
            y: Seq<char>,
        |
            #![trigger "TYPE "@ + a, crate::text::hex4_text(o, entry.offset as int), crate::text::hex4_text(x, entry.target1 as int), crate::text::hex4_text(y, entry.target2 as int)]
            crate::text::dec_text(a, if entry.is_additive { 7int } else { 3int })
                && crate::text::hex4_text(o, entry.offset as int) && crate::text::hex4_text(
                x,
                entry.target1 as int,
            ) && crate::text::hex4_text(y, entry.target2 as int) && crate::text::no_lower_hex(o)
                && crate::text::no_lower_hex(x) && crate::text::no_lower_hex(y) && spec_target_str(
                entry,
                b,
                hr,
                offsets,
            ) == "TYPE "@ + a + ", OFFSET "@ + o + ", TARGET "@ + x + " "@ + y,
{
    crate::text::dec_chars_reads_back(entry.target2 as nat);
    crate::text::dec_chars_reads_back(3);
    crate::text::dec_chars_reads_back(7);
    crate::text::hex_chars_reads_back(entry.offset as nat, 4, true);
    crate::text::hex_chars_reads_back(entry.target1 as nat, 4, true);
    crate::text::hex_chars_reads_back(entry.target2 as nat, 4, true);
    let t = spec_target_str(entry, b, hr, offsets);
    let x = dec_chars(entry.target2 as nat);
    assert(crate::text::dec_text(x, entry.target2 as int));
    let a = dec_chars(
        if entry.is_additive {
            7nat
        } else {
            3nat
        },
    );
    assert(crate::text::dec_text(a, if entry.is_additive { 7int } else { 3int }));
    let o = hex_chars(entry.offset as nat, 4, true);
    let x1 = hex_chars(entry.target1 as nat, 4, true);
    let y1 = hex_chars(entry.target2 as nat, 4, true);
    assert(crate::text::hex4_text(o, entry.offset as int));
    assert(crate::text::hex4_text(x1, entry.target1 as int));
    assert(crate::text::hex4_text(y1, entry.target2 as int));
    let _ = "TYPE "@ + a;
}

/// Wine's relocation dump shows, by the low two bits of the type: an
/// internal reference to a fixed segment as the segment number (first
/// target word) in decimal, a colon, then the offset (second target word)
/// in four lowercase hexadecimal digits, and one to an export of the module
/// itself as the module's own name, a dot and the ordinal in decimal; an
/// import by ordinal as the module name, a dot and the ordinal (second
/// target word) in decimal; an import by name as the module name, a dot and
/// the procedure name found at the second target word's offset; an OS
/// fixup as `TYPE` with 7 when additive and 3 otherwise, then its offset,
/// its first and its second target word, each in four lowercase
/// hexadecimal digits, in that order.
pub proof fn wine_targets_read_back(
    entry: RelocationEntry,
    b: Seq<u8>,
    hr: Result<crate::ImageOS2Header, Error>,
    cache: Map<usize, Seq<char>>,
    self_module_name: Seq<char>,
)
    ensures
        raw_reloc_type(entry.relocation_type) == 0 && entry.target1 & 0xFF != 0xFF ==> exists|
            x: Seq<char>,
            y: Seq<char>,
        |
            #![trigger crate::text::dec_text(x, entry.target1 as int), crate::text::hex4_text(y, entry.target2 as int)]
            crate::text::dec_text(x, entry.target1 as int) && crate::text::hex4_text(
                y,
                entry.target2 as int,
            ) && crate::text::no_upper_hex(y) && spec_wine_reloc_target(
                entry,
                b,
                hr,
                cache,
                self_module_name,
            ) == x + ":"@ + y,
        raw_reloc_type(entry.relocation_type) == 0 && entry.target1 & 0xFF == 0xFF ==> exists|
            x: Seq<char>,
        |
            #![trigger crate::text::dec_text(x, entry.target2 as int)]
            crate::text::dec_text(x, entry.target2 as int) && spec_wine_reloc_target(
                entry,
                b,
                hr,
                cache,
                self_module_name,
            ) == self_module_name + "."@ + x,
        raw_reloc_type(entry.relocation_type) == 1 ==> exists|x: Seq<char>|
            #![trigger crate::text::dec_text(x, entry.target2 as int)]
            crate::text::dec_text(x, entry.target2 as int) && spec_wine_reloc_target(
                entry,
                b,
                hr,
                cache,
                self_module_name,
            ) == spec_module_name_str(cache, spec_mod_ref_index(entry)) + "."@ + x,
        raw_reloc_type(entry.relocation_type) == 2 ==> spec_wine_reloc_target(
            entry,
            b,
            hr,
            cache,
            self_module_name,
        ) == spec_module_name_str(cache, spec_mod_ref_index(entry)) + "."@ + spec_proc_name_text(
            b,
            hr,
            entry.target2,
            ""@,
        ),
        raw_reloc_type(entry.relocation_type) == 3 ==> exists|
            a: Seq<char>,
            o: Seq<char>,
            x: Seq<char>,
            y: Seq<char>,
        |
            #![trigger "TYPE "@ + a, crate::text::hex4_text(o, entry.offset as int), crate::text::hex4_text(x, entry.target1 as int), crate::text::hex4_text(y, entry.target2 as int)]
            crate::text::dec_text(a, if entry.is_additive { 7int } else { 3int })
                && crate::text::hex4_text(o, entry.offset as int) && crate::text::hex4_text(
                x,
                entry.target1 as int,
            ) && crate::text::hex4_text(y, entry.target2 as int) && crate::text::no_upper_hex(o)
                && crate::text::no_upper_hex(x) && crate::text::no_upper_hex(y)
                && spec_wine_reloc_target(entry, b, hr, cache, self_module_name) == "TYPE "@ + a
                + ", OFFSET "@ + o + ", TARGET "@ + x + " "@ + y,
{
    crate::text::dec_chars_reads_back(entry.target1 as nat);
    crate::text::dec_chars_reads_back(entry.target2 as nat);
    crate::text::dec_chars_reads_back(3);
    crate::text::dec_chars_reads_back(7);
    crate::text::hex_chars_reads_back(entry.offset as nat, 4, false);
    crate::text::hex_chars_reads_back(entry.target1 as nat, 4, false);
    crate::text::hex_chars_reads_back(entry.target2 as nat, 4, false);
    let x = dec_chars(entry.target1 as nat);
    let z = dec_chars(entry.target2 as nat);
    assert(crate::text::dec_text(x, entry.target1 as int));
    assert(crate::text::dec_text(z, entry.target2 as int));
    let a = dec_chars(
        if entry.is_additive {
            7nat
        } else {
            3nat
        },
    );
    assert(crate::text::dec_text(a, if entry.is_additive { 7int } else { 3int }));
    let o = hex_chars(entry.offset as nat, 4, false);
    let x1 = hex_chars(entry.target1 as nat, 4, false);
    let y1 = hex_chars(entry.target2 as nat, 4, false);
    assert(crate::text::hex4_text(o, entry.offset as int));
    assert(crate::text::hex4_text(x1, entry.target1 as int));
    assert(crate::text::hex4_text(y1, entry.target2 as int));
    let _ = "TYPE "@ + a;
}

/// The detailed report shows a relocation's target words each as `0x` and
/// four uppercase hexadecimal digits: an internal reference to a fixed
/// segment as `seg=` the first and `off=` the second; one to an export of
/// the module itself as `self ord=` the second; an import by ordinal as
/// the module's name and `ord=` the second; an import by name as the
/// module's name and `proc=` the procedure name at the second (or `??(0x`,
/// the second and `)` when none is found); an OS fixup (or an unknown
/// type) as `t1=` the first and `t2=` the second.
pub proof fn detailed_targets_read_back(
    entry: RelocationEntry,
    b: Seq<u8>,
    hr: Result<crate::ImageOS2Header, Error>,
    cache: Map<usize, Seq<char>>,
)
    ensures
        exists|x: Seq<char>, y: Seq<char>|
            #![trigger crate::text::hex4_text(x, entry.target1 as int), crate::text::hex4_text(y, entry.target2 as int)]
            crate::text::hex4_text(x, entry.target1 as int) && crate::text::hex4_text(
                y,
                entry.target2 as int,
            ) && crate::text::no_lower_hex(x) && crate::text::no_lower_hex(y) && (
            entry.relocation_type == RelocationType::Internal && entry.target1 & 0xFF != 0xFF
                ==> spec_reloc_target_detail(entry, b, hr, cache) == "seg=0x"@ + x + " off=0x"@ + y)
                && (entry.relocation_type == RelocationType::Internal && entry.target1 & 0xFF
                == 0xFF ==> spec_reloc_target_detail(entry, b, hr, cache) == "self ord=0x"@ + y
                + " [movable]"@) && (entry.relocation_type == RelocationType::Ordinal
                ==> spec_reloc_target_detail(entry, b, hr, cache) == "mod="@ + cached_module_name(
                cache,
                entry.target1,
            ) + " ord=0x"@ + y) && (entry.relocation_type == RelocationType::Name
                ==> spec_reloc_target_detail(entry, b, hr, cache) == "mod="@ + cached_module_name(
                cache,
                entry.target1,
            ) + " proc="@ + spec_proc_name_text(b, hr, entry.target2, "??(0x"@ + y + ")"@))
                && (entry.relocation_type != RelocationType::Internal
                && entry.relocation_type != RelocationType::Ordinal && entry.relocation_type
                != RelocationType::Name ==> spec_reloc_target_detail(entry, b, hr, cache)
                == "t1=0x"@ + x + " t2=0x"@ + y),
{
    crate::text::hex_chars_reads_back(entry.target1 as nat, 4, true);
    crate::text::hex_chars_reads_back(entry.target2 as nat, 4, true);
    let x = hex_chars(entry.target1 as nat, 4, true);
    let y = hex_chars(entry.target2 as nat, 4, true);
    assert(crate::text::hex4_text(x, entry.target1 as int));
    assert(crate::text::hex4_text(y, entry.target2 as int));
}

/// The address type codes of relocation records, with the long name that
/// the detailed report gives each and the short one of the dumps.
pub open spec fn address_code_names(code: u8, long: Seq<char>, short: Seq<char>) -> bool {
    ||| code == 0 && long == "LOBYTE"@ && short == "byte"@
    ||| code == 2 && long == "SELECTOR"@ && short == "sel"@
    ||| code == 3 && long == "POINTER32"@ && short == "ptr32"@
    ||| code == 5 && long == "OFFSET16"@ && short == "off16"@
    ||| code == 11 && long == "POINTER48"@ && short == "ptr48"@
    ||| code == 13 && long == "OFFSET32"@ && short == "off32"@
}

/// The relocation type codes (the low two bits of the type byte), with
/// the name that the detailed report gives each.
pub open spec fn relocation_code_name(code: u8, long: Seq<char>) -> bool {
    ||| code == 0 && long == "INTERNALREF"@
    ||| code == 1 && long == "IMPORTORDINAL"@
    ||| code == 2 && long == "IMPORTNAME"@
    ||| code == 3 && long == "OSFIXUP"@
}

/// Every report names a known address type after its on-disk code: the
/// detailed report by its long name, the dump and Wine's dump by its short
/// name; and names a known relocation type after its code.
pub proof fn type_names_follow_their_codes(a: AddressType, t: RelocationType)
    ensures
        !(a is Unknown) ==> address_code_names(
            spec_address_type_byte(a),
            spec_address_type_name(a),
            spec_addr_name(a),
        ) && wine_addr_name(spec_address_type_byte(a)) == spec_addr_name(a),
        !(t is Unknown) ==> relocation_code_name(
            raw_reloc_type(t),
            spec_relocation_type_name(t),
        ),
{
    let code = spec_address_type_byte(a);
    assert(0u8 & 0x7f == 0 && 2u8 & 0x7f == 2 && 3u8 & 0x7f == 3 && 5u8 & 0x7f == 5 && 11u8 & 0x7f
        == 11 && 13u8 & 0x7f == 13) by (bit_vector);
}

/// The names that Wine's dump gives the ordinal resource types, by the
/// Windows constant of their type number: a group type is named
/// `CURSOR_GROUP` or `ICON_GROUP`.
pub open spec fn wine_type_form(name: Seq<char>) -> Seq<char> {
    if name == "GROUP_CURSOR"@ {
        "CURSOR_GROUP"@
    } else if name == "GROUP_ICON"@ {
        "ICON_GROUP"@
    } else {
        name
    }
}

/// Wine's dump names an ordinal resource type (high bit set) after the
/// Windows constant of its type number, but for the message table;
/// `0x80CC` is `SCALABLE_FONTPATH`; any other id shows as four or more
/// lowercase hexadecimal digits that read back as the id.
pub proof fn wine_resource_type_name_is_its_constant(id: u16)
    ensures
        (id >= 0x8000 && exists|k: Seq<char>|
            #![trigger rt_constant(k, (id - 0x8000) as u16)]
            rt_constant(k, (id - 0x8000) as u16) && k != "MESSAGETABLE"@ && spec_resource_type_name(
                id,
            ) == wine_type_form(k)) || (id == 0x80CC && spec_resource_type_name(id)
            == "SCALABLE_FONTPATH"@) || (id != 0x80CC && (id < 0x8000 || forall|k: Seq<char>|
            #[trigger] rt_constant(k, (id - 0x8000) as u16) ==> k == "MESSAGETABLE"@)
            && crate::text::hex_text(spec_resource_type_name(id), id as int)
            && crate::text::no_upper_hex(spec_resource_type_name(id))),
{
    reveal_strlit("GROUP_CURSOR");
    reveal_strlit("GROUP_ICON");
    reveal_strlit("CURSOR_GROUP");
    reveal_strlit("ICON_GROUP");
    reveal_strlit("MESSAGETABLE");
    reveal_strlit("CURSOR");
    reveal_strlit("BITMAP");
    reveal_strlit("ICON");
    reveal_strlit("MENU");
    reveal_strlit("DIALOG");
    reveal_strlit("STRING");
    reveal_strlit("FONTDIR");
    reveal_strlit("FONT");
    reveal_strlit("ACCELERATOR");
    reveal_strlit("RCDATA");
    reveal_strlit("VERSION");
    crate::text::hex_chars_reads_back(id as nat, 4, false);
    let n = (id - 0x8000) as u16;
    if id == 0x8001 {
        let k = "CURSOR"@;
        assert(rt_constant(k, n));
        assert(k.len() != "MESSAGETABLE"@.len());
        assert(k != "MESSAGETABLE"@);
        assert(wine_type_form(k) =~= spec_resource_type_name(id));
    } else if id == 0x8002 {
        let k = "BITMAP"@;
        assert(rt_constant(k, n));
        assert(k.len() != "MESSAGETABLE"@.len());
        assert(k != "MESSAGETABLE"@);
        assert(wine_type_form(k) =~= spec_resource_type_name(id));
    } else if id == 0x8003 {
        let k = "ICON"@;
        assert(rt_constant(k, n));
        assert(k.len() != "MESSAGETABLE"@.len());
        assert(k != "MESSAGETABLE"@);
        assert(wine_type_form(k) =~= spec_resource_type_name(id));
    } else if id == 0x8004 {
        let k = "MENU"@;
        assert(rt_constant(k, n));
        assert(k.len() != "MESSAGETABLE"@.len());
        assert(k != "MESSAGETABLE"@);
        assert(wine_type_form(k) =~= spec_resource_type_name(id));
    } else if id == 0x8005 {
        let k = "DIALOG"@;
        assert(rt_constant(k, n));
        assert(k.len() != "MESSAGETABLE"@.len());
        assert(k != "MESSAGETABLE"@);
        assert(wine_type_form(k) =~= spec_resource_type_name(id));
    } else if id == 0x8006 {
        let k = "STRING"@;
        assert(rt_constant(k, n));
        assert(k.len() != "MESSAGETABLE"@.len());
        assert(k != "MESSAGETABLE"@);
        assert(wine_type_form(k) =~= spec_resource_type_name(id));
    } else if id == 0x8007 {
        let k = "FONTDIR"@;
        assert(rt_constant(k, n));
        assert(k.len() != "MESSAGETABLE"@.len());
        assert(k != "MESSAGETABLE"@);
        assert(wine_type_form(k) =~= spec_resource_type_name(id));
    } else if id == 0x8008 {
        let k = "FONT"@;
        assert(rt_constant(k, n));
        assert(k.len() != "MESSAGETABLE"@.len());
        assert(k != "MESSAGETABLE"@);
        assert(wine_type_form(k) =~= spec_resource_type_name(id));
    } else if id == 0x8009 {
        let k = "ACCELERATOR"@;
        assert(rt_constant(k, n));
        assert(k.len() != "MESSAGETABLE"@.len());
        assert(k != "MESSAGETABLE"@);
        assert(wine_type_form(k) =~= spec_resource_type_name(id));
    } else if id == 0x800a {
        let k = "RCDATA"@;
        assert(rt_constant(k, n));
        assert(k.len() != "MESSAGETABLE"@.len());
        assert(k != "MESSAGETABLE"@);
        assert(wine_type_form(k) =~= spec_resource_type_name(id));
    } else if id == 0x800c {
        let k = "GROUP_CURSOR"@;
        assert(rt_constant(k, n));
        assert(k[0] != "MESSAGETABLE"@[0]);
        assert(k != "MESSAGETABLE"@);
        assert(wine_type_form(k) =~= spec_resource_type_name(id));
    } else if id == 0x800e {
        let k = "GROUP_ICON"@;
        assert(rt_constant(k, n));
        assert(k.len() != "MESSAGETABLE"@.len());
        assert(k != "MESSAGETABLE"@);
        assert(wine_type_form(k) =~= spec_resource_type_name(id));
    } else if id == 0x8010 {
        let k = "VERSION"@;
        assert(rt_constant(k, n));
        assert(k.len() != "MESSAGETABLE"@.len());
        assert(k != "MESSAGETABLE"@);
        assert(wine_type_form(k) =~= spec_resource_type_name(id));
    } else if id == 0x80cc {
    } else if id >= 0x8000 {
        assert forall|k: Seq<char>| #[trigger] rt_constant(k, n) implies k == "MESSAGETABLE"@ by {
            assert(n == 11);
        }
    }
}

/// The Windows resource type constants: `RT_<name>` is `n`.
pub open spec fn rt_constant(name: Seq<char>, n: u16) -> bool {
    ||| name == "CURSOR"@ && n == 1
    ||| name == "BITMAP"@ && n == 2
    ||| name == "ICON"@ && n == 3
    ||| name == "MENU"@ && n == 4
    ||| name == "DIALOG"@ && n == 5
    ||| name == "STRING"@ && n == 6
    ||| name == "FONTDIR"@ && n == 7
    ||| name == "FONT"@ && n == 8
    ||| name == "ACCELERATOR"@ && n == 9
    ||| name == "RCDATA"@ && n == 10
    ||| name == "MESSAGETABLE"@ && n == 11
    ||| name == "GROUP_CURSOR"@ && n == 12
    ||| name == "GROUP_ICON"@ && n == 14
    ||| name == "VERSION"@ && n == 16
}

/// The short names that the detailed report uses for some constants:
/// `ACCEL` for `ACCELERATOR`.
pub open spec fn rt_short_name(name: Seq<char>) -> Seq<char> {
    if name == "ACCELERATOR"@ {
        "ACCEL"@
    } else {
        name
    }
}

/// The detailed report names an ordinal resource type after the Windows
/// constant of that value, `RT_` and the constant's name; a value that is
/// no such constant is shown as `RT_0x` and four uppercase hexadecimal
/// digits that read back as the value.
pub proof fn resource_kind_name_is_its_constant(n: u16)
    ensures
        (exists|k: Seq<char>|
            #![trigger rt_constant(k, n)]
            rt_constant(k, n) && spec_resource_kind_name(n) == "RT_"@ + rt_short_name(k)) || (
        (forall|k: Seq<char>| !#[trigger] rt_constant(k, n)) && spec_resource_kind_name(n).subrange(
            0,
            5,
        ) == "RT_0x"@ && crate::text::hex4_text(
            spec_resource_kind_name(n).subrange(5, spec_resource_kind_name(n).len() as int),
            n as int,
        ) && crate::text::no_lower_hex(
            spec_resource_kind_name(n).subrange(5, spec_resource_kind_name(n).len() as int),
        )),
{
    reveal_strlit("RT_");
    reveal_strlit("RT_0x");
    reveal_strlit("ACCEL");
    reveal_strlit("ACCELERATOR");
    reveal_strlit("CURSOR");
    reveal_strlit("RT_CURSOR");
    reveal_strlit("BITMAP");
    reveal_strlit("RT_BITMAP");
    reveal_strlit("ICON");
    reveal_strlit("RT_ICON");
    reveal_strlit("MENU");
    reveal_strlit("RT_MENU");
    reveal_strlit("DIALOG");
    reveal_strlit("RT_DIALOG");
    reveal_strlit("STRING");
    reveal_strlit("RT_STRING");
    reveal_strlit("FONTDIR");
    reveal_strlit("RT_FONTDIR");
    reveal_strlit("FONT");
    reveal_strlit("RT_FONT");
    reveal_strlit("ACCELERATOR");
    reveal_strlit("RT_ACCEL");
    reveal_strlit("RCDATA");
    reveal_strlit("RT_RCDATA");
    reveal_strlit("MESSAGETABLE");
    reveal_strlit("RT_MESSAGETABLE");
    reveal_strlit("GROUP_CURSOR");
    reveal_strlit("RT_GROUP_CURSOR");
    reveal_strlit("GROUP_ICON");
    reveal_strlit("RT_GROUP_ICON");
    reveal_strlit("VERSION");
    reveal_strlit("RT_VERSION");
    let name = spec_resource_kind_name(n);
    if n == 1 {
        assert(rt_constant("CURSOR"@, n));
        assert(rt_short_name("CURSOR"@) =~= "CURSOR"@);
        assert(name =~= "RT_"@ + rt_short_name("CURSOR"@));
    } else if n == 2 {
        assert(rt_constant("BITMAP"@, n));
        assert(rt_short_name("BITMAP"@) =~= "BITMAP"@);
        assert(name =~= "RT_"@ + rt_short_name("BITMAP"@));
    } else if n == 3 {
        assert(rt_constant("ICON"@, n));
        assert(rt_short_name("ICON"@) =~= "ICON"@);
        assert(name =~= "RT_"@ + rt_short_name("ICON"@));
    } else if n == 4 {
        assert(rt_constant("MENU"@, n));
        assert(rt_short_name("MENU"@) =~= "MENU"@);
        assert(name =~= "RT_"@ + rt_short_name("MENU"@));
    } else if n == 5 {
        assert(rt_constant("DIALOG"@, n));
        assert(rt_short_name("DIALOG"@) =~= "DIALOG"@);
        assert(name =~= "RT_"@ + rt_short_name("DIALOG"@));
    } else if n == 6 {
        assert(rt_constant("STRING"@, n));
        assert(rt_short_name("STRING"@) =~= "STRING"@);
        assert(name =~= "RT_"@ + rt_short_name("STRING"@));
    } else if n == 7 {
        assert(rt_constant("FONTDIR"@, n));
        assert(rt_short_name("FONTDIR"@) =~= "FONTDIR"@);
        assert(name =~= "RT_"@ + rt_short_name("FONTDIR"@));
    } else if n == 8 {
        assert(rt_constant("FONT"@, n));
        assert(rt_short_name("FONT"@) =~= "FONT"@);
        assert(name =~= "RT_"@ + rt_short_name("FONT"@));
    } else if n == 9 {
        assert(rt_constant("ACCELERATOR"@, n));
        assert(rt_short_name("ACCELERATOR"@) =~= "ACCEL"@);
        assert(name =~= "RT_"@ + rt_short_name("ACCELERATOR"@));
    } else if n == 10 {
        assert(rt_constant("RCDATA"@, n));
        assert(rt_short_name("RCDATA"@) =~= "RCDATA"@);
        assert(name =~= "RT_"@ + rt_short_name("RCDATA"@));
    } else if n == 11 {
        assert(rt_constant("MESSAGETABLE"@, n));
        assert(rt_short_name("MESSAGETABLE"@) =~= "MESSAGETABLE"@);
        assert(name =~= "RT_"@ + rt_short_name("MESSAGETABLE"@));
    } else if n == 12 {
        assert(rt_constant("GROUP_CURSOR"@, n));
        assert(rt_short_name("GROUP_CURSOR"@) =~= "GROUP_CURSOR"@);
        assert(name =~= "RT_"@ + rt_short_name("GROUP_CURSOR"@));
    } else if n == 14 {
        assert(rt_constant("GROUP_ICON"@, n));
        assert(rt_short_name("GROUP_ICON"@) =~= "GROUP_ICON"@);
        assert(name =~= "RT_"@ + rt_short_name("GROUP_ICON"@));
    } else if n == 16 {
        assert(rt_constant("VERSION"@, n));
        assert(rt_short_name("VERSION"@) =~= "VERSION"@);
        assert(name =~= "RT_"@ + rt_short_name("VERSION"@));
    } else {
        crate::text::hex_chars_reads_back(n as nat, 4, true);
        let y = hex_chars(n as nat, 4, true);
        assert(name.subrange(0, 5) =~= "RT_0x"@);
        assert(name.subrange(5, name.len() as int) =~= y);
    }
}

} // verus!
