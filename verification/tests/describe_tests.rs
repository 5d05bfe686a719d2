//! Tests of the textual descriptions, error messages and digests.

use std::collections::HashMap;

use new_executable::describe::{
    addr_name, address_type_name, fmt_flags, json_escape, module_label, module_name_str,
    relocation_type_name, reloc_raw_bytes, resource_flag_names, resource_kind_name,
    resource_type_name, wine_reloc_name, wine_seg_flags,
};
use new_executable::hash::{byte_counts, md5, sha1, sha256};
use new_executable::{AddressType, Error, RelocationEntry, RelocationType, SegmentFlags};

fn hex(bytes: &[u8]) -> String {
    bytes.iter().map(|b| format!("{b:02x}")).collect()
}

fn entry(addr: AddressType, rt: RelocationType, additive: bool) -> RelocationEntry {
    RelocationEntry {
        address_type: addr,
        relocation_type: rt,
        is_additive: additive,
        segment_number: 1,
        offset: 0x1234,
        target1: 0x00AB,
        target2: 0xCDEF,
    }
}

#[test]
fn test_error_messages() {
    assert_eq!(
        Error::InvalidDOSSignature(0x1A).message(),
        "invalid DOS signature: 0x001A (expected 0x5A4D)"
    );
    assert_eq!(
        Error::InvalidNESignature(0xBEEF).message(),
        "invalid NE signature at offset: 0xBEEF (expected 0x0045)"
    );
    assert_eq!(
        Error::HeaderOutOfBounds(0x12345).message(),
        "header field offset 0x12345 is out of bounds"
    );
    assert_eq!(
        Error::HeaderTruncated(0x40, 64).message(),
        "header truncated at offset 0x0040, expected 64 bytes"
    );
    assert_eq!(Error::SegmentNotFound(7).message(), "segment number 7 not found");
    assert_eq!(Error::EntryNotFound(0).message(), "entry ordinal 0 not found");
    assert_eq!(Error::TableNotPresent("entry_table").message(), "table not present: entry_table");
    assert_eq!(
        Error::TableOutOfBounds("segment_table", 0x248, 200).message(),
        "table 'segment_table' out of bounds: offset 0x0248 (bound 0x00C8)"
    );
    assert_eq!(
        Error::InvalidResourceAlignment(17).message(),
        "invalid resource alignment shift: 17 (must be > 0)"
    );
    assert_eq!(Error::ResourceNotFound.message(), "resource not found");
    assert_eq!(
        Error::HeaderTooSmall.message(),
        "file too short to contain claimed header size"
    );
}

#[test]
fn test_wine_seg_flags() {
    assert_eq!(wine_seg_flags(0), "");
    assert_eq!(wine_seg_flags(0x0001), "(DATA)");
    assert_eq!(
        wine_seg_flags(0x0181),
        "(DATA EXECUTEONLY READONLY RELOC_DATA)"
    );
    assert_eq!(wine_seg_flags(0x3000), "(DISCARDABLE 32BIT)");
    // Bits without a name give nothing.
    assert_eq!(wine_seg_flags(0x0600), "");
}

#[test]
fn test_wine_reloc_name() {
    assert_eq!(
        wine_reloc_name(&entry(AddressType::Pointer32, RelocationType::Ordinal, false)),
        "ptr32"
    );
    assert_eq!(
        wine_reloc_name(&entry(AddressType::Offset16, RelocationType::Internal, true)),
        "off16 add"
    );
    // Bit 7 of the address type is ignored.
    assert_eq!(
        wine_reloc_name(&entry(AddressType::Unknown(0x82), RelocationType::Internal, false)),
        "sel"
    );
    assert_eq!(
        wine_reloc_name(&entry(AddressType::Unknown(0x07), RelocationType::Internal, false)),
        "???"
    );
}

#[test]
fn test_resource_type_names() {
    assert_eq!(resource_type_name(0x8003), "ICON");
    assert_eq!(resource_type_name(0x80cc), "SCALABLE_FONTPATH");
    assert_eq!(resource_type_name(0x1234), "1234");
    assert_eq!(resource_type_name(0x8abc), "8abc");
    assert_eq!(resource_type_name(0x0005), "0005");
    assert_eq!(resource_kind_name(1), "RT_CURSOR");
    assert_eq!(resource_kind_name(16), "RT_VERSION");
    assert_eq!(resource_kind_name(13), "RT_0x000D");
    assert_eq!(resource_flag_names(0), "NONE");
    assert_eq!(resource_flag_names(0x0030), "MOVEABLE, PURE");
    assert_eq!(resource_flag_names(0x0050), "MOVEABLE, PRELOAD");
    assert_eq!(resource_flag_names(0x1070), "MOVEABLE, PURE, PRELOAD");
}

#[test]
fn test_address_and_relocation_type_names() {
    assert_eq!(addr_name(AddressType::LowByte), "byte");
    assert_eq!(addr_name(AddressType::Unknown(0xAB)), "???(ab)");
    assert_eq!(addr_name(AddressType::Unknown(7)), "???(07)");
    assert_eq!(address_type_name(AddressType::Offset32), "OFFSET32");
    assert_eq!(address_type_name(AddressType::Unknown(200)), "UNKNOWN(200)");
    assert_eq!(relocation_type_name(RelocationType::OSGlobal), "OSFIXUP");
    assert_eq!(relocation_type_name(RelocationType::Unknown(9)), "UNKNOWN(9)");
}

#[test]
fn test_fmt_flags() {
    let table = [
        ("DATA", SegmentFlags::DATA),
        ("MOVEABLE", SegmentFlags::MOVEABLE),
        ("SHAREABLE", SegmentFlags::SHAREABLE),
    ];
    assert_eq!(fmt_flags(0x0011, &table), "DATA, MOVEABLE");
    assert_eq!(fmt_flags(0x0020, &table), "SHAREABLE");
    assert_eq!(fmt_flags(0x0000, &table), "");
    assert_eq!(fmt_flags(0xFFFF, &table), "DATA, MOVEABLE, SHAREABLE");
}

#[test]
fn test_json_escape() {
    assert_eq!(json_escape("plain.exe"), "plain.exe");
    assert_eq!(json_escape("a\"b\\c\nd\re\tf"), "a\\\"b\\\\c\\nd\\re\\tf");
    assert_eq!(json_escape(""), "");
    assert_eq!(json_escape("é\\"), "é\\\\");
}

#[test]
fn test_reloc_raw_bytes() {
    let e = entry(AddressType::Pointer32, RelocationType::Name, true);
    assert_eq!(
        reloc_raw_bytes(&e),
        [0x03, 0x06, 0x34, 0x12, 0xAB, 0x00, 0xEF, 0xCD]
    );
    let e = entry(AddressType::Unknown(0x42), RelocationType::Unknown(0x0D), false);
    assert_eq!(reloc_raw_bytes(&e)[..2], [0x42, 0x01]);
}

#[test]
fn test_module_name_lookup() {
    let mut cache: HashMap<usize, String> = HashMap::new();
    cache.insert(0, "KERNEL".to_string());
    cache.insert(2, "GDI".to_string());
    assert_eq!(module_name_str(&cache, Some(1)), "KERNEL");
    assert_eq!(module_name_str(&cache, Some(3)), "GDI");
    assert_eq!(module_name_str(&cache, Some(2)), "?");
    assert_eq!(module_name_str(&cache, None), "?");
    assert_eq!(module_label(&cache, 1), "KERNEL");
    assert_eq!(module_label(&cache, 9), "??(9)");
}

#[test]
fn test_digests() {
    assert_eq!(hex(&md5(b"abc")), "900150983cd24fb0d6963f7d28e17f72");
    assert_eq!(hex(&sha1(b"abc")), "a9993e364706816aba3e25717850c26c9cd0d89d");
    assert_eq!(
        hex(&sha256(b"abc")),
        "ba7816bf8f01cfea414140de5dae2223b00361a396177a9cb410ff61f20015ad"
    );
    assert_eq!(hex(&md5(b"")), "d41d8cd98f00b204e9800998ecf8427e");
}

#[test]
fn test_byte_counts() {
    let counts = byte_counts(b"abracadabra");
    assert_eq!(counts.len(), 256);
    assert_eq!(counts[b'a' as usize], 5);
    assert_eq!(counts[b'b' as usize], 2);
    assert_eq!(counts[b'r' as usize], 2);
    assert_eq!(counts[b'c' as usize], 1);
    assert_eq!(counts[b'z' as usize], 0);
    assert_eq!(counts.iter().sum::<u64>(), 11);
    assert!(byte_counts(&[]).iter().all(|&c| c == 0));
}

#[test]
fn test_pascal_string_deref() {
    let p = new_executable::PascalString { data: b"KERNEL" };
    let bytes: &[u8] = &p;
    assert_eq!(bytes, b"KERNEL");
    assert!(p.starts_with(b"KER"));
}
