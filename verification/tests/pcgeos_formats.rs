use swat::pcgeos::{
    GeodeFile, PcGeosFileHeader, PcGeosFileKind, PcGeosVersion, EXECUTABLE_HEADER_V2_LEN,
    GEODE_HEADER_V2_LEN, GEOS_V2_HEADER_LEN, IMPORTED_LIBRARY_ENTRY_LEN,
};
use swat::pcgeos_bytes::PcGeosByteOrder;
use swat::pcgeos_obj::{ObjFormatVersion, ObjHeader, ObjSegmentType, OBJ_MAGIC, OBJ_MAGIC_NEW_FORMAT};
use swat::pcgeos_strings::PcGeosStringTable;
use swat::pcgeos_vm::VmFile;

const GEOS_V2_SIGNATURE: [u8; 4] = [b'G' | 0x80, b'E', b'A' | 0x80, b'S'];

fn put16(bytes: &mut [u8], at: usize, value: u16) {
    bytes[at..at + 2].copy_from_slice(&value.to_le_bytes());
}

fn put32(bytes: &mut [u8], at: usize, value: u32) {
    bytes[at..at + 4].copy_from_slice(&value.to_le_bytes());
}

fn make_obj_header_bytes() -> Vec<u8> {
    let mut bytes = vec![0u8; 36 + 24 + 12];
    put16(&mut bytes, 0, OBJ_MAGIC);
    put16(&mut bytes, 2, 1);
    put16(&mut bytes, 4, 1);
    put16(&mut bytes, 6, 0x0044);
    put16(&mut bytes, 8, 0x0050);
    put16(&mut bytes, 10, 0x0010);
    put16(&mut bytes, 12, 0x0020);
    put16(&mut bytes, 14, 0x0030);
    put16(&mut bytes, 16, 0x0040);
    bytes[18] = 0x54;
    put16(&mut bytes, 20, 5);
    put16(&mut bytes, 22, 2);
    put16(&mut bytes, 24, 0);
    put16(&mut bytes, 26, 1);
    put16(&mut bytes, 28, 5);
    put16(&mut bytes, 30, 2);

    let seg_offset = 36;
    put32(&mut bytes, seg_offset, 0x1000_0001);
    put32(&mut bytes, seg_offset + 4, 0x1000_0002);
    let bitfield = 0x0004u16 | (4u16 << 8) | (2u16 << 12);
    put16(&mut bytes, seg_offset + 8, bitfield);
    put16(&mut bytes, seg_offset + 10, 0x0068);
    put16(&mut bytes, seg_offset + 12, 0x0200);
    put16(&mut bytes, seg_offset + 14, 0x0074);
    put16(&mut bytes, seg_offset + 16, 0x0080);
    put16(&mut bytes, seg_offset + 18, 0x008c);
    put16(&mut bytes, seg_offset + 20, 0x0098);
    put16(&mut bytes, seg_offset + 22, 0x00a4);

    let group_offset = seg_offset + 24;
    put32(&mut bytes, group_offset, 0x1000_0003);
    put16(&mut bytes, group_offset + 4, 1);
    put16(&mut bytes, group_offset + 8, seg_offset as u16);
    bytes
}

fn make_geode_bytes() -> Vec<u8> {
    let mut bytes = vec![0u8; GEODE_HEADER_V2_LEN + IMPORTED_LIBRARY_ENTRY_LEN];
    bytes[0..4].copy_from_slice(&GEOS_V2_SIGNATURE);
    bytes[4..16].copy_from_slice(b"Sample App\0\0");
    put16(&mut bytes, 40, 1);
    put16(&mut bytes, 42, 0x0200);
    put16(&mut bytes, 44, 2);
    put16(&mut bytes, 46, 1);
    put16(&mut bytes, 48, 0);
    put16(&mut bytes, 50, 7);
    put16(&mut bytes, 52, 3);
    put16(&mut bytes, 54, 1);
    bytes[56..60].copy_from_slice(b"APP1");
    bytes[62..66].copy_from_slice(b"ACME");
    put16(&mut bytes, 200, 0x1234);
    put16(&mut bytes, 202, 0x5678);

    let h = GEOS_V2_HEADER_LEN;
    put16(&mut bytes, h, 0x8200);
    put16(&mut bytes, h + 2, 1);
    put16(&mut bytes, h + 4, 0x4000);
    put16(&mut bytes, h + 8, 3);
    put16(&mut bytes, h + 10, 1);
    put16(&mut bytes, h + 12, 7);
    put16(&mut bytes, h + 14, 512);
    put16(&mut bytes, h + 16, 0x0020);
    put16(&mut bytes, h + 18, 2);
    put16(&mut bytes, h + 20, 0x0030);
    put16(&mut bytes, h + 22, 3);

    let base = EXECUTABLE_HEADER_V2_LEN;
    put16(&mut bytes, base, 0);
    put16(&mut bytes, base + 2, 0x8200);
    put16(&mut bytes, base + 4, 1);
    put16(&mut bytes, base + 6, 2);
    put16(&mut bytes, base + 8, 1);
    put16(&mut bytes, base + 10, 0);
    put16(&mut bytes, base + 12, 5);
    put16(&mut bytes, base + 14, 3);
    put16(&mut bytes, base + 16, 1);
    put16(&mut bytes, base + 18, 42);
    bytes[base + 20..base + 28].copy_from_slice(b"SAMPLE  ");
    bytes[base + 28..base + 32].copy_from_slice(b"APP ");
    bytes[base + 32..base + 36].copy_from_slice(b"APP1");
    put16(&mut bytes, base + 38, 1);
    put16(&mut bytes, base + 40, 0x0100);
    put16(&mut bytes, base + 42, 1);
    put16(&mut bytes, base + 44, 0x0200);
    put16(&mut bytes, base + 46, 2);
    put16(&mut bytes, base + 48, 0x0300);
    put16(&mut bytes, base + 50, 7);
    put16(&mut bytes, base + 52, 1);
    put16(&mut bytes, base + 54, 0);
    put16(&mut bytes, base + 56, 3);
    put16(&mut bytes, base + 58, 0x0400);
    put16(&mut bytes, base + 60, 0x0500);
    put16(&mut bytes, base + 62, 0x0600);

    let import = GEODE_HEADER_V2_LEN;
    bytes[import..import + 8].copy_from_slice(b"LIBRARY ");
    put16(&mut bytes, import + 8, 0x4000);
    put16(&mut bytes, import + 10, 2);
    put16(&mut bytes, import + 12, 5);
    bytes
}

/// The header of a v2 data document: "People (Med. 15)" of the crossword
/// application, created on date 9079 at time 6991.
fn make_crossword_data_bytes() -> Vec<u8> {
    let mut bytes = vec![0u8; GEOS_V2_HEADER_LEN + 16];
    bytes[0..4].copy_from_slice(&GEOS_V2_SIGNATURE);
    bytes[4..20].copy_from_slice(b"People (Med. 15)");
    put16(&mut bytes, 40, 3);
    bytes[56..60].copy_from_slice(b"CW00");
    bytes[62..66].copy_from_slice(b"CWRD");
    put16(&mut bytes, 200, 9079);
    put16(&mut bytes, 202, 6991);
    bytes
}

#[test]
fn parses_object_header_and_resource_segments() {
    let header = ObjHeader::parse(&make_obj_header_bytes()).unwrap();
    assert_eq!(header.byte_order, PcGeosByteOrder::Little);
    assert_eq!(header.version, ObjFormatVersion::Legacy);
    assert_eq!(header.strings, 0x0044);
    assert_eq!(header.source_map, 0x0050);
    assert_eq!(header.segments.len(), 1);
    assert_eq!(header.groups.len(), 1);
    assert_eq!(header.resources()[0].descriptor_offset, 36);
    assert_eq!(header.resources()[0].segment_type, ObjSegmentType::Resource);
}

#[test]
fn detects_new_format_magic() {
    let mut bytes = make_obj_header_bytes();
    bytes[0..2].copy_from_slice(&OBJ_MAGIC_NEW_FORMAT.to_le_bytes());
    let header = ObjHeader::parse(&bytes).unwrap();
    assert_eq!(header.version, ObjFormatVersion::NewHashFormat);
}

#[test]
fn parses_geode_headers_and_library_entries() {
    let geode = GeodeFile::parse(make_geode_bytes()).unwrap();
    assert_eq!(geode.header.version, PcGeosVersion::V2);
    assert_eq!(geode.header.geos.file_kind, PcGeosFileKind::Executable);
    assert_eq!(geode.header.geos.long_name, "Sample App");
    assert_eq!(geode.header.attributes, 0x8200);
    assert_eq!(geode.header.heap_space, Some(0x4000));
    assert_eq!(geode.header.declared_resource_count, 3);
    assert_eq!(geode.header.library_count, 1);
    assert_eq!(geode.header.geode_name, "SAMPLE");
    assert_eq!(geode.header.geode_name_ext, "APP");
    assert_eq!(geode.imported_libraries.len(), 1);
    assert_eq!(geode.imported_libraries[0].name, "LIBRARY");
    assert_eq!(geode.imported_libraries[0].protocol.major, 2);
    assert_eq!(geode.imported_libraries[0].protocol.minor, 5);
}

#[test]
fn parses_repository_geos_data_fixture() {
    let header = PcGeosFileHeader::parse(&make_crossword_data_bytes()).unwrap();

    assert_eq!(header.version, PcGeosVersion::V2);
    assert_eq!(header.file_kind, PcGeosFileKind::Data);
    assert_eq!(header.long_name, "People (Med. 15)");
    assert_eq!(header.token.chars, "CW00");
    assert_eq!(header.creator.chars, "CWRD");
    assert_eq!(header.created_date, Some(9079));
    assert_eq!(header.created_time, Some(6991));
}

/// A v2 VM file whose block 0x20 is a string-table header naming chain
/// block 0x2c in its first bucket; the chain holds "hello" and "ok".
fn make_string_table_vm_bytes(kind: u16, header_size: u16) -> Vec<u8> {
    let mut bytes = vec![0u8; 1100];
    bytes[0..4].copy_from_slice(&GEOS_V2_SIGNATURE);
    put16(&mut bytes, 40, kind);
    put16(&mut bytes, 256, 0xadeb);
    put16(&mut bytes, 258, header_size);
    put32(&mut bytes, 260, 32);
    let vm = 288;
    put16(&mut bytes, vm, 0x00fb);
    // block 0x20: the string-table header, 514 bytes at 400
    bytes[vm + 32 + 2] = 0xff;
    put16(&mut bytes, vm + 32 + 6, 514);
    put32(&mut bytes, vm + 32 + 8, 400 - 256);
    // block 0x2c: the chain, 20 bytes at 1000
    bytes[vm + 44 + 2] = 0xff;
    put16(&mut bytes, vm + 44 + 6, 20);
    put32(&mut bytes, vm + 44 + 8, 1000 - 256);
    put16(&mut bytes, 400, 0x2c);
    let chain = 1000;
    put16(&mut bytes, chain, 20);
    put16(&mut bytes, chain + 2, 0x1111);
    put16(&mut bytes, chain + 4, 5);
    bytes[chain + 6..chain + 11].copy_from_slice(b"hello");
    put16(&mut bytes, chain + 12, 0x2222);
    put16(&mut bytes, chain + 14, 2);
    bytes[chain + 16..chain + 18].copy_from_slice(b"ok");
    bytes
}

#[test]
fn string_table_entries_sit_under_their_block_and_offset() {
    let vm = VmFile::parse(make_string_table_vm_bytes(2, 56)).unwrap();
    assert_eq!(vm.vm_header.blocks.len(), 2);
    let table = PcGeosStringTable::from_vm(&vm, 0x20).unwrap();
    assert_eq!(table.len(), 2);
    let entries = table.iter();
    assert_eq!(entries.len(), 2);
    for entry in &entries {
        assert_eq!(entry.id, (u32::from(entry.block_handle) << 16) | u32::from(entry.offset));
        assert_ne!(entry.block_handle, 0);
        assert!(entry.offset >= 2 && entry.offset % 2 == 0);
        assert_eq!(table.get(entry.id), Some(entry.value.as_str()));
    }
    assert_eq!(entries[0].id, 0x2c_0002);
    assert_eq!(entries[0].value, "hello");
    assert_eq!(entries[1].id, 0x2c_000c);
    assert_eq!(entries[1].value, "ok");
}

#[test]
fn vm_parse_names_what_is_wrong() {
    assert_eq!(
        VmFile::parse(make_string_table_vm_bytes(3, 56)).unwrap_err().to_string(),
        "PC/GEOS file is not a VM file (kind=data)"
    );
    assert_eq!(
        VmFile::parse(make_string_table_vm_bytes(2, 40)).unwrap_err().to_string(),
        "VM block table length 8 is not a multiple of 12"
    );
    let mut unsigned = make_string_table_vm_bytes(2, 56);
    put16(&mut unsigned, 256, 0x1234);
    assert_eq!(
        VmFile::parse(unsigned).unwrap_err().to_string(),
        "invalid PC/GEOS v2 VM signature: expected 0xadeb, got 0x1234"
    );
    assert_eq!(
        VmFile::parse(make_string_table_vm_bytes(2, 20)).unwrap_err().to_string(),
        "PC/GEOS VM header is truncated: need at least 32 bytes, got 20"
    );
}
