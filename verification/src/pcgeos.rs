//! PC/GEOS file headers (v1 and v2) and executable geode headers with
//! their imported-library tables.
use vstd::prelude::*;
use crate::model::{SwatError, SwatResult, err_msg};
use crate::pcgeos_bytes::{PcGeosByteOrder, u16_le, u16_be, u32_le, u32_be, i16_le, u16_in, u32_in, read_u8_at, read_u16_le_at, read_u16_be_at, read_i16_le_at, read_u32_le_at, read_u32_be_at, read_u16_in, read_u32_in, truncated_msg, ensure_len, slice_at, hex16, hex32, hex_any, push_hex16, push_hex32, push_hex_any, utf8_lossy, fixed_text, fixed_text_at, fixed_string_at, decode_fixed_string};
use crate::text::{decimal, push_decimal, push_str};

verus! {

pub const GEOS_V1_HEADER_LEN: usize = 200;
pub const GEOS_V2_HEADER_LEN: usize = 256;
pub const EXECUTABLE_HEADER_V1_LEN: usize = 222;
pub const EXECUTABLE_HEADER_V2_LEN: usize = 280;
pub const GEODE_HEADER_V1_LEN: usize = 284;
pub const GEODE_HEADER_V2_LEN: usize = 344;
pub const IMPORTED_LIBRARY_ENTRY_LEN: usize = 14;

#[derive(Clone, Copy, Debug, PartialEq, Eq, Structural)]
pub enum PcGeosVersion {
    V1,
    V2,
}

pub open spec fn geos_header_len_of(v: PcGeosVersion) -> nat {
    match v {
        PcGeosVersion::V1 => 200,
        PcGeosVersion::V2 => 256,
    }
}

impl PcGeosVersion {
    pub fn geos_header_len(self) -> (r: usize)
        ensures
            r == geos_header_len_of(self),
    {
        match self {
            PcGeosVersion::V1 => GEOS_V1_HEADER_LEN,
            PcGeosVersion::V2 => GEOS_V2_HEADER_LEN,
        }
    }
}

#[derive(Clone, Copy, Debug, PartialEq, Eq, Structural)]
pub enum PcGeosFileKind {
    NotGeos,
    Executable,
    Vm,
    Data,
    Directory,
    Unknown(u16),
}

pub open spec fn file_kind_of(raw: u16) -> PcGeosFileKind {
    if raw == 0 {
        PcGeosFileKind::NotGeos
    } else if raw == 1 {
        PcGeosFileKind::Executable
    } else if raw == 2 {
        PcGeosFileKind::Vm
    } else if raw == 3 {
        PcGeosFileKind::Data
    } else if raw == 4 {
        PcGeosFileKind::Directory
    } else {
        PcGeosFileKind::Unknown(raw)
    }
}

pub open spec fn file_kind_label(k: PcGeosFileKind) -> Seq<char> {
    match k {
        PcGeosFileKind::NotGeos => "not-geos"@,
        PcGeosFileKind::Executable => "executable"@,
        PcGeosFileKind::Vm => "vm"@,
        PcGeosFileKind::Data => "data"@,
        PcGeosFileKind::Directory => "directory"@,
        PcGeosFileKind::Unknown(_) => "unknown"@,
    }
}

impl PcGeosFileKind {
    pub fn from_raw(raw: u16) -> (r: Self)
        ensures
            r == file_kind_of(raw),
    {
        if raw == 0 {
            PcGeosFileKind::NotGeos
        } else if raw == 1 {
            PcGeosFileKind::Executable
        } else if raw == 2 {
            PcGeosFileKind::Vm
        } else if raw == 3 {
            PcGeosFileKind::Data
        } else if raw == 4 {
            PcGeosFileKind::Directory
        } else {
            PcGeosFileKind::Unknown(raw)
        }
    }

    pub fn label(self) -> (r: &'static str)
        ensures
            r@ == file_kind_label(self),
    {
        match self {
            PcGeosFileKind::NotGeos => "not-geos",
            PcGeosFileKind::Executable => "executable",
            PcGeosFileKind::Vm => "vm",
            PcGeosFileKind::Data => "data",
            PcGeosFileKind::Directory => "directory",
            PcGeosFileKind::Unknown(_) => "unknown",
        }
    }
}

/// Every raw kind maps to a kind, and the five known raw values are the only
/// ones that do not map to `Unknown` of themselves.
pub proof fn law_file_kind_from_raw(raw: u16)
    ensures
        raw <= 4 <==> !(file_kind_of(raw) is Unknown),
        file_kind_of(raw) matches PcGeosFileKind::Unknown(v) ==> v == raw,
{
}

#[derive(Clone, Debug, PartialEq, Eq)]
pub struct ReleaseNumber {
    pub major: u16,
    pub minor: u16,
    pub change: u16,
    pub engineering: u16,
}

#[derive(Clone, Debug, PartialEq, Eq)]
pub struct ProtocolNumber {
    pub major: u16,
    pub minor: u16,
}

#[derive(Clone, Debug, PartialEq, Eq)]
pub struct IconToken {
    pub chars: String,
    pub manufacturer_id: u16,
}

pub open spec fn release_at(r: ReleaseNumber, b: Seq<u8>, off: int) -> bool {
    &&& r.major == u16_le(b, off)
    &&& r.minor == u16_le(b, off + 2)
    &&& r.change == u16_le(b, off + 4)
    &&& r.engineering == u16_le(b, off + 6)
}

pub open spec fn protocol_at(p: ProtocolNumber, b: Seq<u8>, off: int) -> bool {
    &&& p.major == u16_le(b, off)
    &&& p.minor == u16_le(b, off + 2)
}

pub open spec fn token_at(t: IconToken, b: Seq<u8>, off: int) -> bool {
    &&& t.chars@ == fixed_text_at(b, off, 4)
    &&& t.manufacturer_id == u16_le(b, off + 4)
}

fn parse_release(b: &[u8], off: usize) -> (r: ReleaseNumber)
    requires
        off + 8 <= b@.len(),
    ensures
        release_at(r, b@, off as int),
{
    let _n = b.len();
    ReleaseNumber {
        major: read_u16_le_at(b, off),
        minor: read_u16_le_at(b, off + 2),
        change: read_u16_le_at(b, off + 4),
        engineering: read_u16_le_at(b, off + 6),
    }
}

fn parse_protocol(b: &[u8], off: usize) -> (r: ProtocolNumber)
    requires
        off + 4 <= b@.len(),
    ensures
        protocol_at(r, b@, off as int),
{
    let _n = b.len();
    ProtocolNumber { major: read_u16_le_at(b, off), minor: read_u16_le_at(b, off + 2) }
}

/// The icon token at `offset`: four text characters and a manufacturer id.
pub fn parse_icon_token(b: &[u8], offset: usize) -> (r: IconToken)
    requires
        offset + 6 <= b@.len(),
    ensures
        token_at(r, b@, offset as int),
{
    let _n = b.len();
    IconToken {
        chars: fixed_string_at(b, offset, 4),
        manufacturer_id: read_u16_le_at(b, offset + 4),
    }
}

#[derive(Clone, Debug, PartialEq, Eq)]
pub struct PcGeosFileHeader {
    pub version: PcGeosVersion,
    pub file_kind: PcGeosFileKind,
    pub flags: u16,
    pub release: ReleaseNumber,
    pub protocol: ProtocolNumber,
    pub token: IconToken,
    pub creator: IconToken,
    pub long_name: String,
    pub user_notes: Option<String>,
    pub created_date: Option<u16>,
    pub created_time: Option<u16>,
}

/// The version that the four signature bytes announce.
pub open spec fn geos_version(b: Seq<u8>) -> Option<PcGeosVersion> {
    if b.len() >= 4 && b[0] == 0xc7u8 && b[1] == 0x45u8 && b[2] == 0xcfu8 && b[3] == 0x53u8 {
        Some(PcGeosVersion::V1)
    } else if b.len() >= 4 && b[0] == 0xc7u8 && b[1] == 0x45u8 && b[2] == 0xc1u8 && b[3]
        == 0x53u8 {
        Some(PcGeosVersion::V2)
    } else {
        None
    }
}

pub open spec fn geos_v1_fields(h: PcGeosFileHeader, b: Seq<u8>) -> bool {
    &&& h.version == PcGeosVersion::V1
    &&& h.file_kind == file_kind_of(u16_le(b, 4))
    &&& h.flags == u16_le(b, 6)
    &&& release_at(h.release, b, 8)
    &&& protocol_at(h.protocol, b, 16)
    &&& token_at(h.token, b, 20)
    &&& token_at(h.creator, b, 26)
    &&& h.long_name@ == fixed_text_at(b, 32, 36)
    &&& h.user_notes matches Some(n) && n@ == fixed_text_at(b, 68, 100)
    &&& h.created_date is None
    &&& h.created_time is None
}

pub open spec fn geos_v2_fields(h: PcGeosFileHeader, b: Seq<u8>) -> bool {
    &&& h.version == PcGeosVersion::V2
    &&& h.file_kind == file_kind_of(u16_le(b, 40))
    &&& h.flags == u16_le(b, 42)
    &&& release_at(h.release, b, 44)
    &&& protocol_at(h.protocol, b, 52)
    &&& token_at(h.token, b, 56)
    &&& token_at(h.creator, b, 62)
    &&& h.long_name@ == fixed_text_at(b, 4, 36)
    &&& h.user_notes matches Some(n) && n@ == fixed_text_at(b, 68, 100)
    &&& h.created_date == Some(u16_le(b, 200))
    &&& h.created_time == Some(u16_le(b, 202))
}

/// Whether a file header can be read from `b`: a signature and a complete
/// header of that version.
pub open spec fn geos_header_ok(b: Seq<u8>) -> bool {
    geos_version(b) matches Some(v) && b.len() >= geos_header_len_of(v)
}

/// `h` is the file header that `b` holds.
pub open spec fn geos_header_of(h: PcGeosFileHeader, b: Seq<u8>) -> bool {
    match geos_version(b) {
        Some(PcGeosVersion::V1) => b.len() >= 200 && geos_v1_fields(h, b),
        Some(PcGeosVersion::V2) => b.len() >= 256 && geos_v2_fields(h, b),
        None => false,
    }
}

/// The error message when no file header can be read from `b`.
pub open spec fn geos_header_error(b: Seq<u8>) -> Seq<char> {
    match geos_version(b) {
        None => "file does not start with a PC/GEOS signature"@,
        Some(v) => truncated_msg("pc/geos file header"@, geos_header_len_of(v), b.len()),
    }
}

/// The version announced by the signature, if any.
pub fn detect_geos_version(b: &[u8]) -> (r: Option<PcGeosVersion>)
    ensures
        r == geos_version(b@),
{
    if b.len() >= 4 && b[0] == 0xc7u8 && b[1] == 0x45u8 && b[3] == 0x53u8 {
        if b[2] == 0xcfu8 {
            return Some(PcGeosVersion::V1);
        }
        if b[2] == 0xc1u8 {
            return Some(PcGeosVersion::V2);
        }
    }
    None
}

/// The v1 file header fields.
pub fn parse_geos_v1_header(b: &[u8]) -> (r: PcGeosFileHeader)
    requires
        b@.len() >= 200,
    ensures
        geos_v1_fields(r, b@),
{
    PcGeosFileHeader {
        version: PcGeosVersion::V1,
        file_kind: PcGeosFileKind::from_raw(read_u16_le_at(b, 4)),
        flags: read_u16_le_at(b, 6),
        release: parse_release(b, 8),
        protocol: parse_protocol(b, 16),
        token: parse_icon_token(b, 20),
        creator: parse_icon_token(b, 26),
        long_name: fixed_string_at(b, 32, 36),
        user_notes: Some(fixed_string_at(b, 68, 100)),
        created_date: None,
        created_time: None,
    }
}

/// The v2 file header fields.
pub fn parse_geos_v2_header(b: &[u8]) -> (r: PcGeosFileHeader)
    requires
        b@.len() >= 256,
    ensures
        geos_v2_fields(r, b@),
{
    PcGeosFileHeader {
        version: PcGeosVersion::V2,
        file_kind: PcGeosFileKind::from_raw(read_u16_le_at(b, 40)),
        flags: read_u16_le_at(b, 42),
        release: parse_release(b, 44),
        protocol: parse_protocol(b, 52),
        token: parse_icon_token(b, 56),
        creator: parse_icon_token(b, 62),
        long_name: fixed_string_at(b, 4, 36),
        user_notes: Some(fixed_string_at(b, 68, 100)),
        created_date: Some(read_u16_le_at(b, 200)),
        created_time: Some(read_u16_le_at(b, 202)),
    }
}

impl PcGeosFileHeader {
    /// Reads the file header at the start of `b`.
    pub fn parse(b: &[u8]) -> (r: SwatResult<Self>)
        ensures
            r is Ok <==> geos_header_ok(b@),
            r matches Ok(h) ==> geos_header_of(h, b@),
            r matches Err(e) ==> e@ == geos_header_error(b@),
    {
        let version = match detect_geos_version(b) {
            Some(v) => v,
            None => {
                return Err(err_msg("file does not start with a PC/GEOS signature"));
            },
        };
        match ensure_len(b, version.geos_header_len() as u64, "pc/geos file header") {
            Ok(()) => {},
            Err(e) => {
                return Err(e);
            },
        }
        match version {
            PcGeosVersion::V1 => Ok(parse_geos_v1_header(b)),
            PcGeosVersion::V2 => Ok(parse_geos_v2_header(b)),
        }
    }
}

#[derive(Clone, Debug, PartialEq, Eq)]
pub struct ImportedLibraryEntryRecord {
    pub name: String,
    pub geode_attributes: u16,
    pub protocol: ProtocolNumber,
}

#[derive(Clone, Debug, PartialEq, Eq)]
pub struct GeodeExecutableHeader {
    pub version: PcGeosVersion,
    pub geos: PcGeosFileHeader,
    pub attributes: u16,
    pub geode_type: u16,
    pub heap_space: Option<u16>,
    pub kernel_protocol: Option<ProtocolNumber>,
    pub declared_resource_count: u16,
    pub declared_import_library_count: u16,
    pub declared_export_entry_count: u16,
    pub udata_size: u16,
    pub class_offset: u16,
    pub class_resource: u16,
    pub app_object_chunk_handle: u16,
    pub app_object_resource: u16,
    pub geode_handle: u16,
    pub geode_attributes: u16,
    pub geode_file_type: u16,
    pub geode_release: ReleaseNumber,
    pub geode_protocol: ProtocolNumber,
    pub geode_serial: u16,
    pub geode_name: String,
    pub geode_name_ext: String,
    pub geode_token: IconToken,
    pub geode_ref_count: u16,
    pub driver_table_offset: u16,
    pub driver_table_resource: u16,
    pub library_entry_offset: u16,
    pub library_entry_resource: u16,
    pub export_library_table_offset: u16,
    pub runtime_export_entry_count: u16,
    pub library_count: u16,
    pub library_offset: u16,
    pub runtime_resource_count: u16,
    pub resource_handle_offset: u16,
    pub resource_position_offset: u16,
    pub resource_relocation_offset: u16,
}

/// The geode fields that both versions lay out alike, relative to the end
/// `g` of the file header and the end `e` of the executable header.
pub open spec fn geode_common_fields(h: GeodeExecutableHeader, b: Seq<u8>, g: int, e: int) -> bool {
    &&& h.attributes == u16_le(b, g)
    &&& h.geode_type == u16_le(b, g + 2)
    &&& h.declared_resource_count == u16_le(b, g + 8)
    &&& h.declared_import_library_count == u16_le(b, g + 10)
    &&& h.declared_export_entry_count == u16_le(b, g + 12)
    &&& h.udata_size == u16_le(b, g + 14)
    &&& h.class_offset == u16_le(b, g + 16)
    &&& h.class_resource == u16_le(b, g + 18)
    &&& h.app_object_chunk_handle == u16_le(b, g + 20)
    &&& h.app_object_resource == u16_le(b, g + 22)
    &&& h.geode_handle == u16_le(b, e)
    &&& h.geode_attributes == u16_le(b, e + 2)
    &&& h.geode_file_type == u16_le(b, e + 4)
    &&& release_at(h.geode_release, b, e + 6)
    &&& protocol_at(h.geode_protocol, b, e + 14)
    &&& h.geode_serial == u16_le(b, e + 18)
    &&& h.geode_name@ == fixed_text_at(b, e + 20, 8)
    &&& h.geode_name_ext@ == fixed_text_at(b, e + 28, 4)
    &&& token_at(h.geode_token, b, e + 32)
    &&& h.geode_ref_count == u16_le(b, e + 38)
    &&& h.driver_table_offset == u16_le(b, e + 40)
    &&& h.driver_table_resource == u16_le(b, e + 42)
    &&& h.library_entry_offset == u16_le(b, e + 44)
    &&& h.library_entry_resource == u16_le(b, e + 46)
    &&& h.export_library_table_offset == u16_le(b, e + 48)
    &&& h.runtime_export_entry_count == u16_le(b, e + 50)
    &&& h.library_count == u16_le(b, e + 52)
    &&& h.library_offset == u16_le(b, e + 54)
    &&& h.runtime_resource_count == u16_le(b, e + 56)
    &&& h.resource_handle_offset == u16_le(b, e + 58)
    &&& h.resource_position_offset == u16_le(b, e + 60)
    &&& h.resource_relocation_offset == u16_le(b, e + 62)
}

pub open spec fn geode_v1_fields(h: GeodeExecutableHeader, b: Seq<u8>, geos: PcGeosFileHeader) -> bool {
    &&& h.version == PcGeosVersion::V1
    &&& h.geos == geos
    &&& h.heap_space is None
    &&& h.kernel_protocol matches Some(p) && protocol_at(p, b, 204)
    &&& geode_common_fields(h, b, 200, 222)
}

pub open spec fn geode_v2_fields(h: GeodeExecutableHeader, b: Seq<u8>, geos: PcGeosFileHeader) -> bool {
    &&& h.version == PcGeosVersion::V2
    &&& h.geos == geos
    &&& h.heap_space == Some(u16_le(b, 260))
    &&& h.kernel_protocol is None
    &&& geode_common_fields(h, b, 256, 280)
}

/// Length that the v1 geode header reads: its last field ends two bytes
/// past the declared header length.
pub open spec fn geode_v1_read_len() -> nat {
    286
}

fn parse_common_geode(
    b: &[u8],
    geos: PcGeosFileHeader,
    version: PcGeosVersion,
    heap_space: Option<u16>,
    kernel_protocol: Option<ProtocolNumber>,
    g: usize,
    e: usize,
) -> (r: GeodeExecutableHeader)
    requires
        g + 24 <= b@.len(),
        e + 64 <= b@.len(),
    ensures
        geode_common_fields(r, b@, g as int, e as int),
        r.version == version,
        r.geos == geos,
        r.heap_space == heap_space,
        r.kernel_protocol == kernel_protocol,
{
    let _n = b.len();
    GeodeExecutableHeader {
        version,
        geos,
        attributes: read_u16_le_at(b, g),
        geode_type: read_u16_le_at(b, g + 2),
        heap_space,
        kernel_protocol,
        declared_resource_count: read_u16_le_at(b, g + 8),
        declared_import_library_count: read_u16_le_at(b, g + 10),
        declared_export_entry_count: read_u16_le_at(b, g + 12),
        udata_size: read_u16_le_at(b, g + 14),
        class_offset: read_u16_le_at(b, g + 16),
        class_resource: read_u16_le_at(b, g + 18),
        app_object_chunk_handle: read_u16_le_at(b, g + 20),
        app_object_resource: read_u16_le_at(b, g + 22),
        geode_handle: read_u16_le_at(b, e),
        geode_attributes: read_u16_le_at(b, e + 2),
        geode_file_type: read_u16_le_at(b, e + 4),
        geode_release: parse_release(b, e + 6),
        geode_protocol: parse_protocol(b, e + 14),
        geode_serial: read_u16_le_at(b, e + 18),
        geode_name: fixed_string_at(b, e + 20, 8),
        geode_name_ext: fixed_string_at(b, e + 28, 4),
        geode_token: parse_icon_token(b, e + 32),
        geode_ref_count: read_u16_le_at(b, e + 38),
        driver_table_offset: read_u16_le_at(b, e + 40),
        driver_table_resource: read_u16_le_at(b, e + 42),
        library_entry_offset: read_u16_le_at(b, e + 44),
        library_entry_resource: read_u16_le_at(b, e + 46),
        export_library_table_offset: read_u16_le_at(b, e + 48),
        runtime_export_entry_count: read_u16_le_at(b, e + 50),
        library_count: read_u16_le_at(b, e + 52),
        library_offset: read_u16_le_at(b, e + 54),
        runtime_resource_count: read_u16_le_at(b, e + 56),
        resource_handle_offset: read_u16_le_at(b, e + 58),
        resource_position_offset: read_u16_le_at(b, e + 60),
        resource_relocation_offset: read_u16_le_at(b, e + 62),
    }
}

/// The v1 geode header. The header is 284 bytes, but its last field is
/// read at 284, so 286 bytes are needed.
pub fn parse_geode_v1_header(b: &[u8], geos: PcGeosFileHeader) -> (r: SwatResult<
    GeodeExecutableHeader,
>)
    ensures
        r is Ok <==> b@.len() >= 286,
        r matches Ok(h) ==> geode_v1_fields(h, b@, geos),
        r matches Err(e) ==> e@ == (if b@.len() < 284 {
            truncated_msg("PC/GEOS v1 geode header"@, 284, b@.len())
        } else {
            truncated_msg("u16"@, 286, b@.len())
        }),
{
    match ensure_len(b, GEODE_HEADER_V1_LEN as u64, "PC/GEOS v1 geode header") {
        Ok(()) => {},
        Err(e) => {
            return Err(e);
        },
    }
    match ensure_len(b, 286, "u16") {
        Ok(()) => {},
        Err(e) => {
            return Err(e);
        },
    }
    let kernel = parse_protocol(b, GEOS_V1_HEADER_LEN + 4);
    Ok(
        parse_common_geode(
            b,
            geos,
            PcGeosVersion::V1,
            None,
            Some(kernel),
            GEOS_V1_HEADER_LEN,
            EXECUTABLE_HEADER_V1_LEN,
        ),
    )
}

/// The v2 geode header.
pub fn parse_geode_v2_header(b: &[u8], geos: PcGeosFileHeader) -> (r: SwatResult<
    GeodeExecutableHeader,
>)
    ensures
        r is Ok <==> b@.len() >= 344,
        r matches Ok(h) ==> geode_v2_fields(h, b@, geos),
        r matches Err(e) ==> e@ == truncated_msg("PC/GEOS v2 geode header"@, 344, b@.len()),
{
    match ensure_len(b, GEODE_HEADER_V2_LEN as u64, "PC/GEOS v2 geode header") {
        Ok(()) => {},
        Err(e) => {
            return Err(e);
        },
    }
    let heap = read_u16_le_at(b, GEOS_V2_HEADER_LEN + 4);
    Ok(
        parse_common_geode(
            b,
            geos,
            PcGeosVersion::V2,
            Some(heap),
            None,
            GEOS_V2_HEADER_LEN,
            EXECUTABLE_HEADER_V2_LEN,
        ),
    )
}

/// The imported-library entry at `off`.
pub open spec fn library_entry_at(r: ImportedLibraryEntryRecord, b: Seq<u8>, off: int) -> bool {
    &&& r.name@ == fixed_text_at(b, off, 8)
    &&& r.geode_attributes == u16_le(b, off + 8)
    &&& protocol_at(r.protocol, b, off + 10)
}

#[derive(Clone, Debug, PartialEq, Eq)]
pub struct GeodeFile {
    pub header: GeodeExecutableHeader,
    pub imported_libraries: Vec<ImportedLibraryEntryRecord>,
}

/// Where the header ends and the library table starts, per version.
pub open spec fn geode_header_len_of(v: PcGeosVersion) -> nat {
    match v {
        PcGeosVersion::V1 => 284,
        PcGeosVersion::V2 => 344,
    }
}

/// `g` is the geode that `b` holds.
pub open spec fn geode_of(g: GeodeFile, b: Seq<u8>) -> bool {
    &&& geos_header_of(g.header.geos, b)
    &&& g.header.geos.file_kind == PcGeosFileKind::Executable
    &&& match g.header.version {
        PcGeosVersion::V1 => geode_v1_fields(g.header, b, g.header.geos),
        PcGeosVersion::V2 => geode_v2_fields(g.header, b, g.header.geos),
    }
    &&& g.header.version == g.header.geos.version
    &&& g.imported_libraries@.len() == g.header.library_count
    &&& forall|i: int|
        0 <= i < g.imported_libraries@.len() ==> library_entry_at(
            #[trigger] g.imported_libraries@[i],
            b,
            geode_header_len_of(g.header.version) + 14 * i,
        )
}

/// Whether a geode can be read from `b`.
pub open spec fn geode_ok(b: Seq<u8>) -> bool {
    &&& geos_header_ok(b)
    &&& file_kind_of(geos_kind_raw(b)) == PcGeosFileKind::Executable
    &&& b.len() >= geode_read_len(b)
    &&& b.len() >= geode_header_len_of(geos_version(b)->0) + 14 * geode_library_count(b)
}

/// The raw kind field of a file whose header can be read.
pub open spec fn geos_kind_raw(b: Seq<u8>) -> u16 {
    match geos_version(b) {
        Some(PcGeosVersion::V1) => u16_le(b, 4),
        _ => u16_le(b, 40),
    }
}

/// The number of bytes that the geode header fields need.
pub open spec fn geode_read_len(b: Seq<u8>) -> nat {
    match geos_version(b) {
        Some(PcGeosVersion::V1) => 286,
        _ => 344,
    }
}

/// The library count field of a geode header.
pub open spec fn geode_library_count(b: Seq<u8>) -> nat {
    match geos_version(b) {
        Some(PcGeosVersion::V1) => u16_le(b, 274) as nat,
        _ => u16_le(b, 332) as nat,
    }
}

proof fn lemma_geos_kind(h: PcGeosFileHeader, b: Seq<u8>)
    requires
        geos_header_of(h, b),
    ensures
        h.file_kind == file_kind_of(geos_kind_raw(b)),
        geos_version(b) == Some(h.version),
{
}

impl GeodeFile {
    /// Reads an executable geode: its file header, its geode header and its
    /// imported-library table.
    pub fn parse(bytes: Vec<u8>) -> (r: SwatResult<Self>)
        ensures
            r is Ok <==> geode_ok(bytes@),
            r matches Ok(g) ==> geode_of(g, bytes@),
    {
        let b = bytes.as_slice();
        let geos = match PcGeosFileHeader::parse(b) {
            Ok(h) => h,
            Err(e) => {
                return Err(e);
            },
        };
        proof {
            lemma_geos_kind(geos, b@);
        }
        match geos.file_kind {
            PcGeosFileKind::Executable => {},
            _ => {
                let mut m = String::new();
                push_str(&mut m, "PC/GEOS file is not an executable geode (kind=");
                push_str(&mut m, geos.file_kind.label());
                push_str(&mut m, ")");
                return Err(SwatError::new(m));
            },
        }
        let version = geos.version;
        let (header, header_len) = match version {
            PcGeosVersion::V1 => match parse_geode_v1_header(b, geos) {
                Ok(h) => (h, GEODE_HEADER_V1_LEN),
                Err(e) => {
                    return Err(e);
                },
            },
            PcGeosVersion::V2 => match parse_geode_v2_header(b, geos) {
                Ok(h) => (h, GEODE_HEADER_V2_LEN),
                Err(e) => {
                    return Err(e);
                },
            },
        };
        assert(header.library_count == geode_library_count(b@));
        let count = header.library_count as usize;
        let mut imported_libraries: Vec<ImportedLibraryEntryRecord> = Vec::new();
        let mut cursor: usize = header_len;
        let mut index: usize = 0;
        while index < count
            invariant
                index <= count,
                count == header.library_count,
                count == geode_library_count(b@),
                geos_version(b@) == Some(version),
                geos_header_ok(b@),
                file_kind_of(geos_kind_raw(b@)) == PcGeosFileKind::Executable,
                b@.len() >= geode_read_len(b@),
                header_len == geode_header_len_of(version),
                version == header.version,
                cursor == header_len + 14 * index,
                b@.len() >= header_len + 14 * index,
                imported_libraries@.len() == index,
                b@ == bytes@,
                forall|i: int|
                    0 <= i < index ==> library_entry_at(
                        #[trigger] imported_libraries@[i],
                        b@,
                        header_len + 14 * i,
                    ),
            decreases count - index,
        {
            let mut context = String::new();
            push_str(&mut context, "PC/GEOS imported library entry ");
            push_decimal(&mut context, index as u64);
            match ensure_len(b, (cursor + IMPORTED_LIBRARY_ENTRY_LEN) as u64, context.as_str()) {
                Ok(()) => {},
                Err(e) => {
                    return Err(e);
                },
            }
            imported_libraries.push(
                ImportedLibraryEntryRecord {
                    name: fixed_string_at(b, cursor, 8),
                    geode_attributes: read_u16_le_at(b, cursor + 8),
                    protocol: parse_protocol(b, cursor + 10),
                },
            );
            cursor = cursor + IMPORTED_LIBRARY_ENTRY_LEN;
            index = index + 1;
        }
        Ok(GeodeFile { header, imported_libraries })
    }
}

} // verus!
