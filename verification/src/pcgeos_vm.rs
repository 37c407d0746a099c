//! PC/GEOS VM files: the VM file header, the VM header with its block
//! table, block records and block contents.
use vstd::prelude::*;
use crate::model::{SwatError, SwatResult, err_msg};
use crate::pcgeos::{
    PcGeosFileHeader, PcGeosFileKind, PcGeosVersion, geos_header_of, geos_header_ok,
    geos_header_error, geos_version, file_kind_of, file_kind_label, geos_kind_raw, GEOS_V1_HEADER_LEN,
    GEOS_V2_HEADER_LEN,
};
use crate::pcgeos_bytes::{
    u16_le, u32_le, i16_le, read_u8_at, read_u16_le_at, read_i16_le_at, read_u32_le_at,
    truncated_msg, ensure_len, slice_at, hex16, push_hex16,
};
use crate::text::{decimal, push_decimal, push_str};

verus! {

pub const VM_FILE_V1_HEADER_LEN: usize = 208;
pub const VM_FILE_V2_HEADER_LEN: usize = 280;
pub const VM_BLOCK_RECORD_LEN: usize = 12;
pub const VM_HEADER_PREFIX_LEN: usize = 32;
pub const VM_FILE_SIGNATURE: u16 = 0xadeb;
pub const VM_HEADER_SIGNATURE: u16 = 0x00fb;

#[derive(Clone, Copy, Debug, PartialEq, Eq, Structural)]
pub enum VmUpdateType {
    Read,
    Internal,
    Save,
    SaveAs,
    Revert,
    Update,
    Write,
    Application(u16),
    Unknown(u16),
}

pub open spec fn update_type_of(raw: u16) -> VmUpdateType {
    if raw == 0 {
        VmUpdateType::Read
    } else if raw == 1 {
        VmUpdateType::Internal
    } else if raw == 2 {
        VmUpdateType::Save
    } else if raw == 3 {
        VmUpdateType::SaveAs
    } else if raw == 4 {
        VmUpdateType::Revert
    } else if raw == 5 {
        VmUpdateType::Update
    } else if raw == 6 {
        VmUpdateType::Write
    } else if raw >= 0x8000 {
        VmUpdateType::Application(raw)
    } else {
        VmUpdateType::Unknown(raw)
    }
}

impl VmUpdateType {
    pub fn from_raw(raw: u16) -> (r: Self)
        ensures
            r == update_type_of(raw),
    {
        if raw == 0 {
            VmUpdateType::Read
        } else if raw == 1 {
            VmUpdateType::Internal
        } else if raw == 2 {
            VmUpdateType::Save
        } else if raw == 3 {
            VmUpdateType::SaveAs
        } else if raw == 4 {
            VmUpdateType::Revert
        } else if raw == 5 {
            VmUpdateType::Update
        } else if raw == 6 {
            VmUpdateType::Write
        } else if raw >= 0x8000 {
            VmUpdateType::Application(raw)
        } else {
            VmUpdateType::Unknown(raw)
        }
    }
}

#[derive(Clone, Debug, PartialEq, Eq)]
pub struct VmFileHeader {
    pub version: PcGeosVersion,
    pub geos: PcGeosFileHeader,
    pub header_size: u16,
    pub header_offset: u32,
    pub absolute_header_offset: usize,
    pub update_counter: Option<u16>,
    pub update_type: Option<VmUpdateType>,
}

/// `h` is the VM file header that `b` holds.
pub open spec fn vm_file_header_of(h: VmFileHeader, b: Seq<u8>) -> bool {
    &&& geos_header_of(h.geos, b)
    &&& h.version == h.geos.version
    &&& match h.version {
        PcGeosVersion::V1 => {
            &&& b.len() >= 208
            &&& h.header_size == u16_le(b, 202)
            &&& h.header_offset == u32_le(b, 204)
            &&& h.absolute_header_offset == h.header_offset
            &&& h.update_counter is None
            &&& h.update_type is None
        },
        PcGeosVersion::V2 => {
            &&& b.len() >= 280
            &&& h.header_size == u16_le(b, 258)
            &&& h.header_offset == u32_le(b, 260)
            &&& h.absolute_header_offset == h.header_offset + 256
            &&& h.update_counter == Some(u16_le(b, 264))
            &&& h.update_type == Some(update_type_of(u16_le(b, 266)))
        },
    }
}

/// Whether a VM file header can be read from `b`.
pub open spec fn vm_file_header_ok(b: Seq<u8>) -> bool {
    &&& geos_header_ok(b)
    &&& match geos_version(b) {
        Some(PcGeosVersion::V1) => b.len() >= 208 && u16_le(b, 200) == 0xadeb,
        _ => b.len() >= 280 && u16_le(b, 256) == 0xadeb && u32_le(b, 260) + 256 <= usize::MAX,
    }
}

fn signature_error(prefix: &str, expected: u16, found: u16) -> (e: SwatError)
    ensures
        e@ == prefix@ + ": expected "@ + hex16(expected) + ", got "@ + hex16(found),
{
    let mut m = String::new();
    push_str(&mut m, prefix);
    push_str(&mut m, ": expected ");
    push_hex16(&mut m, expected);
    push_str(&mut m, ", got ");
    push_hex16(&mut m, found);
    assert(m@ =~= prefix@ + ": expected "@ + hex16(expected) + ", got "@ + hex16(found));
    SwatError::new(m)
}

/// The v1 VM file header after the file header `geos`.
pub fn parse_vm_v1_header(b: &[u8], geos: PcGeosFileHeader) -> (r: SwatResult<VmFileHeader>)
    requires
        geos_header_of(geos, b@),
        geos.version == PcGeosVersion::V1,
    ensures
        r is Ok <==> b@.len() >= 208 && u16_le(b@, 200) == 0xadeb,
        r matches Ok(h) ==> vm_file_header_of(h, b@),
        r matches Err(e) ==> e@ == (if b@.len() < 208 {
            truncated_msg("PC/GEOS v1 VM file header"@, 208, b@.len())
        } else {
            "invalid PC/GEOS v1 VM signature"@ + ": expected "@ + hex16(0xadeb) + ", got "@ + hex16(
                u16_le(b@, 200),
            )
        }),
{
    match ensure_len(b, VM_FILE_V1_HEADER_LEN as u64, "PC/GEOS v1 VM file header") {
        Ok(()) => {},
        Err(e) => {
            return Err(e);
        },
    }
    let signature = read_u16_le_at(b, GEOS_V1_HEADER_LEN);
    if signature != VM_FILE_SIGNATURE {
        return Err(signature_error("invalid PC/GEOS v1 VM signature", VM_FILE_SIGNATURE, signature));
    }
    let header_size = read_u16_le_at(b, GEOS_V1_HEADER_LEN + 2);
    let header_offset = read_u32_le_at(b, GEOS_V1_HEADER_LEN + 4);
    Ok(
        VmFileHeader {
            version: PcGeosVersion::V1,
            geos,
            header_size,
            header_offset,
            absolute_header_offset: header_offset as usize,
            update_counter: None,
            update_type: None,
        },
    )
}

/// The message with which reading a v2 VM file header from `b` fails.
pub open spec fn vm_v2_header_error(b: Seq<u8>) -> Seq<char> {
    if b.len() < 280 {
        truncated_msg("PC/GEOS v2 VM file header"@, 280, b.len())
    } else if u16_le(b, 256) != 0xadeb {
        "invalid PC/GEOS v2 VM signature"@ + ": expected "@ + hex16(0xadeb) + ", got "@ + hex16(
            u16_le(b, 256),
        )
    } else {
        "invalid VM header offset: out of range integral type conversion attempted"@
    }
}

/// The message with which reading the file header and the VM file header
/// from `b` fails.
pub open spec fn vm_file_header_error(b: Seq<u8>) -> Seq<char> {
    if !geos_header_ok(b) {
        geos_header_error(b)
    } else {
        match geos_version(b) {
            Some(PcGeosVersion::V1) => if b.len() < 208 {
                truncated_msg("PC/GEOS v1 VM file header"@, 208, b.len())
            } else {
                "invalid PC/GEOS v1 VM signature"@ + ": expected "@ + hex16(0xadeb) + ", got "@
                    + hex16(u16_le(b, 200))
            },
            _ => vm_v2_header_error(b),
        }
    }
}

/// The v2 VM file header after the file header `geos`. The absolute header
/// offset is the stored offset plus the v2 file header length; where that
/// sum exceeds `usize` the offset is refused as invalid.
pub fn parse_vm_v2_header(b: &[u8], geos: PcGeosFileHeader) -> (r: SwatResult<VmFileHeader>)
    requires
        geos_header_of(geos, b@),
        geos.version == PcGeosVersion::V2,
    ensures
        r is Ok <==> b@.len() >= 280 && u16_le(b@, 256) == 0xadeb && u32_le(b@, 260) + 256
            <= usize::MAX,
        r matches Ok(h) ==> vm_file_header_of(h, b@),
        r matches Err(e) ==> e@ == vm_v2_header_error(b@),
{
    match ensure_len(b, VM_FILE_V2_HEADER_LEN as u64, "PC/GEOS v2 VM file header") {
        Ok(()) => {},
        Err(e) => {
            return Err(e);
        },
    }
    let signature = read_u16_le_at(b, GEOS_V2_HEADER_LEN);
    if signature != VM_FILE_SIGNATURE {
        return Err(signature_error("invalid PC/GEOS v2 VM signature", VM_FILE_SIGNATURE, signature));
    }
    let header_size = read_u16_le_at(b, GEOS_V2_HEADER_LEN + 2);
    let header_offset = read_u32_le_at(b, GEOS_V2_HEADER_LEN + 4);
    let raw = header_offset as usize;
    if raw > usize::MAX - GEOS_V2_HEADER_LEN {
        return Err(err_msg("invalid VM header offset: out of range integral type conversion attempted"));
    }
    let update_counter = read_u16_le_at(b, GEOS_V2_HEADER_LEN + 8);
    let update_raw = read_u16_le_at(b, GEOS_V2_HEADER_LEN + 10);
    Ok(
        VmFileHeader {
            version: PcGeosVersion::V2,
            geos,
            header_size,
            header_offset,
            absolute_header_offset: raw + GEOS_V2_HEADER_LEN,
            update_counter: Some(update_counter),
            update_type: Some(VmUpdateType::from_raw(update_raw)),
        },
    )
}

impl VmFileHeader {
    /// Reads the file header and the VM file header that follows it.
    pub fn parse(b: &[u8]) -> (r: SwatResult<Self>)
        ensures
            r is Ok <==> vm_file_header_ok(b@),
            r matches Ok(h) ==> vm_file_header_of(h, b@),
            r matches Err(e) ==> e@ == vm_file_header_error(b@),
    {
        let geos = match PcGeosFileHeader::parse(b) {
            Ok(h) => h,
            Err(e) => {
                return Err(e);
            },
        };
        match geos.version {
            PcGeosVersion::V1 => parse_vm_v1_header(b, geos),
            PcGeosVersion::V2 => parse_vm_v2_header(b, geos),
        }
    }
}

#[derive(Clone, Copy, Debug, PartialEq, Eq, Structural)]
pub enum VmSpecialUserId {
    DbMap,
    DbGroup,
    DbItem,
    HandleAddressDirectory,
    HandleAddressBlock,
}

/// One entry of the VM block table. Its raw fields mean different things
/// for blocks in use and for free blocks.
#[derive(Clone, Copy, Debug, PartialEq, Eq, Structural)]
pub struct VmBlockRecord {
    pub handle: u16,
    pub raw_mem_or_next: u16,
    pub raw_sig_or_prev_low: u8,
    pub raw_flags_or_prev_high: u8,
    pub raw_user_id_or_size_low: u16,
    pub raw_size_or_size_high: u16,
    pub raw_position: u32,
}

pub open spec fn block_used(r: VmBlockRecord) -> bool {
    r.raw_sig_or_prev_low >= 0xfe
}

pub open spec fn block_free_size(r: VmBlockRecord) -> u32 {
    if block_used(r) {
        0
    } else {
        (r.raw_size_or_size_high as int * 65536 + r.raw_user_id_or_size_low as int) as u32
    }
}

pub open spec fn special_user_id_of(id: u16) -> Option<VmSpecialUserId> {
    if id == 0xff00 {
        Some(VmSpecialUserId::DbMap)
    } else if id == 0xff01 {
        Some(VmSpecialUserId::DbGroup)
    } else if id == 0xff02 {
        Some(VmSpecialUserId::DbItem)
    } else if id == 0xff03 {
        Some(VmSpecialUserId::HandleAddressDirectory)
    } else if id == 0xff04 {
        Some(VmSpecialUserId::HandleAddressBlock)
    } else {
        None
    }
}

impl VmBlockRecord {
    /// In use: the signature byte is 0xfe (dirty) or 0xff.
    pub fn is_used(&self) -> (r: bool)
        ensures
            r == block_used(*self),
    {
        self.raw_sig_or_prev_low >= 0xfe
    }

    pub fn is_dirty(&self) -> (r: bool)
        ensures
            r == (self.raw_sig_or_prev_low == 0xfe),
    {
        self.raw_sig_or_prev_low == 0xfe
    }

    /// Free and of size zero.
    pub fn is_unassigned(&self) -> (r: bool)
        ensures
            r == (!block_used(*self) && block_free_size(*self) == 0),
    {
        !self.is_used() && self.free_size() == 0
    }

    /// Free and of nonzero size.
    pub fn is_assigned_free(&self) -> (r: bool)
        ensures
            r == (!block_used(*self) && block_free_size(*self) != 0),
    {
        !self.is_used() && self.free_size() != 0
    }

    pub fn flags(&self) -> (r: u8)
        ensures
            r == self.raw_flags_or_prev_high,
    {
        self.raw_flags_or_prev_high
    }

    pub fn user_id(&self) -> (r: Option<u16>)
        ensures
            r == (if block_used(*self) {
                Some(self.raw_user_id_or_size_low)
            } else {
                None
            }),
    {
        if self.is_used() {
            Some(self.raw_user_id_or_size_low)
        } else {
            None
        }
    }

    pub fn special_user_id(&self) -> (r: Option<VmSpecialUserId>)
        ensures
            r == (if block_used(*self) {
                special_user_id_of(self.raw_user_id_or_size_low)
            } else {
                None
            }),
    {
        match self.user_id() {
            Some(id) => {
                if id == 0xff00 {
                    Some(VmSpecialUserId::DbMap)
                } else if id == 0xff01 {
                    Some(VmSpecialUserId::DbGroup)
                } else if id == 0xff02 {
                    Some(VmSpecialUserId::DbItem)
                } else if id == 0xff03 {
                    Some(VmSpecialUserId::HandleAddressDirectory)
                } else if id == 0xff04 {
                    Some(VmSpecialUserId::HandleAddressBlock)
                } else {
                    None
                }
            },
            None => None,
        }
    }

    pub fn size(&self) -> (r: Option<u16>)
        ensures
            r == (if block_used(*self) {
                Some(self.raw_size_or_size_high)
            } else {
                None
            }),
    {
        if self.is_used() {
            Some(self.raw_size_or_size_high)
        } else {
            None
        }
    }

    pub fn file_position(&self) -> (r: Option<u32>)
        ensures
            r == (if block_used(*self) {
                Some(self.raw_position)
            } else {
                None
            }),
    {
        if self.is_used() {
            Some(self.raw_position)
        } else {
            None
        }
    }

    pub fn next_free_handle(&self) -> (r: Option<u16>)
        ensures
            r == (if !block_used(*self) {
                Some(self.raw_mem_or_next)
            } else {
                None
            }),
    {
        if !self.is_used() {
            Some(self.raw_mem_or_next)
        } else {
            None
        }
    }

    /// The previous free handle, stored across the flag and signature bytes.
    pub fn previous_free_handle(&self) -> (r: Option<u16>)
        ensures
            r == (if !block_used(*self) {
                Some((self.raw_flags_or_prev_high as int * 256 + self.raw_sig_or_prev_low) as u16)
            } else {
                None
            }),
    {
        if !self.is_used() {
            Some((self.raw_flags_or_prev_high as u16) * 256 + self.raw_sig_or_prev_low as u16)
        } else {
            None
        }
    }

    /// The size of a free block, stored across the user-id and size fields;
    /// zero for a block in use.
    pub fn free_size(&self) -> (r: u32)
        ensures
            r == block_free_size(*self),
    {
        if !self.is_used() {
            (self.raw_size_or_size_high as u32) * 65536 + self.raw_user_id_or_size_low as u32
        } else {
            0
        }
    }

    pub fn free_position(&self) -> (r: Option<u32>)
        ensures
            r == (if !block_used(*self) {
                Some(self.raw_position)
            } else {
                None
            }),
    {
        if !self.is_used() {
            Some(self.raw_position)
        } else {
            None
        }
    }
}

/// Every block is in exactly one of three states: in use, free and
/// unassigned, or free with a size; a dirty block is in use; a block in use
/// has a user id, size and position and no free-list links, a free block
/// the other way round.
pub proof fn law_block_states(r: VmBlockRecord)
    ensures
        block_used(r) || (!block_used(r) && block_free_size(r) == 0) || (!block_used(r)
            && block_free_size(r) != 0),
        !(block_used(r) && !block_used(r)),
        r.raw_sig_or_prev_low == 0xfe ==> block_used(r),
        block_used(r) ==> block_free_size(r) == 0,
{
}

#[derive(Clone, Debug, PartialEq, Eq)]
pub struct VmHeader {
    pub signature: u16,
    pub assigned: u16,
    pub last_assigned: u16,
    pub unassigned: u16,
    pub last_handle: u16,
    pub num_assigned: i16,
    pub num_unassigned: i16,
    pub num_used: i16,
    pub num_resident: i16,
    pub num_extra: i16,
    pub map_block: u16,
    pub compact_threshold: u16,
    pub used_size: u32,
    pub attributes: u8,
    pub no_compress: bool,
    pub db_map_block: u16,
    pub blocks: Vec<VmBlockRecord>,
}

/// The block record at table index `i` of the header block `hb`.
pub open spec fn block_record_at(r: VmBlockRecord, hb: Seq<u8>, i: int) -> bool {
    let o = 32 + 12 * i;
    &&& r.handle == o as u16
    &&& r.raw_mem_or_next == u16_le(hb, o)
    &&& r.raw_sig_or_prev_low == hb[o + 2]
    &&& r.raw_flags_or_prev_high == hb[o + 3]
    &&& r.raw_user_id_or_size_low == u16_le(hb, o + 4)
    &&& r.raw_size_or_size_high == u16_le(hb, o + 6)
    &&& r.raw_position == u32_le(hb, o + 8)
}

/// The VM header block that `h` locates in `b`.
pub open spec fn vm_header_block(b: Seq<u8>, h: VmFileHeader) -> Seq<u8> {
    b.subrange(h.absolute_header_offset as int, h.absolute_header_offset + h.header_size)
}

/// Whether the VM header block is present and well formed.
pub open spec fn vm_header_ok(b: Seq<u8>, h: VmFileHeader) -> bool {
    let hb = vm_header_block(b, h);
    &&& h.absolute_header_offset + h.header_size <= b.len()
    &&& h.header_size >= 32
    &&& u16_le(hb, 0) == 0x00fb
    &&& (h.header_size - 32) % 12 == 0
}

/// `v` is the VM header that the header block `hb` holds.
pub open spec fn vm_header_of(v: VmHeader, hb: Seq<u8>) -> bool {
    &&& v.signature == u16_le(hb, 0)
    &&& v.assigned == u16_le(hb, 2)
    &&& v.last_assigned == u16_le(hb, 4)
    &&& v.unassigned == u16_le(hb, 6)
    &&& v.last_handle == u16_le(hb, 8)
    &&& v.num_assigned == i16_le(hb, 10)
    &&& v.num_unassigned == i16_le(hb, 12)
    &&& v.num_used == i16_le(hb, 14)
    &&& v.num_resident == i16_le(hb, 16)
    &&& v.num_extra == i16_le(hb, 18)
    &&& v.map_block == u16_le(hb, 20)
    &&& v.compact_threshold == u16_le(hb, 22)
    &&& v.used_size == u32_le(hb, 24)
    &&& v.attributes == hb[28]
    &&& v.no_compress == (hb[29] != 0)
    &&& v.db_map_block == u16_le(hb, 30)
    &&& v.blocks@.len() == (hb.len() - 32) / 12
    &&& forall|i: int| 0 <= i < v.blocks@.len() ==> block_record_at(#[trigger] v.blocks@[i], hb, i)
}

/// The message with which reading the VM header block that `h` locates
/// fails, for a block that is not there or not well formed.
pub open spec fn vm_header_error(b: Seq<u8>, h: VmFileHeader) -> Seq<char> {
    let end = h.absolute_header_offset + h.header_size;
    let hb = vm_header_block(b, h);
    if end > usize::MAX {
        "PC/GEOS VM header block is truncated"@
    } else if end > b.len() {
        truncated_msg("PC/GEOS VM header block"@, end as nat, b.len())
    } else if h.header_size < 32 {
        truncated_msg("PC/GEOS VM header"@, 32, h.header_size as nat)
    } else if u16_le(hb, 0) != 0x00fb {
        "invalid VM header signature"@ + ": expected "@ + hex16(0x00fb) + ", got "@ + hex16(
            u16_le(hb, 0),
        )
    } else {
        "VM block table length "@ + decimal((h.header_size - 32) as nat)
            + " is not a multiple of 12"@
    }
}

/// Reads the VM header block that `header` locates.
pub fn parse_vm_header(b: &[u8], header: &VmFileHeader) -> (r: SwatResult<VmHeader>)
    ensures
        r is Ok <==> vm_header_ok(b@, *header),
        r matches Ok(v) ==> vm_header_of(v, vm_header_block(b@, *header)),
        r matches Err(e) ==> e@ == vm_header_error(b@, *header),
{
    let _n = b.len();
    if header.absolute_header_offset > usize::MAX - (header.header_size as usize) {
        return Err(err_msg("PC/GEOS VM header block is truncated"));
    }
    let header_bytes = match slice_at(
        b,
        header.absolute_header_offset as u64,
        header.header_size as u64,
        "PC/GEOS VM header block",
    ) {
        Ok(s) => s,
        Err(e) => {
            return Err(e);
        },
    };
    match ensure_len(header_bytes, VM_HEADER_PREFIX_LEN as u64, "PC/GEOS VM header") {
        Ok(()) => {},
        Err(e) => {
            return Err(e);
        },
    }
    let signature = read_u16_le_at(header_bytes, 0);
    if signature != VM_HEADER_SIGNATURE {
        return Err(signature_error("invalid VM header signature", VM_HEADER_SIGNATURE, signature));
    }
    let table_len = header_bytes.len() - VM_HEADER_PREFIX_LEN;
    if table_len % VM_BLOCK_RECORD_LEN != 0 {
        let mut m = String::new();
        push_str(&mut m, "VM block table length ");
        push_decimal(&mut m, table_len as u64);
        push_str(&mut m, " is not a multiple of 12");
        assert(m@ =~= vm_header_error(b@, *header));
        return Err(SwatError::new(m));
    }
    let count = table_len / VM_BLOCK_RECORD_LEN;
    let mut blocks: Vec<VmBlockRecord> = Vec::new();
    let mut index: usize = 0;
    while index < count
        invariant
            index <= count,
            count == (header_bytes@.len() - 32) / 12,
            header_bytes@.len() >= 32,
            (header_bytes@.len() - 32) % 12 == 0,
            header_bytes@.len() <= 65535,
            blocks@.len() == index,
            forall|i: int|
                0 <= i < index ==> block_record_at(#[trigger] blocks@[i], header_bytes@, i),
        decreases count - index,
    {
        let offset = VM_HEADER_PREFIX_LEN + index * VM_BLOCK_RECORD_LEN;
        assert(offset + 12 <= header_bytes@.len()) by (nonlinear_arith)
            requires
                offset == 32 + index * 12,
                index < count,
                count == (header_bytes@.len() - 32) / 12,
                header_bytes@.len() >= 32,
        ;
        blocks.push(
            VmBlockRecord {
                handle: offset as u16,
                raw_mem_or_next: read_u16_le_at(header_bytes, offset),
                raw_sig_or_prev_low: read_u8_at(header_bytes, offset + 2),
                raw_flags_or_prev_high: read_u8_at(header_bytes, offset + 3),
                raw_user_id_or_size_low: read_u16_le_at(header_bytes, offset + 4),
                raw_size_or_size_high: read_u16_le_at(header_bytes, offset + 6),
                raw_position: read_u32_le_at(header_bytes, offset + 8),
            },
        );
        index = index + 1;
    }
    Ok(
        VmHeader {
            signature,
            assigned: read_u16_le_at(header_bytes, 2),
            last_assigned: read_u16_le_at(header_bytes, 4),
            unassigned: read_u16_le_at(header_bytes, 6),
            last_handle: read_u16_le_at(header_bytes, 8),
            num_assigned: read_i16_le_at(header_bytes, 10),
            num_unassigned: read_i16_le_at(header_bytes, 12),
            num_used: read_i16_le_at(header_bytes, 14),
            num_resident: read_i16_le_at(header_bytes, 16),
            num_extra: read_i16_le_at(header_bytes, 18),
            map_block: read_u16_le_at(header_bytes, 20),
            compact_threshold: read_u16_le_at(header_bytes, 22),
            used_size: read_u32_le_at(header_bytes, 24),
            attributes: read_u8_at(header_bytes, 28),
            no_compress: read_u8_at(header_bytes, 29) != 0,
            db_map_block: read_u16_le_at(header_bytes, 30),
            blocks,
        },
    )
}

/// A parsed VM file: the image and its two headers.
#[derive(Clone, Debug, PartialEq, Eq)]
pub struct VmFile {
    /// The file image.
    pub bytes: Vec<u8>,
    pub header: VmFileHeader,
    pub vm_header: VmHeader,
}

/// The block-table index that a handle names: handles are table offsets.
pub open spec fn block_index(handle: u16) -> Option<int> {
    if handle >= 32 && (handle - 32) % 12 == 0 {
        Some((handle - 32) / 12)
    } else {
        None
    }
}

/// The record that a handle names in the block table `blocks`.
pub open spec fn block_for(blocks: Seq<VmBlockRecord>, handle: u16) -> Option<VmBlockRecord> {
    match block_index(handle) {
        Some(i) => if i < blocks.len() {
            Some(blocks[i])
        } else {
            None
        },
        None => None,
    }
}

/// Where a block in use starts in the image: its stored position, plus the
/// v2 file header length for v2 files.
pub open spec fn block_start(version: PcGeosVersion, rec: VmBlockRecord) -> nat {
    match version {
        PcGeosVersion::V1 => rec.raw_position as nat,
        PcGeosVersion::V2 => rec.raw_position as nat + 256,
    }
}

/// What reading the block that `handle` names gives in a file with the
/// given image, version and table: its bytes, or the error message.
pub open spec fn block_result_in(
    image: Seq<u8>,
    version: PcGeosVersion,
    blocks: Seq<VmBlockRecord>,
    handle: u16,
) -> Result<Seq<u8>, Seq<char>> {
    match block_for(blocks, handle) {
        Some(rec) => if !block_used(rec) {
            Err("VM block "@ + hex16(handle) + " is not in use"@)
        } else if block_start(version, rec) + rec.raw_size_or_size_high <= image.len() {
            Ok(
                image.subrange(
                    block_start(version, rec) as int,
                    block_start(version, rec) + rec.raw_size_or_size_high,
                ),
            )
        } else {
            Err(
                truncated_msg(
                    "VM block "@ + hex16(handle),
                    (block_start(version, rec) + rec.raw_size_or_size_high) as nat,
                    image.len(),
                ),
            )
        },
        None => Err("unknown VM block handle "@ + hex16(handle)),
    }
}

/// The view of a byte-slice result.
pub open spec fn bytes_result(r: SwatResult<&[u8]>) -> Result<Seq<u8>, Seq<char>> {
    match r {
        Ok(s) => Ok(s@),
        Err(e) => Err(e@),
    }
}

/// Whether `b` is a VM file.
pub open spec fn vm_file_ok(b: Seq<u8>) -> bool {
    vm_file_header_ok(b) && file_kind_of(geos_kind_raw(b)) == PcGeosFileKind::Vm
}

/// Whether a VM file, with both its headers, can be read from `b`.
pub open spec fn vm_file_parse_ok(b: Seq<u8>) -> bool {
    vm_file_ok(b) && exists|h: VmFileHeader| vm_file_header_of(h, b) && vm_header_ok(b, h)
}

/// `f` is the VM file that `b` holds.
pub open spec fn vm_file_of(f: VmFile, b: Seq<u8>) -> bool {
    &&& f.image() == b
    &&& vm_file_header_of(f.header, b)
    &&& f.header.geos.file_kind == PcGeosFileKind::Vm
    &&& vm_header_of(f.vm_header, vm_header_block(b, f.header))
}

impl VmFile {
    /// The file image.
    pub open spec fn image(&self) -> Seq<u8> {
        self.bytes@
    }

    /// What reading the block that `handle` names gives.
    pub open spec fn block_result(&self, handle: u16) -> Result<Seq<u8>, Seq<char>> {
        block_result_in(self.image(), self.header.version, self.vm_header.blocks@, handle)
    }

    /// Reads a VM file: file header, VM file header and VM header block.
    pub fn parse(bytes: Vec<u8>) -> (r: SwatResult<Self>)
        ensures
            r is Ok <==> vm_file_parse_ok(bytes@),
            r matches Ok(f) ==> vm_file_of(f, bytes@),
            !vm_file_header_ok(bytes@) ==> (r matches Err(e) && e@ == vm_file_header_error(bytes@)),
            vm_file_header_ok(bytes@) && !vm_file_ok(bytes@) ==> (r matches Err(e) && e@
                == "PC/GEOS file is not a VM file (kind="@ + file_kind_label(
                file_kind_of(geos_kind_raw(bytes@)),
            ) + ")"@),
            forall|h: VmFileHeader|
                vm_file_ok(bytes@) && #[trigger] vm_file_header_of(h, bytes@) && !vm_header_ok(
                    bytes@,
                    h,
                ) ==> (r matches Err(e) && e@ == vm_header_error(bytes@, h)),
    {
        let header = match VmFileHeader::parse(bytes.as_slice()) {
            Ok(h) => h,
            Err(e) => {
                return Err(e);
            },
        };
        proof {
            lemma_vm_file_header_unique(header, bytes@);
        }
        match header.geos.file_kind {
            PcGeosFileKind::Vm => {},
            _ => {
                let mut m = String::new();
                push_str(&mut m, "PC/GEOS file is not a VM file (kind=");
                push_str(&mut m, header.geos.file_kind.label());
                push_str(&mut m, ")");
                return Err(SwatError::new(m));
            },
        }
        let vm_header = match parse_vm_header(bytes.as_slice(), &header) {
            Ok(v) => v,
            Err(e) => {
                return Err(e);
            },
        };
        Ok(VmFile { bytes, header, vm_header })
    }

    /// The record that `handle` names in the block table.
    pub fn block(&self, handle: u16) -> (r: Option<&VmBlockRecord>)
        ensures
            match r {
                Some(rec) => block_for(self.vm_header.blocks@, handle) == Some(*rec),
                None => block_for(self.vm_header.blocks@, handle) is None,
            },
    {
        if handle < 32 || (handle - 32) % 12 != 0 {
            return None;
        }
        let index = ((handle - 32) / 12) as usize;
        if index < self.vm_header.blocks.len() {
            Some(&self.vm_header.blocks[index])
        } else {
            None
        }
    }

    /// The contents of the block that `handle` names.
    pub fn block_bytes(&self, handle: u16) -> (r: SwatResult<&[u8]>)
        ensures
            bytes_result(r) == self.block_result(handle),
    {
        let block = match self.block(handle) {
            Some(rec) => rec,
            None => {
                let mut m = String::new();
                push_str(&mut m, "unknown VM block handle ");
                push_hex16(&mut m, handle);
                return Err(SwatError::new(m));
            },
        };
        let size = match block.size() {
            Some(s) => s,
            None => {
                let mut m = String::new();
                push_str(&mut m, "VM block ");
                push_hex16(&mut m, handle);
                push_str(&mut m, " is not in use");
                assert(m@ =~= "VM block "@ + hex16(handle) + " is not in use"@);
                return Err(SwatError::new(m));
            },
        };
        let pos: u64 = match block.file_position() {
            Some(p) => p as u64,
            None => 0,
        };
        let absolute_pos: u64 = match self.header.version {
            PcGeosVersion::V1 => pos,
            PcGeosVersion::V2 => pos + 256,
        };
        let mut context = String::new();
        push_str(&mut context, "VM block ");
        push_hex16(&mut context, handle);
        slice_at(self.bytes.as_slice(), absolute_pos, size as u64, context.as_str())
    }

    /// The contents of the map block.
    pub fn map_block_bytes(&self) -> (r: SwatResult<&[u8]>)
        ensures
            bytes_result(r) == self.block_result(self.vm_header.map_block),
    {
        self.block_bytes(self.vm_header.map_block)
    }
}

/// Two VM files read from the same image name the same map block and read
/// the same contents under every handle.
pub proof fn lemma_vm_file_blocks_unique(v1: VmFile, v2: VmFile, b: Seq<u8>)
    requires
        vm_file_of(v1, b),
        vm_file_of(v2, b),
    ensures
        v1.vm_header.map_block == v2.vm_header.map_block,
        forall|h: u16| #[trigger] v1.block_result(h) == v2.block_result(h),
{
    lemma_vm_file_header_unique(v1.header, b);
    assert(v1.header.version == v2.header.version);
    let hb = vm_header_block(b, v1.header);
    assert(vm_header_block(b, v2.header) == hb);
    assert forall|i: int| 0 <= i < v1.vm_header.blocks@.len() implies v1.vm_header.blocks@[i]
        == v2.vm_header.blocks@[i] by {
        assert(block_record_at(v1.vm_header.blocks@[i], hb, i));
        assert(block_record_at(v2.vm_header.blocks@[i], hb, i));
    }
    assert(v1.vm_header.blocks@ =~= v2.vm_header.blocks@);
}

proof fn lemma_vm_file_header_unique(h: VmFileHeader, b: Seq<u8>)
    requires
        vm_file_header_of(h, b),
    ensures
        h.geos.file_kind == file_kind_of(geos_kind_raw(b)),
        forall|g: VmFileHeader| #[trigger] vm_file_header_of(g, b) ==> g.header_size == h.header_size
            && g.absolute_header_offset == h.absolute_header_offset,
{
}

} // verus!
