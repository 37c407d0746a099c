//! PC/GEOS object headers: format detection, relocations, segment and
//! group descriptors.
use vstd::prelude::*;
use crate::model::{SwatError, SwatResult, err_msg};
use crate::pcgeos::{ReleaseNumber, ProtocolNumber};
use crate::pcgeos_bytes::{
    PcGeosByteOrder, u16_le, u16_in, u32_in, read_u8_at, read_u16_le_at, read_u16_in, read_u32_in,
    truncated_msg, ensure_len, ensure_span, hex16, push_hex16,
};
use crate::pcgeos_strings::PcGeosStringTable;
use crate::pcgeos_vm::{VmFile, bytes_result};
use crate::text::{decimal, push_decimal, push_str};

verus! {

pub const OBJ_MAGIC: u16 = 0x5170;
pub const OBJ_MAGIC_NEW_FORMAT: u16 = 0x6170;
pub const OBJ_SWAPPED_MAGIC: u16 = 0x7051;
pub const OBJ_SWAPPED_MAGIC_NEW_FORMAT: u16 = 0x7061;
pub const OBJ_SEGMENT_LEN: usize = 24;
pub const OBJ_HEADER_PREFIX_LEN: usize = 36;

#[derive(Clone, Copy, Debug, PartialEq, Eq, Structural)]
pub enum ObjFormatVersion {
    Legacy,
    NewHashFormat,
}

#[derive(Clone, Copy, Debug, PartialEq, Eq, Structural)]
pub enum ObjSegmentType {
    Private,
    Common,
    Stack,
    Library,
    Resource,
    Lmem,
    Public,
    Absolute,
    Global,
    Unknown(u8),
}

pub open spec fn segment_type_of(raw: u8) -> ObjSegmentType {
    if raw == 0 {
        ObjSegmentType::Private
    } else if raw == 1 {
        ObjSegmentType::Common
    } else if raw == 2 {
        ObjSegmentType::Stack
    } else if raw == 3 {
        ObjSegmentType::Library
    } else if raw == 4 {
        ObjSegmentType::Resource
    } else if raw == 5 {
        ObjSegmentType::Lmem
    } else if raw == 6 {
        ObjSegmentType::Public
    } else if raw == 7 {
        ObjSegmentType::Absolute
    } else if raw == 8 {
        ObjSegmentType::Global
    } else {
        ObjSegmentType::Unknown(raw)
    }
}

impl ObjSegmentType {
    pub fn from_raw(raw: u8) -> (r: Self)
        ensures
            r == segment_type_of(raw),
    {
        if raw == 0 {
            ObjSegmentType::Private
        } else if raw == 1 {
            ObjSegmentType::Common
        } else if raw == 2 {
            ObjSegmentType::Stack
        } else if raw == 3 {
            ObjSegmentType::Library
        } else if raw == 4 {
            ObjSegmentType::Resource
        } else if raw == 5 {
            ObjSegmentType::Lmem
        } else if raw == 6 {
            ObjSegmentType::Public
        } else if raw == 7 {
            ObjSegmentType::Absolute
        } else if raw == 8 {
            ObjSegmentType::Global
        } else {
            ObjSegmentType::Unknown(raw)
        }
    }
}

#[derive(Clone, Copy, Debug, PartialEq, Eq, Structural)]
pub struct ObjRelocation {
    pub symbol_offset: u16,
    pub symbol_block: u16,
    pub target_offset: u16,
    pub frame_offset: u16,
    pub relocation_type: u8,
    pub size_code: u8,
    pub pc_relative: bool,
    pub fixed: bool,
}

/// The big-endian relocation info byte rearranged into the little-endian
/// bit layout: type from the high nibble, size from bits 2-3, pc-relative
/// from bit 1 and fixed from bit 0.
pub open spec fn swap_info(info: u8) -> u8 {
    let t = (info & 0xf0u8) >> 4u8;
    let s = (info & 0x0cu8) << 2u8;
    let p = (info & 0x02u8) << 5u8;
    let f = (info & 0x01u8) << 7u8;
    t | s | p | f
}

/// The relocation info byte in little-endian bit layout.
pub open spec fn canonical_info(info: u8, order: PcGeosByteOrder) -> u8 {
    match order {
        PcGeosByteOrder::Little => info,
        PcGeosByteOrder::Big => swap_info(info),
    }
}

pub fn canonicalize_obj_relocation_info(info: u8, byte_order: PcGeosByteOrder) -> (r: u8)
    ensures
        r == canonical_info(info, byte_order),
{
    match byte_order {
        PcGeosByteOrder::Little => info,
        PcGeosByteOrder::Big => {
            let t = (info & 0xf0u8) >> 4u8;
            let s = (info & 0x0cu8) << 2u8;
            let p = (info & 0x02u8) << 5u8;
            let f = (info & 0x01u8) << 7u8;
            t | s | p | f
        },
    }
}

/// A big-endian info byte carries the same type, size, pc-relative and fixed
/// fields as its canonical form, read from the swapped positions.
pub proof fn law_canonical_info_fields(info: u8)
    ensures
        canonical_info(info, PcGeosByteOrder::Little) == info,
        canonical_info(info, PcGeosByteOrder::Big) & 0x0fu8 == info >> 4u8,
        (canonical_info(info, PcGeosByteOrder::Big) & 0x30u8) >> 4u8 == (info & 0x0cu8) >> 2u8,
        (canonical_info(info, PcGeosByteOrder::Big) & 0x40u8 != 0) == (info & 0x02u8 != 0),
        (canonical_info(info, PcGeosByteOrder::Big) & 0x80u8 != 0) == (info & 0x01u8 != 0),
{
    let t = (info & 0xf0u8) >> 4u8;
    let s = (info & 0x0cu8) << 2u8;
    let p = (info & 0x02u8) << 5u8;
    let f = (info & 0x01u8) << 7u8;
    let c = t | s | p | f;
    assert(c & 0x0fu8 == info >> 4u8) by (bit_vector)
        requires
            t == (info & 0xf0u8) >> 4u8,
            s == (info & 0x0cu8) << 2u8,
            p == (info & 0x02u8) << 5u8,
            f == (info & 0x01u8) << 7u8,
            c == t | s | p | f,
    ;
    assert((c & 0x30u8) >> 4u8 == (info & 0x0cu8) >> 2u8) by (bit_vector)
        requires
            t == (info & 0xf0u8) >> 4u8,
            s == (info & 0x0cu8) << 2u8,
            p == (info & 0x02u8) << 5u8,
            f == (info & 0x01u8) << 7u8,
            c == t | s | p | f,
    ;
    assert((c & 0x40u8 != 0) == (info & 0x02u8 != 0)) by (bit_vector)
        requires
            t == (info & 0xf0u8) >> 4u8,
            s == (info & 0x0cu8) << 2u8,
            p == (info & 0x02u8) << 5u8,
            f == (info & 0x01u8) << 7u8,
            c == t | s | p | f,
    ;
    assert((c & 0x80u8 != 0) == (info & 0x01u8 != 0)) by (bit_vector)
        requires
            t == (info & 0xf0u8) >> 4u8,
            s == (info & 0x0cu8) << 2u8,
            p == (info & 0x02u8) << 5u8,
            f == (info & 0x01u8) << 7u8,
            c == t | s | p | f,
    ;
}

/// The relocation record of ten bytes at `off`.
pub open spec fn relocation_at(r: ObjRelocation, b: Seq<u8>, off: int, order: PcGeosByteOrder) -> bool {
    let info = canonical_info(b[off + 8], order);
    &&& r.symbol_offset == u16_in(b, off, order)
    &&& r.symbol_block == u16_in(b, off + 2, order)
    &&& r.target_offset == u16_in(b, off + 4, order)
    &&& r.frame_offset == u16_in(b, off + 6, order)
    &&& r.relocation_type == info & 0x0fu8
    &&& r.size_code == (info & 0x30u8) >> 4u8
    &&& r.pc_relative == (info & 0x40u8 != 0)
    &&& r.fixed == (info & 0x80u8 != 0)
}

/// Reads the relocation record at `offset`.
pub fn parse_obj_relocation(b: &[u8], offset: usize, byte_order: PcGeosByteOrder) -> (r: SwatResult<
    ObjRelocation,
>)
    requires
        offset <= b@.len(),
    ensures
        r is Ok <==> offset + 10 <= b@.len(),
        r matches Ok(rel) ==> relocation_at(rel, b@, offset as int, byte_order),
        r matches Err(e) ==> e@ == truncated_msg(
            "PC/GEOS object relocation"@,
            (offset + 10) as nat,
            b@.len(),
        ),
{
    let _n = b.len();
    match ensure_span(b, offset, 10, "PC/GEOS object relocation") {
        Ok(()) => {},
        Err(e) => {
            return Err(e);
        },
    }
    let info = canonicalize_obj_relocation_info(read_u8_at(b, offset + 8), byte_order);
    Ok(
        ObjRelocation {
            symbol_offset: read_u16_in(b, offset, byte_order),
            symbol_block: read_u16_in(b, offset + 2, byte_order),
            target_offset: read_u16_in(b, offset + 4, byte_order),
            frame_offset: read_u16_in(b, offset + 6, byte_order),
            relocation_type: info & 0x0fu8,
            size_code: (info & 0x30u8) >> 4u8,
            pc_relative: info & 0x40u8 != 0,
            fixed: info & 0x80u8 != 0,
        },
    )
}

/// Alignment, type and flags of a segment descriptor: the alignment byte,
/// then a byte whose nibbles hold type and flags in an order that depends
/// on the byte order.
pub open spec fn segment_layout(b: Seq<u8>, off: int, order: PcGeosByteOrder) -> (u8, u8, u8) {
    let high = b[off];
    let low = b[off + 1];
    match order {
        PcGeosByteOrder::Little => (high, low & 0x0fu8, low >> 4u8),
        PcGeosByteOrder::Big => (high, low >> 4u8, low & 0x0fu8),
    }
}

pub fn parse_obj_segment_layout(b: &[u8], offset: usize, byte_order: PcGeosByteOrder) -> (r:
    SwatResult<(u8, u8, u8)>)
    requires
        offset <= b@.len(),
    ensures
        r is Ok <==> offset + 2 <= b@.len(),
        r matches Ok(t) ==> t == segment_layout(b@, offset as int, byte_order),
        r matches Err(e) ==> e@ == truncated_msg(
            "PC/GEOS object segment layout"@,
            (offset + 2) as nat,
            b@.len(),
        ),
{
    let _n = b.len();
    match ensure_span(b, offset, 2, "PC/GEOS object segment layout") {
        Ok(()) => {},
        Err(e) => {
            return Err(e);
        },
    }
    let high = read_u8_at(b, offset);
    let low = read_u8_at(b, offset + 1);
    match byte_order {
        PcGeosByteOrder::Little => Ok((high, low & 0x0fu8, low >> 4u8)),
        PcGeosByteOrder::Big => Ok((high, low >> 4u8, low & 0x0fu8)),
    }
}

/// Byte order and format version that the object magic announces.
pub open spec fn obj_format_of(magic: u16) -> Option<(PcGeosByteOrder, ObjFormatVersion)> {
    if magic == 0x5170 {
        Some((PcGeosByteOrder::Little, ObjFormatVersion::Legacy))
    } else if magic == 0x6170 {
        Some((PcGeosByteOrder::Little, ObjFormatVersion::NewHashFormat))
    } else if magic == 0x7051 {
        Some((PcGeosByteOrder::Big, ObjFormatVersion::Legacy))
    } else if magic == 0x7061 {
        Some((PcGeosByteOrder::Big, ObjFormatVersion::NewHashFormat))
    } else {
        None
    }
}

/// Reads the object magic. `b` must hold at least its two bytes, else the
/// read itself fails.
pub fn detect_obj_format(b: &[u8]) -> (r: SwatResult<(PcGeosByteOrder, ObjFormatVersion)>)
    ensures
        r is Ok <==> b@.len() >= 2 && obj_format_of(u16_le(b@, 0)) is Some,
        r matches Ok(f) ==> obj_format_of(u16_le(b@, 0)) == Some(f),
        r matches Err(e) ==> b@.len() < 2 ==> e@ == truncated_msg("u16"@, 2, b@.len()),
        r matches Err(e) ==> b@.len() >= 2 ==> e@ == "unrecognized PC/GEOS object magic "@
            + hex16(u16_le(b@, 0)),
{
    match ensure_len(b, 2, "u16") {
        Ok(()) => {},
        Err(e) => {
            return Err(e);
        },
    }
    let raw = read_u16_le_at(b, 0);
    if raw == OBJ_MAGIC {
        Ok((PcGeosByteOrder::Little, ObjFormatVersion::Legacy))
    } else if raw == OBJ_MAGIC_NEW_FORMAT {
        Ok((PcGeosByteOrder::Little, ObjFormatVersion::NewHashFormat))
    } else if raw == OBJ_SWAPPED_MAGIC {
        Ok((PcGeosByteOrder::Big, ObjFormatVersion::Legacy))
    } else if raw == OBJ_SWAPPED_MAGIC_NEW_FORMAT {
        Ok((PcGeosByteOrder::Big, ObjFormatVersion::NewHashFormat))
    } else {
        let mut m = String::new();
        push_str(&mut m, "unrecognized PC/GEOS object magic ");
        push_hex16(&mut m, raw);
        Err(SwatError::new(m))
    }
}

#[derive(Clone, Debug, PartialEq, Eq)]
pub struct ObjSegmentDescriptor {
    pub descriptor_offset: u16,
    pub name_id: u32,
    pub class_id: u32,
    pub align: u8,
    pub segment_type: ObjSegmentType,
    pub flags: u8,
    pub data: u16,
    pub size: u16,
    pub relocations: u16,
    pub symbols: u16,
    pub symbol_toc: u16,
    pub addr_map: u16,
    pub lines: u16,
}

/// The first segment of `segs` whose descriptor starts at `offset`.
pub open spec fn first_segment(segs: Seq<ObjSegmentDescriptor>, offset: u16) -> Option<
    ObjSegmentDescriptor,
>
    decreases segs.len(),
{
    if segs.len() == 0 {
        None
    } else if segs[0].descriptor_offset == offset {
        Some(segs[0])
    } else {
        first_segment(segs.drop_first(), offset)
    }
}

pub open spec fn is_resource_like_spec(t: ObjSegmentType) -> bool {
    t == ObjSegmentType::Resource || t == ObjSegmentType::Lmem
}

impl ObjSegmentDescriptor {
    /// Resource and local-memory segments are the resources of a geode.
    pub fn is_resource_like(&self) -> (r: bool)
        ensures
            r == is_resource_like_spec(self.segment_type),
    {
        match self.segment_type {
            ObjSegmentType::Resource => true,
            ObjSegmentType::Lmem => true,
            _ => false,
        }
    }

    /// The segment's name in `strings`.
    pub fn name<'a>(&self, strings: &'a PcGeosStringTable) -> (r: Option<&'a str>)
        ensures
            match r {
                Some(s) => strings@.contains_key(self.name_id) && strings@[self.name_id].value == s@,
                None => !strings@.contains_key(self.name_id),
            },
    {
        strings.get(self.name_id)
    }

    /// The segment's class in `strings`.
    pub fn class<'a>(&self, strings: &'a PcGeosStringTable) -> (r: Option<&'a str>)
        ensures
            match r {
                Some(s) => strings@.contains_key(self.class_id) && strings@[self.class_id].value
                    == s@,
                None => !strings@.contains_key(self.class_id),
            },
    {
        strings.get(self.class_id)
    }
}

#[derive(Clone, Debug, PartialEq, Eq)]
pub struct ObjGroupDescriptor {
    pub name_id: u32,
    pub segment_offsets: Vec<u16>,
}

impl ObjGroupDescriptor {
    /// The group's name in `strings`.
    pub fn name<'a>(&self, strings: &'a PcGeosStringTable) -> (r: Option<&'a str>)
        ensures
            match r {
                Some(s) => strings@.contains_key(self.name_id) && strings@[self.name_id].value == s@,
                None => !strings@.contains_key(self.name_id),
            },
    {
        strings.get(self.name_id)
    }
}

#[derive(Clone, Debug, PartialEq, Eq)]
pub struct ObjHeader {
    pub byte_order: PcGeosByteOrder,
    pub version: ObjFormatVersion,
    pub strings: u16,
    pub source_map: u16,
    pub entry: ObjRelocation,
    pub revision: ReleaseNumber,
    pub protocol: ProtocolNumber,
    pub segments: Vec<ObjSegmentDescriptor>,
    pub groups: Vec<ObjGroupDescriptor>,
}

/// The segment descriptor of 24 bytes at `off`.
pub open spec fn segment_at(s: ObjSegmentDescriptor, b: Seq<u8>, off: int, order: PcGeosByteOrder) -> bool {
    let layout = segment_layout(b, off + 8, order);
    &&& s.descriptor_offset == (off % 65536) as u16
    &&& s.name_id == u32_in(b, off, order)
    &&& s.class_id == u32_in(b, off + 4, order)
    &&& s.align == layout.0
    &&& s.segment_type == segment_type_of(layout.1)
    &&& s.flags == layout.2
    &&& s.data == u16_in(b, off + 10, order)
    &&& s.size == u16_in(b, off + 12, order)
    &&& s.relocations == u16_in(b, off + 14, order)
    &&& s.symbols == u16_in(b, off + 16, order)
    &&& s.symbol_toc == u16_in(b, off + 18, order)
    &&& s.addr_map == u16_in(b, off + 20, order)
    &&& s.lines == u16_in(b, off + 22, order)
}

/// Length of a group descriptor with `n` segments: eight bytes and two per
/// segment, rounded up to a multiple of four.
pub open spec fn group_len(n: nat) -> nat {
    ((8 + 2 * n + 3) / 4 * 4) as nat
}

/// Where group `i` starts, the first group starting at `base`.
pub open spec fn group_start(b: Seq<u8>, order: PcGeosByteOrder, base: nat, i: nat) -> nat
    decreases i,
{
    if i == 0 {
        base
    } else {
        let p = group_start(b, order, base, (i - 1) as nat);
        p + group_len(u16_in(b, p + 4int, order) as nat)
    }
}

/// The group descriptor at `off`.
pub open spec fn group_at(g: ObjGroupDescriptor, b: Seq<u8>, off: int, order: PcGeosByteOrder) -> bool {
    &&& g.name_id == u32_in(b, off, order)
    &&& g.segment_offsets@.len() == u16_in(b, off + 4, order)
    &&& forall|k: int|
        0 <= k < g.segment_offsets@.len() ==> #[trigger] g.segment_offsets@[k] == u16_in(
            b,
            off + 8 + 2 * k,
            order,
        )
}

/// Whether an object header can be read from `b`.
pub open spec fn obj_header_ok(b: Seq<u8>) -> bool {
    &&& b.len() >= 36
    &&& obj_format_of(u16_le(b, 0)) matches Some((order, _)) && {
        let nseg = u16_in(b, 2, order) as nat;
        let ngroup = u16_in(b, 4, order) as nat;
        let base = 36 + 24 * nseg;
        &&& base <= b.len()
        &&& forall|i: nat|
            i < ngroup ==> #[trigger] group_start(b, order, base, i) + 8 <= b.len()
                && group_start(b, order, base, i + 1) <= b.len()
    }
}

/// `h` is the object header that `b` holds.
pub open spec fn obj_header_of(h: ObjHeader, b: Seq<u8>) -> bool {
    let order = h.byte_order;
    let base = 36 + 24 * h.segments@.len();
    &&& obj_format_of(u16_le(b, 0)) == Some((h.byte_order, h.version))
    &&& h.segments@.len() == u16_in(b, 2, order)
    &&& h.groups@.len() == u16_in(b, 4, order)
    &&& h.strings == u16_in(b, 6, order)
    &&& h.source_map == u16_in(b, 8, order)
    &&& relocation_at(h.entry, b, 10, order)
    &&& h.revision.major == u16_in(b, 20, order)
    &&& h.revision.minor == u16_in(b, 22, order)
    &&& h.revision.change == u16_in(b, 24, order)
    &&& h.revision.engineering == u16_in(b, 26, order)
    &&& h.protocol.major == u16_in(b, 28, order)
    &&& h.protocol.minor == u16_in(b, 30, order)
    &&& forall|i: int|
        0 <= i < h.segments@.len() ==> segment_at(#[trigger] h.segments@[i], b, 36 + 24 * i, order)
    &&& forall|i: int|
        0 <= i < h.groups@.len() ==> group_at(
            #[trigger] h.groups@[i],
            b,
            group_start(b, order, base, i as nat) as int,
            order,
        )
}

fn indexed_context(prefix: &str, index: usize) -> (r: String)
    ensures
        r@ == prefix@ + decimal(index as nat),
{
    let mut m = String::new();
    push_str(&mut m, prefix);
    push_decimal(&mut m, index as u64);
    m
}

fn parse_segments(b: &[u8], byte_order: PcGeosByteOrder, num_segments: usize) -> (r: SwatResult<
    Vec<ObjSegmentDescriptor>,
>)
    requires
        b@.len() >= 36,
    ensures
        r is Ok <==> 36 + 24 * num_segments <= b@.len(),
        r matches Ok(segs) ==> segs@.len() == num_segments && forall|i: int|
            0 <= i < num_segments ==> segment_at(#[trigger] segs@[i], b@, 36 + 24 * i, byte_order),
{
    let blen = b.len();
    let mut segments: Vec<ObjSegmentDescriptor> = Vec::new();
    let mut cursor: usize = OBJ_HEADER_PREFIX_LEN;
    let mut index: usize = 0;
    while index < num_segments
        invariant
            index <= num_segments,
            cursor == 36 + 24 * index,
            cursor <= b@.len(),
            blen == b@.len(),
            segments@.len() == index,
            forall|i: int|
                0 <= i < index ==> segment_at(#[trigger] segments@[i], b@, 36 + 24 * i, byte_order),
        decreases num_segments - index,
    {
        let context = indexed_context("PC/GEOS object segment descriptor ", index);
        match ensure_span(b, cursor, OBJ_SEGMENT_LEN, context.as_str()) {
            Ok(()) => {},
            Err(e) => {
                assert(36 + 24 * num_segments > b@.len());
                return Err(e);
            },
        }
        let layout = match parse_obj_segment_layout(b, cursor + 8, byte_order) {
            Ok(t) => t,
            Err(e) => {
                return Err(e);
            },
        };
        segments.push(
            ObjSegmentDescriptor {
                descriptor_offset: (cursor % 65536) as u16,
                name_id: read_u32_in(b, cursor, byte_order),
                class_id: read_u32_in(b, cursor + 4, byte_order),
                align: layout.0,
                segment_type: ObjSegmentType::from_raw(layout.1),
                flags: layout.2,
                data: read_u16_in(b, cursor + 10, byte_order),
                size: read_u16_in(b, cursor + 12, byte_order),
                relocations: read_u16_in(b, cursor + 14, byte_order),
                symbols: read_u16_in(b, cursor + 16, byte_order),
                symbol_toc: read_u16_in(b, cursor + 18, byte_order),
                addr_map: read_u16_in(b, cursor + 20, byte_order),
                lines: read_u16_in(b, cursor + 22, byte_order),
            },
        );
        cursor = cursor + OBJ_SEGMENT_LEN;
        index = index + 1;
    }
    Ok(segments)
}

fn parse_groups(b: &[u8], byte_order: PcGeosByteOrder, base: usize, num_groups: usize) -> (r:
    SwatResult<Vec<ObjGroupDescriptor>>)
    requires
        base <= b@.len(),
    ensures
        r is Ok <==> forall|i: nat|
            i < num_groups ==> #[trigger] group_start(b@, byte_order, base as nat, i) + 8
                <= b@.len() && group_start(b@, byte_order, base as nat, i + 1) <= b@.len(),
        r matches Ok(gs) ==> gs@.len() == num_groups && forall|i: int|
            0 <= i < num_groups ==> group_at(
                #[trigger] gs@[i],
                b@,
                group_start(b@, byte_order, base as nat, i as nat) as int,
                byte_order,
            ),
{
    let blen = b.len();
    let mut groups: Vec<ObjGroupDescriptor> = Vec::new();
    let mut cursor: usize = base;
    let mut index: usize = 0;
    while index < num_groups
        invariant
            index <= num_groups,
            cursor == group_start(b@, byte_order, base as nat, index as nat),
            cursor <= b@.len(),
            blen == b@.len(),
            groups@.len() == index,
            forall|i: nat|
                i < index ==> #[trigger] group_start(b@, byte_order, base as nat, i) + 8 <= b@.len()
                    && group_start(b@, byte_order, base as nat, i + 1) <= b@.len(),
            forall|i: int|
                0 <= i < index ==> group_at(
                    #[trigger] groups@[i],
                    b@,
                    group_start(b@, byte_order, base as nat, i as nat) as int,
                    byte_order,
                ),
        decreases num_groups - index,
    {
        let context = indexed_context("PC/GEOS object group descriptor ", index);
        match ensure_span(b, cursor, 8, context.as_str()) {
            Ok(()) => {},
            Err(e) => {
                assert(!(group_start(b@, byte_order, base as nat, index as nat) + 8 <= b@.len()));
                return Err(e);
            },
        }
        let num_group_segments = read_u16_in(b, cursor + 4, byte_order) as usize;
        let raw_group_len = 8 + num_group_segments * 2;
        let aligned_group_len = (raw_group_len + 3) / 4 * 4;
        assert(group_start(b@, byte_order, base as nat, (index + 1) as nat) == cursor
            + aligned_group_len);
        let body_context = indexed_context("PC/GEOS object group body ", index);
        match ensure_span(b, cursor, aligned_group_len, body_context.as_str()) {
            Ok(()) => {},
            Err(e) => {
                assert(!(group_start(b@, byte_order, base as nat, (index + 1) as nat) <= b@.len()));
                return Err(e);
            },
        }
        let mut segment_offsets: Vec<u16> = Vec::new();
        let mut k: usize = 0;
        while k < num_group_segments
            invariant
                k <= num_group_segments,
                num_group_segments == u16_in(b@, cursor + 4, byte_order),
                cursor + 8 + 2 * num_group_segments <= b@.len(),
                blen == b@.len(),
                segment_offsets@.len() == k,
                forall|j: int|
                    0 <= j < k ==> #[trigger] segment_offsets@[j] == u16_in(
                        b@,
                        cursor + 8 + 2 * j,
                        byte_order,
                    ),
            decreases num_group_segments - k,
        {
            segment_offsets.push(read_u16_in(b, cursor + 8 + k * 2, byte_order));
            k = k + 1;
        }
        groups.push(
            ObjGroupDescriptor { name_id: read_u32_in(b, cursor, byte_order), segment_offsets },
        );
        cursor = cursor + aligned_group_len;
        index = index + 1;
    }
    Ok(groups)
}

impl ObjHeader {
    /// Reads an object header: magic, counts, table handles, entry
    /// relocation, revision, protocol, segment descriptors and groups.
    pub fn parse(b: &[u8]) -> (r: SwatResult<Self>)
        ensures
            r is Ok <==> obj_header_ok(b@),
            r matches Ok(h) ==> obj_header_of(h, b@),
            r matches Err(e) ==> b@.len() < 36 ==> e@ == truncated_msg(
                "PC/GEOS object header"@,
                36,
                b@.len(),
            ),
    {
        match ensure_len(b, OBJ_HEADER_PREFIX_LEN as u64, "PC/GEOS object header") {
            Ok(()) => {},
            Err(e) => {
                return Err(e);
            },
        }
        let (byte_order, version) = match detect_obj_format(b) {
            Ok(f) => f,
            Err(e) => {
                return Err(e);
            },
        };
        let num_segments = read_u16_in(b, 2, byte_order) as usize;
        let num_groups = read_u16_in(b, 4, byte_order) as usize;
        let strings = read_u16_in(b, 6, byte_order);
        let source_map = read_u16_in(b, 8, byte_order);
        let entry = match parse_obj_relocation(b, 10, byte_order) {
            Ok(rel) => rel,
            Err(e) => {
                return Err(e);
            },
        };
        let revision = ReleaseNumber {
            major: read_u16_in(b, 20, byte_order),
            minor: read_u16_in(b, 22, byte_order),
            change: read_u16_in(b, 24, byte_order),
            engineering: read_u16_in(b, 26, byte_order),
        };
        let protocol = ProtocolNumber {
            major: read_u16_in(b, 28, byte_order),
            minor: read_u16_in(b, 30, byte_order),
        };
        let segments = match parse_segments(b, byte_order, num_segments) {
            Ok(s) => s,
            Err(e) => {
                return Err(e);
            },
        };
        let base = OBJ_HEADER_PREFIX_LEN + OBJ_SEGMENT_LEN * num_segments;
        let groups = match parse_groups(b, byte_order, base, num_groups) {
            Ok(g) => g,
            Err(e) => {
                return Err(e);
            },
        };
        Ok(
            ObjHeader {
                byte_order,
                version,
                strings,
                source_map,
                entry,
                revision,
                protocol,
                segments,
                groups,
            },
        )
    }

    /// Reads the object header held in the map block of `vm`.
    pub fn parse_vm_map(vm: &VmFile) -> (r: SwatResult<Self>)
        ensures
            match vm.block_result(vm.vm_header.map_block) {
                Ok(mb) => (r is Ok <==> obj_header_ok(mb)) && (r matches Ok(h) ==> obj_header_of(
                    h,
                    mb,
                )),
                Err(msg) => r matches Err(e) && e@ == msg,
            },
    {
        match vm.map_block_bytes() {
            Ok(b) => Self::parse(b),
            Err(e) => Err(e),
        }
    }

    /// The resource-like segments, in descriptor order.
    pub fn resources(&self) -> (r: Vec<&ObjSegmentDescriptor>)
        ensures
            r@.map_values(|s: &ObjSegmentDescriptor| *s) == self.segments@.filter(
                |s: ObjSegmentDescriptor| is_resource_like_spec(s.segment_type),
            ),
    {
        let mut out: Vec<&ObjSegmentDescriptor> = Vec::new();
        let mut i: usize = 0;
        let n = self.segments.len();
        while i < n
            invariant
                i <= n,
                n == self.segments@.len(),
                out@.map_values(|s: &ObjSegmentDescriptor| *s) == self.segments@.subrange(
                    0,
                    i as int,
                ).filter(|s: ObjSegmentDescriptor| is_resource_like_spec(s.segment_type)),
            decreases n - i,
        {
            let seg = &self.segments[i];
            proof {
                reveal_with_fuel(Seq::filter, 1);
                assert(self.segments@.subrange(0, i + 1).drop_last() =~= self.segments@.subrange(
                    0,
                    i as int,
                ));
            }
            if seg.is_resource_like() {
                out.push(seg);
            }
            assert(out@.map_values(|s: &ObjSegmentDescriptor| *s) =~= self.segments@.subrange(
                0,
                i + 1,
            ).filter(|s: ObjSegmentDescriptor| is_resource_like_spec(s.segment_type)));
            i = i + 1;
        }
        assert(self.segments@.subrange(0, n as int) =~= self.segments@);
        out
    }

    /// The segment whose descriptor starts at `offset`, first match.
    pub fn segment_by_offset(&self, offset: u16) -> (r: Option<&ObjSegmentDescriptor>)
        ensures
            match r {
                Some(s) => first_segment(self.segments@, offset) == Some(*s),
                None => first_segment(self.segments@, offset) is None,
            },
            match r {
                Some(s) => exists|i: int|
                    0 <= i < self.segments@.len() && self.segments@[i] == *s
                        && s.descriptor_offset == offset && forall|j: int|
                        0 <= j < i ==> (#[trigger] self.segments@[j]).descriptor_offset != offset,
                None => forall|j: int|
                    0 <= j < self.segments@.len() ==> (#[trigger] self.segments@[j]).descriptor_offset
                        != offset,
            },
    {
        let n = self.segments.len();
        let mut i: usize = 0;
        assert(self.segments@.subrange(0, n as int) =~= self.segments@);
        while i < n
            invariant
                i <= n,
                n == self.segments@.len(),
                forall|j: int| 0 <= j < i ==> (#[trigger] self.segments@[j]).descriptor_offset != offset,
                first_segment(self.segments@, offset) == first_segment(
                    self.segments@.subrange(i as int, n as int),
                    offset,
                ),
            decreases n - i,
        {
            proof {
                assert(self.segments@.subrange(i as int, n as int).drop_first() =~= self.segments@.subrange(
                    i + 1,
                    n as int,
                ));
            }
            if self.segments[i].descriptor_offset == offset {
                return Some(&self.segments[i]);
            }
            i = i + 1;
        }
        proof {
            assert(self.segments@.subrange(n as int, n as int).len() == 0);
        }
        None
    }
}

} // verus!
