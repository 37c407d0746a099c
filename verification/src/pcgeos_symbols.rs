//! Symbol files: a VM file whose map block holds an object header, with the
//! string table, the source-file line maps and the per-segment line records
//! that the header names.
use vstd::prelude::*;
use crate::model::{SwatError, SwatResult};
use crate::pcgeos_bytes::{
    PcGeosByteOrder, u16_in, u32_in, truncated_msg, ensure_len, ensure_span, hex16, push_hex16,
    read_u16_in, read_u32_in,
};
use crate::pcgeos_obj::{
    ObjFormatVersion, ObjHeader, ObjSegmentDescriptor, ObjSegmentType, first_segment,
    is_resource_like_spec, obj_header_ok, obj_header_of, obj_format_of,
};
use crate::pcgeos_bytes::u16_le;
use crate::pcgeos_strings::{PcGeosStringTable, lemma_string_table_same_blocks, string_table_result};
use crate::pcgeos_vm::{VmFile, bytes_result, lemma_vm_file_blocks_unique, vm_file_parse_ok, vm_file_of};
use crate::pcgeos::PcGeosFileKind;
use crate::text::{decimal, owned, push_decimal, push_str};

verus! {

/// Hash chains of a legacy source-map header block.
pub const OBJ_HASH_CHAINS_OLD: usize = 127;

/// Hash chains of a new-format source-map header block.
pub const OBJ_HASH_CHAINS_NEW: usize = 5;

/// An entry of an object hash table: a name and where its value lies.
#[derive(Clone, Debug, PartialEq, Eq)]
pub struct ObjHashEntryRecord {
    pub name_id: u32,
    pub value_offset: u16,
    pub value_block: u16,
}

/// One line of a source-file map: source line, code offset, segment.
#[derive(Clone, Debug, PartialEq, Eq)]
pub struct ObjSourceMapEntry {
    pub line: u16,
    pub offset: u16,
    pub segment_offset: u16,
}

/// The line map of one source file.
#[derive(Clone, Debug, PartialEq, Eq)]
pub struct ObjSourceFileMap {
    pub file_id: u32,
    pub file_name: Option<String>,
    pub mappings: Vec<ObjSourceMapEntry>,
}

/// A source-file line map as a mathematical value.
pub struct SourceFileMapModel {
    pub file_id: u32,
    pub file_name: Option<Seq<char>>,
    pub mappings: Seq<ObjSourceMapEntry>,
}

pub open spec fn opt_text(o: Option<String>) -> Option<Seq<char>> {
    match o {
        Some(s) => Some(s@),
        None => None,
    }
}

impl View for ObjSourceFileMap {
    type V = SourceFileMapModel;

    open spec fn view(&self) -> SourceFileMapModel {
        SourceFileMapModel {
            file_id: self.file_id,
            file_name: opt_text(self.file_name),
            mappings: self.mappings@,
        }
    }
}

/// A line record of a segment: source file, line and code offset.
#[derive(Clone, Debug, PartialEq, Eq)]
pub struct ObjLineRecord {
    pub file_id: u32,
    pub line: u16,
    pub offset: u16,
}

/// A resource segment with its names and how many line records it has.
#[derive(Clone, Debug, PartialEq, Eq)]
pub struct ObjResourceSummary {
    pub segment_offset: u16,
    pub name: Option<String>,
    pub class: Option<String>,
    pub segment_type: ObjSegmentType,
    pub size: u16,
    pub line_record_count: usize,
}

/// A resource summary as a mathematical value.
pub struct ResourceSummaryModel {
    pub segment_offset: u16,
    pub name: Option<Seq<char>>,
    pub class: Option<Seq<char>>,
    pub segment_type: ObjSegmentType,
    pub size: u16,
    pub line_record_count: nat,
}

impl View for ObjResourceSummary {
    type V = ResourceSummaryModel;

    open spec fn view(&self) -> ResourceSummaryModel {
        ResourceSummaryModel {
            segment_offset: self.segment_offset,
            name: opt_text(self.name),
            class: opt_text(self.class),
            segment_type: self.segment_type,
            size: self.size,
            line_record_count: self.line_record_count as nat,
        }
    }
}

/// A symbol file: the VM file, the object header of its map block and its
/// string table.
#[derive(Clone, Debug, PartialEq, Eq)]
pub struct PcGeosSymbolVmFile {
    pub vm: VmFile,
    pub header: ObjHeader,
    pub strings: PcGeosStringTable,
}

/// The string `id` names in `strings`, if any.
pub open spec fn string_of(strings: Map<u32, crate::pcgeos_strings::StringEntryModel>, id: u32) -> Option<Seq<char>> {
    if strings.contains_key(id) {
        Some(strings[id].value)
    } else {
        None
    }
}

/// Byte order that the object header in `mb` announces.
pub open spec fn obj_order(mb: Seq<u8>) -> PcGeosByteOrder {
    obj_format_of(u16_le(mb, 0))->Some_0.0
}

/// Whether the symbol parts can be read from VM file `v`: the object
/// header of its map block and the string table that header names.
pub open spec fn symbol_parts_ok(v: VmFile) -> bool {
    &&& v.block_result(v.vm_header.map_block) is Ok
    &&& obj_header_ok(v.block_result(v.vm_header.map_block)->Ok_0)
    &&& string_table_result(
        v,
        u16_in(
            v.block_result(v.vm_header.map_block)->Ok_0,
            6,
            obj_order(v.block_result(v.vm_header.map_block)->Ok_0),
        ),
        obj_order(v.block_result(v.vm_header.map_block)->Ok_0),
    ) is Ok
}

/// `f` holds the object header of its map block and the string table that
/// header names.
pub open spec fn symbol_parts_of(f: PcGeosSymbolVmFile) -> bool {
    &&& f.vm.block_result(f.vm.vm_header.map_block) is Ok
    &&& obj_header_of(f.header, f.vm.block_result(f.vm.vm_header.map_block)->Ok_0)
    &&& string_table_result(f.vm, f.header.strings, f.header.byte_order) == Ok::<
        Map<u32, crate::pcgeos_strings::StringEntryModel>,
        Seq<char>,
    >(f.strings@)
    &&& f.strings.wf()
}

// ----- segment line records -----

pub open spec fn line_item_context(block: u16, item: int) -> Seq<char> {
    "PC/GEOS line item "@ + hex16(block) + ":"@ + decimal(item as nat)
}

/// The line records of items `item..count` of line block `blk` (handle
/// `bh`), read from `cursor` on, `current` being the file that the items
/// before set. An item with no current file sets it; a line of 0 clears
/// it; any other line is a record of the current file.
pub open spec fn line_items(
    blk: Seq<u8>,
    bh: u16,
    order: PcGeosByteOrder,
    cursor: int,
    item: int,
    count: int,
    current: Option<u32>,
) -> Result<Seq<ObjLineRecord>, Seq<char>>
    decreases count - item,
{
    if item >= count {
        Ok(seq![])
    } else if blk.len() < cursor + 4 {
        Err(truncated_msg(line_item_context(bh, item), (cursor + 4) as nat, blk.len()))
    } else {
        match current {
            None => line_items(blk, bh, order, cursor + 4, item + 1, count, Some(u32_in(blk, cursor, order))),
            Some(fid) => {
                let line = u16_in(blk, cursor, order);
                let offset = u16_in(blk, cursor + 2, order);
                if line == 0 {
                    line_items(blk, bh, order, cursor + 4, item + 1, count, None)
                } else {
                    match line_items(blk, bh, order, cursor + 4, item + 1, count, Some(fid)) {
                        Ok(rest) => Ok(seq![ObjLineRecord { file_id: fid, line, offset }] + rest),
                        Err(m) => Err(m),
                    }
                }
            },
        }
    }
}

/// The line records of line block `bh`.
pub open spec fn line_block_records(f: PcGeosSymbolVmFile, bh: u16) -> Result<
    Seq<ObjLineRecord>,
    Seq<char>,
> {
    let order = f.header.byte_order;
    match f.vm.block_result(bh) {
        Err(m) => Err(m),
        Ok(blk) => if blk.len() < 4 {
            Err(truncated_msg("PC/GEOS line block "@ + hex16(bh), 4, blk.len()))
        } else {
            line_items(blk, bh, order, 4, 0, u16_in(blk, 2, order) as int, None)
        },
    }
}

/// The line records of the line blocks that entries `i..n` of the address
/// map `am` name.
pub open spec fn addr_map_records(f: PcGeosSymbolVmFile, am: Seq<u8>, i: int, n: int) -> Result<
    Seq<ObjLineRecord>,
    Seq<char>,
>
    decreases n - i,
{
    if i >= n {
        Ok(seq![])
    } else {
        match line_block_records(f, u16_in(am, 2 + 4 * i, f.header.byte_order)) {
            Err(m) => Err(m),
            Ok(rs) => match addr_map_records(f, am, i + 1, n) {
                Ok(rest) => Ok(rs + rest),
                Err(m) => Err(m),
            },
        }
    }
}

/// What asking for the line records of the segment whose descriptor
/// starts at `offset` gives.
pub open spec fn segment_lines_result(f: PcGeosSymbolVmFile, offset: u16) -> Result<
    Seq<ObjLineRecord>,
    Seq<char>,
> {
    match first_segment(f.header.segments@, offset) {
        None => Err("no object segment exists at descriptor offset "@ + hex16(offset)),
        Some(seg) => if seg.lines == 0 {
            Ok(seq![])
        } else {
            match f.vm.block_result(seg.lines) {
                Err(m) => Err(m),
                Ok(am) => if am.len() < 2 {
                    Err(truncated_msg("PC/GEOS line address-map header"@, 2, am.len()))
                } else {
                    let n = u16_in(am, 0, f.header.byte_order) as int;
                    if am.len() < 2 + 4 * n {
                        Err(
                            truncated_msg(
                                "PC/GEOS line address-map entries"@,
                                (2 + 4 * n) as nat,
                                am.len(),
                            ),
                        )
                    } else {
                        addr_map_records(f, am, 0, n)
                    }
                },
            }
        },
    }
}

// ----- source-file line maps -----

/// The source-map entry of six bytes at `off`.
pub open spec fn source_map_entry_at(b: Seq<u8>, off: int, order: PcGeosByteOrder) -> ObjSourceMapEntry {
    ObjSourceMapEntry {
        line: u16_in(b, off, order),
        offset: u16_in(b, off + 2, order),
        segment_offset: u16_in(b, off + 4, order),
    }
}

pub open spec fn payload_context(kind: Seq<char>, block: u16, offset: u16) -> Seq<char> {
    kind + hex16(block) + ":"@ + hex16(offset)
}

/// The line map that hash entry `j` of source-map chain block `cb`
/// describes: a file id, then the block and offset of its entries.
pub open spec fn map_entry_result(f: PcGeosSymbolVmFile, cb: Seq<u8>, j: int) -> Result<
    SourceFileMapModel,
    Seq<char>,
> {
    let _len = cb.len();
    let order = f.header.byte_order;
    let off = 4 + 8 * j;
    let file_id = u32_in(cb, off, order);
    let moff = u16_in(cb, off + 4, order);
    let mblk = u16_in(cb, off + 6, order);
    match f.vm.block_result(mblk) {
        Err(m) => Err(m),
        Ok(mb) => if mb.len() < moff + 2 {
            Err(
                truncated_msg(
                    payload_context("PC/GEOS source-map payload "@, mblk, moff),
                    (moff + 2) as nat,
                    mb.len(),
                ),
            )
        } else {
            let count = u16_in(mb, moff as int, order) as int;
            if mb.len() < moff + 2 + 6 * count {
                Err(
                    truncated_msg(
                        payload_context("PC/GEOS source-map entries "@, mblk, moff),
                        (moff + 2 + 6 * count) as nat,
                        mb.len(),
                    ),
                )
            } else {
                Ok(
                    SourceFileMapModel {
                        file_id,
                        file_name: string_of(f.strings@, file_id),
                        mappings: Seq::new(
                            count as nat,
                            |k: int| source_map_entry_at(mb, moff + 2 + 6 * k, order),
                        ),
                    },
                )
            }
        },
    }
}

/// The line maps of hash entries `j..n` of chain block `cb`.
pub open spec fn block_maps(f: PcGeosSymbolVmFile, cb: Seq<u8>, j: int, n: int) -> Result<
    Seq<SourceFileMapModel>,
    Seq<char>,
>
    decreases n - j,
{
    if j >= n {
        Ok(seq![])
    } else {
        match map_entry_result(f, cb, j) {
            Err(m) => Err(m),
            Ok(e) => match block_maps(f, cb, j + 1, n) {
                Ok(rest) => Ok(seq![e] + rest),
                Err(m) => Err(m),
            },
        }
    }
}

/// One hash block of a chain: its line maps and the link to the next block.
#[verifier::opaque]
pub open spec fn chain_step(f: PcGeosSymbolVmFile, h: u16) -> Result<
    (Seq<SourceFileMapModel>, u16),
    Seq<char>,
> {
    let order = f.header.byte_order;
    match f.vm.block_result(h) {
        Err(m) => Err(m),
        Ok(cb) => if cb.len() < 4 {
            Err(truncated_msg("PC/GEOS source-map hash block "@ + hex16(h), 4, cb.len()))
        } else {
            let n = u16_in(cb, 2, order) as int;
            if cb.len() < 4 + 8 * n {
                Err(
                    truncated_msg(
                        "PC/GEOS source-map hash entries "@ + hex16(h),
                        (4 + 8 * n) as nat,
                        cb.len(),
                    ),
                )
            } else {
                match block_maps(f, cb, 0, n) {
                    Err(m) => Err(m),
                    Ok(es) => Ok((es, u16_in(cb, 0, order))),
                }
            }
        },
    }
}

/// `done` followed by what `rest` gives.
pub open spec fn prepend_maps(
    done: Seq<SourceFileMapModel>,
    rest: Option<Result<Seq<SourceFileMapModel>, Seq<char>>>,
) -> Option<Result<Seq<SourceFileMapModel>, Seq<char>>> {
    match rest {
        None => None,
        Some(Err(m)) => Some(Err(m)),
        Some(Ok(r)) => Some(Ok(done + r)),
    }
}

/// The line maps of the chain of hash blocks from `h`, following at most
/// `fuel` blocks; `None` where the chain goes on longer.
pub open spec fn chain_maps(f: PcGeosSymbolVmFile, h: u16, fuel: nat) -> Option<
    Result<Seq<SourceFileMapModel>, Seq<char>>,
>
    decreases fuel,
{
    if h == 0 {
        Some(Ok(seq![]))
    } else if fuel == 0 {
        None
    } else {
        match chain_step(f, h) {
            Err(m) => Some(Err(m)),
            Ok((es, next)) => prepend_maps(es, chain_maps(f, next, (fuel - 1) as nat)),
        }
    }
}

/// The walk along the chain from `h` ends: at a zero link or an error.
pub open spec fn chain_ends(f: PcGeosSymbolVmFile, h: u16) -> bool {
    exists|n: nat| #[trigger] chain_maps(f, h, n) is Some
}

/// The line maps of the chain from `h`, where the walk ends.
pub open spec fn chain_walk(f: PcGeosSymbolVmFile, h: u16) -> Option<
    Result<Seq<SourceFileMapModel>, Seq<char>>,
> {
    if chain_ends(f, h) {
        chain_maps(f, h, choose|n: nat| #[trigger] chain_maps(f, h, n) is Some)
    } else {
        None
    }
}

/// The line maps of hash chains `i..count` of the header block `hdr`.
pub open spec fn chains_from(f: PcGeosSymbolVmFile, hdr: Seq<u8>, i: int, count: int) -> Option<
    Result<Seq<SourceFileMapModel>, Seq<char>>,
>
    decreases count - i,
{
    if i >= count {
        Some(Ok(seq![]))
    } else {
        match chain_walk(f, u16_in(hdr, 2 * i, f.header.byte_order)) {
            None => None,
            Some(Err(m)) => Some(Err(m)),
            Some(Ok(ms)) => match chains_from(f, hdr, i + 1, count) {
                None => None,
                Some(Err(m)) => Some(Err(m)),
                Some(Ok(rest)) => Some(Ok(ms + rest)),
            },
        }
    }
}

/// Number of hash chains in a source-map header block.
pub open spec fn hash_chain_count(v: ObjFormatVersion) -> int {
    match v {
        ObjFormatVersion::Legacy => 127,
        ObjFormatVersion::NewHashFormat => 5,
    }
}

/// What reading the source-file line maps gives: the maps, or the error
/// message; `None` where a hash chain loops and the walk never ends.
pub open spec fn source_maps_result(f: PcGeosSymbolVmFile) -> Option<
    Result<Seq<SourceFileMapModel>, Seq<char>>,
> {
    if f.header.source_map == 0 {
        Some(Ok(seq![]))
    } else {
        match f.vm.block_result(f.header.source_map) {
            Err(m) => Some(Err(m)),
            Ok(hdr) => {
                let c = hash_chain_count(f.header.version);
                if hdr.len() < 2 * c {
                    Some(
                        Err(truncated_msg("PC/GEOS source-map hash header"@, (2 * c) as nat, hdr.len())),
                    )
                } else {
                    chains_from(f, hdr, 0, c)
                }
            },
        }
    }
}

/// The views of a sequence of line maps.
pub open spec fn maps_view(v: Seq<ObjSourceFileMap>) -> Seq<SourceFileMapModel> {
    v.map_values(|m: ObjSourceFileMap| m@)
}

// ----- resources -----

/// The resource-like segments, in descriptor order.
pub open spec fn resource_segments(f: PcGeosSymbolVmFile) -> Seq<ObjSegmentDescriptor> {
    f.header.segments@.filter(|s: ObjSegmentDescriptor| is_resource_like_spec(s.segment_type))
}

/// The summary of segment `seg` with `count` line records.
pub open spec fn summary_of(f: PcGeosSymbolVmFile, seg: ObjSegmentDescriptor, count: nat) -> ResourceSummaryModel {
    ResourceSummaryModel {
        segment_offset: seg.descriptor_offset,
        name: string_of(f.strings@, seg.name_id),
        class: string_of(f.strings@, seg.class_id),
        segment_type: seg.segment_type,
        size: seg.size,
        line_record_count: count,
    }
}

/// The summaries of segments `i..` of `rs`, or the first error.
pub open spec fn summaries_from(f: PcGeosSymbolVmFile, rs: Seq<ObjSegmentDescriptor>, i: int) -> Result<
    Seq<ResourceSummaryModel>,
    Seq<char>,
>
    decreases rs.len() - i,
{
    if i >= rs.len() || i < 0 {
        Ok(seq![])
    } else {
        match segment_lines_result(f, rs[i].descriptor_offset) {
            Err(m) => Err(m),
            Ok(lines) => match summaries_from(f, rs, i + 1) {
                Ok(rest) => Ok(seq![summary_of(f, rs[i], lines.len())] + rest),
                Err(m) => Err(m),
            },
        }
    }
}

/// The views of a sequence of resource summaries.
pub open spec fn summaries_view(v: Seq<ObjResourceSummary>) -> Seq<ResourceSummaryModel> {
    v.map_values(|s: ObjResourceSummary| s@)
}

/// `prefix@ + hex16(block) + ":" + decimal(item)`.
fn item_context(block: u16, item: usize) -> (r: String)
    ensures
        r@ == line_item_context(block, item as int),
{
    let mut m = String::new();
    push_str(&mut m, "PC/GEOS line item ");
    push_hex16(&mut m, block);
    push_str(&mut m, ":");
    push_decimal(&mut m, item as u64);
    m
}

/// Appends the line records of line block `blk` (handle `bh`) to `out`.
fn read_line_block(
    blk: &[u8],
    bh: u16,
    order: PcGeosByteOrder,
    out: &mut Vec<ObjLineRecord>,
) -> (r: SwatResult<()>)
    requires
        blk@.len() >= 4,
    ensures
        match line_items(blk@, bh, order, 4, 0, u16_in(blk@, 2, order) as int, None) {
            Ok(rs) => r is Ok && final(out)@ == old(out)@ + rs,
            Err(m) => r matches Err(e) && e@ == m,
        },
{
    let n = blk.len();
    let count = read_u16_in(blk, 2, order) as usize;
    let ghost target = line_items(blk@, bh, order, 4, 0, count as int, None);
    let ghost start = out@;
    let ghost mut done: Seq<ObjLineRecord> = seq![];
    let mut cursor: usize = 4;
    let mut item: usize = 0;
    let mut current: Option<u32> = None;
    while item < count
        invariant
            item <= count,
            count == u16_in(blk@, 2, order),
            cursor == 4 + 4 * item,
            n == blk@.len(),
            target == line_items(blk@, bh, order, 4, 0, count as int, None),
            out@ == start + done,
            match target {
                Ok(all) => line_items(blk@, bh, order, cursor as int, item as int, count as int, current) is Ok
                    && all == done + line_items(
                    blk@,
                    bh,
                    order,
                    cursor as int,
                    item as int,
                    count as int,
                    current,
                )->Ok_0,
                Err(m) => line_items(blk@, bh, order, cursor as int, item as int, count as int, current)
                    == Err::<Seq<ObjLineRecord>, Seq<char>>(m),
            },
        decreases count - item,
    {
        if cursor + 4 > n {
            let ctx = item_context(bh, item);
            assert(line_items(blk@, bh, order, cursor as int, item as int, count as int, current)
                == Err::<Seq<ObjLineRecord>, Seq<char>>(
                truncated_msg(line_item_context(bh, item as int), (cursor + 4) as nat, n as nat),
            ));

            return match ensure_len(blk, (cursor + 4) as u64, ctx.as_str()) {
                Ok(()) => Err(SwatError::new(ctx)),
                Err(e) => Err(e),
            };
        }
        match current {
            None => {
                current = Some(read_u32_in(blk, cursor, order));
            },
            Some(fid) => {
                let line = read_u16_in(blk, cursor, order);
                let offset = read_u16_in(blk, cursor + 2, order);
                if line == 0 {
                    current = None;
                } else {
                    let rec = ObjLineRecord { file_id: fid, line, offset };
                    proof {
                        let rest = line_items(
                            blk@,
                            bh,
                            order,
                            cursor + 4,
                            item + 1,
                            count as int,
                            Some(fid),
                        );
                        if rest is Ok {
                            assert(done + (seq![rec] + rest->Ok_0) =~= done.push(rec) + rest->Ok_0);
                        }
                        done = done.push(rec);
                    }
                    out.push(rec);
                }
            },
        }
        cursor = cursor + 4;
        item = item + 1;
    }
    proof {
        assert(done + seq![] =~= done);
    }
    Ok(())
}

/// Appends the line records of line block `bh` to `out`.
fn read_line_block_of(f: &PcGeosSymbolVmFile, bh: u16, out: &mut Vec<ObjLineRecord>) -> (r:
    SwatResult<()>)
    ensures
        match line_block_records(*f, bh) {
            Ok(rs) => r is Ok && final(out)@ == old(out)@ + rs,
            Err(m) => r matches Err(e) && e@ == m,
        },
{
    let blk = match f.vm.block_bytes(bh) {
        Ok(b) => b,
        Err(e) => {
            return Err(e);
        },
    };
    if blk.len() < 4 {
        let mut ctx = String::new();
        push_str(&mut ctx, "PC/GEOS line block ");
        push_hex16(&mut ctx, bh);
        return match ensure_len(blk, 4, ctx.as_str()) {
            Ok(()) => Err(SwatError::new(ctx)),
            Err(e) => Err(e),
        };
    }
    read_line_block(blk, bh, f.header.byte_order, out)
}

/// Appends the line records of the line blocks that the `n` entries of the
/// address map `am` name.
fn read_addr_map(
    f: &PcGeosSymbolVmFile,
    am: &[u8],
    n: usize,
    out: &mut Vec<ObjLineRecord>,
) -> (r: SwatResult<()>)
    requires
        am@.len() >= 2 + 4 * n,
    ensures
        match addr_map_records(*f, am@, 0, n as int) {
            Ok(rs) => r is Ok && final(out)@ == old(out)@ + rs,
            Err(m) => r matches Err(e) && e@ == m,
        },
{
    let len = am.len();
    let order = f.header.byte_order;
    let ghost target = addr_map_records(*f, am@, 0, n as int);
    let ghost start = out@;
    let ghost mut done: Seq<ObjLineRecord> = seq![];
    let mut i: usize = 0;
    while i < n
        invariant
            i <= n,
            am@.len() >= 2 + 4 * n,
            len == am@.len(),
            order == f.header.byte_order,
            target == addr_map_records(*f, am@, 0, n as int),
            out@ == start + done,
            match target {
                Ok(all) => addr_map_records(*f, am@, i as int, n as int) is Ok && all == done
                    + addr_map_records(*f, am@, i as int, n as int)->Ok_0,
                Err(m) => addr_map_records(*f, am@, i as int, n as int) == Err::<
                    Seq<ObjLineRecord>,
                    Seq<char>,
                >(m),
            },
        decreases n - i,
    {
        let bh = read_u16_in(am, 2 + i * 4, order);
        let ghost before = out@;
        match read_line_block_of(f, bh, out) {
            Ok(()) => {},
            Err(e) => {
                return Err(e);
            },
        }
        proof {
            let rs = line_block_records(*f, bh)->Ok_0;
            let rest = addr_map_records(*f, am@, i + 1, n as int);
            if rest is Ok {
                assert(done + (rs + rest->Ok_0) =~= (done + rs) + rest->Ok_0);
            }
            done = done + rs;
        }
        i = i + 1;
    }
    proof {
        assert(done + seq![] =~= done);
    }
    Ok(())
}

fn payload_message(kind: &str, block: u16, offset: u16) -> (r: String)
    ensures
        r@ == payload_context(kind@, block, offset),
{
    let mut m = String::new();
    push_str(&mut m, kind);
    push_hex16(&mut m, block);
    push_str(&mut m, ":");
    push_hex16(&mut m, offset);
    m
}

/// Reads the line map that hash entry `j` of chain block `cb` describes.
fn read_map_entry(f: &PcGeosSymbolVmFile, cb: &[u8], j: usize) -> (r: SwatResult<ObjSourceFileMap>)
    requires
        cb@.len() >= 4 + 8 * (j + 1),
    ensures
        match map_entry_result(*f, cb@, j as int) {
            Ok(m) => r matches Ok(v) && v@ == m,
            Err(msg) => r matches Err(e) && e@ == msg,
        },
{
    let _len = cb.len();
    let order = f.header.byte_order;
    let off = 4 + 8 * j;
    let file_id = read_u32_in(cb, off, order);
    let moff = read_u16_in(cb, off + 4, order);
    let mblk = read_u16_in(cb, off + 6, order);
    let mb = match f.vm.block_bytes(mblk) {
        Ok(b) => b,
        Err(e) => {
            return Err(e);
        },
    };
    let mlen = mb.len();
    let base = moff as usize;
    if mlen < base + 2 {
        let ctx = payload_message("PC/GEOS source-map payload ", mblk, moff);
        return match ensure_len(mb, (base + 2) as u64, ctx.as_str()) {
            Ok(()) => Err(SwatError::new(ctx)),
            Err(e) => Err(e),
        };
    }
    let count = read_u16_in(mb, base, order) as usize;
    if mlen < base + 2 + 6 * count {
        let ctx = payload_message("PC/GEOS source-map entries ", mblk, moff);
        return match ensure_len(mb, (base + 2 + 6 * count) as u64, ctx.as_str()) {
            Ok(()) => Err(SwatError::new(ctx)),
            Err(e) => Err(e),
        };
    }
    let mut mappings: Vec<ObjSourceMapEntry> = Vec::new();
    let mut k: usize = 0;
    while k < count
        invariant
            k <= count,
            mlen == mb@.len(),
            base + 2 + 6 * count <= mlen,
            mappings@.len() == k,
            forall|i: int|
                0 <= i < k ==> #[trigger] mappings@[i] == source_map_entry_at(
                    mb@,
                    base + 2 + 6 * i,
                    order,
                ),
        decreases count - k,
    {
        let cursor = base + 2 + 6 * k;
        mappings.push(
            ObjSourceMapEntry {
                line: read_u16_in(mb, cursor, order),
                offset: read_u16_in(mb, cursor + 2, order),
                segment_offset: read_u16_in(mb, cursor + 4, order),
            },
        );
        k = k + 1;
    }
    let file_name = match f.strings.get(file_id) {
        Some(name) => Some(owned(name)),
        None => None,
    };
    let map = ObjSourceFileMap { file_id, file_name, mappings };
    proof {
        let model = map_entry_result(*f, cb@, j as int)->Ok_0;
        assert(map@.mappings =~= model.mappings);
    }
    Ok(map)
}

proof fn lemma_maps_view_push(v: Seq<ObjSourceFileMap>, x: ObjSourceFileMap)
    ensures
        maps_view(v.push(x)) == maps_view(v).push(x@),
{
    assert(maps_view(v.push(x)) =~= maps_view(v).push(x@));
}

/// Appends the line maps of the `n` hash entries of chain block `cb`.
fn read_block_maps(
    f: &PcGeosSymbolVmFile,
    cb: &[u8],
    n: usize,
    out: &mut Vec<ObjSourceFileMap>,
) -> (r: SwatResult<()>)
    requires
        cb@.len() >= 4 + 8 * n,
    ensures
        match block_maps(*f, cb@, 0, n as int) {
            Ok(ms) => r is Ok && maps_view(final(out)@) == maps_view(old(out)@) + ms,
            Err(m) => r matches Err(e) && e@ == m,
        },
{
    let ghost target = block_maps(*f, cb@, 0, n as int);
    let ghost start = maps_view(out@);
    let ghost mut done: Seq<SourceFileMapModel> = seq![];
    let mut j: usize = 0;
    while j < n
        invariant
            j <= n,
            cb@.len() >= 4 + 8 * n,
            target == block_maps(*f, cb@, 0, n as int),
            maps_view(out@) == start + done,
            match target {
                Ok(all) => block_maps(*f, cb@, j as int, n as int) is Ok && all == done + block_maps(
                    *f,
                    cb@,
                    j as int,
                    n as int,
                )->Ok_0,
                Err(m) => block_maps(*f, cb@, j as int, n as int) == Err::<
                    Seq<SourceFileMapModel>,
                    Seq<char>,
                >(m),
            },
        decreases n - j,
    {
        let map = match read_map_entry(f, cb, j) {
            Ok(m) => m,
            Err(e) => {
                return Err(e);
            },
        };
        proof {
            let rest = block_maps(*f, cb@, j + 1, n as int);
            if rest is Ok {
                assert(done + (seq![map@] + rest->Ok_0) =~= done.push(map@) + rest->Ok_0);
            }
            lemma_maps_view_push(out@, map);
            done = done.push(map@);
        }
        out.push(map);
        j = j + 1;
    }
    proof {
        assert(done + seq![] =~= done);
    }
    Ok(())
}

/// Appends the line maps of hash block `h` and gives its link.
fn read_chain_block(f: &PcGeosSymbolVmFile, h: u16, out: &mut Vec<ObjSourceFileMap>) -> (r:
    SwatResult<u16>)
    ensures
        match chain_step(*f, h) {
            Ok((es, next)) => r == Ok::<u16, SwatError>(next) && maps_view(final(out)@) == maps_view(
                old(out)@,
            ) + es,
            Err(m) => r matches Err(e) && e@ == m,
        },
{
    reveal(chain_step);
    let order = f.header.byte_order;
    let cb = match f.vm.block_bytes(h) {
        Ok(b) => b,
        Err(e) => {
            return Err(e);
        },
    };
    if cb.len() < 4 {
        let mut ctx = String::new();
        push_str(&mut ctx, "PC/GEOS source-map hash block ");
        push_hex16(&mut ctx, h);
        return match ensure_len(cb, 4, ctx.as_str()) {
            Ok(()) => Err(SwatError::new(ctx)),
            Err(e) => Err(e),
        };
    }
    let next = read_u16_in(cb, 0, order);
    let n = read_u16_in(cb, 2, order) as usize;
    if cb.len() < 4 + 8 * n {
        let mut ctx = String::new();
        push_str(&mut ctx, "PC/GEOS source-map hash entries ");
        push_hex16(&mut ctx, h);
        return match ensure_len(cb, (4 + 8 * n) as u64, ctx.as_str()) {
            Ok(()) => Err(SwatError::new(ctx)),
            Err(e) => Err(e),
        };
    }
    match read_block_maps(f, cb, n, out) {
        Ok(()) => Ok(next),
        Err(e) => Err(e),
    }
}

/// Appends the line maps of the hash chain from `h0`, whose walk ends.
fn read_chain_maps(f: &PcGeosSymbolVmFile, h0: u16, out: &mut Vec<ObjSourceFileMap>) -> (r:
    SwatResult<()>)
    requires
        chain_ends(*f, h0),
    ensures
        match chain_walk(*f, h0) {
            Some(Ok(ms)) => r is Ok && maps_view(final(out)@) == maps_view(old(out)@) + ms,
            Some(Err(m)) => r matches Err(e) && e@ == m,
            None => false,
        },
{
    let ghost fuel0: nat = choose|n: nat| #[trigger] chain_maps(*f, h0, n) is Some;
    let ghost target = chain_maps(*f, h0, fuel0);
    let ghost start = maps_view(out@);
    let ghost mut done: Seq<SourceFileMapModel> = seq![];
    let ghost mut fuel: nat = fuel0;
    let mut h = h0;
    assert(seq![] + chain_maps(*f, h0, fuel0)->0->Ok_0 =~= chain_maps(*f, h0, fuel0)->0->Ok_0)
        by {
        if chain_maps(*f, h0, fuel0)->0 is Ok {
        }
    };
    while h != 0
        invariant
            target == chain_maps(*f, h0, fuel0),
            target == chain_walk(*f, h0),
            target is Some,
            chain_maps(*f, h, fuel) is Some,
            maps_view(out@) == start + done,
            target == prepend_maps(done, chain_maps(*f, h, fuel)),
        decreases fuel,
    {
        let next = match read_chain_block(f, h, out) {
            Ok(next) => next,
            Err(e) => {
                assert(fuel > 0);
                assert(chain_maps(*f, h, fuel) == Some(
                    Err::<Seq<SourceFileMapModel>, Seq<char>>(e@),
                ));
                return Err(e);
            },
        };
        proof {
            let es = chain_step(*f, h)->Ok_0.0;
            let rest = chain_maps(*f, next, (fuel - 1) as nat);
            if rest is Some && rest->0 is Ok {
                let rs = rest->0->Ok_0;
                assert(done + (es + rs) =~= (done + es) + rs);
            }
            done = done + es;
            fuel = (fuel - 1) as nat;
        }
        h = next;
    }
    Ok(())
}

/// The `k`-th block of the walk `w` that goes on to `h`.
spec fn walk_node(w: Seq<u16>, h: u16, k: int) -> u16 {
    if k < w.len() {
        w[k]
    } else {
        h
    }
}

/// Block `k` of the walk is a non-zero handle whose block reads and links
/// to the next block of the walk.
spec fn walk_link(f: PcGeosSymbolVmFile, w: Seq<u16>, h: u16, k: int) -> bool {
    &&& w[k] != 0
    &&& chain_step(f, w[k]) is Ok
    &&& chain_step(f, w[k])->Ok_0.1 == walk_node(w, h, k + 1)
}

spec fn walk_links(f: PcGeosSymbolVmFile, w: Seq<u16>, h: u16) -> bool {
    forall|k: int| 0 <= k < w.len() ==> #[trigger] walk_link(f, w, h, k)
}

/// A walk that comes back to one of its blocks goes round for ever.
proof fn lemma_cycle_never_ends(f: PcGeosSymbolVmFile, w: Seq<u16>, h: u16, n: nat)
    requires
        walk_links(f, w, h),
        w.contains(h),
    ensures
        forall|k: int| 0 <= k <= w.len() ==> #[trigger] chain_maps(f, walk_node(w, h, k), n) is None,
    decreases n,
{
    if n > 0 {
        lemma_cycle_never_ends(f, w, h, (n - 1) as nat);
    }
    assert forall|k: int| 0 <= k < w.len() implies #[trigger] chain_maps(f, walk_node(w, h, k), n)
        is None by {
        assert(walk_link(f, w, h, k));
        if n > 0 {
            assert(chain_maps(f, walk_node(w, h, k + 1), (n - 1) as nat) is None);
        }
    }
    let j = choose|j: int| 0 <= j < w.len() && w[j] == h;
    assert(walk_node(w, h, j) == walk_node(w, h, w.len() as int));
    assert(chain_maps(f, walk_node(w, h, j), n) is None);
}

/// A walk that reaches a zero link or a block that does not read ends,
/// in an error exactly in the second case.
proof fn lemma_walk_ends(f: PcGeosSymbolVmFile, w: Seq<u16>, h: u16, k: int)
    requires
        walk_links(f, w, h),
        h == 0 || chain_step(f, h) is Err,
        0 <= k <= w.len(),
    ensures
        chain_maps(f, walk_node(w, h, k), (w.len() - k + 1) as nat) matches Some(x) && (x is Ok
            <==> h == 0),
    decreases w.len() - k,
{
    if k < w.len() {
        lemma_walk_ends(f, w, h, k + 1);
        assert(walk_link(f, w, h, k));
    }
}

/// More fuel does not change a walk that has ended.
proof fn lemma_chain_fuel(f: PcGeosSymbolVmFile, h: u16, n: nat, m: nat)
    requires
        chain_maps(f, h, n) is Some,
        n <= m,
    ensures
        chain_maps(f, h, m) == chain_maps(f, h, n),
    decreases n,
{
    if h != 0 {
        if let Ok((es, next)) = chain_step(f, h) {
            lemma_chain_fuel(f, next, (n - 1) as nat, (m - 1) as nat);
        }
    }
}

/// At most 65536 distinct handles exist.
proof fn lemma_distinct_handles(s: Seq<u16>)
    requires
        s.no_duplicates(),
    ensures
        s.len() <= 65536,
{
    let t = s.map_values(|x: u16| x as int);
    assert forall|i: int, j: int| 0 <= i < t.len() && 0 <= j < t.len() && i != j implies t[i]
        != t[j] by {
        assert(s[i] != s[j]);
    }
    assert(t.no_duplicates());
    t.unique_seq_to_set();
    assert forall|x: int| t.to_set().contains(x) implies vstd::set_lib::set_int_range(0, 65536).contains(
        x,
    ) by {
        assert(t.contains(x));
        let i = choose|i: int| 0 <= i < t.len() && t[i] == x;
        assert(t[i] == s[i] as int);
    }
    vstd::set_lib::lemma_int_range(0, 65536);
    vstd::set_lib::lemma_len_subset(t.to_set(), vstd::set_lib::set_int_range(0, 65536));
}

fn contains_handle(v: &Vec<u16>, x: u16) -> (r: bool)
    ensures
        r == v@.contains(x),
{
    let mut i: usize = 0;
    while i < v.len()
        invariant
            i <= v@.len(),
            forall|j: int| 0 <= j < i ==> v@[j] != x,
        decreases v@.len() - i,
    {
        if v[i] == x {
            return true;
        }
        i += 1;
    }
    false
}

/// Walks the hash chain from `h0`, blocks that were already seen ending
/// the walk: whether the walk ends, and whether it ends in an error.
fn walk_chain(f: &PcGeosSymbolVmFile, h0: u16) -> (r: (bool, bool))
    ensures
        r.0 == chain_ends(*f, h0),
        r.0 ==> (chain_walk(*f, h0) matches Some(x) && (x is Err <==> r.1)),
{
    let mut visited: Vec<u16> = Vec::new();
    let mut h = h0;
    loop
        invariant
            walk_links(*f, visited@, h),
            visited@.no_duplicates(),
            visited@.len() <= 65536,
            walk_node(visited@, h, 0) == h0,
        decreases 65536 - visited@.len(),
    {
        let seen = contains_handle(&visited, h);
        if h == 0 || seen {
            proof {
                if h == 0 {
                    lemma_walk_ends(*f, visited@, h, 0);
                    let n = (visited@.len() + 1) as nat;
                    assert(chain_maps(*f, h0, n) is Some);
                    let c = choose|c: nat| #[trigger] chain_maps(*f, h0, c) is Some;
                    if c <= n {
                        lemma_chain_fuel(*f, h0, c, n);
                    } else {
                        lemma_chain_fuel(*f, h0, n, c);
                    }
                } else {
                    assert forall|n: nat| !(#[trigger] chain_maps(*f, h0, n) is Some) by {
                        lemma_cycle_never_ends(*f, visited@, h, n);
                        assert(chain_maps(*f, walk_node(visited@, h, 0), n) is None);
                    }
                }
            }
            return (h == 0, false);
        }
        let mut scratch: Vec<ObjSourceFileMap> = Vec::new();
        match read_chain_block(f, h, &mut scratch) {
            Err(_) => {
                proof {
                    lemma_walk_ends(*f, visited@, h, 0);
                    let n = (visited@.len() + 1) as nat;
                    assert(chain_maps(*f, h0, n) is Some);
                    let c = choose|c: nat| #[trigger] chain_maps(*f, h0, c) is Some;
                    if c <= n {
                        lemma_chain_fuel(*f, h0, c, n);
                    } else {
                        lemma_chain_fuel(*f, h0, n, c);
                    }
                }
                return (true, true);
            },
            Ok(next) => {
                let ghost w0 = visited@;
                visited.push(h);
                proof {
                    assert forall|i: int, j: int|
                        0 <= i < visited@.len() && 0 <= j < visited@.len() && i != j implies visited@[i]
                        != visited@[j] by {
                        if i < w0.len() && j < w0.len() {
                            assert(w0[i] != w0[j]);
                        } else if i == w0.len() {
                            assert(!w0.contains(h));
                            assert(visited@[j] == w0[j]);
                        } else {
                            assert(!w0.contains(h));
                            assert(visited@[i] == w0[i]);
                        }
                    }
                    lemma_distinct_handles(visited@);
                    assert forall|k: int| 0 <= k < visited@.len() implies #[trigger] walk_link(
                        *f,
                        visited@,
                        next,
                        k,
                    ) by {
                        if k < w0.len() {
                            assert(walk_link(*f, w0, h, k));
                        }
                    }
                }
                h = next;
            },
        }
    }
}

impl PcGeosSymbolVmFile {
    /// Whether reading the source-file line maps comes to an end: every
    /// hash chain that the reading walks reaches a zero link or a block that
    /// does not read. A chain that comes back to a block it has passed goes
    /// round for ever; `source_maps` may be called exactly when this holds.
    pub fn source_chains_end(&self) -> (r: bool)
        ensures
            r == (source_maps_result(*self) is Some),
    {
        if self.header.source_map == 0 {
            return true;
        }
        let chain_count: usize = match self.header.version {
            ObjFormatVersion::Legacy => OBJ_HASH_CHAINS_OLD,
            ObjFormatVersion::NewHashFormat => OBJ_HASH_CHAINS_NEW,
        };
        let hdr = match self.vm.block_bytes(self.header.source_map) {
            Ok(b) => b,
            Err(_) => {
                return true;
            },
        };
        if hdr.len() < chain_count * 2 {
            return true;
        }
        let order = self.header.byte_order;
        let ghost c = chain_count as int;
        let mut i: usize = 0;
        while i < chain_count
            invariant
                i <= chain_count,
                c == chain_count,
                chain_count <= 127,
                hdr@.len() >= 2 * chain_count,
                order == self.header.byte_order,
                source_maps_result(*self) == chains_from(*self, hdr@, 0, c),
                (chains_from(*self, hdr@, 0, c) is Some) == (chains_from(*self, hdr@, i as int, c) is Some),
            decreases chain_count - i,
        {
            let h = read_u16_in(hdr, i * 2, order);
            let (ends, failed) = walk_chain(self, h);
            if !ends {
                return false;
            }
            if failed {
                return true;
            }
            i += 1;
        }
        true
    }

    /// The source-file line maps, hash chain by hash chain. A chain that
    /// loops would be walked forever, so every chain that the walk reaches
    /// must end (`source_chains_end` tells).
    pub fn source_maps(&self) -> (r: SwatResult<Vec<ObjSourceFileMap>>)
        requires
            source_maps_result(*self) is Some,
        ensures
            match source_maps_result(*self) {
                Some(Ok(ms)) => r matches Ok(v) && maps_view(v@) == ms,
                Some(Err(m)) => r matches Err(e) && e@ == m,
                None => false,
            },
    {
        let mut maps: Vec<ObjSourceFileMap> = Vec::new();
        if self.header.source_map == 0 {
            assert(maps_view(maps@) =~= seq![]);
            return Ok(maps);
        }
        let chain_count: usize = match self.header.version {
            ObjFormatVersion::Legacy => OBJ_HASH_CHAINS_OLD,
            ObjFormatVersion::NewHashFormat => OBJ_HASH_CHAINS_NEW,
        };
        let hdr = match self.vm.block_bytes(self.header.source_map) {
            Ok(b) => b,
            Err(e) => {
                return Err(e);
            },
        };
        match ensure_len(hdr, (chain_count * 2) as u64, "PC/GEOS source-map hash header") {
            Ok(()) => {},
            Err(e) => {
                return Err(e);
            },
        }
        let order = self.header.byte_order;
        let ghost target = chains_from(*self, hdr@, 0, chain_count as int);
        let ghost mut done: Seq<SourceFileMapModel> = seq![];
        assert(maps_view(maps@) =~= seq![]);
        assert(target == prepend_maps(done, chains_from(*self, hdr@, 0, chain_count as int))) by {
            if target is Some && target->0 is Ok {
                assert(seq![] + target->0->Ok_0 =~= target->0->Ok_0);
            }
        };
        let mut i: usize = 0;
        while i < chain_count
            invariant
                i <= chain_count,
                chain_count <= 127,
                hdr@.len() >= 2 * chain_count,
                order == self.header.byte_order,
                target == chains_from(*self, hdr@, 0, chain_count as int),
                target == source_maps_result(*self),
                target is Some,
                chains_from(*self, hdr@, i as int, chain_count as int) is Some,
                maps_view(maps@) == done,
                target == prepend_maps(done, chains_from(*self, hdr@, i as int, chain_count as int)),
            decreases chain_count - i,
        {
            let h = read_u16_in(hdr, i * 2, order);
            let ghost before = done;
            match read_chain_maps(self, h, &mut maps) {
                Ok(()) => {},
                Err(e) => {
                    assert(chains_from(*self, hdr@, i as int, chain_count as int) == Some(
                        Err::<Seq<SourceFileMapModel>, Seq<char>>(e@),
                    ));
                    return Err(e);
                },
            }
            proof {
                let ms = chain_walk(*self, h)->0->Ok_0;
                let rest = chains_from(*self, hdr@, i + 1, chain_count as int);
                if rest is Some && rest->0 is Ok {
                    let rs = rest->0->Ok_0;
                    assert(done + (ms + rs) =~= (done + ms) + rs);
                }
                done = done + ms;
            }
            i = i + 1;
        }
        proof {
            assert(done + seq![] =~= done);
        }
        Ok(maps)
    }
}

impl PcGeosSymbolVmFile {
    /// The line records of the segment whose descriptor starts at
    /// `segment_offset`, in address-map order.
    pub fn segment_line_records(&self, segment_offset: u16) -> (r: SwatResult<Vec<ObjLineRecord>>)
        ensures
            match segment_lines_result(*self, segment_offset) {
                Ok(rs) => r matches Ok(v) && v@ == rs,
                Err(m) => r matches Err(e) && e@ == m,
            },
    {
        let segment = match self.header.segment_by_offset(segment_offset) {
            Some(s) => s,
            None => {
                let mut m = String::new();
                push_str(&mut m, "no object segment exists at descriptor offset ");
                push_hex16(&mut m, segment_offset);
                return Err(SwatError::new(m));
            },
        };
        let mut records: Vec<ObjLineRecord> = Vec::new();
        if segment.lines == 0 {
            return Ok(records);
        }
        let am = match self.vm.block_bytes(segment.lines) {
            Ok(b) => b,
            Err(e) => {
                return Err(e);
            },
        };
        match ensure_len(am, 2, "PC/GEOS line address-map header") {
            Ok(()) => {},
            Err(e) => {
                return Err(e);
            },
        }
        let entry_count = read_u16_in(am, 0, self.header.byte_order) as usize;
        match ensure_len(am, 2 + (entry_count as u64) * 4, "PC/GEOS line address-map entries") {
            Ok(()) => {},
            Err(e) => {
                return Err(e);
            },
        }
        match read_addr_map(self, am, entry_count, &mut records) {
            Ok(()) => {
                assert(records@ =~= seq![] + records@);
                Ok(records)
            },
            Err(e) => Err(e),
        }
    }
}

fn opt_owned(o: Option<&str>) -> (r: Option<String>)
    ensures
        opt_text(r) == match o {
            Some(s) => Some(s@),
            None => None::<Seq<char>>,
        },
{
    match o {
        Some(s) => Some(owned(s)),
        None => None,
    }
}

impl PcGeosSymbolVmFile {
    /// A summary of each resource-like segment, in descriptor order: its
    /// names, type, size and number of line records.
    pub fn resources(&self) -> (r: SwatResult<Vec<ObjResourceSummary>>)
        ensures
            match summaries_from(*self, resource_segments(*self), 0) {
                Ok(ss) => r matches Ok(v) && summaries_view(v@) == ss,
                Err(m) => r matches Err(e) && e@ == m,
            },
    {
        let segs = self.header.resources();
        let ghost rs = resource_segments(*self);
        let ghost target = summaries_from(*self, rs, 0);
        let ghost mut done: Seq<ResourceSummaryModel> = seq![];
        let mut out: Vec<ObjResourceSummary> = Vec::new();
        assert(summaries_view(out@) =~= seq![]);
        proof {
            if target is Ok {
                assert(seq![] + target->Ok_0 =~= target->Ok_0);
            }
        }
        let n = segs.len();
        let mut i: usize = 0;
        while i < n
            invariant
                i <= n,
                n == segs@.len(),
                segs@.map_values(|s: &ObjSegmentDescriptor| *s) == rs,
                rs == resource_segments(*self),
                target == summaries_from(*self, rs, 0),
                summaries_view(out@) == done,
                match target {
                    Ok(all) => summaries_from(*self, rs, i as int) is Ok && all == done
                        + summaries_from(*self, rs, i as int)->Ok_0,
                    Err(m) => summaries_from(*self, rs, i as int) == Err::<
                        Seq<ResourceSummaryModel>,
                        Seq<char>,
                    >(m),
                },
            decreases n - i,
        {
            let segment = segs[i];
            assert(*segment == rs[i as int]);
            let lines = match self.segment_line_records(segment.descriptor_offset) {
                Ok(v) => v,
                Err(e) => {
                    return Err(e);
                },
            };
            let summary = ObjResourceSummary {
                segment_offset: segment.descriptor_offset,
                name: opt_owned(segment.name(&self.strings)),
                class: opt_owned(segment.class(&self.strings)),
                segment_type: segment.segment_type,
                size: segment.size,
                line_record_count: lines.len(),
            };
            proof {
                assert(summary@ == summary_of(*self, rs[i as int], lines@.len()));
                let rest = summaries_from(*self, rs, i + 1);
                if rest is Ok {
                    assert(done + (seq![summary@] + rest->Ok_0) =~= done.push(summary@)
                        + rest->Ok_0);
                }
                assert(summaries_view(out@.push(summary)) =~= done.push(summary@));
                done = done.push(summary@);
            }
            out.push(summary);
            i = i + 1;
        }
        proof {
            assert(done + seq![] =~= done);
        }
        Ok(out)
    }
}

impl PcGeosSymbolVmFile {
    /// Reads a symbol file: the VM file, the object header in its map block
    /// and the string table that the header names, in the header's byte
    /// order.
    pub fn parse(bytes: Vec<u8>) -> (r: SwatResult<Self>)
        ensures
            r is Ok <==> symbol_file_ok(bytes@),
            r matches Ok(f) ==> vm_file_of(f.vm, bytes@) && symbol_parts_of(f),
    {
        let ghost image = bytes@;
        let vm = match VmFile::parse(bytes) {
            Ok(v) => v,
            Err(e) => {
                return Err(e);
            },
        };
        let header = match ObjHeader::parse_vm_map(&vm) {
            Ok(h) => h,
            Err(e) => {
                proof {
                    lemma_symbol_parts_unique(vm, image);
                }
                return Err(e);
            },
        };
        let strings = match PcGeosStringTable::from_vm_with_byte_order(
            &vm,
            header.strings,
            header.byte_order,
        ) {
            Ok(t) => t,
            Err(e) => {
                proof {
                    lemma_symbol_parts_unique(vm, image);
                }
                return Err(e);
            },
        };
        assert(symbol_parts_ok(vm));
        Ok(PcGeosSymbolVmFile { vm, header, strings })
    }
}

/// Whether a symbol file can be read from `b`: a VM file whose map block
/// holds a readable object header, and the string table that it names.
pub open spec fn symbol_file_ok(b: Seq<u8>) -> bool {
    vm_file_parse_ok(b) && exists|v: VmFile| #[trigger] vm_file_of(v, b) && symbol_parts_ok(v)
}

/// Every VM file read from `b` has readable symbol parts, or none has.
proof fn lemma_symbol_parts_unique(vm: VmFile, b: Seq<u8>)
    requires
        vm_file_of(vm, b),
    ensures
        forall|v: VmFile| #[trigger] vm_file_of(v, b) ==> symbol_parts_ok(v) == symbol_parts_ok(vm),
{
    assert forall|v: VmFile| #[trigger] vm_file_of(v, b) implies symbol_parts_ok(v) == symbol_parts_ok(
        vm,
    ) by {
        lemma_vm_file_blocks_unique(v, vm, b);
        let mb = vm.block_result(vm.vm_header.map_block);
        assert(v.block_result(v.vm_header.map_block) == mb);
        if mb is Ok {
            lemma_string_table_same_blocks(
                v,
                vm,
                u16_in(mb->Ok_0, 6, obj_order(mb->Ok_0)),
                obj_order(mb->Ok_0),
            );
        }
    }
}

} // verus!
