//! PC/GEOS string tables: a header block of hash buckets, each naming a
//! chain block of length-prefixed strings. A string's id is its chain
//! block's handle in the high half and its offset in that block in the
//! low half.
use std::collections::BTreeMap;
use vstd::prelude::*;
use crate::model::{SwatError, SwatResult};
use crate::pcgeos_bytes::{
    PcGeosByteOrder, u16_in, truncated_msg, ensure_len, ensure_span, hex16, push_hex16,
    read_u16_in, utf8_lossy, decode_utf8_lossy,
};
use crate::pcgeos_vm::{VmFile, bytes_result};
use crate::text::push_str;
use vstd::std_specs::iter::IteratorSpec;
use vstd::std_specs::cmp::OrdSpec;

verus! {

broadcast use vstd::std_specs::btree::group_btree_axioms, vstd::laws_cmp::group_laws_cmp;

/// Number of hash buckets in a string-table header block.
pub const ST_BUCKET_COUNT: usize = 257;

/// Length of a string-table header block.
pub const ST_HEADER_LEN: usize = 514;

/// One string of a table.
#[derive(Clone, Debug, PartialEq, Eq)]
pub struct PcGeosStringTableEntry {
    pub id: u32,
    pub block_handle: u16,
    pub offset: u16,
    pub hash: u16,
    pub value: String,
}

/// A string-table entry as a mathematical value.
pub struct StringEntryModel {
    pub id: u32,
    pub block_handle: u16,
    pub offset: u16,
    pub hash: u16,
    pub value: Seq<char>,
}

impl View for PcGeosStringTableEntry {
    type V = StringEntryModel;

    open spec fn view(&self) -> StringEntryModel {
        StringEntryModel {
            id: self.id,
            block_handle: self.block_handle,
            offset: self.offset,
            hash: self.hash,
            value: self.value@,
        }
    }
}

/// Bytes that a string of `length` bytes takes in its chain block after
/// its four-byte record header: the string, then padding to an even
/// length, then two more bytes.
pub open spec fn pad_len(length: int) -> int {
    if length % 2 == 0 {
        length + 2
    } else {
        length + 1
    }
}

pub open spec fn record_context(handle: u16, cursor: int) -> Seq<char> {
    "PC/GEOS string-table record "@ + hex16(handle) + ":"@ + hex16(cursor as u16)
}

pub open spec fn entry_context(handle: u16, cursor: int) -> Seq<char> {
    "PC/GEOS string-table entry "@ + hex16(handle) + ":"@ + hex16(cursor as u16)
}

pub open spec fn chain_context(handle: u16) -> Seq<char> {
    "PC/GEOS string-table chain block "@ + hex16(handle)
}

/// The strings of chain block `chain` (handle `handle`) from offset
/// `cursor` up to the limit `limit`, or the message of the first failed
/// bounds check.
pub open spec fn chain_records(
    chain: Seq<u8>,
    handle: u16,
    order: PcGeosByteOrder,
    cursor: int,
    limit: int,
) -> Result<Seq<StringEntryModel>, Seq<char>>
    decreases (if cursor < limit {
        limit - cursor
    } else {
        0
    }),
{
    if cursor >= limit {
        Ok(seq![])
    } else if cursor + 4 > chain.len() {
        Err(truncated_msg(record_context(handle, cursor), (cursor + 4) as nat, chain.len()))
    } else {
        let hash = u16_in(chain, cursor, order);
        let length = u16_in(chain, cursor + 2, order) as int;
        let start = cursor + 4;
        if start + length > chain.len() {
            Err(truncated_msg(entry_context(handle, cursor), (start + length) as nat, chain.len()))
        } else {
            let e = StringEntryModel {
                id: (handle as int * 65536 + cursor) as u32,
                block_handle: handle,
                offset: cursor as u16,
                hash,
                value: utf8_lossy(chain.subrange(start, start + length)),
            };
            match chain_records(chain, handle, order, start + pad_len(length), limit) {
                Ok(rest) => Ok(seq![e] + rest),
                Err(m) => Err(m),
            }
        }
    }
}

/// The strings of the chains that buckets `bucket..257` of the header
/// block `table` name, bucket by bucket, or the first error.
pub open spec fn table_records(
    vm: VmFile,
    table: Seq<u8>,
    order: PcGeosByteOrder,
    bucket: int,
) -> Result<Seq<StringEntryModel>, Seq<char>>
    decreases 257 - bucket,
{
    if bucket >= 257 || bucket < 0 {
        Ok(seq![])
    } else {
        let h = u16_in(table, 2 * bucket, order);
        if h == 0 {
            table_records(vm, table, order, bucket + 1)
        } else {
            match vm.block_result(h) {
                Err(m) => Err(m),
                Ok(chain) => if chain.len() < 2 {
                    Err(truncated_msg(chain_context(h), 2, chain.len()))
                } else {
                    match chain_records(chain, h, order, 2, u16_in(chain, 0, order) as int) {
                        Err(m) => Err(m),
                        Ok(rs) => match table_records(vm, table, order, bucket + 1) {
                            Ok(rest) => Ok(rs + rest),
                            Err(m) => Err(m),
                        },
                    }
                },
            }
        }
    }
}

/// `m` with the entries of `es` stored in turn under their ids, a later
/// entry replacing an earlier one with the same id.
pub open spec fn insert_all(m: Map<u32, StringEntryModel>, es: Seq<StringEntryModel>) -> Map<
    u32,
    StringEntryModel,
>
    decreases es.len(),
{
    if es.len() == 0 {
        m
    } else {
        insert_all(m.insert(es[0].id, es[0]), es.drop_first())
    }
}

proof fn lemma_table_records_same_blocks(
    v1: VmFile,
    v2: VmFile,
    table: Seq<u8>,
    order: PcGeosByteOrder,
    bucket: int,
)
    requires
        forall|h: u16| #[trigger] v1.block_result(h) == v2.block_result(h),
    ensures
        table_records(v1, table, order, bucket) == table_records(v2, table, order, bucket),
    decreases 257 - bucket,
{
    if 0 <= bucket < 257 {
        lemma_table_records_same_blocks(v1, v2, table, order, bucket + 1);
        let h = u16_in(table, 2 * bucket, order);
        assert(v1.block_result(h) == v2.block_result(h));
    }
}

/// Two VM files that read the same contents under every handle read the
/// same string tables.
pub proof fn lemma_string_table_same_blocks(
    v1: VmFile,
    v2: VmFile,
    table_handle: u16,
    order: PcGeosByteOrder,
)
    requires
        forall|h: u16| #[trigger] v1.block_result(h) == v2.block_result(h),
    ensures
        string_table_result(v1, table_handle, order) == string_table_result(v2, table_handle, order),
{
    assert(v1.block_result(table_handle) == v2.block_result(table_handle));
    if let Ok(t) = v1.block_result(table_handle) {
        lemma_table_records_same_blocks(v1, v2, t, order, 0);
    }
}

/// What reading the string table whose header block is `table_handle`
/// gives: the strings by id, or the error message.
pub open spec fn string_table_result(vm: VmFile, table_handle: u16, order: PcGeosByteOrder) -> Result<
    Map<u32, StringEntryModel>,
    Seq<char>,
> {
    match vm.block_result(table_handle) {
        Err(m) => Err(m),
        Ok(t) => if t.len() < 514 {
            Err(truncated_msg("PC/GEOS string table header"@, 514, t.len()))
        } else {
            match table_records(vm, t, order, 0) {
                Ok(es) => Ok(insert_all(Map::empty(), es)),
                Err(m) => Err(m),
            }
        },
    }
}
/// Where a string sits: in a chain block with a non-zero handle, at an
/// even offset of at least two, and its id is that handle in the high half
/// and that offset in the low half.
pub open spec fn entry_placed(e: StringEntryModel) -> bool {
    &&& e.block_handle != 0
    &&& e.offset >= 2
    &&& e.offset % 2 == 0
    &&& e.id == e.block_handle as int * 65536 + e.offset as int
}

proof fn lemma_chain_placed(chain: Seq<u8>, handle: u16, order: PcGeosByteOrder, cursor: int, limit: int)
    requires
        handle != 0,
        cursor >= 2,
        cursor % 2 == 0,
        chain.len() <= 65535,
    ensures
        chain_records(chain, handle, order, cursor, limit) matches Ok(rs) ==> forall|i: int|
            0 <= i < rs.len() ==> entry_placed(#[trigger] rs[i]),
    decreases (if cursor < limit {
        limit - cursor
    } else {
        0
    }),
{
    if cursor < limit && cursor + 4 <= chain.len() {
        let length = u16_in(chain, cursor + 2, order) as int;
        let start = cursor + 4;
        if start + length <= chain.len() {
            lemma_chain_placed(chain, handle, order, start + pad_len(length), limit);
            if let Ok(rs) = chain_records(chain, handle, order, cursor, limit) {
                let rest = chain_records(chain, handle, order, start + pad_len(length), limit)->Ok_0;
                assert(rs == seq![rs[0]] + rest);
                assert forall|i: int| 0 <= i < rs.len() implies entry_placed(#[trigger] rs[i]) by {
                    if i > 0 {
                        assert(rs[i] == rest[i - 1]);
                    }
                }
            }
        }
    }
}

proof fn lemma_table_placed(vm: VmFile, table: Seq<u8>, order: PcGeosByteOrder, bucket: int)
    ensures
        table_records(vm, table, order, bucket) matches Ok(es) ==> forall|i: int|
            0 <= i < es.len() ==> entry_placed(#[trigger] es[i]),
    decreases 257 - bucket,
{
    if 0 <= bucket < 257 {
        lemma_table_placed(vm, table, order, bucket + 1);
        let h = u16_in(table, 2 * bucket, order);
        if h != 0 {
            if let Ok(chain) = vm.block_result(h) {
                if chain.len() >= 2 {
                    let limit = u16_in(chain, 0, order) as int;
                    lemma_chain_placed(chain, h, order, 2, limit);
                    if let Ok(es) = table_records(vm, table, order, bucket) {
                        let rs = chain_records(chain, h, order, 2, limit)->Ok_0;
                        let rest = table_records(vm, table, order, bucket + 1)->Ok_0;
                        assert(es == rs + rest);
                        assert forall|i: int| 0 <= i < es.len() implies entry_placed(#[trigger] es[i]) by {
                            if i >= rs.len() {
                                assert(es[i] == rest[i - rs.len()]);
                            } else {
                                assert(es[i] == rs[i]);
                            }
                        }
                    }
                }
            }
        }
    }
}

proof fn lemma_insert_all_placed(m: Map<u32, StringEntryModel>, es: Seq<StringEntryModel>)
    requires
        forall|k: u32| #[trigger] m.contains_key(k) ==> m[k].id == k && entry_placed(m[k]),
        forall|i: int| 0 <= i < es.len() ==> entry_placed(#[trigger] es[i]),
    ensures
        forall|k: u32|
            #[trigger] insert_all(m, es).contains_key(k) ==> insert_all(m, es)[k].id == k
                && entry_placed(insert_all(m, es)[k]),
    decreases es.len(),
{
    if es.len() > 0 {
        assert(entry_placed(es[0]));
        let m2 = m.insert(es[0].id, es[0]);
        assert forall|k: u32| #[trigger] m2.contains_key(k) implies m2[k].id == k && entry_placed(
            m2[k],
        ) by {
            if k != es[0].id {
                assert(m.contains_key(k));
            }
        }
        assert(insert_all(m, es) == insert_all(m2, es.drop_first()));
        assert forall|i: int| 0 <= i < es.drop_first().len() implies entry_placed(
            #[trigger] es.drop_first()[i],
        ) by {
            assert(es.drop_first()[i] == es[i + 1]);
        }
        lemma_insert_all_placed(m2, es.drop_first());
    }
}

/// Every string that a table read from a file holds is stored under its
/// id, sits in a chain block with a non-zero handle at an even offset of at
/// least two, and has that handle and offset for its id.
pub proof fn law_string_table_entries_placed(vm: VmFile, table_handle: u16, order: PcGeosByteOrder)
    requires
        string_table_result(vm, table_handle, order) is Ok,
    ensures
        forall|id: u32|
            #[trigger] string_table_result(vm, table_handle, order)->Ok_0.contains_key(id) ==> {
                let e = string_table_result(vm, table_handle, order)->Ok_0[id];
                e.id == id && entry_placed(e)
            },
{
    let t = vm.block_result(table_handle)->Ok_0;
    lemma_table_placed(vm, t, order, 0);
    lemma_insert_all_placed(Map::empty(), table_records(vm, t, order, 0)->Ok_0);
}


proof fn lemma_insert_all_concat(
    m: Map<u32, StringEntryModel>,
    a: Seq<StringEntryModel>,
    b: Seq<StringEntryModel>,
)
    ensures
        insert_all(m, a + b) == insert_all(insert_all(m, a), b),
    decreases a.len(),
{
    if a.len() == 0 {
        assert(a + b =~= b);
    } else {
        assert((a + b).drop_first() =~= a.drop_first() + b);
        lemma_insert_all_concat(m.insert(a[0].id, a[0]), a.drop_first(), b);
    }
}

/// A string table: its strings by id.
#[derive(Clone, Debug, PartialEq, Eq)]
pub struct PcGeosStringTable {
    entries: BTreeMap<u32, PcGeosStringTableEntry>,
}

/// The strings of a map of entries, by id.
pub open spec fn entries_model(m: Map<u32, PcGeosStringTableEntry>) -> Map<u32, StringEntryModel> {
    m.map_values(|e: PcGeosStringTableEntry| e@)
}

impl View for PcGeosStringTable {
    type V = Map<u32, StringEntryModel>;

    closed spec fn view(&self) -> Map<u32, StringEntryModel> {
        entries_model(self.entries@)
    }
}

/// `a` comes before `b` in the order of `K`.
spec fn ordered_before<K: Ord>(a: &K, b: &K) -> bool {
    a.cmp_spec(b) is Less
}

/// Every entry is stored under its own id.
pub open spec fn keyed_by_id(m: Map<u32, PcGeosStringTableEntry>) -> bool {
    forall|k: u32| #[trigger] m.contains_key(k) ==> m[k].id == k
}

/// `prefix@ + hex16(handle) + ":" + hex16(offset)`.
fn pair_context(prefix: &str, handle: u16, offset: u16) -> (r: String)
    ensures
        r@ == prefix@ + hex16(handle) + ":"@ + hex16(offset),
{
    let mut m = String::new();
    push_str(&mut m, prefix);
    push_hex16(&mut m, handle);
    push_str(&mut m, ":");
    push_hex16(&mut m, offset);
    m
}

proof fn lemma_model_insert(
    m: Map<u32, PcGeosStringTableEntry>,
    k: u32,
    e: PcGeosStringTableEntry,
)
    ensures
        entries_model(m.insert(k, e)) == entries_model(m).insert(k, e@),
{
    assert(entries_model(m.insert(k, e)) =~= entries_model(m).insert(k, e@));
}

/// Stores the strings of one chain block.
fn read_chain(
    chain: &[u8],
    handle: u16,
    order: PcGeosByteOrder,
    entries: &mut BTreeMap<u32, PcGeosStringTableEntry>,
) -> (r: SwatResult<()>)
    requires
        chain@.len() >= 2,
        keyed_by_id(old(entries)@),
    ensures
        keyed_by_id(final(entries)@),
        match chain_records(chain@, handle, order, 2, u16_in(chain@, 0, order) as int) {
            Ok(rs) => r is Ok && entries_model(final(entries)@) == insert_all(
                entries_model(old(entries)@),
                rs,
            ),
            Err(msg) => r matches Err(e) && e@ == msg,
        },
{
    let n = chain.len();
    let limit = read_u16_in(chain, 0, order) as usize;
    let mut cursor: usize = 2;
    let ghost full = chain_records(chain@, handle, order, 2, limit as int);
    let ghost m0 = entries_model(entries@);
    while cursor < limit
        invariant
            2 <= cursor <= 65535 + 65540,
            limit <= 65535,
            n == chain@.len(),
            limit == u16_in(chain@, 0, order),
            keyed_by_id(entries@),
            full == chain_records(chain@, handle, order, 2, limit as int),
            match full {
                Ok(rs) => chain_records(chain@, handle, order, cursor as int, limit as int) is Ok
                    && insert_all(m0, rs) == insert_all(
                    entries_model(entries@),
                    chain_records(chain@, handle, order, cursor as int, limit as int)->Ok_0,
                ),
                Err(msg) => chain_records(chain@, handle, order, cursor as int, limit as int)
                    == Err::<Seq<StringEntryModel>, Seq<char>>(msg),
            },
        decreases (if cursor < limit {
            limit - cursor
        } else {
            0
        }),
    {
        if cursor + 4 > n {
            let ctx = pair_context("PC/GEOS string-table record ", handle, cursor as u16);
            return match ensure_len(chain, (cursor + 4) as u64, ctx.as_str()) {
                Ok(()) => Ok(()),
                Err(e) => Err(e),
            };
        }
        let hash = read_u16_in(chain, cursor, order);
        let length = read_u16_in(chain, cursor + 2, order) as usize;
        let start = cursor + 4;
        if length > n - start {
            let ctx = pair_context("PC/GEOS string-table entry ", handle, cursor as u16);
            return match ensure_span(chain, start, length, ctx.as_str()) {
                Ok(()) => Ok(()),
                Err(e) => Err(e),
            };
        }
        let value = decode_utf8_lossy(&chain[start..start + length]);
        let entry = PcGeosStringTableEntry {
            id: (handle as u32) * 65536 + (cursor as u32),
            block_handle: handle,
            offset: cursor as u16,
            hash,
            value,
        };
        let padded = if length % 2 == 0 {
            length + 2
        } else {
            length + 1
        };
        let next = start + padded;
        proof {
            let cur = chain_records(chain@, handle, order, cursor as int, limit as int);
            let rest = chain_records(chain@, handle, order, next as int, limit as int);
            assert(chain@.subrange(start as int, start + length) == chain@.subrange(
                start as int,
                start + length,
            ));
            if rest is Ok {
                assert(cur == Ok::<Seq<StringEntryModel>, Seq<char>>(seq![entry@] + rest->Ok_0));
                assert((seq![entry@] + rest->Ok_0).drop_first() =~= rest->Ok_0);
            }
            lemma_model_insert(entries@, entry.id, entry);
        }
        let _ = entries.insert(entry.id, entry);
        cursor = next;
    }
    Ok(())
}

/// Stores the strings of the chains that the 257 buckets of the header
/// block `table` name.
fn read_buckets(vm: &VmFile, table: &[u8], order: PcGeosByteOrder) -> (r: SwatResult<
    BTreeMap<u32, PcGeosStringTableEntry>,
>)
    requires
        table@.len() >= 514,
    ensures
        match table_records(*vm, table@, order, 0) {
            Ok(es) => r matches Ok(m) && keyed_by_id(m@) && entries_model(m@) == insert_all(
                Map::empty(),
                es,
            ),
            Err(msg) => r matches Err(e) && e@ == msg,
        },
{
    let ghost full = table_records(*vm, table@, order, 0);
    let mut entries: BTreeMap<u32, PcGeosStringTableEntry> = BTreeMap::new();
    assert(entries_model(entries@) =~= Map::empty());
    let mut bucket: usize = 0;
    while bucket < ST_BUCKET_COUNT
        invariant
            bucket <= 257,
            table@.len() >= 514,
            keyed_by_id(entries@),
            full == table_records(*vm, table@, order, 0),
            match full {
                Ok(es) => table_records(*vm, table@, order, bucket as int) is Ok && insert_all(
                    Map::empty(),
                    es,
                ) == insert_all(
                    entries_model(entries@),
                    table_records(*vm, table@, order, bucket as int)->Ok_0,
                ),
                Err(msg) => table_records(*vm, table@, order, bucket as int) == Err::<
                    Seq<StringEntryModel>,
                    Seq<char>,
                >(msg),
            },
        decreases 257 - bucket,
    {
        let chain_handle = read_u16_in(table, bucket * 2, order);
        if chain_handle != 0 {
            let chain_bytes = match vm.block_bytes(chain_handle) {
                Ok(s) => s,
                Err(e) => {
                    return Err(e);
                },
            };
            if chain_bytes.len() < 2 {
                let mut ctx = String::new();
                push_str(&mut ctx, "PC/GEOS string-table chain block ");
                push_hex16(&mut ctx, chain_handle);
                return match ensure_len(chain_bytes, 2, ctx.as_str()) {
                    Ok(()) => Err(SwatError::new(ctx)),
                    Err(e) => Err(e),
                };
            }
            let ghost before = entries_model(entries@);
            match read_chain(chain_bytes, chain_handle, order, &mut entries) {
                Ok(()) => {},
                Err(e) => {
                    return Err(e);
                },
            }
            proof {
                let rs = chain_records(
                    chain_bytes@,
                    chain_handle,
                    order,
                    2,
                    u16_in(chain_bytes@, 0, order) as int,
                )->Ok_0;
                let rest = table_records(*vm, table@, order, bucket + 1);
                if rest is Ok {
                    lemma_insert_all_concat(before, rs, rest->Ok_0);
                }
            }
        }
        bucket += 1;
    }
    Ok(entries)
}

impl PcGeosStringTable {
    /// Reads the string table whose header block is `table_handle`, in
    /// little-endian order.
    pub fn from_vm(vm: &VmFile, table_handle: u16) -> (r: SwatResult<Self>)
        ensures
            match string_table_result(*vm, table_handle, PcGeosByteOrder::Little) {
                Ok(m) => r matches Ok(t) && t@ == m && t.wf(),
                Err(msg) => r matches Err(e) && e@ == msg,
            },
    {
        Self::from_vm_with_byte_order(vm, table_handle, PcGeosByteOrder::Little)
    }

    /// Reads the string table whose header block is `table_handle`: each
    /// of the 257 buckets names a chain block (or none), whose strings are
    /// stored under their ids.
    pub fn from_vm_with_byte_order(vm: &VmFile, table_handle: u16, byte_order: PcGeosByteOrder) -> (r:
        SwatResult<Self>)
        ensures
            match string_table_result(*vm, table_handle, byte_order) {
                Ok(m) => r matches Ok(t) && t@ == m && t.wf(),
                Err(msg) => r matches Err(e) && e@ == msg,
            },
    {
        let table_bytes = match vm.block_bytes(table_handle) {
            Ok(s) => s,
            Err(e) => {
                return Err(e);
            },
        };
        match ensure_len(table_bytes, ST_HEADER_LEN as u64, "PC/GEOS string table header") {
            Ok(()) => {},
            Err(e) => {
                return Err(e);
            },
        }
        match read_buckets(vm, table_bytes, byte_order) {
            Ok(entries) => Ok(PcGeosStringTable { entries }),
            Err(e) => Err(e),
        }
    }
}

impl PcGeosStringTable {
    /// Every entry is stored under its own id; true of every table read
    /// from a file.
    pub closed spec fn wf(&self) -> bool {
        keyed_by_id(self.entries@)
    }

    proof fn lemma_dom(&self)
        ensures
            self@.dom() == self.entries@.dom(),
            self@.len() == self.entries@.len(),
    {
        assert(self@.dom() =~= self.entries@.dom());
    }

    /// The entry with id `id`.
    pub fn entry(&self, id: u32) -> (r: Option<&PcGeosStringTableEntry>)
        ensures
            match r {
                Some(e) => self@.contains_key(id) && self@[id] == e@,
                None => !self@.contains_key(id),
            },
    {
        self.entries.get(&id)
    }

    /// The string with id `id`.
    pub fn get(&self, id: u32) -> (r: Option<&str>)
        ensures
            match r {
                Some(s) => self@.contains_key(id) && self@[id].value == s@,
                None => !self@.contains_key(id),
            },
    {
        match self.entry(id) {
            Some(e) => Some(e.value.as_str()),
            None => None,
        }
    }

    /// Number of strings.
    pub fn len(&self) -> (r: usize)
        ensures
            r == self@.len(),
    {
        proof {
            self.lemma_dom();
        }
        self.entries.len()
    }

    /// Whether the table holds no string.
    pub fn is_empty(&self) -> (r: bool)
        ensures
            r == (self@.len() == 0),
    {
        proof {
            self.lemma_dom();
        }
        self.entries.is_empty()
    }

    /// The entries in increasing order of id.
    pub fn iter(&self) -> (r: Vec<&PcGeosStringTableEntry>)
        requires
            self.wf(),
        ensures
            r@.len() == self@.len(),
            forall|i: int|
                0 <= i < r@.len() ==> self@.contains_key(#[trigger] r@[i].id) && self@[r@[i].id]
                    == r@[i]@,
            forall|i: int, j: int| 0 <= i < j < r@.len() ==> r@[i].id < r@[j].id,
    {
        proof {
            self.lemma_dom();
        }
        let keys = self.entries.keys();
        let ghost ks = IteratorSpec::remaining(&keys);
        proof {
            assert(ks.unref().to_set() == self.entries@.dom());
            assert forall|i: int| 0 <= i < ks.len() implies self.entries@.contains_key(
                *#[trigger] ks[i],
            ) by {
                assert(ks.unref()[i] == *ks[i]);
                assert(ks.unref().contains(*ks[i]));
            }
            broadcast use vstd::laws_cmp::lemma_ref_obeys_cmp_spec;

            assert(vstd::laws_cmp::obeys_cmp::<u32>());
            assert(vstd::laws_cmp::obeys_cmp::<&u32>());
            assert(vstd::std_specs::btree::increasing_seq(ks));
            vstd::std_specs::btree::axiom_increasing_seq_meaning::<&u32>(ks);
            assert forall|i: int, j: int| 0 <= i < j < ks.len() implies *ks[i] < *ks[j] by {
                assert(ordered_before::<&u32>(&ks[i], &ks[j]));
            }
        }
        let mut out: Vec<&PcGeosStringTableEntry> = Vec::new();
        for k in it: keys
            invariant
                keyed_by_id(self.entries@),
                it.seq() == ks,
                ks.len() == self.entries@.len(),
                forall|i: int| 0 <= i < ks.len() ==> self.entries@.contains_key(*#[trigger] ks[i]),
                forall|i: int, j: int| 0 <= i < j < ks.len() ==> *ks[i] < *ks[j],
                out@.len() == it.index(),
                forall|i: int|
                    0 <= i < out@.len() ==> #[trigger] out@[i] == self.entries@[*ks[i]],
        {
            match self.entries.get(k) {
                Some(e) => out.push(e),
                None => {},
            }
        }
        out
    }
}

impl VmFile {
    /// Reads the string table whose header block is `table_handle`, in
    /// little-endian order.
    pub fn string_table(&self, table_handle: u16) -> (r: SwatResult<PcGeosStringTable>)
        ensures
            match string_table_result(*self, table_handle, PcGeosByteOrder::Little) {
                Ok(m) => r matches Ok(t) && t@ == m && t.wf(),
                Err(msg) => r matches Err(e) && e@ == msg,
            },
    {
        PcGeosStringTable::from_vm(self, table_handle)
    }
}

} // verus!
