//! Little- and big-endian field access over PC/GEOS byte images, bounds
//! checks with their error messages, and fixed-width text fields.
use vstd::prelude::*;
use crate::model::{SwatError, SwatResult};
use crate::text::{decimal, hex, hex_fixed, push_decimal, push_decimal_wide, push_hex, push_hex_fixed, push_str, trim_end, trim_end_str};

verus! {

/// Byte order of an object file.
#[derive(Clone, Copy, Debug, PartialEq, Eq, Structural)]
pub enum PcGeosByteOrder {
    Little,
    Big,
}

pub open spec fn u16_le(b: Seq<u8>, off: int) -> u16 {
    (b[off] as int + b[off + 1] as int * 256) as u16
}

pub open spec fn u16_be(b: Seq<u8>, off: int) -> u16 {
    (b[off] as int * 256 + b[off + 1] as int) as u16
}

pub open spec fn u32_le(b: Seq<u8>, off: int) -> u32 {
    (b[off] as int + b[off + 1] as int * 256 + b[off + 2] as int * 65536 + b[off + 3] as int
        * 16777216) as u32
}

pub open spec fn u32_be(b: Seq<u8>, off: int) -> u32 {
    (b[off] as int * 16777216 + b[off + 1] as int * 65536 + b[off + 2] as int * 256 + b[off
        + 3] as int) as u32
}

/// Two's-complement reading of a little-endian 16-bit field.
pub open spec fn i16_le(b: Seq<u8>, off: int) -> i16 {
    let v = u16_le(b, off) as int;
    if v < 32768 {
        v as i16
    } else {
        (v - 65536) as i16
    }
}

pub open spec fn u16_in(b: Seq<u8>, off: int, order: PcGeosByteOrder) -> u16 {
    match order {
        PcGeosByteOrder::Little => u16_le(b, off),
        PcGeosByteOrder::Big => u16_be(b, off),
    }
}

pub open spec fn u32_in(b: Seq<u8>, off: int, order: PcGeosByteOrder) -> u32 {
    match order {
        PcGeosByteOrder::Little => u32_le(b, off),
        PcGeosByteOrder::Big => u32_be(b, off),
    }
}

/// Reading a field in one byte order equals reading the byte-reversed
/// field in the other.
pub proof fn law_u16_orders(b: Seq<u8>, off: int)
    requires
        0 <= off && off + 2 <= b.len(),
    ensures
        u16_le(b, off) == u16_be(seq![b[off + 1], b[off]], 0),
        u16_be(b, off) == u16_le(seq![b[off + 1], b[off]], 0),
{
}

pub fn read_u8_at(b: &[u8], off: usize) -> (r: u8)
    requires
        off < b@.len(),
    ensures
        r == b@[off as int],
{
    b[off]
}

pub fn read_u16_le_at(b: &[u8], off: usize) -> (r: u16)
    requires
        off + 2 <= b@.len(),
    ensures
        r == u16_le(b@, off as int),
{
    b[off] as u16 + (b[off + 1] as u16) * 256
}

pub fn read_u16_be_at(b: &[u8], off: usize) -> (r: u16)
    requires
        off + 2 <= b@.len(),
    ensures
        r == u16_be(b@, off as int),
{
    (b[off] as u16) * 256 + b[off + 1] as u16
}

pub fn read_i16_le_at(b: &[u8], off: usize) -> (r: i16)
    requires
        off + 2 <= b@.len(),
    ensures
        r == i16_le(b@, off as int),
{
    let v = read_u16_le_at(b, off);
    if v < 32768 {
        v as i16
    } else {
        (v as i32 - 65536) as i16
    }
}

pub fn read_u32_le_at(b: &[u8], off: usize) -> (r: u32)
    requires
        off + 4 <= b@.len(),
    ensures
        r == u32_le(b@, off as int),
{
    b[off] as u32 + (b[off + 1] as u32) * 256 + (b[off + 2] as u32) * 65536 + (b[off + 3] as u32)
        * 16777216
}

pub fn read_u32_be_at(b: &[u8], off: usize) -> (r: u32)
    requires
        off + 4 <= b@.len(),
    ensures
        r == u32_be(b@, off as int),
{
    (b[off] as u32) * 16777216 + (b[off + 1] as u32) * 65536 + (b[off + 2] as u32) * 256 + b[off
        + 3] as u32
}

pub fn read_u16_in(b: &[u8], off: usize, order: PcGeosByteOrder) -> (r: u16)
    requires
        off + 2 <= b@.len(),
    ensures
        r == u16_in(b@, off as int, order),
{
    match order {
        PcGeosByteOrder::Little => read_u16_le_at(b, off),
        PcGeosByteOrder::Big => read_u16_be_at(b, off),
    }
}

pub fn read_u32_in(b: &[u8], off: usize, order: PcGeosByteOrder) -> (r: u32)
    requires
        off + 4 <= b@.len(),
    ensures
        r == u32_in(b@, off as int, order),
{
    match order {
        PcGeosByteOrder::Little => read_u32_le_at(b, off),
        PcGeosByteOrder::Big => read_u32_be_at(b, off),
    }
}

/// The message of a failed length check.
pub open spec fn truncated_msg(context: Seq<char>, need: nat, got: nat) -> Seq<char> {
    context + " is truncated: need at least "@ + decimal(need) + " bytes, got "@ + decimal(got)
}

/// Fails with the truncation message unless `b` holds at least `min_len`
/// bytes.
pub fn ensure_len(b: &[u8], min_len: u64, context: &str) -> (r: SwatResult<()>)
    ensures
        r is Ok <==> b@.len() >= min_len,
        r matches Err(e) ==> e@ == truncated_msg(context@, min_len as nat, b@.len()),
{
    let n = b.len();
    if (n as u64) < min_len {
        let mut m = String::new();
        push_str(&mut m, context);
        push_str(&mut m, " is truncated: need at least ");
        push_decimal(&mut m, min_len);
        push_str(&mut m, " bytes, got ");
        push_decimal(&mut m, n as u64);
        assert(m@ =~= truncated_msg(context@, min_len as nat, b@.len()));
        Err(SwatError::new(m))
    } else {
        Ok(())
    }
}

/// Fails with the truncation message unless `b` holds at least
/// `base + extra` bytes, where `base` lies within `b`.
pub fn ensure_span(b: &[u8], base: usize, extra: usize, context: &str) -> (r: SwatResult<()>)
    requires
        base <= b@.len(),
    ensures
        r is Ok <==> b@.len() >= base + extra,
        r matches Err(e) ==> e@ == truncated_msg(context@, (base + extra) as nat, b@.len()),
{
    let n = b.len();
    if extra > n - base {
        let mut m = String::new();
        push_str(&mut m, context);
        push_str(&mut m, " is truncated: need at least ");
        push_decimal_wide(&mut m, base as u128 + extra as u128);
        push_str(&mut m, " bytes, got ");
        push_decimal(&mut m, n as u64);
        assert(m@ =~= truncated_msg(context@, (base + extra) as nat, b@.len()));
        Err(SwatError::new(m))
    } else {
        Ok(())
    }
}

/// The `len` bytes of `b` from `offset`, or the truncation message.
pub fn slice_at<'a>(b: &'a [u8], offset: u64, len: u64, context: &str) -> (r: SwatResult<
    &'a [u8],
>)
    requires
        offset + len <= u64::MAX,
    ensures
        r is Ok <==> offset + len <= b@.len(),
        r matches Ok(s) ==> s@ == b@.subrange(offset as int, offset + len),
        r matches Err(e) ==> e@ == truncated_msg(context@, (offset + len) as nat, b@.len()),
{
    match ensure_len(b, offset + len, context) {
        Ok(()) => {
            let n = b.len();
            assert(offset + len <= n);
            let start = offset as usize;
            let end = (offset + len) as usize;
            Ok(&b[start..end])
        },
        Err(e) => Err(e),
    }
}

/// `{:#06x}` of a 16-bit value.
pub open spec fn hex16(v: u16) -> Seq<char> {
    "0x"@ + hex_fixed(v as nat, 4)
}

/// `{:#010x}` of a 32-bit value.
pub open spec fn hex32(v: u32) -> Seq<char> {
    "0x"@ + hex_fixed(v as nat, 8)
}

/// `{:#x}` of a value.
pub open spec fn hex_any(v: nat) -> Seq<char> {
    "0x"@ + hex(v)
}

pub fn push_hex16(s: &mut String, v: u16)
    ensures
        final(s)@ == old(s)@ + hex16(v),
{
    push_str(s, "0x");
    push_hex_fixed(s, v as u64, 4);
    assert(final(s)@ =~= old(s)@ + hex16(v));
}

pub fn push_hex32(s: &mut String, v: u32)
    ensures
        final(s)@ == old(s)@ + hex32(v),
{
    push_str(s, "0x");
    push_hex_fixed(s, v as u64, 8);
    assert(final(s)@ =~= old(s)@ + hex32(v));
}

pub fn push_hex_any(s: &mut String, v: u64)
    ensures
        final(s)@ == old(s)@ + hex_any(v as nat),
{
    push_str(s, "0x");
    push_hex(s, v);
    assert(final(s)@ =~= old(s)@ + hex_any(v as nat));
}

/// What `String::from_utf8_lossy` makes of `bytes`: valid UTF-8 sequences
/// decoded, each invalid sequence replaced by U+FFFD.
pub uninterp spec fn utf8_lossy(bytes: Seq<u8>) -> Seq<char>;

/// Decodes `bytes` with `String::from_utf8_lossy`. The result is named,
/// not spelled out: it is the lossy UTF-8 decoding of exactly these bytes,
/// and on well-formed UTF-8 it is the plain decoding.
#[verifier::external_body]
pub(crate) fn decode_utf8_lossy(bytes: &[u8]) -> (r: String)
    ensures
        r@ == utf8_lossy(bytes@),
        vstd::utf8::valid_utf8(bytes@) ==> r@ == vstd::utf8::decode_utf8(bytes@),
{
    String::from_utf8_lossy(bytes).into_owned()
}

/// Index of the first NUL in `b`, or its length.
pub open spec fn nul_index(b: Seq<u8>) -> nat
    decreases b.len(),
{
    if b.len() == 0 {
        0
    } else if b[0] == 0 {
        0
    } else {
        1 + nul_index(b.drop_first())
    }
}

/// A fixed-width text field: the bytes before the first NUL, decoded
/// lossily, with trailing whitespace removed.
pub open spec fn fixed_text(b: Seq<u8>) -> Seq<char> {
    trim_end(utf8_lossy(b.subrange(0, nul_index(b) as int)))
}

/// The fixed-width text field of `len` bytes at `off`.
pub open spec fn fixed_text_at(b: Seq<u8>, off: int, len: int) -> Seq<char> {
    fixed_text(b.subrange(off, off + len))
}

proof fn lemma_nul_index(b: Seq<u8>)
    ensures
        nul_index(b) <= b.len(),
        forall|k: int| 0 <= k < nul_index(b) ==> b[k] != 0,
        nul_index(b) < b.len() ==> b[nul_index(b) as int] == 0,
    decreases b.len(),
{
    if b.len() > 0 && b[0] != 0 {
        lemma_nul_index(b.drop_first());
        assert forall|k: int| 0 <= k < nul_index(b) implies b[k] != 0 by {
            if k > 0 {
                assert(b[k] == b.drop_first()[k - 1]);
            }
        }
    }
}

/// Decodes a fixed-width text field.
pub fn decode_fixed_string(b: &[u8]) -> (r: String)
    ensures
        r@ == fixed_text(b@),
{
    proof {
        lemma_nul_index(b@);
    }
    let n = b.len();
    let mut end: usize = 0;
    while end < n && b[end] != 0
        invariant
            end <= n,
            n == b@.len(),
            forall|k: int| 0 <= k < end ==> b@[k] != 0,
            nul_index(b@) <= b@.len(),
            forall|k: int| 0 <= k < nul_index(b@) ==> b@[k] != 0,
            nul_index(b@) < b@.len() ==> b@[nul_index(b@) as int] == 0,
        decreases n - end,
    {
        end += 1;
    }
    assert(end == nul_index(b@));
    let decoded = decode_utf8_lossy(&b[0..end]);
    let trimmed = trim_end_str(decoded.as_str());
    trimmed.to_owned()
}

/// Decodes the fixed-width text field of `len` bytes at `off`.
pub fn fixed_string_at(b: &[u8], off: usize, len: usize) -> (r: String)
    requires
        off + len <= b@.len(),
    ensures
        r@ == fixed_text_at(b@, off as int, len as int),
{
    let _n = b.len();
    decode_fixed_string(&b[off..off + len])
}

} // verus!
