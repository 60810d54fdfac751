//! Fixed-width integer fields in byte buffers, little-endian and big-endian.
//!
//! A floating-point value is carried through this library as its IEEE-754 bit
//! pattern, so the encoders below also write `f64` and `f32` fields: the bytes of
//! `x.to_le_bytes()` are those of `x.to_bits().to_le_bytes()`.
use vstd::prelude::*;

verus! {

/// The buffer `buf` with the bytes from `offset` on replaced by `bytes`.
pub open spec fn splice(buf: Seq<u8>, offset: int, bytes: Seq<u8>) -> Seq<u8> {
    buf.subrange(0, offset) + bytes + buf.subrange(offset + bytes.len(), buf.len() as int)
}

/// The bytes of `buf` in `[offset, offset + len)`.
pub open spec fn field(buf: Seq<u8>, offset: int, len: int) -> Seq<u8> {
    buf.subrange(offset, offset + len)
}

/// The four little-endian bytes of `v`.
pub open spec fn u32_le(v: u32) -> Seq<u8> {
    seq![
        (v % 0x100) as u8,
        ((v / 0x100) % 0x100) as u8,
        ((v / 0x1_0000) % 0x100) as u8,
        ((v / 0x100_0000) % 0x100) as u8,
    ]
}

/// The value of four little-endian bytes.
pub open spec fn u32_from_le(b: Seq<u8>) -> u32 {
    (b[0] + b[1] * 0x100 + b[2] * 0x1_0000 + b[3] * 0x100_0000) as u32
}

/// The eight little-endian bytes of `v`.
pub open spec fn u64_le(v: u64) -> Seq<u8> {
    seq![
        (v % 0x100) as u8,
        ((v / 0x100) % 0x100) as u8,
        ((v / 0x1_0000) % 0x100) as u8,
        ((v / 0x100_0000) % 0x100) as u8,
        ((v / 0x1_0000_0000) % 0x100) as u8,
        ((v / 0x100_0000_0000) % 0x100) as u8,
        ((v / 0x1_0000_0000_0000) % 0x100) as u8,
        ((v / 0x100_0000_0000_0000) % 0x100) as u8,
    ]
}

/// The value of eight little-endian bytes.
pub open spec fn u64_from_le(b: Seq<u8>) -> u64 {
    (b[0] + b[1] * 0x100 + b[2] * 0x1_0000 + b[3] * 0x100_0000 + b[4] * 0x1_0000_0000 + b[5]
        * 0x100_0000_0000 + b[6] * 0x1_0000_0000_0000 + b[7] * 0x100_0000_0000_0000) as u64
}

/// The two's-complement bit pattern of `v`.
pub open spec fn i64_bits(v: i64) -> u64 {
    (if v < 0 {
        v + 0x1_0000_0000_0000_0000
    } else {
        v as int
    }) as u64
}

/// The signed value of a two's-complement bit pattern.
pub open spec fn i64_from_bits(u: u64) -> i64 {
    (if u >= 0x8000_0000_0000_0000 {
        u - 0x1_0000_0000_0000_0000
    } else {
        u as int
    }) as i64
}

/// The eight little-endian two's-complement bytes of `v`.
pub open spec fn i64_le(v: i64) -> Seq<u8> {
    u64_le(i64_bits(v))
}

/// The signed value of eight little-endian two's-complement bytes.
pub open spec fn i64_from_le(b: Seq<u8>) -> i64 {
    i64_from_bits(u64_from_le(b))
}

/// The four big-endian bytes of `v`.
pub open spec fn u32_be(v: u32) -> Seq<u8> {
    u32_le(v).reverse()
}

/// The eight big-endian bytes of `v`.
pub open spec fn u64_be(v: u64) -> Seq<u8> {
    u64_le(v).reverse()
}

/// Decoding the little-endian bytes of a `u32` gives it back.
pub broadcast proof fn lemma_u32_le_roundtrip(v: u32)
    ensures
        #[trigger] u32_from_le(u32_le(v)) == v,
{
}

/// Writing back the `u32` read at `offset` leaves the buffer as it was.
pub proof fn lemma_write_back_u32(buf: Seq<u8>, offset: int)
    requires
        0 <= offset,
        offset + 4 <= buf.len(),
    ensures
        splice(buf, offset, u32_le(u32_from_le(field(buf, offset, 4)))) == buf,
{
    let b = field(buf, offset, 4);
    lemma_u32_le_of_bytes(b);
    assert(splice(buf, offset, b) =~= buf);
}

/// Four bytes are the little-endian bytes of the value they decode to.
proof fn lemma_u32_le_of_bytes(b: Seq<u8>)
    requires
        b.len() == 4,
    ensures
        u32_le(u32_from_le(b)) == b,
{
    let (b0, b1, b2, b3) = (b[0], b[1], b[2], b[3]);
    let v: u32 = u32_from_le(b);
    assert(v == b0 + b1 * 0x100 + b2 * 0x1_0000 + b3 * 0x100_0000);
    assert({
        &&& v % 0x100 == b0
        &&& (v / 0x100) % 0x100 == b1
        &&& (v / 0x1_0000) % 0x100 == b2
        &&& (v / 0x100_0000) % 0x100 == b3
    }) by (bit_vector)
        requires
            v == b0 + b1 * 0x100 + b2 * 0x1_0000 + b3 * 0x100_0000,
    ;
    assert(u32_le(u32_from_le(b)) =~= b);
}

/// Decoding the little-endian bytes of a `u64` gives it back.
pub broadcast proof fn lemma_u64_le_roundtrip(v: u64)
    ensures
        #[trigger] u64_from_le(u64_le(v)) == v,
{
    assert(v == (v % 0x100) + ((v / 0x100) % 0x100) * 0x100 + ((v / 0x1_0000) % 0x100) * 0x1_0000
        + ((v / 0x100_0000) % 0x100) * 0x100_0000 + ((v / 0x1_0000_0000) % 0x100) * 0x1_0000_0000
        + ((v / 0x100_0000_0000) % 0x100) * 0x100_0000_0000 + ((v / 0x1_0000_0000_0000) % 0x100)
        * 0x1_0000_0000_0000 + ((v / 0x100_0000_0000_0000) % 0x100) * 0x100_0000_0000_0000)
        by (bit_vector);
}

/// Writing back the `u64` read at `offset` leaves the buffer as it was.
pub proof fn lemma_write_back_u64(buf: Seq<u8>, offset: int)
    requires
        0 <= offset,
        offset + 8 <= buf.len(),
    ensures
        splice(buf, offset, u64_le(u64_from_le(field(buf, offset, 8)))) == buf,
{
    let b = field(buf, offset, 8);
    lemma_u64_le_of_bytes(b);
    assert(splice(buf, offset, b) =~= buf);
}

/// Eight bytes are the little-endian bytes of the value they decode to.
proof fn lemma_u64_le_of_bytes(b: Seq<u8>)
    requires
        b.len() == 8,
    ensures
        u64_le(u64_from_le(b)) == b,
{
    let (b0, b1, b2, b3, b4, b5, b6, b7) = (b[0], b[1], b[2], b[3], b[4], b[5], b[6], b[7]);
    let v: u64 = u64_from_le(b);
    assert(v == b0 + b1 * 0x100 + b2 * 0x1_0000 + b3 * 0x100_0000 + b4 * 0x1_0000_0000 + b5
        * 0x100_0000_0000 + b6 * 0x1_0000_0000_0000 + b7 * 0x100_0000_0000_0000);
    assert({
        &&& v % 0x100 == b0
        &&& (v / 0x100) % 0x100 == b1
        &&& (v / 0x1_0000) % 0x100 == b2
        &&& (v / 0x100_0000) % 0x100 == b3
        &&& (v / 0x1_0000_0000) % 0x100 == b4
        &&& (v / 0x100_0000_0000) % 0x100 == b5
        &&& (v / 0x1_0000_0000_0000) % 0x100 == b6
        &&& (v / 0x100_0000_0000_0000) % 0x100 == b7
    }) by (bit_vector)
        requires
            v == b0 + b1 * 0x100 + b2 * 0x1_0000 + b3 * 0x100_0000 + b4 * 0x1_0000_0000 + b5
                * 0x100_0000_0000 + b6 * 0x1_0000_0000_0000 + b7 * 0x100_0000_0000_0000,
    ;
    assert(u64_le(u64_from_le(b)) =~= b);
}

/// Decoding the little-endian bytes of an `i64` gives it back.
pub broadcast proof fn lemma_i64_le_roundtrip(v: i64)
    ensures
        #[trigger] i64_from_le(i64_le(v)) == v,
{
    lemma_u64_le_roundtrip(i64_bits(v));
}

/// The field of `splice(buf, offset, bytes)` at `offset` is `bytes`, and every other
/// byte is that of `buf`.
pub broadcast proof fn lemma_splice(buf: Seq<u8>, offset: int, bytes: Seq<u8>)
    requires
        0 <= offset,
        offset + bytes.len() <= buf.len(),
    ensures
        #![trigger splice(buf, offset, bytes)]
        splice(buf, offset, bytes).len() == buf.len(),
        field(splice(buf, offset, bytes), offset, bytes.len() as int) == bytes,
        forall|i: int|
            0 <= i < buf.len() && !(offset <= i < offset + bytes.len()) ==> #[trigger] splice(
                buf,
                offset,
                bytes,
            )[i] == buf[i],
{
    assert(field(splice(buf, offset, bytes), offset, bytes.len() as int) =~= bytes);
}

/// A `u32` written into a buffer reads back as itself, and the rest of the buffer
/// is unchanged.
pub proof fn lemma_read_back_u32(buf: Seq<u8>, offset: int, value: u32)
    requires
        0 <= offset,
        offset + 4 <= buf.len(),
    ensures
        u32_from_le(field(splice(buf, offset, u32_le(value)), offset, 4)) == value,
        forall|i: int|
            0 <= i < buf.len() && !(offset <= i < offset + 4) ==> #[trigger] splice(
                buf,
                offset,
                u32_le(value),
            )[i] == buf[i],
{
    lemma_splice(buf, offset, u32_le(value));
}

/// A `u64` written into a buffer reads back as itself, and the rest of the buffer
/// is unchanged.
pub proof fn lemma_read_back_u64(buf: Seq<u8>, offset: int, value: u64)
    requires
        0 <= offset,
        offset + 8 <= buf.len(),
    ensures
        u64_from_le(field(splice(buf, offset, u64_le(value)), offset, 8)) == value,
        forall|i: int|
            0 <= i < buf.len() && !(offset <= i < offset + 8) ==> #[trigger] splice(
                buf,
                offset,
                u64_le(value),
            )[i] == buf[i],
{
    lemma_splice(buf, offset, u64_le(value));
    lemma_u64_le_roundtrip(value);
}

/// An `i64` written into a buffer reads back as itself, and the rest of the buffer
/// is unchanged.
pub proof fn lemma_read_back_i64(buf: Seq<u8>, offset: int, value: i64)
    requires
        0 <= offset,
        offset + 8 <= buf.len(),
    ensures
        i64_from_le(field(splice(buf, offset, i64_le(value)), offset, 8)) == value,
        forall|i: int|
            0 <= i < buf.len() && !(offset <= i < offset + 8) ==> #[trigger] splice(
                buf,
                offset,
                i64_le(value),
            )[i] == buf[i],
{
    lemma_splice(buf, offset, i64_le(value));
    lemma_i64_le_roundtrip(value);
}

/// The little-endian bytes of `value`, as a vector.
pub fn u32_to_le_bytes(value: u32) -> (bytes: Vec<u8>)
    ensures
        bytes@ == u32_le(value),
{
    let bytes = vec![
        (value % 0x100) as u8,
        ((value / 0x100) % 0x100) as u8,
        ((value / 0x1_0000) % 0x100) as u8,
        ((value / 0x100_0000) % 0x100) as u8,
    ];
    assert(bytes@ =~= u32_le(value));
    bytes
}

/// The little-endian bytes of `value`, as a vector.
pub fn u64_to_le_bytes(value: u64) -> (bytes: Vec<u8>)
    ensures
        bytes@ == u64_le(value),
{
    let bytes = vec![
        (value % 0x100) as u8,
        ((value / 0x100) % 0x100) as u8,
        ((value / 0x1_0000) % 0x100) as u8,
        ((value / 0x100_0000) % 0x100) as u8,
        ((value / 0x1_0000_0000) % 0x100) as u8,
        ((value / 0x100_0000_0000) % 0x100) as u8,
        ((value / 0x1_0000_0000_0000) % 0x100) as u8,
        ((value / 0x100_0000_0000_0000) % 0x100) as u8,
    ];
    assert(bytes@ =~= u64_le(value));
    bytes
}

/// The two's-complement bit pattern of `value`.
pub fn i64_to_bits(value: i64) -> (bits: u64)
    ensures
        bits == i64_bits(value),
{
    if value < 0 {
        let magnitude: u64 = ((-(value + 1)) as u64) + 1;
        assert(magnitude == -value);
        (u64::MAX - magnitude) + 1
    } else {
        value as u64
    }
}

/// The signed value of a two's-complement bit pattern.
pub fn i64_from_bit_pattern(bits: u64) -> (value: i64)
    ensures
        value == i64_from_bits(bits),
{
    if bits >= 0x8000_0000_0000_0000 {
        let magnitude: u64 = (u64::MAX - bits) + 1;
        if magnitude == 0x8000_0000_0000_0000 {
            i64::MIN
        } else {
            -(magnitude as i64)
        }
    } else {
        bits as i64
    }
}

/// Writes `value` little-endian at `buffer[offset..offset + 4]`.
pub fn put_u32(buffer: &mut [u8], offset: usize, value: u32)
    requires
        offset + 4 <= old(buffer)@.len(),
    ensures
        final(buffer)@ == splice(old(buffer)@, offset as int, u32_le(value)),
{
    buffer[offset] = (value % 0x100) as u8;
    buffer[offset + 1] = ((value / 0x100) % 0x100) as u8;
    buffer[offset + 2] = ((value / 0x1_0000) % 0x100) as u8;
    buffer[offset + 3] = ((value / 0x100_0000) % 0x100) as u8;
    assert(buffer@ =~= splice(old(buffer)@, offset as int, u32_le(value)));
}

/// Writes `value` little-endian at `buffer[offset..offset + 8]`.
pub fn put_u64(buffer: &mut [u8], offset: usize, value: u64)
    requires
        offset + 8 <= old(buffer)@.len(),
    ensures
        final(buffer)@ == splice(old(buffer)@, offset as int, u64_le(value)),
{
    buffer[offset] = (value % 0x100) as u8;
    buffer[offset + 1] = ((value / 0x100) % 0x100) as u8;
    buffer[offset + 2] = ((value / 0x1_0000) % 0x100) as u8;
    buffer[offset + 3] = ((value / 0x100_0000) % 0x100) as u8;
    buffer[offset + 4] = ((value / 0x1_0000_0000) % 0x100) as u8;
    buffer[offset + 5] = ((value / 0x100_0000_0000) % 0x100) as u8;
    buffer[offset + 6] = ((value / 0x1_0000_0000_0000) % 0x100) as u8;
    buffer[offset + 7] = ((value / 0x100_0000_0000_0000) % 0x100) as u8;
    assert(buffer@ =~= splice(old(buffer)@, offset as int, u64_le(value)));
}

/// Writes `value` little-endian, in two's complement, at `buffer[offset..offset + 8]`.
pub fn put_i64(buffer: &mut [u8], offset: usize, value: i64)
    requires
        offset + 8 <= old(buffer)@.len(),
    ensures
        final(buffer)@ == splice(old(buffer)@, offset as int, i64_le(value)),
{
    put_u64(buffer, offset, i64_to_bits(value));
}

/// Reads the little-endian `u32` at `buffer[offset..offset + 4]`.
pub fn get_u32(buffer: &[u8], offset: usize) -> (value: u32)
    requires
        offset + 4 <= buffer@.len(),
    ensures
        value == u32_from_le(field(buffer@, offset as int, 4)),
{
    (buffer[offset] as u32) + (buffer[offset + 1] as u32) * 0x100 + (buffer[offset + 2] as u32)
        * 0x1_0000 + (buffer[offset + 3] as u32) * 0x100_0000
}

/// Reads the little-endian `u64` at `buffer[offset..offset + 8]`.
pub fn get_u64(buffer: &[u8], offset: usize) -> (value: u64)
    requires
        offset + 8 <= buffer@.len(),
    ensures
        value == u64_from_le(field(buffer@, offset as int, 8)),
{
    (buffer[offset] as u64) + (buffer[offset + 1] as u64) * 0x100 + (buffer[offset + 2] as u64)
        * 0x1_0000 + (buffer[offset + 3] as u64) * 0x100_0000 + (buffer[offset + 4] as u64)
        * 0x1_0000_0000 + (buffer[offset + 5] as u64) * 0x100_0000_0000 + (buffer[offset + 6] as u64)
        * 0x1_0000_0000_0000 + (buffer[offset + 7] as u64) * 0x100_0000_0000_0000
}

/// Reads the little-endian two's-complement `i64` at `buffer[offset..offset + 8]`.
pub fn get_i64(buffer: &[u8], offset: usize) -> (value: i64)
    requires
        offset + 8 <= buffer@.len(),
    ensures
        value == i64_from_le(field(buffer@, offset as int, 8)),
{
    i64_from_bit_pattern(get_u64(buffer, offset))
}

/// Appends the big-endian bytes of `value` to `out`.
pub fn push_u32_be(out: &mut Vec<u8>, value: u32)
    ensures
        final(out)@ == old(out)@ + u32_be(value),
{
    out.push(((value / 0x100_0000) % 0x100) as u8);
    out.push(((value / 0x1_0000) % 0x100) as u8);
    out.push(((value / 0x100) % 0x100) as u8);
    out.push((value % 0x100) as u8);
    assert(out@ =~= old(out)@ + u32_be(value));
}

/// Appends the big-endian bytes of `value` to `out`.
pub fn push_u64_be(out: &mut Vec<u8>, value: u64)
    ensures
        final(out)@ == old(out)@ + u64_be(value),
{
    out.push(((value / 0x100_0000_0000_0000) % 0x100) as u8);
    out.push(((value / 0x1_0000_0000_0000) % 0x100) as u8);
    out.push(((value / 0x100_0000_0000) % 0x100) as u8);
    out.push(((value / 0x1_0000_0000) % 0x100) as u8);
    out.push(((value / 0x100_0000) % 0x100) as u8);
    out.push(((value / 0x1_0000) % 0x100) as u8);
    out.push(((value / 0x100) % 0x100) as u8);
    out.push((value % 0x100) as u8);
    assert(out@ =~= old(out)@ + u64_be(value));
}

/// Appends the little-endian bytes of `value` to `out`.
pub fn push_u32_le(out: &mut Vec<u8>, value: u32)
    ensures
        final(out)@ == old(out)@ + u32_le(value),
{
    out.push((value % 0x100) as u8);
    out.push(((value / 0x100) % 0x100) as u8);
    out.push(((value / 0x1_0000) % 0x100) as u8);
    out.push(((value / 0x100_0000) % 0x100) as u8);
    assert(out@ =~= old(out)@ + u32_le(value));
}

/// Appends the little-endian bytes of `value` to `out`.
pub fn push_u64_le(out: &mut Vec<u8>, value: u64)
    ensures
        final(out)@ == old(out)@ + u64_le(value),
{
    out.push((value % 0x100) as u8);
    out.push(((value / 0x100) % 0x100) as u8);
    out.push(((value / 0x1_0000) % 0x100) as u8);
    out.push(((value / 0x100_0000) % 0x100) as u8);
    out.push(((value / 0x1_0000_0000) % 0x100) as u8);
    out.push(((value / 0x100_0000_0000) % 0x100) as u8);
    out.push(((value / 0x1_0000_0000_0000) % 0x100) as u8);
    out.push(((value / 0x100_0000_0000_0000) % 0x100) as u8);
    assert(out@ =~= old(out)@ + u64_le(value));
}


/// The byte strings of `parts`, one after another.
pub open spec fn concat_bytes(parts: Seq<Seq<u8>>) -> Seq<u8>
    decreases parts.len(),
{
    if parts.len() == 0 {
        Seq::empty()
    } else {
        concat_bytes(parts.drop_last()) + parts.last()
    }
}

/// Parts of `len` bytes each lie back to back: part `i` at `i * len`.
pub proof fn lemma_concat_uniform(parts: Seq<Seq<u8>>, len: nat)
    requires
        forall|i: int| 0 <= i < parts.len() ==> (#[trigger] parts[i]).len() == len,
    ensures
        concat_bytes(parts).len() == parts.len() * len,
        forall|i: int|
            0 <= i < parts.len() ==> #[trigger] concat_bytes(parts).subrange(i * len, i * len + len)
                == parts[i],
    decreases parts.len(),
{
    if parts.len() > 0 {
        let rest = parts.drop_last();
        let n = parts.len() as int;
        assert forall|i: int| 0 <= i < rest.len() implies (#[trigger] rest[i]).len() == len by {
            assert(rest[i] == parts[i]);
        }
        lemma_concat_uniform(rest, len);
        let head = concat_bytes(rest);
        assert((n - 1) * len + len == n * len) by (nonlinear_arith);
        assert forall|i: int| 0 <= i < n implies #[trigger] concat_bytes(parts).subrange(
            i * len,
            i * len + len,
        ) == parts[i] by {
            if i < n - 1 {
                assert(i * len + len <= (n - 1) * len) by (nonlinear_arith)
                    requires
                        i < n - 1,
                ;
                assert(head.subrange(i * len, i * len + len) == rest[i]);
                assert(concat_bytes(parts).subrange(i * len, i * len + len) =~= head.subrange(
                    i * len,
                    i * len + len,
                ));
            } else {
                assert(concat_bytes(parts).subrange(i * len, i * len + len) =~= parts.last());
            }
        }
    }
}


/// Splicing into the first part of a concatenation leaves the second part alone.
pub proof fn lemma_splice_left(x: Seq<u8>, y: Seq<u8>, offset: int, w: Seq<u8>)
    requires
        0 <= offset,
        offset + w.len() <= x.len(),
    ensures
        splice(x + y, offset, w) == splice(x, offset, w) + y,
{
    assert(splice(x + y, offset, w) =~= splice(x, offset, w) + y);
}


/// Splicing into the middle part of a concatenation splices that part alone.
pub proof fn lemma_splice_within(x: Seq<u8>, y: Seq<u8>, z: Seq<u8>, offset: int, w: Seq<u8>)
    requires
        0 <= offset,
        offset + w.len() <= y.len(),
    ensures
        splice(x + y + z, x.len() + offset, w) == x + splice(y, offset, w) + z,
{
    assert(splice(x + y + z, x.len() + offset, w) =~= x + splice(y, offset, w) + z);
}

} // verus!
