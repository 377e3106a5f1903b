//! Little-endian encoding of fixed-width integers, as a mathematical model
//! over byte sequences, together with the calls into `byteorder` that the
//! buffer accessors rely on.
use byteorder::ByteOrder;
use vstd::prelude::*;

verus! {

/// Number of distinct values that `width` bytes can hold: 256 to the power `width`.
pub open spec fn byte_range(width: nat) -> nat
    decreases width,
{
    if width == 0 {
        1
    } else {
        256 * byte_range((width - 1) as nat)
    }
}

/// The unsigned value of a byte sequence read little-endian: the first byte is
/// the least significant.
pub open spec fn le_value(s: Seq<u8>) -> nat
    decreases s.len(),
{
    if s.len() == 0 {
        0
    } else {
        s[0] as nat + 256 * le_value(s.drop_first())
    }
}

/// The `width` bytes that hold `v` little-endian (only the low `width` bytes of
/// `v` are kept).
pub open spec fn le_bytes(v: nat, width: nat) -> Seq<u8>
    decreases width,
{
    if width == 0 {
        Seq::empty()
    } else {
        seq![(v % 256) as u8] + le_bytes(v / 256, (width - 1) as nat)
    }
}

/// Whether the range `[offset, offset + n)` lies within a sequence of length `len`.
pub open spec fn fits(offset: int, n: int, len: int) -> bool {
    0 <= offset && 0 <= n && offset + n <= len
}

/// `s` with the bytes from `offset` on replaced by `src`; the length is kept when
/// the range fits.
pub open spec fn splice(s: Seq<u8>, offset: int, src: Seq<u8>) -> Seq<u8> {
    s.subrange(0, offset) + src + s.subrange(offset + src.len(), s.len() as int)
}

/// The unsigned integer of `width` bytes stored little-endian at `offset`.
pub open spec fn read_le(s: Seq<u8>, offset: int, width: nat) -> nat {
    le_value(s.subrange(offset, offset + width))
}

/// `s` after storing `v` little-endian in the `width` bytes at `offset`.
pub open spec fn write_le(s: Seq<u8>, offset: int, width: nat, v: nat) -> Seq<u8> {
    splice(s, offset, le_bytes(v, width))
}

/// The two's-complement reading of the unsigned `width`-byte value `u`.
pub open spec fn to_signed(u: nat, width: nat) -> int {
    if u < byte_range(width) / 2 {
        u as int
    } else {
        u - byte_range(width)
    }
}

/// The unsigned `width`-byte value whose two's-complement reading is `v`.
pub open spec fn to_unsigned(v: int, width: nat) -> nat {
    if v < 0 {
        (v + byte_range(width)) as nat
    } else {
        v as nat
    }
}

/// An encoding into `width` bytes has exactly `width` bytes.
pub proof fn lemma_le_bytes_len(v: nat, width: nat)
    ensures
        le_bytes(v, width).len() == width,
    decreases width,
{
    if width > 0 {
        lemma_le_bytes_len(v / 256, (width - 1) as nat);
    }
}

/// Encoding a value that fits in `width` bytes and decoding the result gives
/// the value back.
pub proof fn lemma_le_bytes_value(v: nat, width: nat)
    requires
        v < byte_range(width),
    ensures
        le_value(le_bytes(v, width)) == v,
    decreases width,
{
    if width > 0 {
        let w1 = (width - 1) as nat;
        assert(v / 256 < byte_range(w1)) by (nonlinear_arith)
            requires
                v < 256 * byte_range(w1),
        ;
        lemma_le_bytes_value(v / 256, w1);
        let b = le_bytes(v, width);
        assert(b.drop_first() =~= le_bytes(v / 256, w1));
        assert(v == v % 256 + 256 * (v / 256)) by (nonlinear_arith);
    }
}

/// Storing `src` at an in-range `offset` keeps the length and every byte
/// outside the range, and the range then reads back as `src`.
pub proof fn lemma_splice(s: Seq<u8>, offset: int, src: Seq<u8>)
    requires
        fits(offset, src.len() as int, s.len() as int),
    ensures
        splice(s, offset, src).len() == s.len(),
        splice(s, offset, src).subrange(offset, offset + src.len()) =~= src,
        forall|i: int|
            0 <= i < s.len() && !(offset <= i < offset + src.len()) ==> #[trigger] splice(
                s,
                offset,
                src,
            )[i] == s[i],
{
}

/// Writing any unsigned value of `width` bytes at an in-range offset, then
/// reading `width` bytes at that offset, gives the value back; the length of
/// the sequence is unchanged.
pub proof fn lemma_unsigned_round_trip(s: Seq<u8>, offset: int, width: nat, v: nat)
    requires
        fits(offset, width as int, s.len() as int),
        v < byte_range(width),
    ensures
        write_le(s, offset, width, v).len() == s.len(),
        read_le(write_le(s, offset, width, v), offset, width) == v,
{
    lemma_le_bytes_len(v, width);
    lemma_splice(s, offset, le_bytes(v, width));
    lemma_le_bytes_value(v, width);
}

/// Writing any signed value of `width` bytes (two's complement) at an in-range
/// offset, then reading it back as signed, gives the value back.
pub proof fn lemma_signed_round_trip(s: Seq<u8>, offset: int, width: nat, v: int)
    requires
        fits(offset, width as int, s.len() as int),
        width > 0,
        -(byte_range(width) / 2) <= v < byte_range(width) / 2,
    ensures
        write_le(s, offset, width, to_unsigned(v, width)).len() == s.len(),
        to_signed(read_le(write_le(s, offset, width, to_unsigned(v, width)), offset, width), width)
            == v,
{
    let w1 = (width - 1) as nat;
    assert(byte_range(width) == 2 * (byte_range(width) / 2)) by {
        assert(byte_range(width) == 256 * byte_range(w1));
    }
    lemma_unsigned_round_trip(s, offset, width, to_unsigned(v, width));
}

/// A single byte reads as itself and is stored as itself.
pub proof fn lemma_single_byte(s: Seq<u8>, v: u8)
    requires
        s.len() == 1,
    ensures
        le_value(s) == s[0] as nat,
        le_bytes(v as nat, 1) =~= seq![v],
{
    assert(le_value(s.drop_first()) == 0);
    assert(le_bytes((v as nat) / 256, 0) =~= Seq::<u8>::empty());
    assert((v as nat) % 256 == v as nat);
}

/// Rust's `as` between `u8` and `i8` is the two's-complement reinterpretation.
pub proof fn lemma_reinterpret_8(u: u8, v: i8)
    ensures
        (u as i8) as int == to_signed(u as nat, 1),
        (v as u8) as nat == to_unsigned(v as int, 1),
{
    assert(byte_range(1) == 256) by {
        assert(byte_range(0) == 1);
    }
    assert(u >= 0x80u8 ==> (u as i8) as i16 == (u as i16) - 0x100i16) by (bit_vector);
    assert(v < 0i8 ==> (v as u8) as i16 == (v as i16) + 0x100i16) by (bit_vector);
}

/// Rust's `as` between `u16` and `i16` is the two's-complement reinterpretation.
pub proof fn lemma_reinterpret_16(u: u16, v: i16)
    ensures
        (u as i16) as int == to_signed(u as nat, 2),
        (v as u16) as nat == to_unsigned(v as int, 2),
{
    assert(byte_range(2) == 0x10000) by {
        assert(byte_range(0) == 1);
        assert(byte_range(1) == 256);
    }
    assert(u >= 0x8000u16 ==> (u as i16) as i32 == (u as i32) - 0x10000i32) by (bit_vector);
    assert(v < 0i16 ==> (v as u16) as i32 == (v as i32) + 0x10000i32) by (bit_vector);
}

/// Rust's `as` between `u32` and `i32` is the two's-complement reinterpretation.
pub proof fn lemma_reinterpret_32(u: u32, v: i32)
    ensures
        (u as i32) as int == to_signed(u as nat, 4),
        (v as u32) as nat == to_unsigned(v as int, 4),
{
    assert(byte_range(4) == 0x1_0000_0000) by {
        assert(byte_range(0) == 1);
        assert(byte_range(1) == 256);
        assert(byte_range(2) == 0x10000);
        assert(byte_range(3) == 0x100_0000);
    }
    assert(u >= 0x8000_0000u32 ==> (u as i32) as i64 == (u as i64) - 0x1_0000_0000i64)
        by (bit_vector);
    assert(v < 0i32 ==> (v as u32) as i64 == (v as i64) + 0x1_0000_0000i64) by (bit_vector);
}

/// Relies on byteorder's `LittleEndian::read_u16`: the first two bytes of the
/// slice, least significant first.
#[verifier::external_body]
pub(crate) fn read_u16(b: &[u8]) -> (r: u16)
    requires
        b@.len() == 2,
    ensures
        r as nat == le_value(b@),
{
    byteorder::LittleEndian::read_u16(b)
}

/// Relies on byteorder's `LittleEndian::read_u32`: the first four bytes of the
/// slice, least significant first.
#[verifier::external_body]
pub(crate) fn read_u32(b: &[u8]) -> (r: u32)
    requires
        b@.len() == 4,
    ensures
        r as nat == le_value(b@),
{
    byteorder::LittleEndian::read_u32(b)
}

/// Relies on byteorder's `LittleEndian::write_u16`: stores `v` in two bytes,
/// least significant first.
#[verifier::external_body]
pub(crate) fn write_u16(v: u16) -> (r: [u8; 2])
    ensures
        r@ == le_bytes(v as nat, 2),
{
    let mut b = [0u8; 2];
    byteorder::LittleEndian::write_u16(&mut b, v);
    b
}

/// Relies on byteorder's `LittleEndian::write_u32`: stores `v` in four bytes,
/// least significant first.
#[verifier::external_body]
pub(crate) fn write_u32(v: u32) -> (r: [u8; 4])
    ensures
        r@ == le_bytes(v as nat, 4),
{
    let mut b = [0u8; 4];
    byteorder::LittleEndian::write_u32(&mut b, v);
    b
}

} // verus!
