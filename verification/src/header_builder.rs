//! The synchronisation headers of a frame, written field by field with a
//! big-endian bit writer.

use vstd::prelude::*;
use vstd::arithmetic::power2::{lemma2_to64, pow2};
use bitstream_io::{BigEndian, BitWrite, BitWriter};

verus! {

/// Sync 1 bit synchronisation pattern.
pub const FLEX_BS1: u32 = 0xAAAAAAAA;

/// Sync 1 speed pattern A1: 1600 bps, 2-level FSK.
pub const FLEX_A1: u32 = 0x9C9ACF1E;

/// Sync 1 bit synchronisation pattern B.
pub const FLEX_B: u16 = 0x5555;

/// Sync 2 bit synchronisation nibble.
pub const FLEX_BS2: u8 = 0x05;

/// Sync 2 speed pattern C.
pub const FLEX_C: u16 = 0x7B12;

/// The fields of sync 1: 32 bits of bit sync, 32 bits of speed pattern, 16
/// bits of bit sync; the speed pattern is repeated inverted.
pub struct FlexHeaderSync1 {
    pub bs1: u32,
    pub a: u32,
    pub b: u16,
}

/// The fields of sync 2: a 4-bit bit sync and a 16-bit speed pattern, each
/// repeated inverted.
pub struct FlexHeaderSync2 {
    pub bs2: u8,
    pub c: u16,
}

/// The `width` low bits of a value, most significant first.
pub open spec fn field_bits(width: nat, value: u32) -> Seq<bool> {
    Seq::new(width, |i: int| (value >> ((width - 1 - i) as u32)) & 1 == 1)
}

/// 1 for a set bit, 0 for a clear one.
pub open spec fn bit_value(bit: bool) -> u8 {
    if bit {
        1
    } else {
        0
    }
}

/// The byte with the given bits, most significant first.
pub open spec fn byte_of(
    b7: bool,
    b6: bool,
    b5: bool,
    b4: bool,
    b3: bool,
    b2: bool,
    b1: bool,
    b0: bool,
) -> u8 {
    (bit_value(b7) << 7u8) | (bit_value(b6) << 6u8) | (bit_value(b5) << 5u8) | (bit_value(b4)
        << 4u8) | (bit_value(b3) << 3u8) | (bit_value(b2) << 2u8) | (bit_value(b1) << 1u8)
        | bit_value(b0)
}

/// The byte made of the first eight bits, most significant first.
pub open spec fn byte_of_bits(bits: Seq<bool>) -> u8 {
    byte_of(bits[0], bits[1], bits[2], bits[3], bits[4], bits[5], bits[6], bits[7])
}

/// The whole bytes of a bit stream, eight bits each in order; bits after the
/// last whole byte are left out.
pub open spec fn packed_bytes(bits: Seq<bool>) -> Seq<u8> {
    Seq::new(bits.len() / 8, |k: int| byte_of_bits(bits.subrange(8 * k, 8 * k + 8)))
}

/// The `n` low bytes of a value, most significant first.
pub open spec fn be_bytes(value: u32, n: nat) -> Seq<u8> {
    Seq::new(n, |k: int| ((value >> ((8 * (n - 1 - k)) as u32)) & 0xFF) as u8)
}

/// The bytes of sync 1: bit sync, speed pattern, bit sync B and the inverted
/// speed pattern, each most significant byte first.
pub open spec fn sync1_vector(header: FlexHeaderSync1) -> Seq<u8> {
    be_bytes(header.bs1, 4) + be_bytes(header.a, 4) + be_bytes(header.b as u32, 2) + be_bytes(
        !header.a,
        4,
    )
}

/// The bytes of sync 2: the bit sync nibble, the speed pattern and the
/// inverted nibble make three bytes; the inverted speed pattern two more.
pub open spec fn sync2_vector(header: FlexHeaderSync2) -> Seq<u8> {
    be_bytes(
        ((header.bs2 as u32) << 20u32) | ((header.c as u32) << 4u32) | ((0xF & !header.bs2) as u32),
        3,
    ) + be_bytes((!header.c) as u32, 2)
}

/// A big-endian bit writer into a vector of bytes.
#[verifier::external_body]
pub struct BitBuffer {
    writer: BitWriter<Vec<u8>, BigEndian>,
}

/// The bits a buffer has taken, in order.
pub uninterp spec fn written_bits(buffer: BitBuffer) -> Seq<bool>;

/// `bitstream_io::BitWriter::endian` on an empty vector: a writer that has
/// taken no bits.
#[verifier::external_body]
fn bit_writer_new() -> (buffer: BitBuffer)
    ensures
        written_bits(buffer) == Seq::<bool>::empty(),
{
    BitBuffer { writer: BitWriter::endian(Vec::new(), BigEndian) }
}

/// `bitstream_io::BitWrite::write_unsigned_var` on a big-endian writer: the
/// `bits` low bits of the value follow the bits written before, most
/// significant first. The crate fails the call only for more bits than a
/// `u32` holds, for a value that does not fit the bits, or when the
/// underlying writer fails; appending to a vector does not fail.
#[verifier::external_body]
fn bit_writer_write(buffer: &mut BitBuffer, bits: u32, value: u32) -> (ok: bool)
    requires
        1 <= bits <= 32,
        value < pow2(bits as nat),
    ensures
        ok,
        written_bits(*final(buffer)) == written_bits(*old(buffer)) + field_bits(bits as nat, value),
{
    buffer.writer.write_unsigned_var::<u32>(bits, value).is_ok()
}

/// `bitstream_io::BitWriter::into_writer`: the vector the writer wrote its
/// whole bytes into; bits of an unfinished last byte are dropped.
#[verifier::external_body]
fn bit_writer_into_bytes(buffer: BitBuffer) -> (bytes: Vec<u8>)
    ensures
        bytes@ == packed_bytes(written_bits(buffer)),
{
    buffer.writer.into_writer()
}

/// Eight bits of a value, read most significant first, make the byte at
/// that place; and the bits of a value shifted left above another, read as
/// a wider field, are those of the value followed by those of the other.
proof fn lemma_byte_bits(x: u32, s: u32)
    by (bit_vector)
    requires
        s <= 24,
    ensures
        byte_of(
            (x >> ((s + 7) as u32)) & 1 == 1,
            (x >> ((s + 6) as u32)) & 1 == 1,
            (x >> ((s + 5) as u32)) & 1 == 1,
            (x >> ((s + 4) as u32)) & 1 == 1,
            (x >> ((s + 3) as u32)) & 1 == 1,
            (x >> ((s + 2) as u32)) & 1 == 1,
            (x >> ((s + 1) as u32)) & 1 == 1,
            (x >> s) & 1 == 1,
        ) == ((x >> s) & 0xFF) as u8,
{
}

proof fn lemma_shifted_field_bit(x: u32, y: u32, n: u32, m: u32, i: u32)
    by (bit_vector)
    requires
        1 <= m,
        n + m <= 32,
        i < n + m,
        y >> m == 0,
    ensures
        i < n ==> (((x << m) | y) >> ((n + m - 1 - i) as u32)) & 1 == (x >> ((n - 1 - i) as u32))
            & 1,
        i >= n ==> (((x << m) | y) >> ((n + m - 1 - i) as u32)) & 1 == (y >> ((n + m - 1 - i)
            as u32)) & 1,
{
}

/// Two fields in a row are one wider field holding the first value above
/// the second.
proof fn lemma_fields_concat(n: nat, x: u32, m: nat, y: u32)
    requires
        1 <= m,
        n + m <= 32,
        y >> (m as u32) == 0,
    ensures
        field_bits(n, x) + field_bits(m, y) == field_bits(n + m, (x << (m as u32)) | y),
{
    let lhs = field_bits(n, x) + field_bits(m, y);
    let rhs = field_bits(n + m, (x << (m as u32)) | y);
    assert forall|i: int| 0 <= i < lhs.len() implies lhs[i] == rhs[i] by {
        lemma_shifted_field_bit(x, y, n as u32, m as u32, i as u32);
        if i < n {
            assert(lhs[i] == field_bits(n, x)[i]);
        } else {
            assert(lhs[i] == field_bits(m, y)[i - n]);
        }
    }
    assert(lhs =~= rhs);
}

/// Packing a stream of whole bytes and then more bits packs each part.
proof fn lemma_packed_concat(a: Seq<bool>, b: Seq<bool>)
    requires
        a.len() % 8 == 0,
    ensures
        packed_bytes(a + b) == packed_bytes(a) + packed_bytes(b),
{
    let q = a.len() / 8;
    let ab = a + b;
    assert(ab.len() / 8 == q + b.len() / 8) by (nonlinear_arith)
        requires
            ab.len() == a.len() + b.len(),
            a.len() % 8 == 0,
            q == a.len() / 8,
    ;
    let lhs = packed_bytes(ab);
    let rhs = packed_bytes(a) + packed_bytes(b);
    assert forall|k: int| 0 <= k < lhs.len() implies lhs[k] == rhs[k] by {
        if k < q {
            assert(ab.subrange(8 * k, 8 * k + 8) =~= a.subrange(8 * k, 8 * k + 8));
        } else {
            assert(ab.subrange(8 * k, 8 * k + 8) =~= b.subrange(8 * (k - q), 8 * (k - q) + 8));
        }
    }
    assert(lhs =~= rhs);
}

/// A field of whole bytes packs into the bytes of its value, most
/// significant first.
proof fn lemma_packed_field(n: nat, x: u32)
    requires
        1 <= n <= 4,
    ensures
        packed_bytes(field_bits(8 * n, x)) == be_bytes(x, n),
{
    let bits = field_bits(8 * n, x);
    let lhs = packed_bytes(bits);
    let rhs = be_bytes(x, n);
    assert forall|k: int| 0 <= k < n implies lhs[k] == rhs[k] by {
        let s = (8 * (n - 1 - k)) as u32;
        let sub = bits.subrange(8 * k, 8 * k + 8);
        assert forall|j: int| 0 <= j < 8 implies sub[j] == ((x >> (s + 7 - j) as u32) & 1 == 1) by {
            assert(sub[j] == bits[8 * k + j]);
        }
        lemma_byte_bits(x, s);
        assert(s + 7 - 0 == s + 7 && s + 7 - 7 == s);
    }
    assert(lhs =~= rhs);
}

/// The 14 bytes of sync 1.
pub fn get_header_sync1_vector(header: FlexHeaderSync1) -> (vector: Vec<u8>)
    ensures
        vector@ == sync1_vector(header),
{
    proof {
        lemma2_to64();
    }
    let mut writer = bit_writer_new();
    bit_writer_write(&mut writer, 32, header.bs1);
    bit_writer_write(&mut writer, 32, header.a);
    bit_writer_write(&mut writer, 16, header.b as u32);
    bit_writer_write(&mut writer, 32, !header.a);
    proof {
        let f1 = field_bits(32, header.bs1);
        let f2 = field_bits(32, header.a);
        let f3 = field_bits(16, header.b as u32);
        let f4 = field_bits(32, !header.a);
        assert(written_bits(writer) =~= ((f1 + f2) + f3) + f4);
        lemma_packed_concat((f1 + f2) + f3, f4);
        lemma_packed_concat(f1 + f2, f3);
        lemma_packed_concat(f1, f2);
        lemma_packed_field(4, header.bs1);
        lemma_packed_field(4, header.a);
        lemma_packed_field(2, header.b as u32);
        lemma_packed_field(4, !header.a);
    }
    bit_writer_into_bytes(writer)
}

/// The 5 bytes of sync 2; the bit sync has four bits.
pub fn get_header_sync2_vector(header: FlexHeaderSync2) -> (vector: Vec<u8>)
    requires
        header.bs2 <= 0xF,
    ensures
        vector@ == sync2_vector(header),
{
    proof {
        lemma2_to64();
    }
    let bs2 = header.bs2;
    let inverted_bs2: u8 = 0xF & !bs2;
    let inverted_c: u16 = !header.c;
    assert(inverted_bs2 <= 0xF) by (bit_vector)
        requires
            inverted_bs2 == 0xF & !bs2,
    ;
    let mut writer = bit_writer_new();
    bit_writer_write(&mut writer, 4, header.bs2 as u32);
    bit_writer_write(&mut writer, 16, header.c as u32);
    bit_writer_write(&mut writer, 4, inverted_bs2 as u32);
    bit_writer_write(&mut writer, 16, inverted_c as u32);
    proof {
        let (bs2, c, nb) = (header.bs2 as u32, header.c as u32, inverted_bs2 as u32);
        let f1 = field_bits(4, bs2);
        let f2 = field_bits(16, c);
        let f3 = field_bits(4, nb);
        let f4 = field_bits(16, inverted_c as u32);
        assert(written_bits(writer) =~= ((f1 + f2) + f3) + f4);
        let x = (bs2 << 16u32) | c;
        let y = (x << 4u32) | nb;
        assert(y == (bs2 << 20u32) | (c << 4u32) | nb && c >> 16u32 == 0 && nb >> 4u32 == 0)
            by (bit_vector)
            requires
                x == (bs2 << 16u32) | c,
                y == (x << 4u32) | nb,
                bs2 <= 0xF,
                c <= 0xFFFF,
                nb <= 0xF,
        ;
        lemma_fields_concat(4, bs2, 16, c);
        lemma_fields_concat(20, x, 4, nb);
        lemma_packed_concat(field_bits(24, y), f4);
        lemma_packed_field(3, y);
        lemma_packed_field(2, inverted_c as u32);
    }
    bit_writer_into_bytes(writer)
}

} // verus!
