//! The record layout: three big-endian 32-bit fields, the point's `x`, the
//! point's `y` and the color, twelve bytes in all.

use byteorder::BigEndian;
use byteorder::ByteOrder;
use vstd::prelude::*;
use vstd::slice::slice_subrange;

use crate::types::Number;
use crate::types::Point;

verus! {

/// The number of bytes in a field.
pub const FIELD_LEN: usize = 4;

/// The number of bytes in a record.
pub const RECORD_LEN: usize = 12;

/// The four bytes of `value`, the most significant first.
pub open spec fn spec_be_bytes(value: u32) -> Seq<u8> {
    seq![
        (value / 0x100_0000) as u8,
        (value / 0x1_0000 % 0x100) as u8,
        (value / 0x100 % 0x100) as u8,
        (value % 0x100) as u8,
    ]
}

/// The value whose four bytes, the most significant first, are `bytes`.
pub open spec fn spec_from_be_bytes(bytes: Seq<u8>) -> u32
    recommends
        bytes.len() == 4,
{
    (bytes[0] * 0x100_0000 + bytes[1] * 0x1_0000 + bytes[2] * 0x100 + bytes[3]) as u32
}

/// A value has four bytes, and reading them gives the value back.
pub proof fn lemma_from_be_bytes_of_be_bytes(value: u32)
    ensures
        spec_be_bytes(value).len() == 4,
        spec_from_be_bytes(spec_be_bytes(value)) == value,
{
    let v = value as int;
    let b0 = v / 0x100_0000;
    let b1 = v / 0x1_0000 % 0x100;
    let b2 = v / 0x100 % 0x100;
    let b3 = v % 0x100;
    assert(0 <= b0 < 0x100 && 0 <= b1 < 0x100 && 0 <= b2 < 0x100 && 0 <= b3 < 0x100);
    assert(v == b0 * 0x100_0000 + b1 * 0x1_0000 + b2 * 0x100 + b3);
    let bytes = spec_be_bytes(value);
    assert(bytes[0] == b0 && bytes[1] == b1 && bytes[2] == b2 && bytes[3] == b3);
}

/// Writing the value that four bytes hold gives the bytes back.
pub proof fn lemma_be_bytes_of_from_be_bytes(bytes: Seq<u8>)
    requires
        bytes.len() == 4,
    ensures
        spec_be_bytes(spec_from_be_bytes(bytes)) == bytes,
{
    let b0 = bytes[0] as int;
    let b1 = bytes[1] as int;
    let b2 = bytes[2] as int;
    let b3 = bytes[3] as int;
    let v = b0 * 0x100_0000 + b1 * 0x1_0000 + b2 * 0x100 + b3;
    assert(0 <= v <= 0xFFFF_FFFF);
    assert(spec_from_be_bytes(bytes) == v);
    assert(v / 0x100_0000 == b0);
    assert(v / 0x1_0000 % 0x100 == b1);
    assert(v / 0x100 % 0x100 == b2);
    assert(v % 0x100 == b3);
    assert(spec_be_bytes(spec_from_be_bytes(bytes)) =~= bytes);
}

/// Calls `byteorder::BigEndian::write_u32` on a buffer of four bytes and
/// returns the buffer: the bytes of `value` in big-endian order, the most
/// significant first.
#[verifier::external_body]
fn be_bytes(value: u32) -> (bytes: [u8; 4])
    ensures
        bytes@ == spec_be_bytes(value),
{
    let mut buffer = [0u8; 4];
    BigEndian::write_u32(&mut buffer, value);
    buffer
}

/// Calls `byteorder::BigEndian::read_u32`: the value whose big-endian bytes
/// are the first four of `bytes`. The outside function panics on fewer than
/// four bytes.
#[verifier::external_body]
fn from_be_bytes(bytes: &[u8]) -> (value: u32)
    requires
        bytes@.len() >= 4,
    ensures
        value == spec_from_be_bytes(bytes@.subrange(0, 4)),
{
    BigEndian::read_u32(bytes)
}

/// What a client sees of a particle: where it is and its color.
#[derive(Clone, Copy, Debug, PartialEq, Eq, Structural)]
pub struct Record {
    pub point: Point,
    pub color: Number,
}

/// The bytes of a record: `x`, `y` and the color, each by the big-endian
/// bytes of its bit pattern.
pub open spec fn spec_encode(record: Record) -> Seq<u8> {
    spec_be_bytes(record.point.x.bits) + spec_be_bytes(record.point.y.bits) + spec_be_bytes(
        record.color.bits,
    )
}

/// The record that `bytes` hold, where they are as many as a record has.
pub open spec fn spec_decode(bytes: Seq<u8>) -> Option<Record> {
    if bytes.len() == RECORD_LEN {
        Some(
            Record {
                point: Point {
                    x: Number { bits: spec_from_be_bytes(bytes.subrange(0, 4)) },
                    y: Number { bits: spec_from_be_bytes(bytes.subrange(4, 8)) },
                },
                color: Number { bits: spec_from_be_bytes(bytes.subrange(8, 12)) },
            },
        )
    } else {
        None
    }
}

/// Encoding a record and decoding the bytes gives the record back, bit for
/// bit; every record takes the same number of bytes.
pub proof fn lemma_decode_encode(record: Record)
    ensures
        spec_encode(record).len() == RECORD_LEN,
        spec_decode(spec_encode(record)) == Some(record),
{
    let bytes = spec_encode(record);
    lemma_from_be_bytes_of_be_bytes(record.point.x.bits);
    lemma_from_be_bytes_of_be_bytes(record.point.y.bits);
    lemma_from_be_bytes_of_be_bytes(record.color.bits);
    assert(bytes.subrange(0, 4) =~= spec_be_bytes(record.point.x.bits));
    assert(bytes.subrange(4, 8) =~= spec_be_bytes(record.point.y.bits));
    assert(bytes.subrange(8, 12) =~= spec_be_bytes(record.color.bits));
}

/// Decoding as many bytes as a record has and encoding the record gives the
/// bytes back.
pub proof fn lemma_encode_decode(bytes: Seq<u8>)
    requires
        bytes.len() == RECORD_LEN,
    ensures
        spec_decode(bytes) is Some,
        spec_encode(spec_decode(bytes).unwrap()) == bytes,
{
    lemma_be_bytes_of_from_be_bytes(bytes.subrange(0, 4));
    lemma_be_bytes_of_from_be_bytes(bytes.subrange(4, 8));
    lemma_be_bytes_of_from_be_bytes(bytes.subrange(8, 12));
    assert(bytes =~= bytes.subrange(0, 4) + bytes.subrange(4, 8) + bytes.subrange(8, 12));
}

/// Appends the big-endian bytes of `number`'s bit pattern to `out`.
fn put_number(out: &mut Vec<u8>, number: Number)
    ensures
        final(out)@ == old(out)@ + spec_be_bytes(number.bits),
{
    let bytes = be_bytes(number.to_bits());
    out.extend_from_slice(bytes.as_slice());
}

/// The bytes of `record`.
pub fn encode(record: &Record) -> (bytes: Vec<u8>)
    ensures
        bytes@ == spec_encode(*record),
        bytes@.len() == RECORD_LEN,
{
    let mut bytes: Vec<u8> = Vec::with_capacity(RECORD_LEN);
    put_number(&mut bytes, record.point.x);
    put_number(&mut bytes, record.point.y);
    put_number(&mut bytes, record.color);
    proof {
        lemma_decode_encode(*record);
        assert(bytes@ =~= spec_encode(*record));
    }
    bytes
}

/// The number whose big-endian bytes are the four bytes of `bytes` from
/// `offset` on.
fn get_number(bytes: &[u8], offset: usize) -> (number: Number)
    requires
        offset + FIELD_LEN <= bytes@.len(),
    ensures
        number.bits == spec_from_be_bytes(bytes@.subrange(offset as int, offset + FIELD_LEN)),
{
    let len: usize = bytes.len();
    assert(offset + FIELD_LEN <= len);
    let field = slice_subrange(bytes, offset, offset + FIELD_LEN);
    assert(field@.subrange(0, 4) =~= field@);
    Number::from_bits(from_be_bytes(field))
}

/// The record that `bytes` hold: `Some` exactly when they are as many as a
/// record has.
pub fn decode(bytes: &[u8]) -> (record: Option<Record>)
    ensures
        record == spec_decode(bytes@),
{
    if bytes.len() != RECORD_LEN {
        return None;
    }
    let x = get_number(bytes, 0);
    let y = get_number(bytes, FIELD_LEN);
    let color = get_number(bytes, 2 * FIELD_LEN);
    Some(Record { point: Point { x, y }, color })
}

} // verus!
