//! The binary layout of a map object in the object store.
//!
//! All fields are little-endian and follow each other without padding:
//!
//! | offset | field                                                       |
//! |--------|-------------------------------------------------------------|
//! | 0      | bounding box: min.lon, min.lat, max.lon, max.lat (8 each)   |
//! | 32     | number of points, a signed 64-bit integer                   |
//! | 40     | the points: lon, lat (8 each)                               |
//!
//! A coordinate is written as the bit pattern of its binary64 number.

use byteorder::{ByteOrder, LittleEndian};
use vstd::prelude::*;
use vstd::slice::slice_subrange;
use crate::data::types::{BoundingBox, Geometry, MapObject, MapObjectOffset, Point};

verus! {

/// The bytes of a bounding box.
pub const BOUNDING_BOX_SIZE: usize = 32;

/// The bytes of the number of points.
pub const POINTS_LEN_SIZE: usize = 8;

/// The bytes of one point.
pub const POINT_SIZE: usize = 16;

/// The largest number of points that the signed count field can hold.
pub const MAX_POINTS: u64 = 0x7fff_ffff_ffff_ffff;

/// Why a map object could not be read.
#[derive(Debug, Clone, Copy, PartialEq, Eq, Structural)]
pub enum ReadError {
    /// The bytes end before the object does.
    UnexpectedEof,
    /// The number of points is negative.
    NegativePointCount,
}

/// The eight bytes of a 64-bit word, lowest first.
#[verifier::opaque]
pub open spec fn le_bytes(x: u64) -> Seq<u8> {
    seq![
        (x % 0x100) as u8,
        (x / 0x100 % 0x100) as u8,
        (x / 0x1_0000 % 0x100) as u8,
        (x / 0x100_0000 % 0x100) as u8,
        (x / 0x1_0000_0000 % 0x100) as u8,
        (x / 0x100_0000_0000 % 0x100) as u8,
        (x / 0x1_0000_0000_0000 % 0x100) as u8,
        (x / 0x100_0000_0000_0000 % 0x100) as u8,
    ]
}

/// The 64-bit word whose eight bytes, lowest first, are the first eight of `b`.
#[verifier::opaque]
pub open spec fn le_value(b: Seq<u8>) -> u64
    recommends
        b.len() >= 8,
{
    (b[0] + b[1] * 0x100 + b[2] * 0x1_0000 + b[3] * 0x100_0000 + b[4] * 0x1_0000_0000 + b[5]
        * 0x100_0000_0000 + b[6] * 0x1_0000_0000_0000 + b[7] * 0x100_0000_0000_0000) as u64
}

/// A word is read back from its bytes.
pub proof fn lemma_le_value_of_bytes(x: u64)
    ensures
        le_bytes(x).len() == 8,
        le_value(le_bytes(x)) == x,
{
    reveal(le_bytes);
    reveal(le_value);
    assert(x == (x % 0x100) + (x / 0x100 % 0x100) * 0x100 + (x / 0x1_0000 % 0x100) * 0x1_0000 + (x
        / 0x100_0000 % 0x100) * 0x100_0000 + (x / 0x1_0000_0000 % 0x100) * 0x1_0000_0000 + (x
        / 0x100_0000_0000 % 0x100) * 0x100_0000_0000 + (x / 0x1_0000_0000_0000 % 0x100)
        * 0x1_0000_0000_0000 + (x / 0x100_0000_0000_0000 % 0x100) * 0x100_0000_0000_0000)
        by (bit_vector);
}

/// Eight bytes are the bytes of the word they hold.
pub proof fn lemma_le_bytes_of_value(b: Seq<u8>)
    requires
        b.len() == 8,
    ensures
        le_bytes(le_value(b)) == b,
{
    reveal(le_bytes);
    reveal(le_value);
    let (b0, b1, b2, b3, b4, b5, b6, b7) = (b[0], b[1], b[2], b[3], b[4], b[5], b[6], b[7]);
    let x = le_value(b);
    assert(x == b0 + b1 * 0x100 + b2 * 0x1_0000 + b3 * 0x100_0000 + b4 * 0x1_0000_0000 + b5
        * 0x100_0000_0000 + b6 * 0x1_0000_0000_0000 + b7 * 0x100_0000_0000_0000);
    assert(x % 0x100 == b0 && x / 0x100 % 0x100 == b1 && x / 0x1_0000 % 0x100 == b2 && x
        / 0x100_0000 % 0x100 == b3 && x / 0x1_0000_0000 % 0x100 == b4 && x / 0x100_0000_0000
        % 0x100 == b5 && x / 0x1_0000_0000_0000 % 0x100 == b6 && x / 0x100_0000_0000_0000 % 0x100
        == b7) by (bit_vector)
        requires
            x == b0 + b1 * 0x100 + b2 * 0x1_0000 + b3 * 0x100_0000 + b4 * 0x1_0000_0000 + b5
                * 0x100_0000_0000 + b6 * 0x1_0000_0000_0000 + b7 * 0x100_0000_0000_0000,
    ;
    assert(le_bytes(x) =~= b);
}

/// `byteorder::LittleEndian::read_u64`: the word held by the first eight bytes
/// of `buf`, lowest byte first. The crate panics on a shorter `buf`.
#[verifier::external_body]
fn read_u64_le(buf: &[u8]) -> (value: u64)
    requires
        buf@.len() >= 8,
    ensures
        value == le_value(buf@),
{
    LittleEndian::read_u64(buf)
}

/// `byteorder::LittleEndian::write_u64` into a buffer of eight bytes: the
/// bytes of the word, lowest first.
#[verifier::external_body]
fn write_u64_le(value: u64) -> (bytes: [u8; 8])
    ensures
        bytes@ == le_bytes(value),
{
    let mut bytes = [0u8; 8];
    LittleEndian::write_u64(&mut bytes, value);
    bytes
}

/// The word held by the eight bytes of `data` from `pos` on.
pub open spec fn word_at(data: Seq<u8>, pos: int) -> u64
    recommends
        0 <= pos,
        pos + 8 <= data.len(),
{
    le_value(data.subrange(pos, pos + 8))
}

/// The point held by the sixteen bytes of `data` from `pos` on.
pub open spec fn point_at(data: Seq<u8>, pos: int) -> Point {
    Point { lon: word_at(data, pos), lat: word_at(data, pos + 8) }
}

/// The bounding box held by the thirty-two bytes of `data` from `pos` on.
pub open spec fn bounding_box_at(data: Seq<u8>, pos: int) -> BoundingBox {
    BoundingBox { min: point_at(data, pos), max: point_at(data, pos + 16) }
}

/// The `count` points held by the bytes of `data` from `pos` on.
pub open spec fn points_at(data: Seq<u8>, pos: int, count: nat) -> Seq<Point> {
    Seq::new(count, |i: int| point_at(data, pos + 16 * i))
}

/// What reading at `offset` gives: the object that the layout describes there,
/// or the reason why there is none.
pub open spec fn read_result(data: Seq<u8>, offset: int) -> Result<Geometry, ReadError> {
    if offset + 40 > data.len() {
        Err(ReadError::UnexpectedEof)
    } else if word_at(data, offset + 32) > MAX_POINTS {
        Err(ReadError::NegativePointCount)
    } else if offset + 40 + 16 * word_at(data, offset + 32) > data.len() {
        Err(ReadError::UnexpectedEof)
    } else {
        Ok(
            Geometry {
                bounding_box: bounding_box_at(data, offset),
                points: points_at(data, offset + 40, word_at(data, offset + 32) as nat),
            },
        )
    }
}

/// The bytes of a point.
pub open spec fn point_bytes(p: Point) -> Seq<u8> {
    le_bytes(p.lon) + le_bytes(p.lat)
}

/// The bytes of a list of points, one point after the other.
pub open spec fn points_bytes(points: Seq<Point>) -> Seq<u8>
    decreases points.len(),
{
    if points.len() == 0 {
        Seq::empty()
    } else {
        points_bytes(points.drop_last()) + point_bytes(points.last())
    }
}

/// The bytes of a bounding box.
pub open spec fn bounding_box_bytes(b: BoundingBox) -> Seq<u8> {
    point_bytes(b.min) + point_bytes(b.max)
}

/// The bytes of a map object.
pub open spec fn object_bytes(object: Geometry) -> Seq<u8> {
    bounding_box_bytes(object.bounding_box) + le_bytes(object.points.len() as u64) + points_bytes(
        object.points,
    )
}

/// The number of bytes that a map object with `num_points` points takes.
pub fn map_object_size(num_points: usize) -> (size: usize)
    requires
        BOUNDING_BOX_SIZE + POINTS_LEN_SIZE + num_points * POINT_SIZE <= usize::MAX,
    ensures
        size == BOUNDING_BOX_SIZE + POINTS_LEN_SIZE + num_points * POINT_SIZE,
{
    BOUNDING_BOX_SIZE + POINTS_LEN_SIZE + (num_points * POINT_SIZE)
}

fn read_word(data: &[u8], pos: usize) -> (word: u64)
    requires
        pos + 8 <= data.len(),
    ensures
        word == word_at(data@, pos as int),
{
    read_u64_le(slice_subrange(data, pos, pos + 8))
}

pub(crate) fn read_point_at(data: &[u8], pos: usize) -> (point: Point)
    requires
        pos + 16 <= data.len(),
    ensures
        point == point_at(data@, pos as int),
{
    Point { lon: read_word(data, pos), lat: read_word(data, pos + 8) }
}

fn push_word(out: &mut Vec<u8>, value: u64)
    ensures
        final(out)@ == old(out)@ + le_bytes(value),
{
    let bytes: [u8; 8] = write_u64_le(value);
    let mut i: usize = 0;
    while i < 8
        invariant
            i <= 8,
            bytes@ == le_bytes(value),
            out@ == old(out)@ + bytes@.take(i as int),
        decreases 8 - i,
    {
        out.push(bytes[i]);
        i = i + 1;
        assert(bytes@.take(i as int) == bytes@.take(i - 1).push(bytes@[i - 1]));
    }
    assert(bytes@.take(8) == bytes@);
}

fn push_point(out: &mut Vec<u8>, point: Point)
    ensures
        final(out)@ == old(out)@ + point_bytes(point),
{
    push_word(out, point.lon);
    push_word(out, point.lat);
    assert(out@ == old(out)@ + point_bytes(point));
}

/// Appends the object to the store and returns the offset at which it starts.
pub fn write_map_object(writer: &mut Vec<u8>, obj: &MapObject) -> (offset: MapObjectOffset)
    requires
        obj.points@.len() <= MAX_POINTS,
    ensures
        offset == old(writer)@.len(),
        final(writer)@ == old(writer)@ + object_bytes(obj@),
{
    let offset: u64 = writer.len() as u64;
    push_point(writer, obj.bounding_box.min);
    push_point(writer, obj.bounding_box.max);
    push_word(writer, obj.points.len() as u64);
    let ghost head = writer@;
    assert(head == old(writer)@ + (bounding_box_bytes(obj.bounding_box) + le_bytes(
        obj.points@.len() as u64,
    )));
    let mut i: usize = 0;
    while i < obj.points.len()
        invariant
            i <= obj.points@.len(),
            writer@ == head + points_bytes(obj.points@.take(i as int)),
        decreases obj.points@.len() - i,
    {
        push_point(writer, obj.points[i]);
        proof {
            let next = obj.points@.take(i + 1);
            assert(next.drop_last() == obj.points@.take(i as int));
            assert(next.last() == obj.points@[i as int]);
        }
        i = i + 1;
    }
    assert(obj.points@.take(i as int) == obj.points@);
    assert(writer@ == old(writer)@ + object_bytes(obj@));
    offset
}

/// Checks that an object lies whole in `data` at `offset`, and returns its
/// bounding box, where its points start, and how many they are.
pub(crate) fn read_map_object_at(data: &[u8], offset: MapObjectOffset) -> (r: Result<
    (BoundingBox, usize, usize),
    ReadError,
>)
    ensures
        match r {
            Ok((bbox, first, n)) => {
                &&& first == offset + 40
                &&& first + 16 * n <= data.len()
                &&& read_result(data@, offset as int) == Ok::<Geometry, ReadError>(
                    Geometry {
                        bounding_box: bbox,
                        points: points_at(data@, first as int, n as nat),
                    },
                )
            },
            Err(e) => read_result(data@, offset as int) == Err::<Geometry, ReadError>(e),
        },
{
    if offset > data.len() as u64 {
        return Err(ReadError::UnexpectedEof);
    }
    let start: usize = offset as usize;
    let room: usize = data.len() - start;
    if room < BOUNDING_BOX_SIZE + POINTS_LEN_SIZE {
        return Err(ReadError::UnexpectedEof);
    }
    let min: Point = read_point_at(data, start);
    let max: Point = read_point_at(data, start + POINT_SIZE);
    let count: u64 = read_word(data, start + BOUNDING_BOX_SIZE);
    if count > MAX_POINTS {
        return Err(ReadError::NegativePointCount);
    }
    if count > ((room - (BOUNDING_BOX_SIZE + POINTS_LEN_SIZE)) / POINT_SIZE) as u64 {
        return Err(ReadError::UnexpectedEof);
    }
    Ok((BoundingBox { min, max }, start + BOUNDING_BOX_SIZE + POINTS_LEN_SIZE, count as usize))
}

/// Reads the object that starts at `offset` in the store.
pub fn read_map_object(data: &[u8], offset: MapObjectOffset) -> (r: Result<MapObject, ReadError>)
    ensures
        match r {
            Ok(obj) => read_result(data@, offset as int) == Ok::<Geometry, ReadError>(obj@),
            Err(e) => read_result(data@, offset as int) == Err::<Geometry, ReadError>(e),
        },
{
    match read_map_object_at(data, offset) {
        Ok((bounding_box, first, n)) => {
            let mut points: Vec<Point> = Vec::with_capacity(n);
            let mut i: usize = 0;
            while i < n
                invariant
                    i <= n,
                    first + 16 * n <= data.len(),
                    points@ == points_at(data@, first as int, i as nat),
                decreases n - i,
            {
                points.push(read_point_at(data, first + POINT_SIZE * i));
                i = i + 1;
                assert(points@ == points_at(data@, first as int, i as nat));
            }
            Ok(MapObject { bounding_box, points })
        },
        Err(e) => Err(e),
    }
}

/// A point takes sixteen bytes.
proof fn lemma_point_bytes_len(p: Point)
    ensures
        point_bytes(p).len() == 16,
        point_bytes(p).subrange(0, 8) == le_bytes(p.lon),
        point_bytes(p).subrange(8, 16) == le_bytes(p.lat),
{
    lemma_le_value_of_bytes(p.lon);
    lemma_le_value_of_bytes(p.lat);
}

/// The bytes of `n` points are `16 * n` bytes, and each point's bytes stand at
/// sixteen times its place.
pub proof fn lemma_points_bytes(points: Seq<Point>)
    ensures
        points_bytes(points).len() == 16 * points.len(),
        forall|i: int|
            0 <= i < points.len() ==> #[trigger] points_bytes(points).subrange(16 * i, 16 * i + 16)
                == point_bytes(points[i]),
    decreases points.len(),
{
    if points.len() > 0 {
        let front = points.drop_last();
        lemma_points_bytes(front);
        lemma_point_bytes_len(points.last());
        let all = points_bytes(points);
        assert forall|i: int| 0 <= i < points.len() implies #[trigger] all.subrange(
            16 * i,
            16 * i + 16,
        ) == point_bytes(points[i]) by {
            if i < front.len() {
                assert(all.subrange(16 * i, 16 * i + 16) == points_bytes(front).subrange(
                    16 * i,
                    16 * i + 16,
                ));
                assert(front[i] == points[i]);
            } else {
                assert(all.subrange(16 * i, 16 * i + 16) == point_bytes(points.last()));
            }
        }
    }
}

/// A map object with `n` points takes `32 + 8 + 16 * n` bytes.
pub proof fn lemma_object_size(object: Geometry)
    ensures
        object_bytes(object).len() == BOUNDING_BOX_SIZE + POINTS_LEN_SIZE + POINT_SIZE
            * object.points.len(),
{
    lemma_points_bytes(object.points);
    lemma_point_bytes_len(object.bounding_box.min);
    lemma_point_bytes_len(object.bounding_box.max);
    lemma_le_value_of_bytes(object.points.len() as u64);
}

/// A word that stands at `pos` in `data` is read back from there.
proof fn lemma_word_at(data: Seq<u8>, pos: int, x: u64)
    requires
        0 <= pos,
        pos + 8 <= data.len(),
        data.subrange(pos, pos + 8) == le_bytes(x),
    ensures
        word_at(data, pos) == x,
{
    lemma_le_value_of_bytes(x);
}

/// A point that stands at `pos` in `data` is read back from there.
proof fn lemma_point_at(data: Seq<u8>, pos: int, p: Point)
    requires
        0 <= pos,
        pos + 16 <= data.len(),
        data.subrange(pos, pos + 16) == point_bytes(p),
    ensures
        point_at(data, pos) == p,
{
    let both = data.subrange(pos, pos + 16);
    lemma_point_bytes_len(p);
    assert(data.subrange(pos, pos + 8) == both.subrange(0, 8));
    assert(data.subrange(pos + 8, pos + 16) == both.subrange(8, 16));
    assert(both.subrange(0, 8) == le_bytes(p.lon));
    assert(both.subrange(8, 16) == le_bytes(p.lat));
    lemma_word_at(data, pos, p.lon);
    lemma_word_at(data, pos + 8, p.lat);
}

/// Writing then reading gives the object back: whatever stands before and
/// after the bytes of an object, reading where they start gives that object.
pub proof fn lemma_read_after_write(before: Seq<u8>, object: Geometry, after: Seq<u8>)
    requires
        object.points.len() <= MAX_POINTS,
    ensures
        read_result(before + object_bytes(object) + after, before.len() as int) == Ok::<
            Geometry,
            ReadError,
        >(object),
{
    let bytes = object_bytes(object);
    let data = before + bytes + after;
    let offset = before.len() as int;
    let n = object.points.len();
    lemma_points_bytes(object.points);
    lemma_object_size(object);
    lemma_point_bytes_len(object.bounding_box.min);
    lemma_point_bytes_len(object.bounding_box.max);
    lemma_le_value_of_bytes(n as u64);
    assert(data.subrange(offset, offset + bytes.len()) == bytes);
    assert(data.subrange(offset, offset + 16) == point_bytes(object.bounding_box.min)) by {
        assert(data.subrange(offset, offset + 16) == bytes.subrange(0, 16));
    }
    assert(data.subrange(offset + 16, offset + 32) == point_bytes(object.bounding_box.max)) by {
        assert(data.subrange(offset + 16, offset + 32) == bytes.subrange(16, 32));
    }
    assert(data.subrange(offset + 32, offset + 40) == le_bytes(n as u64)) by {
        assert(data.subrange(offset + 32, offset + 40) == bytes.subrange(32, 40));
    }
    lemma_point_at(data, offset, object.bounding_box.min);
    lemma_point_at(data, offset + 16, object.bounding_box.max);
    lemma_word_at(data, offset + 32, n as u64);
    let read = points_at(data, offset + 40, n);
    assert forall|i: int| 0 <= i < n implies read[i] == object.points[i] by {
        let tail = points_bytes(object.points);
        assert(data.subrange(offset + 40 + 16 * i, offset + 40 + 16 * i + 16) == tail.subrange(
            16 * i,
            16 * i + 16,
        ));
        lemma_point_at(data, offset + 40 + 16 * i, object.points[i]);
    }
    assert(read =~= object.points);
}

} // verus!
