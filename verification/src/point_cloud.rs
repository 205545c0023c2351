//! Velodyne point clouds: a flat stream of records of sixteen bytes, each
//! four little-endian 32-bit floating-point numbers `x`, `y`, `z` and the
//! reflection intensity. There is no header and no count.
//!
//! A number is held as its IEEE-754 bit pattern, so that a decoded point is
//! equal to the encoded one bit for bit.

use crate::error::Error;
use vstd::prelude::*;

verus! {

/// The number of bytes in one record.
pub const RECORD_LEN: usize = 16;

/// One point: the bit patterns of its four numbers.
#[derive(Debug, Clone, Copy, PartialEq, Eq, Structural)]
pub struct Point {
    pub x: u32,
    pub y: u32,
    pub z: u32,
    pub reflection: u32,
}

/// The points of one scan, in the order of the records.
#[derive(Debug, Clone, PartialEq, Eq)]
pub struct PointCloud(pub Vec<Point>);

impl View for PointCloud {
    type V = Seq<Point>;

    open spec fn view(&self) -> Seq<Point> {
        self.0@
    }
}

/// The 32-bit word whose little-endian bytes are `b0`, `b1`, `b2`, `b3`.
pub open spec fn le_word(b0: u8, b1: u8, b2: u8, b3: u8) -> u32 {
    (b0 as int + b1 as int * 0x100 + b2 as int * 0x1_0000 + b3 as int * 0x100_0000) as u32
}

/// The little-endian bytes of the word `word`.
pub open spec fn le_bytes(word: u32) -> Seq<u8> {
    seq![
        (word % 0x100) as u8,
        (word / 0x100 % 0x100) as u8,
        (word / 0x1_0000 % 0x100) as u8,
        (word / 0x100_0000) as u8,
    ]
}

/// The word that starts at byte `at` of `bytes`.
pub open spec fn word_at(bytes: Seq<u8>, at: int) -> u32 {
    le_word(bytes[at], bytes[at + 1], bytes[at + 2], bytes[at + 3])
}

/// The point of record `record` of `bytes`.
pub open spec fn point_at(bytes: Seq<u8>, record: int) -> Point {
    Point {
        x: word_at(bytes, 16 * record),
        y: word_at(bytes, 16 * record + 4),
        z: word_at(bytes, 16 * record + 8),
        reflection: word_at(bytes, 16 * record + 12),
    }
}

/// The points of the whole records of `bytes`.
pub open spec fn decoded(bytes: Seq<u8>) -> Seq<Point> {
    Seq::new((bytes.len() / 16) as nat, |record: int| point_at(bytes, record))
}

/// What decoding `bytes` gives: the points, where the stream ends at the
/// end of a record; otherwise the failure, with the number of whole records
/// and of the bytes after them.
pub open spec fn decode_result(bytes: Seq<u8>) -> Result<Seq<Point>, Error> {
    if bytes.len() % 16 == 0 {
        Ok(decoded(bytes))
    } else {
        Err(
            Error::Truncated {
                records: (bytes.len() / 16) as usize,
                trailing: (bytes.len() % 16) as usize,
            },
        )
    }
}

/// The record of `point`.
pub open spec fn point_bytes(point: Point) -> Seq<u8> {
    le_bytes(point.x) + le_bytes(point.y) + le_bytes(point.z) + le_bytes(point.reflection)
}

/// The stream that holds the records of `points`, one after the other.
pub open spec fn encoded(points: Seq<Point>) -> Seq<u8> {
    Seq::new(16 * points.len(), |i: int| point_bytes(points[i / 16])[i % 16])
}

/// The bytes of a word give the word back.
pub proof fn lemma_word_round_trip(word: u32)
    ensures
        le_bytes(word).len() == 4,
        le_word(le_bytes(word)[0], le_bytes(word)[1], le_bytes(word)[2], le_bytes(word)[3])
            == word,
{
}

/// The word of four bytes gives the bytes back.
pub proof fn lemma_bytes_round_trip(b0: u8, b1: u8, b2: u8, b3: u8)
    ensures
        le_bytes(le_word(b0, b1, b2, b3)) == seq![b0, b1, b2, b3],
{
    let word: int = b0 as int + b1 as int * 0x100 + b2 as int * 0x1_0000 + b3 as int * 0x100_0000;
    assert(0 <= word < 0x1_0000_0000);
    assert(le_word(b0, b1, b2, b3) == word);
    assert(word % 0x100 == b0);
    assert(word / 0x100 == b1 as int + b2 as int * 0x100 + b3 as int * 0x1_0000);
    assert(word / 0x1_0000 == b2 as int + b3 as int * 0x100);
    assert(word / 0x100_0000 == b3);
    let bytes = le_bytes(le_word(b0, b1, b2, b3));
    assert(bytes.len() == 4);
    assert(bytes[0] == b0);
    assert(bytes[1] == b1);
    assert(bytes[2] == b2);
    assert(bytes[3] == b3);
    assert(bytes =~= seq![b0, b1, b2, b3]);
}

/// Four runs of four bytes, one after the other, are the sixteen bytes
/// they were taken from.
proof fn lemma_four_words(record: Seq<u8>, x: Seq<u8>, y: Seq<u8>, z: Seq<u8>, r: Seq<u8>)
    requires
        record.len() == 16,
        x == seq![record[0], record[1], record[2], record[3]],
        y == seq![record[4], record[5], record[6], record[7]],
        z == seq![record[8], record[9], record[10], record[11]],
        r == seq![record[12], record[13], record[14], record[15]],
    ensures
        x + y + z + r == record,
{
    assert(x + y + z + r =~= record);
}

/// The point of a record gives the record back.
proof fn lemma_record_of_point(record: Seq<u8>)
    requires
        record.len() == 16,
    ensures
        point_bytes(point_at(record, 0)) == record,
{
    let point = point_at(record, 0);
    lemma_bytes_round_trip(record[0], record[1], record[2], record[3]);
    lemma_bytes_round_trip(record[4], record[5], record[6], record[7]);
    lemma_bytes_round_trip(record[8], record[9], record[10], record[11]);
    lemma_bytes_round_trip(record[12], record[13], record[14], record[15]);
    lemma_four_words(
        record,
        le_bytes(point.x),
        le_bytes(point.y),
        le_bytes(point.z),
        le_bytes(point.reflection),
    );
}

/// One more point adds its record at the end of the stream.
proof fn lemma_encoded_push(points: Seq<Point>, point: Point)
    ensures
        encoded(points.push(point)) == encoded(points) + point_bytes(point),
{
    let more = points.push(point);
    let n = points.len() as int;
    lemma_record_round_trip(point);
    assert forall|k: int| 0 <= k < 16 * (n + 1) implies #[trigger] encoded(more)[k] == (encoded(
        points,
    ) + point_bytes(point))[k] by {
        if k < 16 * n {
            assert(more[k / 16] == points[k / 16]);
        } else {
            assert(k / 16 == n);
            assert(k % 16 == k - 16 * n);
        }
    }
    assert(encoded(more) =~= encoded(points) + point_bytes(point));
}

/// The record of a point holds its four words, in order.
proof fn lemma_record_round_trip(point: Point)
    ensures
        point_bytes(point).len() == 16,
        point_at(point_bytes(point), 0) == point,
{
    let bytes = point_bytes(point);
    let x = le_bytes(point.x);
    let y = le_bytes(point.y);
    let z = le_bytes(point.z);
    let r = le_bytes(point.reflection);
    lemma_word_round_trip(point.x);
    lemma_word_round_trip(point.y);
    lemma_word_round_trip(point.z);
    lemma_word_round_trip(point.reflection);
    assert(bytes.len() == 16);
    assert(bytes[0] == x[0] && bytes[1] == x[1] && bytes[2] == x[2] && bytes[3] == x[3]);
    assert(bytes[4] == y[0] && bytes[5] == y[1] && bytes[6] == y[2] && bytes[7] == y[3]);
    assert(bytes[8] == z[0] && bytes[9] == z[1] && bytes[10] == z[2] && bytes[11] == z[3]);
    assert(bytes[12] == r[0] && bytes[13] == r[1] && bytes[14] == r[2] && bytes[15] == r[3]);
}

/// Byte `k` of record `record` of an encoded stream is byte `k` of that
/// point's record.
proof fn lemma_encoded_byte(points: Seq<Point>, record: int, k: int)
    requires
        0 <= record < points.len(),
        0 <= k < 16,
    ensures
        encoded(points)[16 * record + k] == point_bytes(points[record])[k],
{
    assert((16 * record + k) / 16 == record);
    assert((16 * record + k) % 16 == k);
}

/// Record `record` of an encoded stream decodes to the point it was made
/// from.
proof fn lemma_encoded_record(points: Seq<Point>, record: int)
    requires
        0 <= record < points.len(),
    ensures
        point_at(encoded(points), record) == points[record],
{
    let point = points[record];
    lemma_record_round_trip(point);
    lemma_encoded_byte(points, record, 0);
    lemma_encoded_byte(points, record, 1);
    lemma_encoded_byte(points, record, 2);
    lemma_encoded_byte(points, record, 3);
    lemma_encoded_byte(points, record, 4);
    lemma_encoded_byte(points, record, 5);
    lemma_encoded_byte(points, record, 6);
    lemma_encoded_byte(points, record, 7);
    lemma_encoded_byte(points, record, 8);
    lemma_encoded_byte(points, record, 9);
    lemma_encoded_byte(points, record, 10);
    lemma_encoded_byte(points, record, 11);
    lemma_encoded_byte(points, record, 12);
    lemma_encoded_byte(points, record, 13);
    lemma_encoded_byte(points, record, 14);
    lemma_encoded_byte(points, record, 15);
}

/// Decoding the stream that `points` were encoded to gives the same points,
/// bit for bit, whatever their number.
pub proof fn lemma_decode_encoded(points: Seq<Point>)
    ensures
        encoded(points).len() == 16 * points.len(),
        decode_result(encoded(points)) == Ok::<Seq<Point>, Error>(points),
{
    let bytes = encoded(points);
    assert forall|record: int| 0 <= record < points.len() implies #[trigger] point_at(
        bytes,
        record,
    ) == points[record] by {
        lemma_encoded_record(points, record);
    }
    assert(decoded(bytes) =~= points);
}

fn read_word(bytes: &[u8], at: usize) -> (word: u32)
    requires
        at + 4 <= bytes.len(),
    ensures
        word == word_at(bytes@, at as int),
{
    let b0: u32 = bytes[at] as u32;
    let b1: u32 = bytes[at + 1] as u32;
    let b2: u32 = bytes[at + 2] as u32;
    let b3: u32 = bytes[at + 3] as u32;
    b0 + b1 * 0x100 + b2 * 0x1_0000 + b3 * 0x100_0000
}

fn write_word(out: &mut Vec<u8>, word: u32)
    ensures
        final(out)@ == old(out)@ + le_bytes(word),
{
    out.push((word % 0x100) as u8);
    out.push((word / 0x100 % 0x100) as u8);
    out.push((word / 0x1_0000 % 0x100) as u8);
    out.push((word / 0x100_0000) as u8);
    assert(final(out)@ =~= old(out)@ + le_bytes(word));
}

/// Decodes a stream of point records.
///
/// Records are taken one after the other. A stream that ends at the start
/// of a record is complete; one that ends inside a record is truncated, and
/// nothing of it is returned.
pub fn vec_from_bytes(bytes: &[u8]) -> (result: Result<Vec<Point>, Error>)
    ensures
        result is Ok <==> bytes@.len() % 16 == 0,
        match result {
            Ok(points) => decode_result(bytes@) == Ok::<Seq<Point>, Error>(points@),
            Err(e) => decode_result(bytes@) == Err::<Seq<Point>, Error>(e),
        },
{
    let mut points: Vec<Point> = Vec::new();
    let mut at: usize = 0;
    while at < bytes.len()
        invariant
            at <= bytes.len(),
            at == 16 * points.len(),
            forall|record: int|
                0 <= record < points.len() ==> #[trigger] points[record] == point_at(
                    bytes@,
                    record,
                ),
        decreases bytes.len() - at,
    {
        let left = bytes.len() - at;
        if left < RECORD_LEN {
            return Err(Error::Truncated { records: points.len(), trailing: left });
        }
        let x = read_word(bytes, at);
        let y = read_word(bytes, at + 4);
        let z = read_word(bytes, at + 8);
        let reflection = read_word(bytes, at + 12);
        points.push(Point { x, y, z, reflection });
        at = at + RECORD_LEN;
    }
    assert(points@ =~= decoded(bytes@));
    Ok(points)
}

impl PointCloud {
    /// Decodes a stream of point records, as `vec_from_bytes` does.
    pub fn from_bytes(bytes: &[u8]) -> (result: Result<Self, Error>)
        ensures
            result is Ok <==> bytes@.len() % 16 == 0,
            match result {
                Ok(cloud) => decode_result(bytes@) == Ok::<Seq<Point>, Error>(cloud@),
                Err(e) => decode_result(bytes@) == Err::<Seq<Point>, Error>(e),
            },
    {
        match vec_from_bytes(bytes) {
            Ok(points) => Ok(PointCloud(points)),
            Err(e) => Err(e),
        }
    }

    /// Encodes the points as a stream of records.
    pub fn to_bytes(&self) -> (bytes: Vec<u8>)
        ensures
            bytes@ == encoded(self@),
    {
        let mut bytes: Vec<u8> = Vec::new();
        let mut i: usize = 0;
        while i < self.0.len()
            invariant
                i <= self.0.len(),
                bytes@ == encoded(self@.take(i as int)),
            decreases self.0.len() - i,
        {
            let ghost before = bytes@;
            let point = self.0[i];
            write_word(&mut bytes, point.x);
            write_word(&mut bytes, point.y);
            write_word(&mut bytes, point.z);
            write_word(&mut bytes, point.reflection);
            i = i + 1;
            proof {
                assert(bytes@ =~= before + point_bytes(point));
                assert(self@.take(i as int) =~= self@.take(i - 1).push(point));
                lemma_encoded_push(self@.take(i - 1), point);
            }
        }
        assert(self@.take(i as int) =~= self@);
        bytes
    }
}

/// A decoder that takes the stream piece by piece, as it is read.
///
/// It keeps the points of the records that are complete and the bytes of the
/// record that is not, fewer than a record takes.
#[derive(Debug)]
pub struct PointCloudDecoder {
    points: Vec<Point>,
    pending: Vec<u8>,
}

impl PointCloudDecoder {
    #[verifier::type_invariant]
    spec fn well_formed(&self) -> bool {
        self.pending.len() < RECORD_LEN
    }

    /// The bytes that the decoder has been fed, from the start.
    pub closed spec fn stream(&self) -> Seq<u8> {
        encoded(self.points@) + self.pending@
    }

    /// A decoder at the start of a stream.
    pub fn new() -> (decoder: Self)
        ensures
            decoder.stream() == Seq::<u8>::empty(),
    {
        let decoder = PointCloudDecoder { points: Vec::new(), pending: Vec::new() };
        assert(decoder.stream() =~= Seq::<u8>::empty());
        decoder
    }

    /// Takes the next piece of the stream, of any length, and gives the
    /// decoder that has seen it.
    pub fn feed(self, chunk: &[u8]) -> (next: Self)
        ensures
            next.stream() == self.stream() + chunk@,
    {
        proof {
            use_type_invariant(&self);
        }
        let ghost start = self.stream();
        let mut points = self.points;
        let mut pending = self.pending;
        let mut i: usize = 0;
        assert(start + chunk@.take(0) =~= start);
        while i < chunk.len()
            invariant
                i <= chunk.len(),
                pending.len() < RECORD_LEN,
                encoded(points@) + pending@ == start + chunk@.take(i as int),
            decreases chunk.len() - i,
        {
            let ghost fed = encoded(points@) + pending@;
            let ghost complete = points@;
            let byte = chunk[i];
            if pending.len() + 1 < RECORD_LEN {
                pending.push(byte);
                assert(encoded(points@) + pending@ =~= fed.push(byte));
            } else {
                let ghost record = pending@.push(byte);
                let x = pending_word(&pending, byte, 0);
                let y = pending_word(&pending, byte, 4);
                let z = pending_word(&pending, byte, 8);
                let reflection = pending_word(&pending, byte, 12);
                let point = Point { x, y, z, reflection };
                points.push(point);
                pending.clear();
                proof {
                    assert(point == point_at(record, 0));
                    lemma_record_of_point(record);
                    lemma_encoded_push(complete, point);
                    assert(encoded(points@) + pending@ =~= fed.push(byte));
                }
            }
            i = i + 1;
            assert(chunk@.take(i as int) =~= chunk@.take(i - 1).push(byte));
            assert(start + chunk@.take(i - 1).push(byte) =~= (start + chunk@.take(i - 1)).push(
                byte,
            ));
        }
        assert(chunk@.take(i as int) =~= chunk@);
        PointCloudDecoder { points, pending }
    }

    /// Ends the stream: the points, where the stream ended at the end of a
    /// record, or the failure, where it ended inside one.
    pub fn finish(self) -> (result: Result<PointCloud, Error>)
        ensures
            result is Ok <==> self.stream().len() % 16 == 0,
            match result {
                Ok(cloud) => decode_result(self.stream()) == Ok::<Seq<Point>, Error>(cloud@),
                Err(e) => decode_result(self.stream()) == Err::<Seq<Point>, Error>(e),
            },
    {
        proof {
            use_type_invariant(&self);
            lemma_decode_encoded(self.points@);
        }
        let trailing = self.pending.len();
        if trailing == 0 {
            assert(self.stream() =~= encoded(self.points@));
            Ok(PointCloud(self.points))
        } else {
            let records = self.points.len();
            assert(self.stream().len() == 16 * records + trailing);
            Err(Error::Truncated { records, trailing })
        }
    }
}

/// The word at `at` of the record made of the fifteen bytes `pending` and
/// the byte `last`.
fn pending_word(pending: &Vec<u8>, last: u8, at: usize) -> (word: u32)
    requires
        pending.len() == 15,
        at + 4 <= 16,
    ensures
        word == word_at(pending@.push(last), at as int),
{
    let b0: u32 = pending[at] as u32;
    let b1: u32 = pending[at + 1] as u32;
    let b2: u32 = pending[at + 2] as u32;
    let b3: u32 = if at + 3 < 15 {
        pending[at + 3] as u32
    } else {
        last as u32
    };
    b0 + b1 * 0x100 + b2 * 0x1_0000 + b3 * 0x100_0000
}

impl Point {
    /// The bit patterns of the coordinates.
    pub fn xyz(&self) -> (out: [u32; 3])
        ensures
            out@ == seq![self.x, self.y, self.z],
    {
        let out = [self.x, self.y, self.z];
        assert(out@ =~= seq![self.x, self.y, self.z]);
        out
    }

    /// The bit patterns of the coordinates and of the reflection intensity.
    pub fn xyzr(&self) -> (out: [u32; 4])
        ensures
            out@ == seq![self.x, self.y, self.z, self.reflection],
    {
        let out = [self.x, self.y, self.z, self.reflection];
        assert(out@ =~= seq![self.x, self.y, self.z, self.reflection]);
        out
    }
}

} // verus!
