//! Byte layout of packed block indices (a `PackedUints` of the `packed_uints`
//! crate) in saved chunks and network messages: the number of values as a
//! little-endian `u32`, then each value as a little-endian `u32`.
use vstd::prelude::*;

use packed_uints::PackedUints;

verus! {

#[verifier::external_type_specification]
#[verifier::external_body]
pub struct ExPackedUints(PackedUints);

/// The values a `PackedUints` holds: one per index below its `length`
/// field, value `i` being what its `get(i)` returns.
pub uninterp spec fn packed_values(p: PackedUints) -> Seq<usize>;

/// What `PackedUints::unpack_u32` returns for `p`.
pub uninterp spec fn packed_unpacked(p: PackedUints) -> Seq<u32>;

/// Reads the `length` field of a `PackedUints`, the number of values it holds.
#[verifier::external_body]
fn packed_len(p: &PackedUints) -> (r: usize)
    ensures
        r == packed_values(*p).len(),
{
    p.length
}

/// Calls `PackedUints::unpack_u32`, which lists the stored values as `u32`s,
/// two per byte for four-bit storage and one per element otherwise. Where
/// that list is at least as long as the value count, its first values are
/// the values held (each fits in a `u32`: the widest storage is `u32`).
#[verifier::external_body]
fn packed_unpack_u32(p: &PackedUints) -> (r: Vec<u32>)
    ensures
        r@ == packed_unpacked(*p),
        r@.len() >= packed_values(*p).len() ==> forall|i: int|
            0 <= i < packed_values(*p).len() ==> r@[i] as int == packed_values(*p)[i] as int,
{
    p.unpack_u32()
}

/// Values that `PackedUints::from` accepts and stores unchanged: it takes
/// the logarithm of the largest value, which panics when all of a non-empty
/// list are zero; values below 16 are stored two per byte, reading past the
/// end of a list of odd length; and the widest storage is `u32`.
pub open spec fn packable(values: Seq<usize>) -> bool {
    &&& values.len() > 0 ==> exists|i: int| 0 <= i < values.len() && values[i] > 0
    &&& (forall|i: int| 0 <= i < values.len() ==> values[i] < 16) ==> values.len() % 2 == 0
    &&& forall|i: int| 0 <= i < values.len() ==> values[i] <= u32::MAX
}

/// Calls `PackedUints::from`. For packable values it stores them as given,
/// in a width for which `unpack_u32` returns exactly them.
#[verifier::external_body]
fn packed_from(values: &Vec<usize>) -> (r: PackedUints)
    requires
        packable(values@),
    ensures
        packed_values(r) == values@,
        packed_unpacked(r).len() == values@.len(),
        forall|i: int| 0 <= i < values@.len() ==> packed_unpacked(r)[i] as int == values@[i] as int,
{
    PackedUints::from(values.as_slice())
}

/// The four little-endian bytes of `v`.
pub open spec fn le32(v: u32) -> Seq<u8> {
    seq![
        (v % 256) as u8,
        ((v / 256) % 256) as u8,
        ((v / 65536) % 256) as u8,
        (v / 16777216) as u8,
    ]
}

/// The value of the four little-endian bytes of `b` starting at `at`.
pub open spec fn le32_at(b: Seq<u8>, at: int) -> int {
    b[at] + 256 * b[at + 1] + 65536 * b[at + 2] + 16777216 * b[at + 3]
}

/// The values, each as four little-endian bytes, one after the other.
pub open spec fn values_bytes(values: Seq<u32>) -> Seq<u8>
    decreases values.len(),
{
    if values.len() == 0 {
        seq![]
    } else {
        values_bytes(values.drop_last()) + le32(values.last())
    }
}

/// The encoding of `values` under the header count `count`.
pub open spec fn packed_bytes(count: u32, values: Seq<u32>) -> Seq<u8> {
    le32(count) + values_bytes(values)
}

/// The values stored after the header of `b`, one per four bytes.
pub open spec fn decoded_values(b: Seq<u8>) -> Seq<usize> {
    Seq::new(((b.len() - 4) / 4) as nat, |i: int| le32_at(b, 4 + 4 * i) as usize)
}

/// Why bytes do not decode to packed values.
#[derive(Debug, Clone, Copy, PartialEq, Eq, Structural)]
pub enum PackedDecodeError {
    /// Fewer than the four bytes of the header.
    TooShort,
    /// The bytes after the header are not four per announced value.
    LengthMismatch { expected: u64, count: u32, got: usize },
}

/// The outcome of decoding `b`.
pub open spec fn decode_spec(b: Seq<u8>) -> Result<Seq<usize>, PackedDecodeError> {
    if b.len() < 4 {
        Err(PackedDecodeError::TooShort)
    } else if b.len() - 4 != 4 * le32_at(b, 0) {
        Err(
            PackedDecodeError::LengthMismatch {
                expected: (4 * le32_at(b, 0)) as u64,
                count: le32_at(b, 0) as u32,
                got: (b.len() - 4) as usize,
            },
        )
    } else {
        Ok(decoded_values(b))
    }
}

fn push_le32(out: &mut Vec<u8>, v: u32)
    ensures
        final(out)@ == old(out)@ + le32(v),
{
    out.push((v % 256) as u8);
    out.push(((v / 256) % 256) as u8);
    out.push(((v / 65536) % 256) as u8);
    out.push((v / 16777216) as u8);
    proof {
        assert(out@ =~= old(out)@ + le32(v));
    }
}

/// Encodes a value count and values: the header holds `length` (as `u32`),
/// followed by the first `length` values (fewer when there are fewer).
pub fn encode_packed_values(length: usize, values: &Vec<u32>) -> (r: Vec<u8>)
    ensures
        r@ == packed_bytes(
            length as u32,
            values@.take(if length < values@.len() { length as int } else { values@.len() as int }),
        ),
{
    let mut bytes: Vec<u8> = Vec::new();
    push_le32(&mut bytes, length as u32);
    let n = if length < values.len() { length } else { values.len() };
    let mut i: usize = 0;
    while i < n
        invariant
            i <= n <= values@.len(),
            bytes@ == packed_bytes(length as u32, values@.take(i as int)),
        decreases n - i,
    {
        push_le32(&mut bytes, values[i]);
        proof {
            assert(values@.take(i + 1).drop_last() =~= values@.take(i as int));
            assert(bytes@ =~= packed_bytes(length as u32, values@.take(i + 1)));
        }
        i += 1;
    }
    bytes
}

/// Encodes packed values for storage or sending: the count, then the values
/// as `unpack_u32` lists them, as many as the count.
pub fn serialize_packed(p: &PackedUints) -> (r: Vec<u8>)
    ensures
        r@ == packed_bytes(
            packed_values(*p).len() as u32,
            packed_unpacked(*p).take(
                if packed_values(*p).len() < packed_unpacked(*p).len() {
                    packed_values(*p).len() as int
                } else {
                    packed_unpacked(*p).len() as int
                },
            ),
        ),
        packed_values(*p).len() <= packed_unpacked(*p).len() && packed_values(*p).len()
            <= u32::MAX ==> decode_spec(r@) == Ok::<Seq<usize>, PackedDecodeError>(
            packed_values(*p),
        ),
{
    let length = packed_len(p);
    let values = packed_unpack_u32(p);
    proof {
        if packed_values(*p).len() <= packed_unpacked(*p).len() && packed_values(*p).len()
            <= u32::MAX {
            lemma_serialize_deserialize(*p);
        }
    }
    encode_packed_values(length, &values)
}

fn read_le32(b: &Vec<u8>, at: usize) -> (r: u32)
    requires
        at + 4 <= b@.len(),
    ensures
        r as int == le32_at(b@, at as int),
{
    let len = b.len();
    assert(at + 4 <= len);
    let b0 = b[at] as u32;
    let b1 = b[at + 1] as u32;
    let b2 = b[at + 2] as u32;
    let b3 = b[at + 3] as u32;
    assert(b0 + 256 * b1 + 65536 * b2 + 16777216 * b3 <= u32::MAX) by (nonlinear_arith)
        requires
            b0 < 256,
            b1 < 256,
            b2 < 256,
            b3 < 256,
    ;
    b0 + 256 * b1 + 65536 * b2 + 16777216 * b3
}

/// Decodes bytes into the values they hold: fewer than four bytes are too
/// short; otherwise the header's count must announce exactly the bytes that
/// follow, four per value.
pub fn decode_packed_values(bytes: &Vec<u8>) -> (r: Result<Vec<usize>, PackedDecodeError>)
    ensures
        match r {
            Ok(v) => decode_spec(bytes@) == Ok::<Seq<usize>, PackedDecodeError>(v@),
            Err(e) => decode_spec(bytes@) == Err::<Seq<usize>, PackedDecodeError>(e),
        },
{
    if bytes.len() < 4 {
        return Err(PackedDecodeError::TooShort);
    }
    let count = read_le32(bytes, 0);
    let data_len = bytes.len() - 4;
    let expected: u64 = count as u64 * 4;
    if data_len as u64 != expected {
        return Err(PackedDecodeError::LengthMismatch { expected, count, got: data_len });
    }
    let mut values: Vec<usize> = Vec::new();
    let mut i: usize = 0;
    while i < count as usize
        invariant
            i <= count,
            bytes@.len() == 4 + 4 * count,
            bytes@.len() <= usize::MAX,
            count as int == le32_at(bytes@, 0),
            values@ == decoded_values(bytes@).take(i as int),
        decreases count - i,
    {
        assert(4 + 4 * i + 4 <= bytes@.len());
        let v = read_le32(bytes, 4 + 4 * i);
        values.push(v as usize);
        proof {
            assert(values@ =~= decoded_values(bytes@).take(i + 1));
        }
        i += 1;
    }
    proof {
        assert(values@ =~= decoded_values(bytes@));
    }
    Ok(values)
}

/// Whether the values can be packed (see `packable`).
pub fn is_packable(values: &Vec<usize>) -> (r: bool)
    ensures
        r == packable(values@),
{
    let mut any_nonzero = false;
    let mut all_small = true;
    let mut all_fit = true;
    let mut i: usize = 0;
    while i < values.len()
        invariant
            i <= values@.len(),
            any_nonzero == exists|j: int| 0 <= j < i && values@[j] > 0,
            all_small == forall|j: int| 0 <= j < i ==> values@[j] < 16,
            all_fit == forall|j: int| 0 <= j < i ==> values@[j] <= u32::MAX,
        decreases values.len() - i,
    {
        let v = values[i];
        if v > 0 {
            any_nonzero = true;
        }
        if v >= 16 {
            all_small = false;
        }
        if v > 4294967295usize {
            all_fit = false;
        }
        i += 1;
    }
    (values.len() == 0 || any_nonzero) && (!all_small || values.len() % 2 == 0) && all_fit
}

/// Decodes stored bytes into packed values. Where they decode, the values
/// must be packable: `PackedUints::from` panics on the others.
pub fn deserialize_packed(bytes: &Vec<u8>) -> (r: Result<PackedUints, PackedDecodeError>)
    requires
        decode_spec(bytes@) matches Ok(v) ==> packable(v),
    ensures
        match r {
            Ok(p) => decode_spec(bytes@) == Ok::<Seq<usize>, PackedDecodeError>(packed_values(p)),
            Err(e) => decode_spec(bytes@) == Err::<Seq<usize>, PackedDecodeError>(e),
        },
{
    match decode_packed_values(bytes) {
        Ok(values) => Ok(packed_from(&values)),
        Err(e) => Err(e),
    }
}

proof fn lemma_le32_value(v: u32)
    ensures
        le32_at(le32(v), 0) == v,
{
    let b0 = v % 256;
    let b1 = (v / 256) % 256;
    let b2 = (v / 65536) % 256;
    let b3 = v / 16777216;
    assert(b0 + 256 * b1 + 65536 * b2 + 16777216 * b3 == v) by (bit_vector)
        requires
            b0 == v % 256,
            b1 == (v / 256) % 256,
            b2 == (v / 65536) % 256,
            b3 == v / 16777216,
    ;
}

proof fn lemma_values_bytes(values: Seq<u32>)
    ensures
        values_bytes(values).len() == 4 * values.len(),
        forall|i: int, k: int|
            0 <= i < values.len() && 0 <= k < 4 ==> #[trigger] values_bytes(values)[4 * i + k]
                == le32(values[i])[k],
    decreases values.len(),
{
    if values.len() > 0 {
        let t = values.drop_last();
        lemma_values_bytes(t);
        assert forall|i: int, k: int|
            0 <= i < values.len() && 0 <= k < 4 implies #[trigger] values_bytes(values)[4 * i + k]
                == le32(values[i])[k] by {
            if i < t.len() {
                assert(values[i] == t[i]);
                assert(values_bytes(values)[4 * i + k] == values_bytes(t)[4 * i + k]);
            } else {
                assert(values_bytes(values)[4 * i + k] == le32(values.last())[k]);
            }
        }
    }
}

/// Reading back stored packed values gives what was written: the encoding
/// of values (announcing their number in the header) decodes to exactly
/// those values.
pub proof fn lemma_decode_encode(values: Seq<u32>)
    requires
        values.len() <= u32::MAX,
    ensures
        decode_spec(packed_bytes(values.len() as u32, values)) == Ok::<Seq<usize>, PackedDecodeError>(
            values.map_values(|v: u32| v as usize),
        ),
{
    let b = packed_bytes(values.len() as u32, values);
    lemma_values_bytes(values);
    lemma_le32_value(values.len() as u32);
    assert(le32_at(b, 0) == le32_at(le32(values.len() as u32), 0));
    assert(b.len() == 4 + 4 * values.len());
    assert(decoded_values(b) =~= values.map_values(|v: u32| v as usize)) by {
        assert forall|i: int| 0 <= i < values.len() implies #[trigger] decoded_values(b)[i]
            == values[i] as usize by {
            lemma_le32_value(values[i]);
            assert(values_bytes(values)[4 * i + 0] == le32(values[i])[0]);
            assert(values_bytes(values)[4 * i + 1] == le32(values[i])[1]);
            assert(values_bytes(values)[4 * i + 2] == le32(values[i])[2]);
            assert(values_bytes(values)[4 * i + 3] == le32(values[i])[3]);
            assert(le32_at(b, 4 + 4 * i) == le32_at(le32(values[i]), 0));
        }
    }
}

/// Packed values stored with `serialize_packed` read back as the same values:
/// for every `PackedUints` of at most `u32::MAX` values whose unpacked list
/// is at least as long as its count and agrees with its values (which
/// `unpack_u32` guarantees in that case), the stored bytes decode to its
/// values.
pub proof fn lemma_serialize_deserialize(p: PackedUints)
    requires
        packed_values(p).len() <= u32::MAX,
        packed_values(p).len() <= packed_unpacked(p).len(),
        forall|i: int|
            0 <= i < packed_values(p).len() ==> packed_unpacked(p)[i] as int
                == packed_values(p)[i] as int,
    ensures
        decode_spec(
            packed_bytes(
                packed_values(p).len() as u32,
                packed_unpacked(p).take(
                    if packed_values(p).len() < packed_unpacked(p).len() {
                        packed_values(p).len() as int
                    } else {
                        packed_unpacked(p).len() as int
                    },
                ),
            ),
        ) == Ok::<Seq<usize>, PackedDecodeError>(packed_values(p)),
{
    let values = packed_values(p);
    let u = packed_unpacked(p).take(values.len() as int);
    assert(packed_unpacked(p).take(
        if values.len() < packed_unpacked(p).len() {
            values.len() as int
        } else {
            packed_unpacked(p).len() as int
        },
    ) == u);
    lemma_decode_encode(u);
    assert(u.map_values(|v: u32| v as usize) =~= values);
}

} // verus!
