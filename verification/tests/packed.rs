use packed_uints::PackedUints;
use rustcraft::packed::{
    decode_packed_values, deserialize_packed, encode_packed_values, is_packable, serialize_packed,
    PackedDecodeError,
};

#[test]
fn encodes_count_then_little_endian_values() {
    assert_eq!(
        encode_packed_values(3, &vec![1, 2, 300]),
        vec![3, 0, 0, 0, 1, 0, 0, 0, 2, 0, 0, 0, 44, 1, 0, 0]
    );
    assert_eq!(encode_packed_values(0, &vec![]), vec![0, 0, 0, 0]);
    assert_eq!(
        encode_packed_values(1, &vec![0x0102_0304]),
        vec![1, 0, 0, 0, 4, 3, 2, 1]
    );
}

#[test]
fn encoding_stops_at_the_count() {
    assert_eq!(encode_packed_values(1, &vec![5, 6]), vec![1, 0, 0, 0, 5, 0, 0, 0]);
    // A count above the available values keeps the count and writes what there is.
    assert_eq!(encode_packed_values(2, &vec![5]), vec![2, 0, 0, 0, 5, 0, 0, 0]);
}

#[test]
fn short_input_is_rejected() {
    assert_eq!(decode_packed_values(&vec![]), Err(PackedDecodeError::TooShort));
    assert_eq!(decode_packed_values(&vec![1, 0, 0]), Err(PackedDecodeError::TooShort));
}

#[test]
fn length_mismatch_is_rejected() {
    assert_eq!(
        decode_packed_values(&vec![2, 0, 0, 0, 1, 0, 0, 0]),
        Err(PackedDecodeError::LengthMismatch { expected: 8, count: 2, got: 4 })
    );
    assert_eq!(
        decode_packed_values(&vec![0, 0, 0, 0, 9]),
        Err(PackedDecodeError::LengthMismatch { expected: 0, count: 0, got: 1 })
    );
}

#[test]
fn decodes_values() {
    assert_eq!(
        decode_packed_values(&vec![3, 0, 0, 0, 1, 0, 0, 0, 2, 0, 0, 0, 44, 1, 0, 0]),
        Ok(vec![1, 2, 300])
    );
    assert_eq!(decode_packed_values(&vec![0, 0, 0, 0]), Ok(vec![]));
    assert_eq!(
        decode_packed_values(&vec![1, 0, 0, 0, 255, 255, 255, 255]),
        Ok(vec![u32::MAX as usize])
    );
}

#[test]
fn packable_values() {
    assert!(is_packable(&vec![]));
    assert!(is_packable(&vec![1, 2]));
    assert!(is_packable(&vec![16]));
    assert!(is_packable(&vec![0, 300, 1]));
    assert!(!is_packable(&vec![0]));
    assert!(!is_packable(&vec![0, 0]));
    assert!(!is_packable(&vec![1]));
    assert!(!is_packable(&vec![3, 0, 15]));
}

#[test]
fn stored_values_read_back_unchanged() {
    for values in [vec![1u32, 2, 3, 4], vec![300, 5, 7], vec![70000, 0, 1], vec![]] {
        let length = values.len();
        let bytes = encode_packed_values(length, &values);
        let packed = deserialize_packed(&bytes).expect("well-formed bytes");
        assert_eq!(packed.length, length);
        assert_eq!(serialize_packed(&packed), bytes);
        let read: Vec<usize> = values.iter().map(|v| *v as usize).collect();
        assert_eq!(decode_packed_values(&serialize_packed(&packed)), Ok(read));
    }
}

#[test]
fn serializes_packed_storage() {
    let mut p = PackedUints::new(4);
    p.set(1, 9);
    p.set(3, 1000);
    assert_eq!(
        serialize_packed(&p),
        vec![4, 0, 0, 0, 0, 0, 0, 0, 9, 0, 0, 0, 0, 0, 0, 0, 232, 3, 0, 0]
    );
}

#[test]
fn deserialize_reports_errors() {
    assert_eq!(deserialize_packed(&vec![7]).err(), Some(PackedDecodeError::TooShort));
    assert_eq!(
        deserialize_packed(&vec![1, 0, 0, 0]).err(),
        Some(PackedDecodeError::LengthMismatch { expected: 4, count: 1, got: 0 })
    );
}

#[test]
fn stored_storage_reads_back_its_values() {
    let mut p = PackedUints::new(4);
    p.set(0, 1);
    let bytes = serialize_packed(&p);
    assert_eq!(decode_packed_values(&bytes), Ok(vec![1, 0, 0, 0]));
    let q = deserialize_packed(&bytes).expect("well-formed bytes");
    assert_eq!(q.length, 4);
    for i in 0..4 {
        assert_eq!(q.get(i), p.get(i));
    }
}
