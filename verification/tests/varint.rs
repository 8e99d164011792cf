use sqlite_reader::errors::FormatError;
use sqlite_reader::storage::varint::{encoded_len, read_varint, write_varint};

#[test]
fn single_byte_values_decode_to_themselves() {
    assert_eq!(read_varint(&[0x00], 0), Ok((0, 1)));
    assert_eq!(read_varint(&[0x01], 0), Ok((1, 1)));
    assert_eq!(read_varint(&[0x7f], 0), Ok((127, 1)));
}

#[test]
fn two_and_three_byte_values_are_big_endian_base_128() {
    assert_eq!(read_varint(&[0x81, 0x00], 0), Ok((128, 2)));
    assert_eq!(read_varint(&[0xff, 0x7f], 0), Ok((16383, 2)));
    assert_eq!(read_varint(&[0x81, 0x80, 0x00], 0), Ok((16384, 3)));
    assert_eq!(read_varint(&[0x82, 0x2c], 0), Ok((300, 2)));
}

#[test]
fn decoding_stops_at_the_terminating_byte() {
    assert_eq!(read_varint(&[0x05, 0xff, 0xff], 0), Ok((5, 1)));
    assert_eq!(read_varint(&[0x81, 0x00, 0x99], 0), Ok((128, 2)));
}

#[test]
fn decoding_starts_at_the_cursor() {
    assert_eq!(read_varint(&[0xaa, 0x05], 1), Ok((5, 1)));
    assert_eq!(read_varint(&[0x01, 0x02, 0x81, 0x01, 0x07], 2), Ok((129, 2)));
}

#[test]
fn ninth_byte_carries_eight_bits() {
    assert_eq!(read_varint(&[0xff; 9], 0), Ok((u64::MAX, 9)));
    let bytes = [0x81, 0x80, 0x80, 0x80, 0x80, 0x80, 0x80, 0x80, 0x80];
    assert_eq!(read_varint(&bytes, 0), Ok((144115188075856000, 9)));
    let padded = [0x80, 0x80, 0x80, 0x80, 0x80, 0x80, 0x80, 0x80, 0x01];
    assert_eq!(read_varint(&padded, 0), Ok((1, 9)));
}

#[test]
fn at_most_nine_bytes_are_consumed() {
    let bytes = [0xff, 0xff, 0xff, 0xff, 0xff, 0xff, 0xff, 0xff, 0xff, 0xff, 0x01];
    assert_eq!(read_varint(&bytes, 0), Ok((u64::MAX, 9)));
}

#[test]
fn truncated_buffers_are_refused() {
    assert_eq!(read_varint(&[], 0), Err(FormatError::TruncatedVarint));
    assert_eq!(read_varint(&[0x81], 0), Err(FormatError::TruncatedVarint));
    assert_eq!(read_varint(&[0x80; 8], 0), Err(FormatError::TruncatedVarint));
    assert_eq!(read_varint(&[0xff, 0xff, 0xff], 1), Err(FormatError::TruncatedVarint));
}

#[test]
fn cursor_past_the_end_is_refused() {
    assert_eq!(read_varint(&[0x01], 1), Err(FormatError::TruncatedVarint));
    assert_eq!(read_varint(&[0x01], 7), Err(FormatError::TruncatedVarint));
    assert_eq!(read_varint(&[0x01], usize::MAX), Err(FormatError::TruncatedVarint));
}

#[test]
fn varint_encoding_gives_the_exact_bytes() {
    assert_eq!(write_varint(0), vec![0x00]);
    assert_eq!(write_varint(127), vec![0x7f]);
    assert_eq!(write_varint(128), vec![0x81, 0x00]);
    assert_eq!(write_varint(16383), vec![0xff, 0x7f]);
    assert_eq!(write_varint(16384), vec![0x81, 0x80, 0x00]);
    assert_eq!(write_varint(2097151), vec![0xff, 0xff, 0x7f]);
    assert_eq!(write_varint(2097152), vec![0x81, 0x80, 0x80, 0x00]);
    assert_eq!(
        write_varint(72057594037927935),
        vec![0xff, 0xff, 0xff, 0xff, 0xff, 0xff, 0xff, 0x7f]
    );
    assert_eq!(
        write_varint(72057594037927936),
        vec![0x80, 0xc0, 0x80, 0x80, 0x80, 0x80, 0x80, 0x80, 0x00]
    );
    assert_eq!(
        write_varint(1 << 63),
        vec![0xc0, 0x80, 0x80, 0x80, 0x80, 0x80, 0x80, 0x80, 0x00]
    );
    assert_eq!(
        write_varint(0x0123456789abcdef),
        vec![0x80, 0xc8, 0xe8, 0xd6, 0xbc, 0xa6, 0xd7, 0xcd, 0xef]
    );
    assert_eq!(write_varint(u64::MAX), vec![0xff; 9]);
}

#[test]
fn encoded_length_is_minimal_and_capped_at_nine() {
    let mut limit: u64 = 1;
    for bytes in 1..=8usize {
        limit <<= 7;
        assert_eq!(encoded_len(limit - 1), bytes);
        assert_eq!(write_varint(limit - 1).len(), bytes);
        assert_eq!(encoded_len(limit), bytes + 1);
        assert_eq!(write_varint(limit).len(), bytes + 1);
    }
    assert_eq!(encoded_len(u64::MAX), 9);
    assert_eq!(encoded_len(0), 1);
}

#[test]
fn varint_round_trip_on_sample_values() {
    let mut samples: Vec<u64> = vec![0, 1, 2, 126, 127, 128, 129, 255, 256, u64::MAX, u64::MAX - 1];
    for shift in 0..64 {
        let p = 1u64 << shift;
        samples.push(p);
        samples.push(p - 1);
        samples.push(p + 1);
        samples.push(p | 0x55);
    }
    let mut x: u64 = 0x9e3779b97f4a7c15;
    for _ in 0..2000 {
        x ^= x << 13;
        x ^= x >> 7;
        x ^= x << 17;
        samples.push(x);
        samples.push(x >> (x % 64));
    }
    for v in samples {
        let bytes = write_varint(v);
        assert_eq!(bytes.len(), encoded_len(v));
        assert_eq!(read_varint(&bytes, 0), Ok((v, bytes.len())), "value {}", v);
        let mut framed = vec![0xff, 0x80];
        framed.extend_from_slice(&bytes);
        framed.extend_from_slice(&[0x80, 0xff]);
        assert_eq!(read_varint(&framed, 2), Ok((v, bytes.len())), "framed value {}", v);
    }
}

#[test]
fn a_row_id_above_two_to_the_fifty_six_survives() {
    let v: u64 = 0xfedc_ba98_7654_3210;
    let bytes = write_varint(v);
    assert_eq!(bytes.len(), 9);
    assert_eq!(read_varint(&bytes, 0), Ok((v, 9)));
}
