use rollup_codec::abi::{
    check_funsel, decode_uint, decode_uint_nn, decode_uint_nr, encode_uint, encode_uint_nn,
    encode_uint_nr, fill_reserved, funsel, get_address, get_bool, get_bytes_d, get_bytes_s,
    get_uint, get_uint256, get_uint_be, mark_frame, peek_bytes_d, peek_funsel, put_address,
    put_bool, put_bytes_d, put_bytes_s, put_funsel, put_uint, put_uint256, put_uint_be,
    reserve_bytes_d, start_frame,
};
use rollup_codec::buf::{buffer_len, split, Reader};
use rollup_codec::errors::RollupError;
use rollup_codec::hexutil::{Address, U256};

#[test]
fn encode_decode_uint_round_trip() {
    for &(n, v) in &[
        (1usize, 0u64),
        (1, 255),
        (2, 0x1234),
        (4, 0xdead_beef),
        (8, u64::MAX),
    ] {
        let w = encode_uint(n, v).unwrap();
        assert_eq!(w.len(), 32);
        assert_eq!(decode_uint(&w, n).unwrap(), v);
    }
}

#[test]
fn encode_uint_rejects_out_of_range() {
    assert_eq!(encode_uint(1, 256), Err(RollupError::EncodingRangeError));
    assert_eq!(encode_uint(9, 0), Err(RollupError::EncodingRangeError));
}

#[test]
fn encode_uint_exact_bytes() {
    let w = encode_uint(4, 0xdead_beef).unwrap();
    let mut expected = vec![0u8; 28];
    expected.extend_from_slice(&[0xde, 0xad, 0xbe, 0xef]);
    assert_eq!(w, expected);
}

#[test]
fn decode_uint_rejects_nonzero_padding() {
    let mut w = vec![0u8; 32];
    w[20] = 1;
    w[31] = 9;
    assert_eq!(decode_uint(&w, 8), Err(RollupError::EncodingRangeError));
    assert_eq!(decode_uint(&w, 4), Err(RollupError::EncodingRangeError));
}

#[test]
fn encode_decode_uint_nr_passthrough() {
    let data = vec![0xab, 0xcd, 0xef];
    let w = encode_uint_nr(3, &data).unwrap();
    assert_eq!(&w[29..], &data[..]);
    assert_eq!(decode_uint_nr(&w, 3).unwrap(), data);
    // nr skips validation: extracting a narrower width still succeeds
    assert_eq!(decode_uint_nr(&w, 2).unwrap(), vec![0xcd, 0xef]);
}

#[test]
fn encode_decode_uint_nn_strict() {
    let data = vec![0x00, 0x12, 0x34];
    let w = encode_uint_nn(2, &data).unwrap();
    assert_eq!(decode_uint_nn(&w, 2).unwrap(), vec![0x12, 0x34]);
    // a nonzero byte outside the declared width is an encoding range error
    let bad = vec![0x01, 0x12, 0x34];
    assert_eq!(encode_uint_nn(2, &bad), Err(RollupError::EncodingRangeError));
    assert_eq!(decode_uint_nn(&w, 1), Err(RollupError::EncodingRangeError));
}

#[test]
fn frame_uint_round_trip() {
    let mut f = start_frame(64, 64).unwrap();
    put_uint(&mut f, 4, 0xdead_beef).unwrap();
    let mut r = Reader::new(f.data);
    assert_eq!(get_uint(&mut r, 4).unwrap(), 0xdead_beef);
}

#[test]
fn frame_uint_be_round_trip() {
    let mut f = start_frame(32, 32).unwrap();
    put_uint_be(&mut f, &[0x01, 0x02, 0x03]).unwrap();
    let mut r = Reader::new(f.data);
    assert_eq!(get_uint_be(&mut r, 3).unwrap(), vec![0x01, 0x02, 0x03]);
}

#[test]
fn frame_uint256_round_trip() {
    let mut value = vec![0u8; 32];
    value[0] = 0xff;
    value[31] = 0x01;
    let mut f = start_frame(32, 32).unwrap();
    put_uint256(&mut f, &U256 { data: value.clone() }).unwrap();
    let mut r = Reader::new(f.data);
    assert_eq!(get_uint256(&mut r).unwrap().data, value);
}

#[test]
fn frame_bool_round_trip() {
    for &b in &[true, false] {
        let mut f = start_frame(32, 32).unwrap();
        put_bool(&mut f, b).unwrap();
        let mut r = Reader::new(f.data);
        assert_eq!(get_bool(&mut r).unwrap(), b);
    }
}

#[test]
fn get_bool_rejects_other_bytes() {
    let mut w = vec![0u8; 32];
    w[31] = 2;
    let mut r = Reader::new(w);
    assert_eq!(get_bool(&mut r), Err(RollupError::InvalidBoolEncoding));
}

#[test]
fn frame_address_round_trip() {
    let addr = vec![0xaa; 20];
    let mut f = start_frame(32, 32).unwrap();
    put_address(&mut f, &Address { data: addr.clone() }).unwrap();
    let mut r = Reader::new(f.data);
    assert_eq!(get_address(&mut r).unwrap().data, addr);
}

#[test]
fn get_address_rejects_nonzero_padding() {
    let mut w = vec![0u8; 32];
    w[5] = 1;
    let mut r = Reader::new(w);
    assert_eq!(get_address(&mut r), Err(RollupError::InvalidAddressEncoding));
}

#[test]
fn funsel_packs_big_endian() {
    assert_eq!(funsel(0xa9, 0x05, 0x9c, 0xbb), 0xa9059cbb);
    assert_eq!(funsel(0, 0, 0, 1), 1);
}

#[test]
fn funsel_round_trip_through_frame() {
    let mut f = start_frame(36, 36).unwrap();
    put_funsel(&mut f, 0xa9059cbb).unwrap();
    let r0 = Reader::new(f.data);
    assert_eq!(peek_funsel(&r0).unwrap(), 0xa9059cbb);
    let mut r = r0;
    assert_eq!(
        check_funsel(&mut r, 0xdeadbeef),
        Err(RollupError::SelectorMismatch)
    );
    check_funsel(&mut r, 0xa9059cbb).unwrap();
}

#[test]
fn peek_funsel_underflow() {
    let r = Reader::new(vec![1, 2, 3]);
    assert_eq!(peek_funsel(&r), Err(RollupError::BufferUnderflow));
}

#[test]
fn bytes_s_round_trip() {
    let payload = vec![7u8; 33];
    let mut f = start_frame(64, 64).unwrap();
    put_bytes_s(&mut f, &payload).unwrap();
    assert_eq!(f.head, 64); // 33 padded to 64
    let mut r = Reader::new(f.data);
    assert_eq!(get_bytes_s(&mut r, 33).unwrap(), payload);
    assert_eq!(r.pos, 64);
}

#[test]
fn bytes_d_round_trip_various_lengths() {
    for len in [0usize, 1, 31, 32, 33, 4096] {
        let payload: Vec<u8> = (0..len).map(|i| (i % 251) as u8).collect();
        let padded = ((len + 31) / 32) * 32;
        let mut f = start_frame(32 + 32 + padded, 32).unwrap();
        put_bytes_d(&mut f, &payload).unwrap();
        // occupies one offset word of head and 32 + padded bytes of tail
        assert_eq!(f.head, 32);
        assert_eq!(f.tail, 32 + 32 + padded);
        let mut r = Reader::new(f.data);
        assert_eq!(get_bytes_d(&mut r).unwrap(), payload);
        assert_eq!(r.pos, 32);
    }
}

#[test]
fn bytes_d_overflow_on_small_frame() {
    let mut f = start_frame(64, 32).unwrap();
    assert_eq!(
        put_bytes_d(&mut f, &[1u8; 40]),
        Err(RollupError::BufferOverflow)
    );
}

#[test]
fn bytes_d_dangling_offset() {
    // an offset word pointing past the end of the buffer
    let mut data = vec![0u8; 64];
    data[31] = 200;
    let mut r = Reader::new(data);
    assert_eq!(get_bytes_d(&mut r), Err(RollupError::DanglingOffset));
    // a length word claiming more bytes than remain
    let mut data2 = vec![0u8; 64];
    data2[31] = 32; // offset -> 32
    data2[63] = 255; // length 255, but nothing follows
    let mut r2 = Reader::new(data2);
    assert_eq!(get_bytes_d(&mut r2), Err(RollupError::DanglingOffset));
}

#[test]
fn bytes_d_underflow() {
    let mut r = Reader::new(vec![0u8; 16]);
    assert_eq!(get_bytes_d(&mut r), Err(RollupError::BufferUnderflow));
}

#[test]
fn peek_bytes_d_does_not_consume() {
    let payload = vec![9u8, 8, 7];
    let mut f = start_frame(96, 32).unwrap();
    put_bytes_d(&mut f, &payload).unwrap();
    let r = Reader::new(f.data);
    assert_eq!(peek_bytes_d(&r).unwrap(), payload);
    assert_eq!(r.pos, 0);
}

#[test]
fn reserve_and_fill() {
    let mut f = start_frame(96, 32).unwrap();
    let at = reserve_bytes_d(&mut f, 4).unwrap();
    assert_eq!(at, 64); // tail was 32; payload region starts after the length word
    fill_reserved(&mut f, at, &[0xca, 0xfe, 0xba, 0xbe]);
    let mut r = Reader::new(f.data);
    assert_eq!(get_bytes_d(&mut r).unwrap(), vec![0xca, 0xfe, 0xba, 0xbe]);
}

#[test]
fn mark_frame_rebases_offsets() {
    // encode a frame, then place it after a 4-byte selector in a buffer
    let payload = vec![5u8; 10];
    let mut f = start_frame(96, 32).unwrap();
    put_bytes_d(&mut f, &payload).unwrap();
    let mut buf = vec![0xa9, 0x05, 0x9c, 0xbb];
    buf.extend_from_slice(&f.data);
    let mut r = Reader::new(buf);
    check_funsel(&mut r, 0xa9059cbb).unwrap();
    mark_frame(&mut r); // offsets are now relative to position 4
    assert_eq!(get_bytes_d(&mut r).unwrap(), payload);
}

#[test]
fn start_frame_rejects_oversized_head() {
    assert!(matches!(start_frame(16, 32), Err(RollupError::BufferOverflow)));
}

#[test]
fn put_overflow_errors() {
    let mut f = start_frame(16, 16).unwrap();
    assert_eq!(put_uint(&mut f, 4, 1), Err(RollupError::BufferOverflow));
    assert_eq!(put_funsel(&mut f, 1), Ok(()));
    assert_eq!(f.head, 4);
}

#[test]
fn get_underflow_errors() {
    let mut r = Reader::new(vec![0u8; 8]);
    assert_eq!(get_uint(&mut r, 4), Err(RollupError::BufferUnderflow));
    assert_eq!(get_bytes_s(&mut r, 9), Err(RollupError::BufferUnderflow));
}

#[test]
fn split_and_buffer_len() {
    let data = vec![1u8, 2, 3, 4, 5];
    let (lhs, rhs) = split(&data, 2).unwrap();
    assert_eq!(lhs, vec![1, 2]);
    assert_eq!(rhs, vec![3, 4, 5]);
    assert_eq!(split(&data, 6), Err(RollupError::BufferUnderflow));
    let r = Reader::new(data);
    assert_eq!(buffer_len(&r), 5);
}
