use wagyu_runtime::leb128::{decode_sleb128, decode_uleb128, encode_sleb128, encode_uleb128};

#[test]
fn test_encode_unsigned_leb128() {
    let test_cases = vec![(0u64, vec![0]), (127u64, vec![0x7f]), (128u64, vec![0x80, 0x01])];

    for (input, expected_output) in test_cases {
        let encoded = encode_uleb128(input);
        assert_eq!(encoded, expected_output);
    }
}

#[test]
fn test_decode_unsigned_leb128() {
    let test_cases = vec![
        (vec![0], (0u64, 1usize)),
        (vec![0x7f], (127u64, 1usize)),
        (vec![0x80, 0x01], (128u64, 2usize)),
        (vec![0x80, 0x01, 0x03], (128u64, 2usize)),
        (vec![0x80, 0x01, 0x80, 0x01], (128u64, 2usize)),
    ];

    for (input, (expected_value, expected_count)) in test_cases {
        let (decoded_value, decoded_count) = decode_uleb128(&input).unwrap();
        assert_eq!(decoded_value, expected_value);
        assert_eq!(decoded_count, expected_count);
    }
}

#[test]
fn test_encode_signed_leb128() {
    let test_cases = vec![
        (0i64, vec![0]),
        (1i64, vec![0x01]),
        (63i64, vec![0x3f]),
        (64i64, vec![0xc0, 0x00]),
        (-1i64, vec![0x7f]),
        (-65i64, vec![0xbf, 0x7f]),
        (-624485i64, vec![0x9B, 0xF1, 0x59]),
    ];

    for (input, expected_output) in test_cases {
        let encoded = encode_sleb128(input);
        assert_eq!(encoded, expected_output);
    }
}

#[test]
fn test_decode_signed_leb128() {
    let test_cases = vec![
        (vec![0], (0i64, 1usize)),
        (vec![0x01], (1i64, 1usize)),
        (vec![0x3f], (63i64, 1usize)),
        (vec![0xc0, 0x00], (64i64, 2usize)),
        (vec![0xc0, 0x00, 0x7c], (64i64, 2usize)),
        (vec![0x7f], (-1i64, 1usize)),
        (vec![0xbf, 0x7f], (-65i64, 2usize)),
        (vec![0x9B, 0xF1, 0x59], (-624485i64, 3usize)),
    ];

    for (input, (expected_value, expected_count)) in test_cases {
        let (decoded_value, decoded_count) = decode_sleb128(&input).unwrap();
        assert_eq!(decoded_value, expected_value);
        assert_eq!(decoded_count, expected_count);
    }
}

#[test]
fn literal_vectors() {
    assert_eq!(encode_uleb128(0), vec![0x00]);
    assert_eq!(encode_uleb128(127), vec![0x7F]);
    assert_eq!(encode_uleb128(128), vec![0x80, 0x01]);
    assert_eq!(decode_uleb128(&[0x80, 0x01, 0x03]), Some((128, 2)));
    assert_eq!(encode_sleb128(-624485), vec![0x9B, 0xF1, 0x59]);
    assert_eq!(decode_sleb128(&[0x9B, 0xF1, 0x59]), Some((-624485, 3)));
    assert_eq!(encode_sleb128(64), vec![0xC0, 0x00]);
    assert_eq!(encode_sleb128(-1), vec![0x7F]);
}

#[test]
fn round_trip_samples() {
    let unsigned = [0u64, 1, 127, 128, 300, 16383, 16384, u32::MAX as u64, u64::MAX - 1, u64::MAX];
    for v in unsigned {
        let e = encode_uleb128(v);
        assert_eq!(decode_uleb128(&e), Some((v, e.len())));
        let mut padded = e.clone();
        padded.push(0x80);
        assert_eq!(decode_uleb128(&padded), Some((v, e.len())));
    }
    let signed = [0i64, 1, -1, 63, 64, -64, -65, 624485, -624485, i64::MIN, i64::MAX];
    for v in signed {
        let e = encode_sleb128(v);
        assert_eq!(decode_sleb128(&e), Some((v, e.len())));
    }
    assert_eq!(encode_uleb128(u64::MAX).len(), 10);
    assert_eq!(encode_sleb128(i64::MIN).len(), 10);
}

#[test]
fn malformed_integers() {
    assert_eq!(decode_uleb128(&[]), None);
    assert_eq!(decode_uleb128(&[0x80, 0x80]), None);
    assert_eq!(decode_sleb128(&[0xFF]), None);
    // eleven bytes: longer than any 64-bit value needs
    let long = [0x80u8, 0x80, 0x80, 0x80, 0x80, 0x80, 0x80, 0x80, 0x80, 0x80, 0x00];
    assert_eq!(decode_uleb128(&long), None);
    // ten bytes whose value needs 70 bits
    let wide = [0xFFu8, 0xFF, 0xFF, 0xFF, 0xFF, 0xFF, 0xFF, 0xFF, 0xFF, 0x7F];
    assert_eq!(decode_uleb128(&wide), None);
    assert_eq!(decode_sleb128(&[0xFFu8, 0xFF, 0xFF, 0xFF, 0xFF, 0xFF, 0xFF, 0xFF, 0xFF, 0x3F]), None);
}
