use hangul_codec::CodecError;
use hangul_codec::HangulNumberConverter;

#[test]
fn test_encode_decode_zero() {
    let converter = HangulNumberConverter::new();
    for seed in 0..128 {
        let encoded = converter.encode_with_seed(0, seed).unwrap();
        let decoded = converter.decode(&encoded).unwrap();
        assert_eq!(decoded, 0);
    }
}

#[test]
fn test_encode_decode_various() {
    let converter = HangulNumberConverter::new();
    let test_values: Vec<u64> = vec![1, 127, 128, 255, 1000, 16384, 1000000, u64::MAX / 2];

    for num in test_values {
        for seed in 0..128 {
            let encoded = converter.encode_with_seed(num, seed).unwrap();
            let decoded = converter.decode(&encoded).unwrap();
            assert_eq!(decoded, num, "Failed for num={}, seed={}", num, seed);
        }
    }
}

#[test]
fn test_all_128_encodings() {
    let converter = HangulNumberConverter::new();
    let all = converter.encode_all(12345).unwrap();
    assert_eq!(all.len(), 128);

    for encoded in &all {
        let decoded = converter.decode(encoded).unwrap();
        assert_eq!(decoded, 12345);
    }
}

#[test]
fn test_invalid_seed() {
    let converter = HangulNumberConverter::new();
    assert!(converter.encode_with_seed(100, 128).is_err());
    assert!(converter.encode_with_seed(100, 200).is_err());
}

#[test]
fn test_invalid_decode() {
    let converter = HangulNumberConverter::new();
    assert!(converter.decode("가").is_err()); // Too short
    assert!(converter.decode("").is_err()); // Empty
}

#[test]
fn test_round_trip_scenario() {
    let converter = HangulNumberConverter::new();
    let encoded = converter.encode_with_seed(12345, 0).unwrap();
    assert_eq!(converter.decode(&encoded).unwrap(), 12345);

    let all = converter.encode_all(12345).unwrap();
    assert_eq!(all.len(), 128);
    for encoded in &all {
        assert_eq!(converter.decode(encoded).unwrap(), 12345);
    }
    assert_ne!(all[0], all[1]);
    assert_eq!(all[0], converter.encode_with_seed(12345, 0).unwrap());
    assert_eq!(all[1], converter.encode_with_seed(12345, 1).unwrap());
}

#[test]
fn test_zero_always_two_symbols() {
    let converter = HangulNumberConverter::new();
    for seed in 0..128 {
        let encoded = converter.encode_with_seed(0, seed).unwrap();
        assert_eq!(encoded.chars().count(), 2);
    }
}

#[test]
fn test_encoded_symbol_counts() {
    let converter = HangulNumberConverter::new();
    let cases: Vec<(u64, usize)> = vec![
        (0, 2),
        (1, 2),
        (127, 2),
        (128, 3),
        (16383, 3),
        (16384, 4),
        (u64::MAX, 11),
    ];
    for (num, symbols) in cases {
        let encoded = converter.encode_with_seed(num, 5).unwrap();
        assert_eq!(encoded.chars().count(), symbols, "num={}", num);
    }
}

#[test]
fn test_error_variants() {
    let converter = HangulNumberConverter::new();
    assert_eq!(
        converter.encode_with_seed(7, 128),
        Err(CodecError::InvalidSeed)
    );
    assert_eq!(
        converter.encode_with_seed(7, 200),
        Err(CodecError::InvalidSeed)
    );
    assert_eq!(converter.decode(""), Err(CodecError::TooShort));
    assert_eq!(converter.decode("가"), Err(CodecError::TooShort));
    assert_eq!(converter.decode("AB"), Err(CodecError::UnknownSymbol('A')));
    assert_eq!(converter.decode("가A"), Err(CodecError::UnknownSymbol('A')));
}

#[test]
fn test_concrete_encodings() {
    let converter = HangulNumberConverter::new();
    assert_eq!(converter.encode_with_seed(0, 0).unwrap(), "가가");
    assert_eq!(converter.encode_with_seed(1, 0).unwrap(), "가간");
    assert_eq!(converter.encode_with_seed(0, 1).unwrap(), "간간");
    assert_eq!(converter.decode("가간").unwrap(), 1);
    assert_eq!(converter.decode("가간강").unwrap(), 1 * 128 + 2);
}

#[test]
fn test_encode_random_seed_decodes_back() {
    let converter = HangulNumberConverter::new();
    for num in [0u64, 1, 129, 99999] {
        let encoded = converter.encode(num).unwrap();
        assert_eq!(converter.decode(&encoded).unwrap(), num);
    }
}

#[test]
fn test_seed_independence() {
    let converter = HangulNumberConverter::new();
    let reference = converter.decode(&converter.encode_with_seed(4242, 0).unwrap()).unwrap();
    for seed in 1..128 {
        let encoded = converter.encode_with_seed(4242, seed).unwrap();
        assert_eq!(converter.decode(&encoded).unwrap(), reference);
    }
}
