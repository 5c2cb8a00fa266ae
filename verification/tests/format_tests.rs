use hangul_codec::format::format_number_with_commas;

#[test]
fn test_format_small_numbers() {
    assert_eq!(format_number_with_commas(0), "0");
    assert_eq!(format_number_with_commas(7), "7");
    assert_eq!(format_number_with_commas(100), "100");
    assert_eq!(format_number_with_commas(999), "999");
}

#[test]
fn test_format_grouped_numbers() {
    assert_eq!(format_number_with_commas(1000), "1,000");
    assert_eq!(format_number_with_commas(12345), "12,345");
    assert_eq!(format_number_with_commas(1000000), "1,000,000");
    assert_eq!(format_number_with_commas(1234567), "1,234,567");
    assert_eq!(
        format_number_with_commas(u64::MAX),
        "18,446,744,073,709,551,615"
    );
}
