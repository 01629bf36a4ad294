use serframe::text::u8_dec_string;

#[test]
fn decimal_rendering_has_no_leading_zeros() {
    assert_eq!(u8_dec_string(0), "0");
    assert_eq!(u8_dec_string(7), "7");
    assert_eq!(u8_dec_string(9), "9");
    assert_eq!(u8_dec_string(10), "10");
    assert_eq!(u8_dec_string(42), "42");
    assert_eq!(u8_dec_string(99), "99");
    assert_eq!(u8_dec_string(100), "100");
    assert_eq!(u8_dec_string(144), "144");
    assert_eq!(u8_dec_string(255), "255");
}

#[test]
fn decimal_rendering_matches_std() {
    for n in 0..=255u16 {
        let n = n as u8;
        assert_eq!(u8_dec_string(n), n.to_string());
    }
}
