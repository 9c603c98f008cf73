use sigil::text::{digit_str, push_decimal, push_hundredths, push_signed_decimal, to_hex};

#[test]
fn decimal_rendering() {
    let mut s = String::from("n=");
    push_decimal(&mut s, 0);
    push_decimal(&mut s, 1234567890);
    push_decimal(&mut s, u64::MAX);
    assert_eq!(s, "n=0123456789018446744073709551615");
}

#[test]
fn signed_decimal_rendering() {
    let mut s = String::new();
    push_signed_decimal(&mut s, -42);
    push_signed_decimal(&mut s, 7);
    push_signed_decimal(&mut s, i64::MIN);
    assert_eq!(s, "-427-9223372036854775808");
}

#[test]
fn hundredths_rendering() {
    let mut s = String::new();
    for n in [1u64, 12345, 0, 50, 100, 1230, 10_000_000_000_000] {
        push_hundredths(&mut s, n);
        s.push(' ');
    }
    assert_eq!(s, "0.01 123.45 0 0.5 1 12.3 100000000000 ");
}

#[test]
fn hex_rendering() {
    assert_eq!(to_hex(&[0x00, 0xab, 0xff, 0x10]), "00abff10");
    assert_eq!(to_hex(&[]), "");
    assert_eq!(digit_str(11), "b");
}
