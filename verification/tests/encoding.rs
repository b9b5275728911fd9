use huff_codegen::encoding::{format_byte, format_bytes, format_decimal, format_hex, format_in_base};

#[test]
fn hex_is_filled_up_to_the_width() {
    assert_eq!(format_hex(0, 4), "0000");
    assert_eq!(format_hex(10, 4), "000a");
    assert_eq!(format_hex(13, 4), "000d");
    assert_eq!(format_hex(0xffff, 4), "ffff");
    assert_eq!(format_hex(0x60, 2), "60");
    assert_eq!(format_hex(0x7f, 2), "7f");
    assert_eq!(format_hex(5, 1), "5");
    assert_eq!(format_hex(5, 0), "5");
    assert_eq!(format_hex(0, 0), "0");
}

#[test]
fn long_hex_numbers_are_written_in_full() {
    assert_eq!(format_hex(0x1_0000, 4), "10000");
    assert_eq!(format_hex(0x127, 2), "127");
    assert_eq!(format_hex(u128::MAX, 4), "f".repeat(32));
    assert_eq!(format_hex(0xdead_beef, 12), "0000deadbeef");
}

#[test]
fn format_hex_agrees_with_the_standard_format() {
    for n in [0u128, 1, 15, 16, 255, 256, 4095, 4096, 65535, 65536, 1 << 40] {
        assert_eq!(format_hex(n, 4), format!("{:04x}", n));
        assert_eq!(format_hex(n, 2), format!("{:02x}", n));
    }
}

#[test]
fn decimal_numbers_have_no_leading_zeros() {
    assert_eq!(format_decimal(0), "0");
    assert_eq!(format_decimal(9), "9");
    assert_eq!(format_decimal(10), "10");
    assert_eq!(format_decimal(256), "256");
    assert_eq!(format_decimal(90_210), "90210");
}

#[test]
fn other_bases_are_written_too() {
    assert_eq!(format_in_base(5, 2, 8), "00000101");
    assert_eq!(format_in_base(8, 8, 0), "10");
    assert_eq!(format_in_base(255, 16, 0), "ff");
}

#[test]
fn bytes_are_written_as_two_digits_each() {
    assert_eq!(format_byte(0), "00");
    assert_eq!(format_byte(0x0a), "0a");
    assert_eq!(format_byte(0xf0), "f0");
    assert_eq!(format_byte(0xff), "ff");
    assert_eq!(format_bytes(&[]), "");
    assert_eq!(format_bytes(&[1, 2, 3, 15, 16]), "0102030f10");
}
