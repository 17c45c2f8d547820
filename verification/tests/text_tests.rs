use chip8::emulator::text::{push_decimal, push_hex};

fn hex(value: usize, width: usize) -> String {
    let mut out = String::new();
    push_hex(&mut out, value, width);
    out
}

fn decimal(value: usize) -> String {
    let mut out = String::new();
    push_decimal(&mut out, value);
    out
}

#[test]
fn test_hex_pads_to_the_width() {
    assert_eq!("0", hex(0, 0));
    assert_eq!("0", hex(0, 1));
    assert_eq!("0000", hex(0, 4));
    assert_eq!("00A", hex(10, 3));
    assert_eq!("FF", hex(255, 2));
    assert_eq!("0FF", hex(255, 3));
}

#[test]
fn test_hex_gives_every_digit_of_a_wide_number() {
    assert_eq!("1000", hex(0x1000, 3));
    assert_eq!("ABCDEF", hex(0xABCDEF, 2));
    assert_eq!("123456789", hex(0x123456789, 0));
}

#[test]
fn test_hex_agrees_with_the_standard_formatter() {
    for value in 0..0x2000usize {
        assert_eq!(format!("{value:X}"), hex(value, 1));
        assert_eq!(format!("{value:03X}"), hex(value, 3));
        assert_eq!(format!("{value:04X}"), hex(value, 4));
        assert_eq!(format!("{value:#05X}"), format!("0x{}", hex(value, 3)));
    }
    assert_eq!(format!("{:X}", usize::MAX), hex(usize::MAX, 1));
}

#[test]
fn test_hex_appends() {
    let mut out = String::from("x=");
    push_hex(&mut out, 0xBEEF, 4);
    push_hex(&mut out, 1, 2);
    assert_eq!("x=BEEF01", out);
}

#[test]
fn test_decimal() {
    assert_eq!("0", decimal(0));
    assert_eq!("9", decimal(9));
    assert_eq!("10", decimal(10));
    assert_eq!("255", decimal(255));
    assert_eq!("4096", decimal(4096));
}

#[test]
fn test_decimal_agrees_with_the_standard_formatter() {
    for value in 0..2000usize {
        assert_eq!(format!("{value}"), decimal(value));
    }
    assert_eq!(format!("{}", usize::MAX), decimal(usize::MAX));
}
