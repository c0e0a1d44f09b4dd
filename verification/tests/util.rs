use linker::text::digits_text;
use linker::util::FromBytes;

#[test]
fn read_u8_takes_one_byte() {
    let bytes = [0xABu8, 0xCD];
    let mut cursor = &bytes[..];
    assert_eq!(u8::read_le_bytes(&mut cursor), 0xAB);
    assert_eq!(cursor, &[0xCDu8][..]);
}

#[test]
fn read_u16_is_little_endian() {
    let bytes = [0x34u8, 0x12, 0xFF];
    let mut cursor = &bytes[..];
    assert_eq!(u16::read_le_bytes(&mut cursor), 0x1234);
    assert_eq!(cursor, &[0xFFu8][..]);
}

#[test]
fn read_u32_is_little_endian() {
    let bytes = [0x78u8, 0x56, 0x34, 0x12];
    let mut cursor = &bytes[..];
    assert_eq!(u32::read_le_bytes(&mut cursor), 0x1234_5678);
    assert!(cursor.is_empty());
}

#[test]
fn read_u64_is_little_endian() {
    let bytes = [0x08u8, 0x07, 0x06, 0x05, 0x04, 0x03, 0x02, 0x01, 0x99];
    let mut cursor = &bytes[..];
    assert_eq!(u64::read_le_bytes(&mut cursor), 0x0102_0304_0506_0708);
    assert_eq!(cursor, &[0x99u8][..]);
}

#[test]
fn read_u128_is_little_endian() {
    let mut bytes = [0u8; 16];
    bytes[0] = 0x01;
    bytes[15] = 0x80;
    let mut cursor = &bytes[..];
    assert_eq!(u128::read_le_bytes(&mut cursor), (0x80u128 << 120) | 1);
    assert!(cursor.is_empty());
}

#[test]
fn read_u64_max() {
    let bytes = [0xFFu8; 8];
    let mut cursor = &bytes[..];
    assert_eq!(u64::read_le_bytes(&mut cursor), u64::MAX);
}

#[test]
fn read_usize_takes_a_machine_word() {
    let bytes = [0x01u8, 0x02, 0x03, 0x04, 0x05, 0x06, 0x07, 0x08, 0x09];
    let mut cursor = &bytes[..];
    let width = std::mem::size_of::<usize>();
    let mut word = [0u8; std::mem::size_of::<usize>()];
    word.copy_from_slice(&bytes[..width]);
    assert_eq!(usize::read_le_bytes(&mut cursor), usize::from_le_bytes(word));
    assert_eq!(cursor.len(), bytes.len() - width);
}

#[test]
fn read_isize_takes_a_machine_word() {
    let bytes = [0xFFu8; 8];
    let mut cursor = &bytes[..];
    assert_eq!(isize::read_le_bytes(&mut cursor), -1);
    assert_eq!(cursor.len(), 8 - std::mem::size_of::<isize>());
}

#[test]
fn read_i8_is_twos_complement() {
    let bytes = [0x80u8, 0x7F, 0xFF, 0x00];
    let mut cursor = &bytes[..];
    assert_eq!(i8::read_le_bytes(&mut cursor), i8::MIN);
    assert_eq!(i8::read_le_bytes(&mut cursor), i8::MAX);
    assert_eq!(i8::read_le_bytes(&mut cursor), -1);
    assert_eq!(i8::read_le_bytes(&mut cursor), 0);
    assert!(cursor.is_empty());
}

#[test]
fn read_i16_is_twos_complement() {
    let bytes = [0xFEu8, 0xFF, 0x00, 0x80, 0xFF, 0x7F];
    let mut cursor = &bytes[..];
    assert_eq!(i16::read_le_bytes(&mut cursor), -2);
    assert_eq!(i16::read_le_bytes(&mut cursor), i16::MIN);
    assert_eq!(i16::read_le_bytes(&mut cursor), i16::MAX);
}

#[test]
fn read_i32_is_twos_complement() {
    let bytes = [0x00u8, 0x00, 0x00, 0x80, 0xD6, 0xFF, 0xFF, 0xFF];
    let mut cursor = &bytes[..];
    assert_eq!(i32::read_le_bytes(&mut cursor), i32::MIN);
    assert_eq!(i32::read_le_bytes(&mut cursor), -42);
}

#[test]
fn read_i64_is_twos_complement() {
    let bytes = [0xFFu8, 0xFF, 0xFF, 0xFF, 0xFF, 0xFF, 0xFF, 0xFF, 0x2A, 0, 0, 0, 0, 0, 0, 0];
    let mut cursor = &bytes[..];
    assert_eq!(i64::read_le_bytes(&mut cursor), -1);
    assert_eq!(i64::read_le_bytes(&mut cursor), 42);
}

#[test]
fn read_i128_is_twos_complement() {
    let mut bytes = [0u8; 32];
    bytes[15] = 0x80;
    for byte in bytes[16..].iter_mut() {
        *byte = 0xFF;
    }
    let mut cursor = &bytes[..];
    assert_eq!(i128::read_le_bytes(&mut cursor), i128::MIN);
    assert_eq!(i128::read_le_bytes(&mut cursor), -1);
}

#[test]
fn reads_agree_with_std() {
    let bytes: Vec<u8> = (0..64u32).map(|i| (i * 37 + 11) as u8).collect();
    let mut cursor = &bytes[..];
    let mut at = 0;
    while cursor.len() >= 8 {
        let mut word = [0u8; 8];
        word.copy_from_slice(&bytes[at..at + 8]);
        assert_eq!(i64::read_le_bytes(&mut cursor), i64::from_le_bytes(word));
        at += 8;
    }
    let mut cursor = &bytes[..];
    let mut at = 0;
    while cursor.len() >= 4 {
        let mut word = [0u8; 4];
        word.copy_from_slice(&bytes[at..at + 4]);
        assert_eq!(u32::read_le_bytes(&mut cursor), u32::from_le_bytes(word));
        at += 4;
    }
}

#[test]
fn consecutive_reads_walk_the_cursor() {
    let bytes = [0x01u8, 0x02, 0x00, 0x03, 0x00, 0x00, 0x00, 0x04];
    let mut cursor = &bytes[..];
    assert_eq!(u8::read_le_bytes(&mut cursor), 1);
    assert_eq!(u16::read_le_bytes(&mut cursor), 2);
    assert_eq!(u32::read_le_bytes(&mut cursor), 3);
    assert_eq!(u8::read_le_bytes(&mut cursor), 4);
    assert!(cursor.is_empty());
}

#[test]
fn digits_of_zero() {
    assert_eq!(digits_text(0, 10), "0");
    assert_eq!(digits_text(0, 16), "0");
}

#[test]
fn digits_in_base_ten() {
    assert_eq!(digits_text(7, 10), "7");
    assert_eq!(digits_text(10, 10), "10");
    assert_eq!(digits_text(15, 10), "15");
    assert_eq!(digits_text(1234567890, 10), "1234567890");
    assert_eq!(digits_text(u64::MAX, 10), "18446744073709551615");
}

#[test]
fn digits_in_base_sixteen() {
    assert_eq!(digits_text(0xA, 16), "a");
    assert_eq!(digits_text(0x10, 16), "10");
    assert_eq!(digits_text(0xDEAD_BEEF, 16), "deadbeef");
    assert_eq!(digits_text(u64::MAX, 16), "ffffffffffffffff");
}

#[test]
fn digits_agree_with_formatting() {
    for value in [0u64, 1, 9, 10, 11, 99, 100, 255, 256, 4095, 4096, 65535, 1 << 40] {
        assert_eq!(digits_text(value, 10), format!("{}", value));
        assert_eq!(digits_text(value, 16), format!("{:x}", value));
    }
}

#[test]
fn digits_in_base_two() {
    assert_eq!(digits_text(5, 2), "101");
}
