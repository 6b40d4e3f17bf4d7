use segy::reader::{
    read_i16, read_i16_sw, read_i24, read_i24_sw, read_i32, read_i32_sw, read_i64, read_i64_sw,
    read_i8, read_u16, read_u16_sw, read_u24, read_u24_sw, read_u32, read_u32_sw, read_u64,
    read_u64_sw, read_u8,
};

#[test]
fn test_read_i8() {
    let arr = [0xffu8, 0xeeu8];
    let mut ptr = &arr[..];
    assert_eq!(read_i8(&mut ptr), 0xffu8 as i8);
    assert_eq!(read_i8(&mut ptr), 0xeeu8 as i8);
}

#[test]
fn test_read_u8() {
    let arr = [0xffu8, 0xeeu8];
    let mut ptr = &arr[..];
    assert_eq!(read_u8(&mut ptr), 0xffu8);
    assert_eq!(read_u8(&mut ptr), 0xeeu8);
}

#[test]
fn test_read_i16() {
    let arr = [0xccu8, 0xddu8, 0xeeu8, 0xffu8];
    let mut ptr = &arr[..];
    assert_eq!(read_i16(&mut ptr), 0xddccu16 as i16);
    assert_eq!(read_i16(&mut ptr), 0xffeeu16 as i16);
}

#[test]
fn test_read_u16() {
    let arr = [0xccu8, 0xddu8, 0xeeu8, 0xffu8];
    let mut ptr = &arr[..];
    assert_eq!(read_u16(&mut ptr), 0xddccu16);
    assert_eq!(read_u16(&mut ptr), 0xffeeu16);
}

#[test]
fn test_read_i24() {
    let arr = [0xaau8, 0xbbu8, 0xccu8, 0xddu8, 0xeeu8, 0xffu8];
    let mut ptr = &arr[..];
    assert_eq!(read_i24(&mut ptr), 0xccbbaau32 as i32);
    assert_eq!(read_i24(&mut ptr), 0xffeeddu32 as i32);
}

#[test]
fn test_read_u24() {
    let arr = [0xaau8, 0xbbu8, 0xccu8, 0xddu8, 0xeeu8, 0xffu8];
    let mut ptr = &arr[..];
    assert_eq!(read_u24(&mut ptr), 0xccbbaau32);
    assert_eq!(read_u24(&mut ptr), 0xffeeddu32);
}

#[test]
fn test_read_i32() {
    let arr = [
        0x88u8, 0x99u8, 0xaau8, 0xbbu8, 0xccu8, 0xddu8, 0xeeu8, 0xffu8,
    ];
    let mut ptr = &arr[..];
    assert_eq!(read_i32(&mut ptr), 0xbbaa9988u32 as i32);
    assert_eq!(read_i32(&mut ptr), 0xffeeddccu32 as i32);
}

#[test]
fn test_read_u32() {
    let arr = [
        0x88u8, 0x99u8, 0xaau8, 0xbbu8, 0xccu8, 0xddu8, 0xeeu8, 0xffu8,
    ];
    let mut ptr = &arr[..];
    assert_eq!(read_u32(&mut ptr), 0xbbaa9988u32);
    assert_eq!(read_u32(&mut ptr), 0xffeeddccu32);
}

#[test]
fn test_read_i64() {
    let arr = [
        0x00u8, 0x11u8, 0x22u8, 0x33u8, 0x44u8, 0x55u8, 0x66u8, 0x77u8, 0x88u8, 0x99u8,
        0xaau8, 0xbbu8, 0xccu8, 0xddu8, 0xeeu8, 0xffu8,
    ];
    let mut ptr = &arr[..];
    assert_eq!(read_i64(&mut ptr), 0x7766554433221100u64 as i64);
    assert_eq!(read_i64(&mut ptr), 0xffeeddccbbaa9988u64 as i64);
}

#[test]
fn test_read_u64() {
    let arr = [
        0x00u8, 0x11u8, 0x22u8, 0x33u8, 0x44u8, 0x55u8, 0x66u8, 0x77u8, 0x88u8, 0x99u8,
        0xaau8, 0xbbu8, 0xccu8, 0xddu8, 0xeeu8, 0xffu8,
    ];
    let mut ptr = &arr[..];
    assert_eq!(read_u64(&mut ptr), 0x7766554433221100u64);
    assert_eq!(read_u64(&mut ptr), 0xffeeddccbbaa9988u64);
}

#[test]
fn test_read_i16_sw() {
    let arr = [0xccu8, 0xddu8, 0xeeu8, 0xffu8];
    let mut ptr = &arr[..];
    assert_eq!(read_i16_sw(&mut ptr), 0xccddu16 as i16);
    assert_eq!(read_i16_sw(&mut ptr), 0xeeffu16 as i16);
}

#[test]
fn test_read_u16_sw() {
    let arr = [0xccu8, 0xddu8, 0xeeu8, 0xffu8];
    let mut ptr = &arr[..];
    assert_eq!(read_u16_sw(&mut ptr), 0xccddu16);
    assert_eq!(read_u16_sw(&mut ptr), 0xeeffu16);
}

#[test]
fn test_read_i24_sw() {
    let arr = [0xaau8, 0xbbu8, 0xccu8, 0xddu8, 0xeeu8, 0xffu8];
    let mut ptr = &arr[..];
    assert_eq!(read_i24_sw(&mut ptr), 0xaabbccu32 as i32);
    assert_eq!(read_i24_sw(&mut ptr), 0xddeeffu32 as i32);
}

#[test]
fn test_read_u24_sw() {
    let arr = [0xaau8, 0xbbu8, 0xccu8, 0xddu8, 0xeeu8, 0xffu8];
    let mut ptr = &arr[..];
    assert_eq!(read_u24_sw(&mut ptr), 0xaabbccu32);
    assert_eq!(read_u24_sw(&mut ptr), 0xddeeffu32);
}

#[test]
fn test_read_i32_sw() {
    let arr = [
        0x88u8, 0x99u8, 0xaau8, 0xbbu8, 0xccu8, 0xddu8, 0xeeu8, 0xffu8,
    ];
    let mut ptr = &arr[..];
    assert_eq!(read_i32_sw(&mut ptr), 0x8899aabbu32 as i32);
    assert_eq!(read_i32_sw(&mut ptr), 0xccddeeffu32 as i32);
}

#[test]
fn test_read_u32_sw() {
    let arr = [
        0x88u8, 0x99u8, 0xaau8, 0xbbu8, 0xccu8, 0xddu8, 0xeeu8, 0xffu8,
    ];
    let mut ptr = &arr[..];
    assert_eq!(read_u32_sw(&mut ptr), 0x8899aabbu32);
    assert_eq!(read_u32_sw(&mut ptr), 0xccddeeffu32);
}

#[test]
fn test_read_i64_sw() {
    let arr = [
        0x00u8, 0x11u8, 0x22u8, 0x33u8, 0x44u8, 0x55u8, 0x66u8, 0x77u8, 0x88u8, 0x99u8,
        0xaau8, 0xbbu8, 0xccu8, 0xddu8, 0xeeu8, 0xffu8,
    ];
    let mut ptr = &arr[..];
    assert_eq!(read_i64_sw(&mut ptr), 0x0011223344556677u64 as i64);
    assert_eq!(read_i64_sw(&mut ptr), 0x8899aabbccddeeffu64 as i64);
}

#[test]
fn test_read_u64_sw() {
    let arr = [
        0x00u8, 0x11u8, 0x22u8, 0x33u8, 0x44u8, 0x55u8, 0x66u8, 0x77u8, 0x88u8, 0x99u8,
        0xaau8, 0xbbu8, 0xccu8, 0xddu8, 0xeeu8, 0xffu8,
    ];
    let mut ptr = &arr[..];
    assert_eq!(read_u64_sw(&mut ptr), 0x0011223344556677u64);
    assert_eq!(read_u64_sw(&mut ptr), 0x8899aabbccddeeffu64);
}

