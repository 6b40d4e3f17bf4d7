use segy::writer::{
    write_i16, write_i16_sw, write_i24, write_i24_sw, write_i32, write_i32_sw, write_i64,
    write_i64_sw, write_i8, write_u16, write_u16_sw, write_u24, write_u24_sw, write_u32,
    write_u32_sw, write_u64, write_u64_sw, write_u8,
};

#[test]
fn test_write_i8() {
    let ref_arr = [0xffu8, 0xeeu8];
    let mut buf = [0u8; 2];
    let mut ptr = &mut buf[..];
    ptr = write_i8(ptr, 0xffu8 as i8);
    write_i8(ptr, 0xeeu8 as i8);
    assert_eq!(buf, ref_arr);
}

#[test]
fn test_write_u8() {
    let ref_arr = [0xffu8, 0xeeu8];
    let mut buf = [0u8; 2];
    let mut ptr = &mut buf[..];
    ptr = write_u8(ptr, 0xffu8);
    write_u8(ptr, 0xeeu8);
    assert_eq!(buf, ref_arr);
}

#[test]
fn test_write_i16() {
    let ref_arr = [0xccu8, 0xddu8, 0xeeu8, 0xffu8];
    let mut buf = [0u8; 4];
    let mut ptr = &mut buf[..];
    ptr = write_i16(ptr, 0xddccu16 as i16);
    write_i16(ptr, 0xffeeu16 as i16);
    assert_eq!(buf, ref_arr);
}

#[test]
fn test_write_u16() {
    let ref_arr = [0xccu8, 0xddu8, 0xeeu8, 0xffu8];
    let mut buf = [0u8; 4];
    let mut ptr = &mut buf[..];
    ptr = write_u16(ptr, 0xddccu16);
    write_u16(ptr, 0xffeeu16);
    assert_eq!(buf, ref_arr);
}

#[test]
fn test_write_i24() {
    let ref_arr = [0xaau8, 0xbbu8, 0xccu8, 0xddu8, 0xeeu8, 0xffu8];
    let mut buf = [0u8; 6];
    let mut ptr = &mut buf[..];
    ptr = write_i24(ptr, 0xccbbaau32 as i32);
    write_i24(ptr, 0xffeeddu32 as i32);
    assert_eq!(buf, ref_arr);
}

#[test]
fn test_write_u24() {
    let ref_arr = [0xaau8, 0xbbu8, 0xccu8, 0xddu8, 0xeeu8, 0xffu8];
    let mut buf = [0u8; 6];
    let mut ptr = &mut buf[..];
    ptr = write_u24(ptr, 0xccbbaau32);
    write_u24(ptr, 0xffeeddu32);
    assert_eq!(buf, ref_arr);
}

#[test]
fn test_write_i32() {
    let ref_arr = [
        0x88u8, 0x99u8, 0xaau8, 0xbbu8, 0xccu8, 0xddu8, 0xeeu8, 0xffu8,
    ];
    let mut buf = [0u8; 8];
    let mut ptr = &mut buf[..];
    ptr = write_i32(ptr, 0xbbaa9988u32 as i32);
    write_i32(ptr, 0xffeeddccu32 as i32);
    assert_eq!(buf, ref_arr);
}

#[test]
fn test_write_u32() {
    let ref_arr = [
        0x88u8, 0x99u8, 0xaau8, 0xbbu8, 0xccu8, 0xddu8, 0xeeu8, 0xffu8,
    ];
    let mut buf = [0u8; 8];
    let mut ptr = &mut buf[..];
    ptr = write_u32(ptr, 0xbbaa9988u32);
    write_u32(ptr, 0xffeeddccu32);
    assert_eq!(buf, ref_arr);
}

#[test]
fn test_write_i64() {
    let ref_arr = [
        0x00u8, 0x11u8, 0x22u8, 0x33u8, 0x44u8, 0x55u8, 0x66u8, 0x77u8, 0x88u8, 0x99u8,
        0xaau8, 0xbbu8, 0xccu8, 0xddu8, 0xeeu8, 0xffu8,
    ];
    let mut buf = [0u8; 16];
    let mut ptr = &mut buf[..];
    ptr = write_i64(ptr, 0x7766554433221100u64 as i64);
    write_i64(ptr, 0xffeeddccbbaa9988u64 as i64);
    assert_eq!(buf, ref_arr);
}

#[test]
fn test_write_u64() {
    let ref_arr = [
        0x00u8, 0x11u8, 0x22u8, 0x33u8, 0x44u8, 0x55u8, 0x66u8, 0x77u8, 0x88u8, 0x99u8,
        0xaau8, 0xbbu8, 0xccu8, 0xddu8, 0xeeu8, 0xffu8,
    ];
    let mut buf = [0u8; 16];
    let mut ptr = &mut buf[..];
    ptr = write_u64(ptr, 0x7766554433221100u64);
    write_u64(ptr, 0xffeeddccbbaa9988u64);
    assert_eq!(buf, ref_arr);
}

#[test]
fn test_write_i16_sw() {
    let ref_arr = [0xccu8, 0xddu8, 0xeeu8, 0xffu8];
    let mut buf = [0u8; 4];
    let mut ptr = &mut buf[..];
    ptr = write_i16_sw(ptr, 0xccddu16 as i16);
    write_i16_sw(ptr, 0xeeffu16 as i16);
    assert_eq!(buf, ref_arr);
}

#[test]
fn test_write_u16_sw() {
    let ref_arr = [0xccu8, 0xddu8, 0xeeu8, 0xffu8];
    let mut buf = [0u8; 4];
    let mut ptr = &mut buf[..];
    ptr = write_u16_sw(ptr, 0xccddu16);
    write_u16_sw(ptr, 0xeeffu16);
    assert_eq!(buf, ref_arr);
}

#[test]
fn test_write_i24_sw() {
    let ref_arr = [0xaau8, 0xbbu8, 0xccu8, 0xddu8, 0xeeu8, 0xffu8];
    let mut buf = [0u8; 6];
    let mut ptr = &mut buf[..];
    ptr = write_i24_sw(ptr, 0xaabbccu32 as i32);
    write_i24_sw(ptr, 0xddeeffu32 as i32);
    assert_eq!(buf, ref_arr);
}

#[test]
fn test_write_u24_sw() {
    let ref_arr = [0xaau8, 0xbbu8, 0xccu8, 0xddu8, 0xeeu8, 0xffu8];
    let mut buf = [0u8; 6];
    let mut ptr = &mut buf[..];
    ptr = write_u24_sw(ptr, 0xaabbccu32);
    write_u24_sw(ptr, 0xddeeffu32);
    assert_eq!(buf, ref_arr);
}

#[test]
fn test_write_i32_sw() {
    let ref_arr = [
        0x88u8, 0x99u8, 0xaau8, 0xbbu8, 0xccu8, 0xddu8, 0xeeu8, 0xffu8,
    ];
    let mut buf = [0u8; 8];
    let mut ptr = &mut buf[..];
    ptr = write_i32_sw(ptr, 0x8899aabbu32 as i32);
    write_i32_sw(ptr, 0xccddeeffu32 as i32);
    assert_eq!(buf, ref_arr);
}

#[test]
fn test_write_u32_sw() {
    let ref_arr = [
        0x88u8, 0x99u8, 0xaau8, 0xbbu8, 0xccu8, 0xddu8, 0xeeu8, 0xffu8,
    ];
    let mut buf = [0u8; 8];
    let mut ptr = &mut buf[..];
    ptr = write_u32_sw(ptr, 0x8899aabbu32);
    write_u32_sw(ptr, 0xccddeeffu32);
    assert_eq!(buf, ref_arr);
}

#[test]
fn test_write_i64_sw() {
    let ref_arr = [
        0x00u8, 0x11u8, 0x22u8, 0x33u8, 0x44u8, 0x55u8, 0x66u8, 0x77u8, 0x88u8, 0x99u8,
        0xaau8, 0xbbu8, 0xccu8, 0xddu8, 0xeeu8, 0xffu8,
    ];
    let mut buf = [0u8; 16];
    let mut ptr = &mut buf[..];
    ptr = write_i64_sw(ptr, 0x0011223344556677u64 as i64);
    write_i64_sw(ptr, 0x8899aabbccddeeffu64 as i64);
    assert_eq!(buf, ref_arr);
}

#[test]
fn test_write_u64_sw() {
    let ref_arr = [
        0x00u8, 0x11u8, 0x22u8, 0x33u8, 0x44u8, 0x55u8, 0x66u8, 0x77u8, 0x88u8, 0x99u8,
        0xaau8, 0xbbu8, 0xccu8, 0xddu8, 0xeeu8, 0xffu8,
    ];
    let mut buf = [0u8; 16];
    let mut ptr = &mut buf[..];
    ptr = write_u64_sw(ptr, 0x0011223344556677u64);
    write_u64_sw(ptr, 0x8899aabbccddeeffu64);
    assert_eq!(buf, ref_arr);
}

