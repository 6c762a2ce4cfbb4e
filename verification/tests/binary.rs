use cookie_factory::combinators::{le, length_value, Num, Serialized, Serializer, StrSr};

#[test]
fn binary_be_u8() {
    let mut mem: [u8; 8] = [0; 8];
    let expected = [1, 0, 0, 0, 0, 0, 0, 0];
    assert_eq!(0x01u8.be().serialize(&mut mem), Ok((1, Serialized::Done)));
    assert_eq!(mem, expected);
}

#[test]
fn binary_be_u16() {
    let mut mem: [u8; 8] = [0; 8];
    let expected = [1, 2, 0, 0, 0, 0, 0, 0];
    assert_eq!(0x0102u16.be().serialize(&mut mem), Ok((2, Serialized::Done)));
    assert_eq!(mem, expected);
}

#[test]
fn binary_be_u32() {
    let mut mem: [u8; 8] = [0; 8];
    let expected = [1, 2, 3, 4, 0, 0, 0, 0];
    assert_eq!(0x01020304u32.be().serialize(&mut mem), Ok((4, Serialized::Done)));
    assert_eq!(mem, expected);
}

#[test]
fn binary_be_u64() {
    let mut mem: [u8; 8] = [0; 8];
    let expected = [1, 2, 3, 4, 5, 6, 7, 8];
    assert_eq!(0x0102030405060708u64.be().serialize(&mut mem), Ok((8, Serialized::Done)));
    assert_eq!(mem, expected);
}

#[test]
fn binary_le_u8() {
    let mut mem: [u8; 8] = [0; 8];
    let expected = [1, 0, 0, 0, 0, 0, 0, 0];
    assert_eq!(le(0x01u8).serialize(&mut mem), Ok((1, Serialized::Done)));
    assert_eq!(mem, expected);
}

#[test]
fn binary_le_u16() {
    let mut mem: [u8; 8] = [0; 8];
    let expected = [2, 1, 0, 0, 0, 0, 0, 0];
    assert_eq!(le(0x0102u16).serialize(&mut mem), Ok((2, Serialized::Done)));
    assert_eq!(mem, expected);
}

#[test]
fn binary_le_u32() {
    let mut mem: [u8; 8] = [0; 8];
    let expected = [4, 3, 2, 1, 0, 0, 0, 0];
    assert_eq!(le(0x01020304u32).serialize(&mut mem), Ok((4, Serialized::Done)));
    assert_eq!(mem, expected);
}

#[test]
fn binary_le_u64() {
    let mut mem: [u8; 8] = [0; 8];
    let expected = [8, 7, 6, 5, 4, 3, 2, 1];
    assert_eq!(le(0x0102030405060708u64).serialize(&mut mem), Ok((8, Serialized::Done)));
    assert_eq!(mem, expected);
}

#[test]
fn length_value_test() {
    let mut mem: [u8; 100] = [0; 100];
    let expected = b"\x00\x05hello";

    let mut sr = length_value(2, |nb| (nb as u16).be(), "hello".raw());

    assert_eq!(sr.serialize(&mut mem), Ok((7, Serialized::Done)));
    assert_eq!(&mem[..7], expected);
}
