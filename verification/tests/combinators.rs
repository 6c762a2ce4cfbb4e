use cookie_factory::combinators::{empty, le, Num, SeparatedList, Serialized, Serializer, Slice, StrSr, Then};
use std::str::from_utf8;

#[test]
fn combinators_str_serializer() {
    let s = String::from("hello world!");
    let mut sr = Slice::new(s.as_str().as_bytes());

    let mut mem: [u8; 6] = [0; 6];
    let s = &mut mem[..];

    assert_eq!(sr.serialize(s), Ok((6, Serialized::Continue)));
    assert_eq!(&s[..], b"hello ");

    assert_eq!(sr.serialize(s), Ok((6, Serialized::Done)));
    assert_eq!(&s[..], b"world!");
}

#[test]
fn combinators_then_serializer() {
    let s1 = String::from("hello ");
    let sr1 = Slice::new(s1.as_str().as_bytes());

    let s2 = String::from("world!");
    let sr2 = s2.raw();

    let mut sr = Then::new(sr1, sr2);

    let mut mem: [u8; 4] = [0; 4];
    let s = &mut mem[..];

    assert_eq!(sr.serialize(s), Ok((4, Serialized::Continue)));
    assert_eq!(&s[..], b"hell");

    assert_eq!(sr.serialize(s), Ok((4, Serialized::Continue)));
    assert_eq!(&s[..], b"o wo");

    assert_eq!(sr.serialize(s), Ok((4, Serialized::Done)));
    assert_eq!(&s[..], b"rld!");
}

#[test]
fn separated_list() {
    let mut mem: [u8; 100] = [0; 100];
    let s = &mut mem[..];

    let mut empty_list = SeparatedList::new(", ".raw(), [].iter().map(|_: &u8| empty()).collect());
    assert_eq!(empty_list.serialize(s), Ok((0, Serialized::Done)));

    let mut single_element_list =
        SeparatedList::new(", ".raw(), ["hello"].iter().map(|s| s.raw()).collect());
    assert_eq!(single_element_list.serialize(s), Ok((5, Serialized::Done)));
    assert_eq!(from_utf8(&s[..5]).unwrap(), "hello");

    let mut three_element_list = SeparatedList::new(
        ", ".raw(),
        ["hello", "world", "hello again"].iter().map(|s| s.raw()).collect(),
    );
    assert_eq!(three_element_list.serialize(s), Ok((25, Serialized::Done)));
    assert_eq!(from_utf8(&s[..25]).unwrap(), "hello, world, hello again");

    let mut three_element_list_partial = SeparatedList::new(
        ", ".raw(),
        ["hello", "world", "hello again"].iter().map(|s| s.raw()).collect(),
    );
    assert_eq!(three_element_list_partial.serialize(&mut s[..6]), Ok((6, Serialized::Continue)));
    assert_eq!(from_utf8(&s[..6]).unwrap(), "hello,");
    assert_eq!(three_element_list_partial.serialize(&mut s[6..11]), Ok((5, Serialized::Continue)));
    assert_eq!(from_utf8(&s[..11]).unwrap(), "hello, worl");
    assert_eq!(three_element_list_partial.serialize(&mut s[11..14]), Ok((3, Serialized::Continue)));
    assert_eq!(from_utf8(&s[..14]).unwrap(), "hello, world, ");
    assert_eq!(three_element_list_partial.serialize(&mut s[14..20]), Ok((6, Serialized::Continue)));
    assert_eq!(from_utf8(&s[..20]).unwrap(), "hello, world, hello ");
    assert_eq!(three_element_list_partial.serialize(&mut s[20..]), Ok((5, Serialized::Done)));
    assert_eq!(from_utf8(&s[..26]).unwrap(), "hello, world, hello again\0");
}

#[test]
fn combinators_be_u8() {
    let mut mem: [u8; 8] = [0; 8];
    let expected = [1, 0, 0, 0, 0, 0, 0, 0];
    assert_eq!(0x01u8.be().serialize(&mut mem), Ok((1, Serialized::Done)));
    assert_eq!(mem, expected);
}

#[test]
fn combinators_be_u16() {
    let mut mem: [u8; 8] = [0; 8];
    let expected = [1, 2, 0, 0, 0, 0, 0, 0];
    assert_eq!(0x0102u16.be().serialize(&mut mem), Ok((2, Serialized::Done)));
    assert_eq!(mem, expected);
}

#[test]
fn combinators_be_u32() {
    let mut mem: [u8; 8] = [0; 8];
    let expected = [1, 2, 3, 4, 0, 0, 0, 0];
    assert_eq!(0x01020304u32.be().serialize(&mut mem), Ok((4, Serialized::Done)));
    assert_eq!(mem, expected);
}

#[test]
fn combinators_be_u64() {
    let mut mem: [u8; 8] = [0; 8];
    let expected = [1, 2, 3, 4, 5, 6, 7, 8];
    assert_eq!(0x0102030405060708u64.be().serialize(&mut mem), Ok((8, Serialized::Done)));
    assert_eq!(mem, expected);
}

#[test]
fn combinators_le_u8() {
    let mut mem: [u8; 8] = [0; 8];
    let expected = [1, 0, 0, 0, 0, 0, 0, 0];
    assert_eq!(le(0x01u8).serialize(&mut mem), Ok((1, Serialized::Done)));
    assert_eq!(mem, expected);
}

#[test]
fn combinators_le_u16() {
    let mut mem: [u8; 8] = [0; 8];
    let expected = [2, 1, 0, 0, 0, 0, 0, 0];
    assert_eq!(le(0x0102u16).serialize(&mut mem), Ok((2, Serialized::Done)));
    assert_eq!(mem, expected);
}

#[test]
fn combinators_le_u32() {
    let mut mem: [u8; 8] = [0; 8];
    let expected = [4, 3, 2, 1, 0, 0, 0, 0];
    assert_eq!(le(0x01020304u32).serialize(&mut mem), Ok((4, Serialized::Done)));
    assert_eq!(mem, expected);
}

#[test]
fn combinators_le_u64() {
    let mut mem: [u8; 8] = [0; 8];
    let expected = [8, 7, 6, 5, 4, 3, 2, 1];
    assert_eq!(le(0x0102030405060708u64).serialize(&mut mem), Ok((8, Serialized::Done)));
    assert_eq!(mem, expected);
}
