use cookie_factory::combinators::{Serialized, Serializer, Then};
use cookie_factory::rewrite::{SliceSerializer, StrSr};

#[test]
fn rewrite_str_serializer() {
    let s = String::from("hello world!");
    let mut sr = SliceSerializer::new(s.as_str().as_bytes());

    let mut mem: [u8; 6] = [0; 6];
    let s = &mut mem[..];

    assert_eq!(sr.serialize(s), Ok((6, Serialized::Continue)));
    assert_eq!(&s[..], b"hello ");

    assert_eq!(sr.serialize(s), Ok((6, Serialized::Done)));
    assert_eq!(&s[..], b"world!");
}

#[test]
fn rewrite_then_serializer() {
    let s1 = String::from("hello ");
    let sr1 = SliceSerializer::new(s1.as_str().as_bytes());

    let s2 = String::from("world!");
    let sr2 = s2.raw();

    let mut sr = Then::new(sr1, sr2);

    let mut mem: [u8; 4] = [0; 4];
    let s = &mut mem[..];

    assert_eq!(sr.serialize(s), Ok((4, Serialized::Continue)));
    assert_eq!(&s[..], b"hell");

    assert_eq!(sr.serialize(s), Ok((4, Serialized::Continue)));
    assert_eq!(&s[..], b"o wo");

    assert_eq!(sr.serialize(s), Ok((4, Serialized::Done)));
    assert_eq!(&s[..], b"rld!");
}
