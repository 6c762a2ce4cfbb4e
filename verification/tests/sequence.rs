use cookie_factory::combinator::string;
use cookie_factory::gen_simple;
use cookie_factory::io_compat::Cursor;
use cookie_factory::sequence::{pair, tuple};

#[test]
fn sequence_test_pair_with_cursor() {
    let mut buf = [0u8; 8];

    {
        let cursor = Cursor::new(&mut buf[..]);
        let serializer = pair(string("1234"), string("5678"));

        let cursor = gen_simple(serializer, cursor).unwrap();
        assert_eq!(cursor.position(), 8);
    }

    assert_eq!(&buf[..], b"12345678");
}

#[test]
fn sequence_test_tuple() {
    let mut buf = [0u8; 12];

    {
        let cursor = Cursor::new(&mut buf[..]);
        let serializer = tuple((string("1234"), string("5678"), tuple((string("0123"),))));

        let cursor = gen_simple(serializer, cursor).unwrap();
        assert_eq!(cursor.position(), 12);
    }

    assert_eq!(&buf[..], b"123456780123");
}
