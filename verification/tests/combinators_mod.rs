use cookie_factory::bytes::{be_u32, be_u8};
use cookie_factory::combinator::{back_to_the_buffer, string};
use cookie_factory::io_compat::Cursor;
use cookie_factory::sequence::{pair, tuple};
use cookie_factory::{gen, gen_simple};

#[test]
fn mod_test_pair_with_cursor() {
    let mut buf = [0u8; 8];

    {
        let cursor = Cursor::new(&mut buf[..]);
        let serializer = pair(string("1234"), string("5678"));

        let cursor = gen_simple(serializer, cursor).unwrap();
        assert_eq!(cursor.position(), 8);
    }

    assert_eq!(&buf[..], b"12345678");
}

#[test]
fn mod_test_tuple() {
    let mut buf = [0u8; 12];

    {
        let cursor = Cursor::new(&mut buf[..]);
        let serializer = tuple((string("1234"), string("5678"), tuple((string("0123"),))));

        let cursor = gen_simple(serializer, cursor).unwrap();
        assert_eq!(cursor.position(), 12);
    }

    assert_eq!(&buf[..], b"123456780123");
}

#[test]
fn mod_test_gen_with_length() {
    let mut buf = [0; 8];
    {
        let (len_buf, buf) = buf.split_at_mut(4);
        let (_, pos) = gen(string("test"), buf).unwrap();
        gen(be_u32(pos as u32), len_buf).unwrap();
    }
    assert_eq!(&buf, &[0, 0, 0, 4, b't', b'e', b's', b't']);
}

#[test]
fn mod_test_back_to_the_buffer() {
    let mut buf = [0; 9];

    let new_buf = gen_simple(
        tuple((
            back_to_the_buffer(
                4,
                move |buf| gen(string("test"), buf),
                move |buf, len| gen_simple(be_u32(len as u32), buf),
            ),
            be_u8(42),
        )),
        &mut buf[..],
    )
    .unwrap();

    assert!(new_buf.is_empty());
    assert_eq!(&buf, &[0, 0, 0, 4, b't', b'e', b's', b't', 42]);
}

#[test]
fn mod_test_back_to_the_buffer_vec() {
    let buf = Vec::new();

    let buf = gen_simple(
        tuple((
            back_to_the_buffer(
                4,
                move |buf| gen(string("test"), buf),
                move |buf, len| gen_simple(be_u32(len as u32), buf),
            ),
            be_u8(42),
        )),
        buf,
    )
    .unwrap();

    assert_eq!(&buf[..], &[0, 0, 0, 4, b't', b'e', b's', b't', 42]);
}

#[test]
fn mod_test_back_to_the_buffer_cursor() {
    let mut buf = [0; 9];
    {
        let cursor = Cursor::new(&mut buf[..]);
        let cursor = gen_simple(
            tuple((
                back_to_the_buffer(
                    4,
                    move |buf| gen(string("test"), buf),
                    move |buf, len| gen_simple(be_u32(len as u32), buf),
                ),
                be_u8(42),
            )),
            cursor,
        )
        .unwrap();
        assert_eq!(cursor.position(), 9);
    }
    assert_eq!(&buf, &[0, 0, 0, 4, b't', b'e', b's', b't', 42]);
}

#[test]
fn mod_test_back_to_the_buffer_cursor_counter() {
    let mut buf = [0; 10];
    {
        let cursor = Cursor::new(&mut buf[..]);
        let (cursor, pos) = gen(
            tuple((
                be_u8(64),
                back_to_the_buffer(
                    4,
                    &move |buf| gen(string("test"), buf),
                    &move |buf, len| gen_simple(be_u32(len as u32), buf),
                ),
                be_u8(42),
            )),
            cursor,
        )
        .unwrap();
        assert_eq!(pos, 10);
        assert_eq!(cursor.position(), 10);
    }
    assert_eq!(&buf, &[64, 0, 0, 0, 4, b't', b'e', b's', b't', 42]);
}
