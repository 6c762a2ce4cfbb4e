use cookie_factory::async_bufwriter::AsyncBufWriter;
use cookie_factory::bytes::{
    be_i16, be_i24, be_i8, be_u16, be_u24, be_u32, be_u64, be_u8, le_i32, le_i64, le_u16, le_u24, le_u32, le_u64,
    ne_i16, ne_u16, ne_u24, ne_u32, ne_u64, ne_u8,
};
use cookie_factory::cftrait::{zip_copy, CookieFactory, CookieFactorySerializable};
use cookie_factory::combinator::{back_to_the_buffer, cond, hex, skip, slice, string, upper_hex_text};
use cookie_factory::functions;
use cookie_factory::gen::{gen_align, gen_at_rel_offset, gen_slice, set_be_u32, set_le_u16, set_le_u64};
use cookie_factory::io_compat::{stream_position, Cursor, Seek, SeekFrom, Write};
use cookie_factory::multi::{all, many_ref, separated_list};
use cookie_factory::rewrite::{gen_bool, gen_str, SliceSerializer, Then3};
use cookie_factory::combinators::{all as all_sr, or, Empty, Reset, Serialized, Serializer, Slice, StrSr};
use cookie_factory::sequence::{pair, tuple};
use cookie_factory::{gen, gen_simple, GenError, WriteContext};

fn written<F: cookie_factory::SerializeFn<Vec<u8>>>(f: F) -> (Vec<u8>, u64) {
    gen(f, Vec::new()).unwrap()
}

#[test]
fn determinism_same_bytes_same_length() {
    fn f<W: Write>() -> impl cookie_factory::SerializeFn<W> {
        tuple((string("abcd"), be_u16(0x20), string("efgh")))
    }
    let mut a = [0u8; 16];
    let mut b = [0u8; 16];
    let (ra, la) = gen(f(), &mut a[..]).unwrap();
    let (rb, lb) = gen(f(), &mut b[..]).unwrap();
    assert_eq!(la, lb);
    assert_eq!(ra.len(), rb.len());
    assert_eq!(a, b);
    let (va, pa) = written(f());
    let (vb, pb) = written(f());
    assert_eq!(va, vb);
    assert_eq!(pa, pb);
    assert_eq!(&va[..], &a[..10]);
}

#[test]
fn serializer_runs_twice() {
    let f = pair(string("ab"), string("cd"));
    let (v, _) = gen(&f, Vec::new()).unwrap();
    let (w, _) = gen(&f, Vec::new()).unwrap();
    assert_eq!(v, w);
    assert_eq!(&v[..], b"abcd");
}

#[test]
fn length_additivity() {
    let mut buf = [0u8; 100];
    {
        let (rest, pos) = gen(pair(string("abcd"), string("efgh")), &mut buf[..]).unwrap();
        assert_eq!(pos, 8);
        assert_eq!(rest.len(), 100 - 8);
    }
    assert_eq!(&buf[..8], b"abcdefgh");
}

#[test]
fn endian_examples() {
    assert_eq!(written(be_u32(0x01020304)).0, vec![0x01, 0x02, 0x03, 0x04]);
    assert_eq!(written(le_u32(0x01020304)).0, vec![0x04, 0x03, 0x02, 0x01]);
    assert_eq!(written(be_u24(1)).0, vec![0x00, 0x00, 0x01]);
    assert_eq!(written(le_u24(0x04030201)).0, vec![0x01, 0x02, 0x03]);
    assert_eq!(written(be_u24(0x04030201)).0, vec![0x03, 0x02, 0x01]);
    assert_eq!(written(be_u8(7)).0, vec![7]);
    assert_eq!(written(be_u16(0x0102)).0, vec![1, 2]);
    assert_eq!(written(le_u16(0x0102)).0, vec![2, 1]);
    assert_eq!(written(be_u64(0x0102030405060708)).0, vec![1, 2, 3, 4, 5, 6, 7, 8]);
    assert_eq!(written(le_u64(0x0102030405060708)).0, vec![8, 7, 6, 5, 4, 3, 2, 1]);
}

#[test]
fn signed_numbers_in_twos_complement() {
    assert_eq!(written(be_i8(-1)).0, vec![0xff]);
    assert_eq!(written(be_i8(i8::MIN)).0, vec![0x80]);
    assert_eq!(written(be_i16(-2)).0, vec![0xff, 0xfe]);
    assert_eq!(written(be_i24(-2)).0, vec![0xff, 0xff, 0xfe]);
    assert_eq!(written(le_i32(-2)).0, vec![0xfe, 0xff, 0xff, 0xff]);
    assert_eq!(written(le_i64(i64::MIN)).0, vec![0, 0, 0, 0, 0, 0, 0, 0x80]);
    assert_eq!(written(be_i16(258)).0, vec![1, 2]);
}

#[test]
fn native_order_is_one_of_the_two() {
    let two = written(ne_u16(0x0102)).0;
    assert!(two == vec![1, 2] || two == vec![2, 1]);
    let four = written(ne_u32(0x01020304)).0;
    assert!(four == vec![1, 2, 3, 4] || four == vec![4, 3, 2, 1]);
    let eight = written(ne_u64(0x0102030405060708)).0;
    assert!(eight == vec![1, 2, 3, 4, 5, 6, 7, 8] || eight == vec![8, 7, 6, 5, 4, 3, 2, 1]);
    let three = written(ne_u24(0x01020304)).0;
    assert!(three == vec![2, 3, 4] || three == vec![4, 3, 2]);
    assert_eq!(two == vec![1, 2], three == vec![2, 3, 4]);
    let one = written(ne_u24(1)).0;
    assert!(one == vec![0, 0, 1] || one == vec![1, 0, 0]);
    assert_eq!(one, if two == vec![1, 2] { written(be_u24(1)).0 } else { written(le_u24(1)).0 });
    let minus = written(cookie_factory::bytes::ne_i24(-2)).0;
    assert!(minus == vec![0xff, 0xff, 0xfe] || minus == vec![0xfe, 0xff, 0xff]);
    assert_eq!(written(ne_u8(9)).0, vec![9]);
    let signed = written(ne_i16(-2)).0;
    assert!(signed == vec![0xff, 0xfe] || signed == vec![0xfe, 0xff]);
    // the same order for every width
    assert_eq!(two == vec![1, 2], four == vec![1, 2, 3, 4]);
    assert_eq!(two == vec![1, 2], eight == vec![1, 2, 3, 4, 5, 6, 7, 8]);
}

#[test]
fn capacity_failure_leaves_span_untouched() {
    let mut buf = [7u8; 2];
    let r = gen(string("abcd"), &mut buf[..]);
    assert_eq!(r.err(), Some(GenError::BufferTooSmall(2)));
    assert_eq!(buf, [7, 7]);
}

#[test]
fn capacity_failure_leaves_cursor_untouched() {
    let mut buf = [7u8; 3];
    let r = gen(string("abcd"), Cursor::new(&mut buf[..]));
    assert_eq!(r.err(), Some(GenError::BufferTooSmall(1)));
    assert_eq!(buf, [7, 7, 7]);
}

#[test]
fn failing_second_leaf_keeps_the_first() {
    let mut buf = [0u8; 6];
    let r = gen(pair(string("abcd"), string("efgh")), &mut buf[..]);
    assert_eq!(r.err(), Some(GenError::BufferTooSmall(2)));
    assert_eq!(&buf, b"abcd\0\0");
}

#[test]
fn exact_fit_and_empty_payload() {
    let mut buf = [0u8; 4];
    {
        let (rest, pos) = gen(string("abcd"), &mut buf[..]).unwrap();
        assert_eq!(pos, 4);
        assert!(rest.is_empty());
    }
    assert_eq!(&buf, b"abcd");
    let mut none: [u8; 0] = [];
    let (rest, pos) = gen(string(""), &mut none[..]).unwrap();
    assert_eq!(pos, 0);
    assert!(rest.is_empty());
}

#[test]
fn separated_list_laws() {
    let sep = || string(",");
    let none: Vec<_> = Vec::<&str>::new().iter().map(|s| string(s)).collect();
    let (v, pos) = gen(separated_list(sep(), &none), Vec::new()).unwrap();
    assert_eq!(pos, 0);
    assert!(v.is_empty());

    let one: Vec<_> = ["a"].iter().map(|s| string(s)).collect();
    let (v, pos) = gen(separated_list(sep(), &one), Vec::new()).unwrap();
    assert_eq!(pos, 1);
    assert_eq!(&v[..], b"a");

    let three: Vec<_> = ["a", "b", "c"].iter().map(|s| string(s)).collect();
    let (v, pos) = gen(separated_list(sep(), &three), Vec::new()).unwrap();
    assert_eq!(pos, 5);
    assert_eq!(&v[..], b"a,b,c");
}

#[test]
fn separated_list_on_a_span() {
    let mut buf = [0u8; 100];
    let data = vec!["abcd", "efgh", "ijkl"];
    let items: Vec<_> = data.iter().map(|s| string(s)).collect();
    {
        let (rest, pos) = gen(separated_list(string(","), &items), &mut buf[..]).unwrap();
        assert_eq!(pos, 14);
        assert_eq!(rest.len(), 100 - 14);
    }
    assert_eq!(&buf[..14], &b"abcd,efgh,ijkl"[..]);
}

#[test]
fn separated_list_stops_at_the_first_error() {
    let mut buf = [0u8; 3];
    let items: Vec<_> = ["ab", "cd"].iter().map(|s| string(s)).collect();
    let r = gen(separated_list(string(","), &items), &mut buf[..]);
    assert_eq!(r.err(), Some(GenError::BufferTooSmall(2)));
    assert_eq!(&buf, b"ab,");
}

#[test]
fn all_and_many_ref_keep_the_order() {
    let data = vec!["abcd", "efgh", "ijkl"];
    let items: Vec<_> = data.iter().map(|s| string(s)).collect();
    let (v, pos) = gen(all(&items), Vec::new()).unwrap();
    assert_eq!(pos, 12);
    assert_eq!(&v[..], b"abcdefghijkl");
    let (v, pos) = gen(many_ref(&data, |s: &&str| string(s)), Vec::new()).unwrap();
    assert_eq!(pos, 12);
    assert_eq!(&v[..], b"abcdefghijkl");
    let nothing: Vec<&str> = Vec::new();
    let (v, pos) = gen(many_ref(&nothing, |s: &&str| string(s)), Vec::new()).unwrap();
    assert_eq!(pos, 0);
    assert!(v.is_empty());
}

#[test]
fn cond_runs_or_passes() {
    assert_eq!(written(cond(true, string("abcd"))), (b"abcd".to_vec(), 4));
    assert_eq!(written(cond(false, string("abcd"))), (Vec::new(), 0));
}

#[test]
fn tuple_of_many() {
    let t = tuple((
        be_u8(1), be_u8(2), be_u8(3), be_u8(4), be_u8(5), be_u8(6), be_u8(7), be_u8(8), be_u8(9), be_u8(10),
        be_u8(11), be_u8(12), be_u8(13), be_u8(14), be_u8(15), be_u8(16), be_u8(17), be_u8(18), be_u8(19),
        be_u8(20), be_u8(21),
    ));
    let (v, pos) = written(t);
    assert_eq!(pos, 21);
    assert_eq!(v, (1..=21).collect::<Vec<u8>>());
}

#[test]
fn hex_text() {
    assert_eq!(written(hex(0x2A)), (b"2A".to_vec(), 2));
    assert_eq!(written(hex(0)), (b"0".to_vec(), 1));
    assert_eq!(written(hex(257)), (b"101".to_vec(), 3));
    assert_eq!(written(hex(u64::MAX)), (b"FFFFFFFFFFFFFFFF".to_vec(), 16));
    assert_eq!(upper_hex_text(0xABCDEF), b"ABCDEF".to_vec());
    let mut buf = [0u8; 1];
    assert_eq!(gen(hex(0x2A), &mut buf[..]).err(), Some(GenError::IoError(())));
    assert_eq!(buf, [0]);
}

#[test]
fn backpatch_on_each_sink() {
    let expected = [0, 0, 0, 4, b't', b'e', b's', b't', 42];
    let mut span = [0u8; 9];
    gen_simple(
        tuple((
            back_to_the_buffer(
                4,
                move |buf| gen(string("test"), buf),
                move |buf, len| gen_simple(be_u32(len as u32), buf),
            ),
            be_u8(42),
        )),
        &mut span[..],
    )
    .unwrap();
    assert_eq!(span, expected);
    let v = gen_simple(
        tuple((
            back_to_the_buffer(
                4,
                move |buf| gen(string("test"), buf),
                move |buf, len| gen_simple(be_u32(len as u32), buf),
            ),
            be_u8(42),
        )),
        Vec::new(),
    )
    .unwrap();
    assert_eq!(&v[..], &expected);
    let mut under = [0u8; 9];
    gen_simple(
        tuple((
            back_to_the_buffer(
                4,
                move |buf| gen(string("test"), buf),
                move |buf, len| gen_simple(be_u32(len as u32), buf),
            ),
            be_u8(42),
        )),
        Cursor::new(&mut under[..]),
    )
    .unwrap();
    assert_eq!(under, expected);
}

#[test]
fn backpatch_position_is_behind_the_inner_write() {
    let (v, pos) = gen(
        back_to_the_buffer(
            2,
            move |buf| gen(string("abc"), buf),
            move |buf, len| gen_simple(be_u16(len as u16), buf),
        ),
        vec![9u8],
    )
    .unwrap();
    assert_eq!(pos, 5);
    assert_eq!(v, vec![9, 0, 3, b'a', b'b', b'c']);
}

#[test]
fn backpatch_size_mismatch_is_fatal_on_a_span() {
    let mut buf = [0u8; 9];
    let r = gen_simple(
        back_to_the_buffer(
            4,
            move |buf| gen(string("test"), buf),
            move |buf, len| gen_simple(be_u16(len as u16), buf),
        ),
        &mut buf[..],
    );
    assert_eq!(r.err(), Some(GenError::BufferTooBig(2)));
}

#[test]
fn backpatch_size_mismatch_is_fatal_on_a_vec() {
    let r = gen_simple(
        back_to_the_buffer(
            4,
            move |buf| gen(string("test"), buf),
            move |buf, len| gen_simple(be_u16(len as u16), buf),
        ),
        Vec::new(),
    );
    assert_eq!(r.err(), Some(GenError::BufferTooBig(2)));
    let r = gen_simple(
        back_to_the_buffer(
            1,
            move |buf| gen(string("test"), buf),
            move |buf, len| gen_simple(be_u16(len as u16), buf),
        ),
        Vec::new(),
    );
    assert_eq!(r.err(), Some(GenError::BufferTooBig(0)));
}

#[test]
fn backpatch_size_mismatch_is_fatal_on_a_cursor() {
    let mut buf = [0u8; 9];
    let r = gen_simple(
        back_to_the_buffer(
            4,
            move |buf| gen(string("test"), buf),
            move |buf, len| gen_simple(be_u16(len as u16), buf),
        ),
        Cursor::new(&mut buf[..]),
    );
    assert_eq!(r.err(), Some(GenError::BufferTooBig(2)));
}

#[test]
fn backpatch_passes_errors_on() {
    let mut buf = [0u8; 6];
    let r = gen_simple(
        back_to_the_buffer(
            4,
            move |buf| gen(string("test"), buf),
            move |buf, len| gen_simple(be_u32(len as u32), buf),
        ),
        &mut buf[..],
    );
    assert_eq!(r.err(), Some(GenError::BufferTooSmall(2)));
}

#[test]
fn skip_advances_without_asserting_contents() {
    let mut buf = [0u8; 100];
    let (out, pos) = gen(skip(2), &mut buf[..]).unwrap();
    assert_eq!(pos, 2);
    assert_eq!(out.len(), 98);
    let mut small = [0u8; 1];
    assert_eq!(gen(skip(2), &mut small[..]).err(), Some(GenError::BufferTooSmall(1)));
    let mut under = [0u8; 4];
    let (c, pos) = gen(pair(skip(3), be_u8(5)), Cursor::new(&mut under[..])).unwrap();
    assert_eq!(pos, 4);
    assert_eq!(c.position(), 4);
    assert_eq!(under[3], 5);
    let mut short = [0u8; 4];
    let mut c = Cursor::new(&mut short[..]);
    c.set_position(3);
    assert_eq!(gen(skip(2), c).err(), Some(GenError::BufferTooSmall(1)));
}

#[test]
fn sinks_write_as_documented() {
    let mut buf = [0u8; 4];
    let span = &mut buf[..];
    assert_eq!(span.room(), Some(4));
    let (rest, r) = span.write(b"ab");
    assert_eq!(r, Ok(2));
    assert_eq!(rest.room(), Some(2));
    let (rest, r) = rest.write(b"cde");
    assert_eq!(r, Ok(2));
    assert_eq!(rest.len(), 0);
    let (rest, r) = rest.write(b"f");
    assert_eq!(r, Ok(0));
    assert!(rest.is_empty());
    assert_eq!(&buf, b"abcd");
    let v = vec![1u8];
    assert_eq!(v.room(), None);
    let (v, r) = v.write(b"xy");
    assert_eq!(r, Ok(2));
    assert_eq!(v, vec![1, b'x', b'y']);
    let mut under = [0u8; 4];
    let mut c = Cursor::new(&mut under[..]);
    c.set_position(1);
    assert_eq!(c.room(), Some(3));
    let (c, r) = c.write(b"ab");
    assert_eq!(r, Ok(2));
    assert_eq!(c.position(), 3);
    assert_eq!(c.get_ref(), b"\0ab\0");
    let (mut c, r) = c.write(b"cd");
    assert_eq!(r, Ok(1));
    assert_eq!(c.position(), 4);
    assert_eq!(c.room(), Some(0));
    c.get_mut()[0] = 9;
    assert_eq!(c.into_inner(), &[9, b'a', b'b', b'c']);
}

#[test]
fn position_counts_the_bytes_taken() {
    let mut buf = [0u8; 2];
    let ctx = WriteContext::from(&mut buf[..]);
    assert_eq!(ctx.room(), Some(2));
    let (ctx, r) = ctx.write(b"abcd");
    assert_eq!(r, Ok(2));
    assert_eq!(ctx.position, 2);
    let (ctx, r) = ctx.write(b"cd");
    assert_eq!(r, Ok(0));
    assert_eq!(ctx.position, 2);
    assert_eq!(&buf, b"ab");
}

#[test]
fn cursor_seeks() {
    let mut under = [0u8; 4];
    let c = Cursor::new(&mut under[..]);
    let (c, r) = c.seek(SeekFrom::Start(3));
    assert_eq!(r, Ok(3));
    let (c, r) = c.seek(SeekFrom::Current(-2));
    assert_eq!(r, Ok(1));
    let (c, r) = c.seek(SeekFrom::Current(4));
    assert_eq!(r, Ok(5));
    let (c, r) = stream_position(c);
    assert_eq!(r, Ok(5));
    let (c, r) = c.write(b"a");
    assert_eq!(r, Ok(0));
    assert_eq!(c.position(), 5);
    let ctx = WriteContext { write: c, position: 10 };
    let (ctx, r) = ctx.seek(SeekFrom::Start(2));
    assert_eq!(r, Ok(2));
    assert_eq!(ctx.position, 7);
    let (inner, position) = ctx.into_inner();
    assert_eq!(position, 7);
    assert_eq!(inner.position(), 2);
}

#[test]
fn context_counts_what_the_sink_takes() {
    let ctx = WriteContext::from(Vec::new());
    assert_eq!(ctx.position, 0);
    let (ctx, r) = ctx.write(b"abc");
    assert_eq!(r, Ok(3));
    assert_eq!(ctx.position, 3);
    let (w, position) = ctx.into_inner();
    assert_eq!(position, 3);
    assert_eq!(&w[..], b"abc");
    assert_eq!(GenError::from(()), GenError::IoError(()));
}

#[test]
fn legacy_setters() {
    let mut mem = [0u8; 8];
    let (b, idx) = set_be_u32((&mut mem[..], 1), 0x01020304).unwrap();
    assert_eq!(idx, 5);
    let (b, idx) = set_le_u16((b, idx), 0x0506).unwrap();
    assert_eq!(idx, 7);
    assert_eq!(b, &[0, 1, 2, 3, 4, 6, 5, 0]);
    assert_eq!(set_le_u64((&mut mem[..], 1), 1).err(), Some(GenError::BufferTooSmall(1)));
    assert_eq!(mem, [0, 1, 2, 3, 4, 6, 5, 0]);
    assert_eq!(set_be_u32((&mut mem[..], 9), 1).err(), Some(GenError::BufferTooSmall(4)));
    let (b, idx) = gen_slice((&mut mem[..], 6), b"ab").unwrap();
    assert_eq!(idx, 8);
    assert_eq!(&b[6..], b"ab");
}

#[test]
fn legacy_offsets() {
    let mut mem = [0u8; 9];
    let (b, idx) = gen_align((&mut mem[..], 4), 4).unwrap();
    assert_eq!(idx, 8);
    assert_eq!(b.len(), 9);
    let mut mem = [0u8; 8];
    assert_eq!(gen_align((&mut mem[..], 5), 4).err(), Some(GenError::BufferTooSmall(0)));
    let r = gen_at_rel_offset((&mut mem[..], 2), -2, |y| gen_slice(y, b"a"));
    assert_eq!(r.err(), Some(GenError::InvalidOffset));
    let r = gen_at_rel_offset((&mut mem[..], 2), 7, |y| gen_slice(y, b"a"));
    assert_eq!(r.err(), Some(GenError::BufferTooSmall(1)));
}

#[test]
fn buffered_writer() {
    let w = AsyncBufWriter::with_capacity(4, ());
    assert_eq!(w.remaining(), 0);
    let (w, r) = w.write(b"abc");
    assert_eq!(r, Ok(3));
    assert_eq!(w.pending(), b"abc");
    let (mut w, r) = w.write(b"de");
    assert_eq!(r, Ok(1));
    assert_eq!(w.pending(), b"abcd");
    w.consume(3);
    assert_eq!(w.remaining(), 1);
    assert_eq!(w.pending(), b"d");
    w.consume(0);
    assert_eq!(w.pending(), b"d");
    let (w, pos) = gen(string("xy"), w).unwrap();
    assert_eq!(pos, 2);
    assert_eq!(w.pending(), b"dxy");
    let r = gen(string("zz"), w);
    assert_eq!(r.err(), Some(GenError::BufferTooSmall(1)));
    let w = AsyncBufWriter::new(7u8);
    assert_eq!(w.buf.len(), 8192);
    let (w, _) = w.write(b"q");
    assert_eq!(w.into_parts(), (7u8, b"q".to_vec()));
}

#[test]
fn resumable_serializers() {
    let mut mem = [0u8; 3];
    let mut sr = or(Some(Slice::new(b"abcd")), Empty);
    assert_eq!(sr.serialize(&mut mem), Ok((3, Serialized::Continue)));
    assert_eq!(&mem, b"abc");
    assert_eq!(sr.serialize(&mut mem), Ok((1, Serialized::Done)));
    assert_eq!(&mem, b"dbc");
    assert!(sr.reset());
    assert_eq!(sr.serialize(&mut mem), Ok((3, Serialized::Continue)));
    let mut other = or(None::<Slice>, "xy".raw());
    assert_eq!(other.serialize(&mut mem), Ok((2, Serialized::Done)));
    assert_eq!(&mem, b"xyc");
    let mut list = all_sr(vec!["ab".raw(), "cd".raw(), "e".raw()]);
    assert_eq!(list.serialize(&mut mem), Ok((3, Serialized::Continue)));
    assert_eq!(&mem, b"abc");
    assert_eq!(list.serialize(&mut mem), Ok((2, Serialized::Done)));
    assert_eq!(&mem[..2], b"de");
    let mut three = Then3 {
        serializers: (
            Some(SliceSerializer::new(b"a")),
            Some(SliceSerializer::new(b"bc")),
            Some(SliceSerializer::new(b"d")),
        ),
    };
    assert_eq!(three.serialize(&mut mem), Ok((3, Serialized::Continue)));
    assert_eq!(&mem, b"abc");
    assert_eq!(three.serialize(&mut mem), Ok((1, Serialized::Done)));
    assert_eq!(mem[0], b'd');
    let mut out = [0u8; 16];
    let mut quoted = gen_str("hi");
    assert_eq!(quoted.serialize(&mut out), Ok((4, Serialized::Done)));
    assert_eq!(&out[..4], b"\"hi\"");
    assert_eq!(gen_bool(&true).serialize(&mut out), Ok((4, Serialized::Done)));
    assert_eq!(&out[..4], b"true");
    assert_eq!(gen_bool(&false).serialize(&mut out), Ok((5, Serialized::Done)));
    assert_eq!(&out[..5], b"false");
}

#[test]
fn values_that_write_themselves() {
    let mut buf = [0u8; 8];
    {
        let rest = 0x0102u16.serialize(&mut buf[..]).unwrap();
        assert_eq!(rest.len(), 6);
        let rest = (-2i16).serialize_le(rest).unwrap();
        let rest = "ab".serialize(rest).unwrap();
        let rest = (&[7u8, 8u8][..]).serialize(rest).unwrap();
        assert!(rest.is_empty());
    }
    assert_eq!(buf, [1, 2, 0xfe, 0xff, b'a', b'b', 7, 8]);
    assert_eq!(0x01u32.gen_size(), Some(4));
    assert_eq!("abc".gen_size(), Some(3));
    assert_eq!((&[1u16, 2u16][..]).gen_size(), Some(4));
    let mut small = [0u8; 3];
    assert_eq!(7u32.serialize(&mut small[..]).err(), Some(GenError::BufferTooSmall(4)));
    assert_eq!(7u32.check_gen_size(&small[..]), Err(GenError::BufferTooSmall(4)));
    assert_eq!(small, [0, 0, 0]);
    let mut to = [0u8; 2];
    assert_eq!(zip_copy(b"abc", &mut to), 3);
    assert_eq!(&to, b"ab");
}

#[test]
fn plain_span_functions() {
    let mut buf = [0u8; 8];
    {
        let out = functions::slice(b"ab")(&mut buf[..]).unwrap();
        let out = functions::be_u16(0x0102)(out).unwrap();
        let out = functions::skip(1)(out).unwrap();
        let out = functions::pair(functions::string("c"), functions::be_u8(9))(out).unwrap();
        assert_eq!(out.len(), 1);
        assert_eq!(functions::string("zz")(out).err(), Some(GenError::BufferTooSmall(2)));
    }
    assert_eq!(buf, [b'a', b'b', 1, 2, 0, b'c', 9, 0]);
    let mut buf = [0u8; 8];
    {
        let items: Vec<_> = ["a", "b", "c"].iter().map(|s| functions::string(s)).collect();
        let out = functions::separated_list(functions::string(", "), &items)(&mut buf[..]).unwrap();
        assert_eq!(out.len(), 1);
        let out = functions::_all(&items[..1])(out).unwrap();
        assert!(out.is_empty());
    }
    assert_eq!(&buf, b"a, b, ca");
}

#[test]
fn slice_of_bytes() {
    let mut buf = [0u8; 100];
    {
        let (rest, pos) = gen(slice(&b"abcd"[..]), &mut buf[..]).unwrap();
        assert_eq!(pos, 4);
        assert_eq!(rest.len(), 100 - 4);
    }
    assert_eq!(&buf[..4], &b"abcd"[..]);
}
