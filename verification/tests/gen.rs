use cookie_factory::bytes::{be_i32, be_u16, be_u32, be_u64, be_u8, le_u64, le_u8};
use cookie_factory::combinator::{skip, slice};
use cookie_factory::gen::{
    gen_align, gen_at_offset, gen_at_rel_offset, gen_copy, legacy_wrap, set_be_u16, set_be_u8,
};
use cookie_factory::GenError;

#[test]
fn test_do_gen() {
    let mut mem: [u8; 8] = [0; 8];
    let s = &mut mem[..];
    let expected = [1, 2, 3, 4, 5, 6, 7, 8];
    let r = legacy_wrap(be_u8(1), (s, 0))
        .and_then(|x| legacy_wrap(be_u8(2), x))
        .and_then(|x| legacy_wrap(be_u16(0x0304), x))
        .and_then(|x| legacy_wrap(be_u32(0x05060708), x));
    match r {
        Ok((b, idx)) => {
            assert_eq!(idx, 8);
            assert_eq!(b, &expected);
        }
        Err(e) => panic!("error {:?}", e),
    }
}

#[test]
fn test_do_gen_vector() {
    let mut data = [0; 8];
    let expected = [1, 2, 3, 4, 5, 6, 7, 8];
    let r = legacy_wrap(be_u8(1), (&mut data[..], 0))
        .and_then(|x| legacy_wrap(be_u8(2), x))
        .and_then(|x| legacy_wrap(be_u16(0x0304), x))
        .and_then(|x| legacy_wrap(be_u32(0x05060708), x));
    match r {
        Ok((b, idx)) => {
            assert_eq!(idx, 8);
            assert_eq!(b, &expected);
        }
        Err(e) => panic!("error {:?}", e),
    }
}

#[test]
fn test_gen_skip() {
    let mut mem: [u8; 8] = [0; 8];
    let s = &mut mem[..];
    let expected = [0, 0, 0, 0, 0, 0, 0, 0];
    let r = legacy_wrap(skip(5), (s, 0));
    match r {
        Ok((b, idx)) => {
            assert_eq!(idx, 5);
            assert_eq!(b, &expected);
        }
        Err(e) => panic!("error {:?}", e),
    }
}

#[test]
fn test_gen_be_u8() {
    let mut mem: [u8; 8] = [0; 8];
    let s = &mut mem[..];
    let expected = [1, 2, 0, 0, 0, 0, 0, 0];
    let r = legacy_wrap(be_u8(1), (s, 0)).and_then(|x| legacy_wrap(be_u8(2), x));
    match r {
        Ok((b, idx)) => {
            assert_eq!(idx, 2);
            assert_eq!(b, &expected);
        }
        Err(e) => panic!("error {:?}", e),
    }
}

#[test]
fn test_gen_le_u8() {
    let mut mem: [u8; 8] = [0; 8];
    let s = &mut mem[..];
    let expected = [1, 2, 0, 0, 0, 0, 0, 0];
    let r = legacy_wrap(le_u8(1), (s, 0)).and_then(|x| legacy_wrap(le_u8(2), x));
    match r {
        Ok((b, idx)) => {
            assert_eq!(idx, 2);
            assert_eq!(b, &expected);
        }
        Err(e) => panic!("error {:?}", e),
    }
}

#[test]
fn test_gen_be_i32() {
    let mut mem: [u8; 8] = [0; 8];
    let expected = [0xff, 0xff, 0xff, 0xff, 0, 0, 0, 0];
    let r = legacy_wrap(be_i32(-1i32), (&mut mem[..], 0));
    match r {
        Ok((b, idx)) => {
            assert_eq!(idx, 4);
            assert_eq!(b, &expected);
        }
        Err(e) => panic!("error {:?}", e),
    }
}

#[test]
fn test_gen_be_u64() {
    let mut mem: [u8; 8] = [0; 8];
    let expected = [1, 2, 3, 4, 5, 6, 7, 8];
    let r = legacy_wrap(be_u64(0x0102030405060708u64), (&mut mem[..], 0));
    match r {
        Ok((b, idx)) => {
            assert_eq!(idx, 8);
            assert_eq!(b, &expected);
        }
        Err(e) => panic!("error {:?}", e),
    }
}

#[test]
fn test_gen_be_u64_very_short_buffer() {
    let mut mem = [0; 3];

    let r = legacy_wrap(be_u64(0x0102030405060708u64), (&mut mem[..], 0));
    match r {
        Ok((b, idx)) => panic!("should have failed, but wrote {} bytes: {:?}", idx, b),
        Err(GenError::BufferTooSmall(sz)) => assert_eq!(sz, 5),
        Err(e) => panic!("error {:?}", e),
    }
}

#[test]
fn test_gen_be_u64_slightly_short_buffer() {
    let mut mem = [0; 7];
    let r = legacy_wrap(be_u64(0x0102030405060708u64), (&mut mem[..], 0));
    match r {
        Ok((b, idx)) => panic!("should have failed, but wrote {} bytes: {:?}", idx, b),
        Err(GenError::BufferTooSmall(sz)) => assert_eq!(sz, 1),
        Err(e) => panic!("error {:?}", e),
    }
}

#[test]
fn test_gen_le_u64() {
    let mut mem: [u8; 8] = [0; 8];
    let expected = [8, 7, 6, 5, 4, 3, 2, 1];
    let r = legacy_wrap(le_u64(0x0102030405060708u64), (&mut mem[..], 0));
    match r {
        Ok((b, idx)) => {
            assert_eq!(idx, 8);
            assert_eq!(b, &expected);
        }
        Err(e) => panic!("error {:?}", e),
    }
}

#[test]
fn test_set_be_u8() {
    let mut mem: [u8; 8] = [0; 8];
    let s = &mut mem[..];
    let expected = [1, 2, 0, 0, 0, 0, 0, 0];
    let r = set_be_u8((s, 0), 1).and_then(|x| set_be_u8(x, 2));
    match r {
        Ok((b, idx)) => {
            assert_eq!(idx, 2);
            assert_eq!(b, &expected);
        }
        Err(e) => panic!("error {:?}", e),
    }
}

#[test]
fn test_gen_align() {
    let mut mem: [u8; 8] = [0; 8];
    let s = &mut mem[..];
    let expected = [1, 0, 0, 0, 1, 0, 0, 0];
    let r = legacy_wrap(be_u8(1), (s, 0))
        .and_then(|x| gen_align(x, 4))
        .and_then(|x| legacy_wrap(be_u8(1), x));
    match r {
        Ok((b, idx)) => {
            assert_eq!(idx, 5);
            assert_eq!(b, &expected);
        }
        Err(e) => panic!("error {:?}", e),
    }
}

#[test]
fn test_gen_many() {
    let mut mem: [u8; 8] = [0; 8];
    let s = &mut mem[..];
    let v: Vec<u16> = vec![1, 2, 3, 4];
    let expected = [0, 1, 0, 2, 0, 3, 0, 4];
    let r = v.into_iter().fold(Ok((s, 0)), |r, v| match r {
        Err(e) => Err(e),
        Ok(x) => set_be_u16(x, v),
    });
    match r {
        Ok((b, idx)) => {
            assert_eq!(idx, 8);
            assert_eq!(b, &expected);
        }
        Err(e) => panic!("error {:?}", e),
    }
}

#[test]
fn test_gen_copy() {
    let mut mem: [u8; 8] = [0; 8];
    let s = &mut mem[..];
    let v = [1, 2, 3, 4];
    let expected = [1, 2, 3, 4, 0, 0, 0, 0];
    let r = gen_copy((s, 0), &v, v.len());
    match r {
        Ok((b, idx)) => {
            assert_eq!(idx, 4);
            assert_eq!(b, &expected);
        }
        Err(e) => panic!("error {:?}", e),
    }
}

#[test]
fn test_gen_copy_buffer_too_small() {
    let mut mem: [u8; 7] = [0; 7];
    let s = &mut mem[..];
    let v = [0, 1, 2, 3, 4, 5, 6, 7];
    let r = gen_copy((s, 0), &v, v.len());
    match r {
        Ok(_) => {
            panic!("buffer shouldn't have had enough space");
        }
        Err(GenError::BufferTooSmall(sz)) => {
            if sz != 1 {
                panic!("invalid max index returned, expected {} got {}", 1, sz);
            }
        }
        Err(e) => {
            panic!("error {:?}", e);
        }
    }
}

#[test]
fn test_gen_slice() {
    let mut mem: [u8; 0] = [0; 0];
    let s = &mut mem[..];
    let v: [u8; 0] = [];
    let expected: [u8; 0] = [];
    let r = legacy_wrap(slice(&v[..]), (s, 0));
    match r {
        Ok((b, idx)) => {
            assert_eq!(idx, 0);
            assert_eq!(b, &expected);
        }
        Err(e) => panic!("error {:?}", e),
    }
}

#[test]
fn test_gen_slice_buffer_too_small() {
    let mut mem: [u8; 7] = [0; 7];
    let s = &mut mem[..];
    let v = [0, 1, 2, 3, 4, 5, 6, 7];
    let r = legacy_wrap(slice(&v[..]), (s, 0));
    match r {
        Ok(_) => {
            panic!("buffer shouldn't have had enough space");
        }
        Err(GenError::BufferTooSmall(sz)) => {
            if sz != 1 {
                panic!("invalid max index returned, expected {} got {}", 1, sz);
            }
        }
        Err(e) => {
            panic!("error {:?}", e);
        }
    }
}

#[test]
fn test_gen_length_slice() {
    let mut mem: [u8; 8] = [0; 8];
    let s = &mut mem[..];
    let v = [1, 2, 3, 4];
    let expected = [0, 4, 1, 2, 3, 4, 0, 0];
    let r = set_be_u16((s, 0), v.len() as u16).and_then(|x| legacy_wrap(slice(&v[..]), x));
    match r {
        Ok((b, idx)) => {
            assert_eq!(idx, 6);
            assert_eq!(b, &expected);
        }
        Err(e) => panic!("error {:?}", e),
    }
}

#[test]
fn test_gen_checkpoint() {
    let mut mem: [u8; 8] = [0; 8];
    let s = &mut mem[..];
    let expected = [1, 0, 0, 0, 0, 4, 0, 0];
    let start = 0;
    let r = legacy_wrap(be_u8(1), (s, start))
        .and_then(|x| gen_align(x, 4))
        .and_then(|x| {
            let end = x.1;
            legacy_wrap(be_u16((end - start) as u16), x)
        });
    match r {
        Ok((b, idx)) => {
            assert_eq!(idx, 6);
            assert_eq!(b, &expected);
        }
        Err(e) => panic!("error {:?}", e),
    }
}

#[test]
fn test_gen_at_offset() {
    let mut mem: [u8; 8] = [0; 8];
    let s = &mut mem[..];
    let expected = [0, 0, 0, 0, 0, 4, 0, 0];
    let r = legacy_wrap(skip(2), (s, 0))
        .and_then(|x| gen_at_offset(x, 4, |y| legacy_wrap(be_u16(4), y)));
    match r {
        Ok((b, idx)) => {
            assert_eq!(idx, 2);
            assert_eq!(b, &expected);
        }
        Err(e) => panic!("error {:?}", e),
    }
}

#[test]
fn test_gen_at_rel_offset() {
    let mut mem: [u8; 8] = [0; 8];
    let s = &mut mem[..];
    let expected = [0, 0, 0, 0, 0, 0, 0, 4];
    let r = legacy_wrap(skip(2), (s, 0))
        .and_then(|x| gen_at_rel_offset(x, 4, |y| legacy_wrap(be_u16(4), y)));
    match r {
        Ok((b, idx)) => {
            assert_eq!(idx, 2);
            assert_eq!(b, &expected);
        }
        Err(e) => panic!("error {:?}", e),
    }
}

#[test]
fn test_gen_at_rel_offset_fail() {
    let mut mem: [u8; 8] = [0; 8];
    let s = &mut mem[..];
    let r = legacy_wrap(skip(2), (s, 0))
        .and_then(|x| gen_at_rel_offset(x, -4, |y| legacy_wrap(be_u16(4), y)));
    if let Err(GenError::InvalidOffset) = r {
    } else {
        panic!("unexpected result {:?}", r)
    };
}
