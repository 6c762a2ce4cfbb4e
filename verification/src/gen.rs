//! Legacy serializers, which work on a buffer and an offset into it.
use vstd::prelude::*;
use crate::bytes::{lemma_bytes_len, be_bytes, be_u16, be_u32, be_u64, be_u8, le_bytes, le_u16, le_u32, le_u64, le_u8};
use crate::combinator::{emits, emitted, lacks_room, offered, settled, slice};
use crate::internal::{gen_simple, released, start, GenError, GenResult, SerializeFn, WriteContext};
use crate::io_compat::{copy_at, overlay, write_outcome, Cursor, Error};

verus! {

/// The bytes between the offset `at` and the end of a buffer of `len` bytes.
pub open spec fn room_at(len: nat, at: nat) -> nat {
    if at <= len {
        (len - at) as nat
    } else {
        0
    }
}

/// Runs the serializer `gen` on a cursor over the buffer of `x` that stands at
/// the offset of `x`, and returns the buffer with the offset at which the
/// cursor has arrived.
pub fn legacy_wrap<'a, G>(gen: G, x: (&'a mut [u8], usize)) -> (r: Result<(&'a mut [u8], usize), GenError>) where
    G: SerializeFn<Cursor<&'a mut [u8]>>,

    requires
        forall|c: Cursor<&'a mut [u8]>| c.0@ == old(x.0)@ && c.1 == x.1 ==> #[trigger] gen.requires((start(c),)),
    ensures
        exists|c: Cursor<&'a mut [u8]>, g: GenResult<Cursor<&'a mut [u8]>>|
            {
                &&& c.0@ == old(x.0)@
                &&& c.1 == x.1
                &&& final(x.0)@ == final(c.0)@
                &&& #[trigger] gen.ensures((start(c),), g)
                &&& match g {
                    Ok(ctx) => {
                        &&& r is Ok
                        &&& r->Ok_0.0@ == ctx.write.0@
                        &&& final(r->Ok_0.0)@ == final(ctx.write.0)@
                        &&& r->Ok_0.1 == ctx.write.1 as usize
                    },
                    Err(e) => r == Err::<(&'a mut [u8], usize), GenError>(e),
                }
            },
{
    let (buf, offset) = x;
    let cursor = Cursor(buf, offset as u64);
    let ghost c0 = cursor;
    match gen_simple(gen, cursor) {
        Ok(cursor) => {
            let position = cursor.position();
            let buf = cursor.into_inner();
            Ok((buf, position as usize))
        },
        Err(e) => Err(e),
    }
}

/// Runs on the buffer and offset of `x` a serializer that offers `bytes` in
/// one piece: the bytes land at the offset and the offset moves past them, or
/// the buffer stays as it was where they find no room.
fn put_at<'a, G>(gen: G, x: (&'a mut [u8], usize), Ghost(bytes): Ghost<Seq<u8>>) -> (r: Result<
    (&'a mut [u8], usize),
    GenError,
>) where G: SerializeFn<Cursor<&'a mut [u8]>>
    requires
        emits(gen, bytes),
        bytes.len() <= u64::MAX,
    ensures
        room_at(old(x.0)@.len(), x.1 as nat) >= bytes.len() ==> {
            &&& r is Ok
            &&& r->Ok_0.0@ == overlay(old(x.0)@, x.1 as int, bytes)
            &&& r->Ok_0.1 == x.1 + bytes.len()
            &&& final(x.0)@ == final(r->Ok_0.0)@
        },
        room_at(old(x.0)@.len(), x.1 as nat) < bytes.len() ==> {
            &&& r == Err::<(&'a mut [u8], usize), GenError>(
                GenError::BufferTooSmall((bytes.len() - room_at(old(x.0)@.len(), x.1 as nat)) as usize),
            )
            &&& final(x.0)@ == old(x.0)@
        },
{
    proof {
        vstd::slice::axiom_spec_len(x.0);
    }
    let r = legacy_wrap(gen, x);
    proof {
        let (c, g) = choose|c: Cursor<&'a mut [u8]>, g: GenResult<Cursor<&'a mut [u8]>>|
            {
                &&& c.0@ == old(x.0)@
                &&& c.1 == x.1
                &&& final(x.0)@ == final(c.0)@
                &&& #[trigger] gen.ensures((start(c),), g)
                &&& match g {
                    Ok(ctx) => {
                        &&& r is Ok
                        &&& r->Ok_0.0@ == ctx.write.0@
                        &&& final(r->Ok_0.0)@ == final(ctx.write.0)@
                        &&& r->Ok_0.1 == ctx.write.1 as usize
                    },
                    Err(e) => r == Err::<(&'a mut [u8], usize), GenError>(e),
                }
            };
        assert(emitted(start(c), bytes, g));
        let data = choose|data: &[u8]| data@ == bytes && #[trigger] offered(start(c), data, g);
        let (post, wr) = choose|post: WriteContext<Cursor<&'a mut [u8]>>, wr: Result<usize, Error>|
            {
                &&& #[trigger] write_outcome(start(c), data, post, wr)
                &&& g == settled(data@.len(), post, wr)
                &&& g is Err ==> released(post)
            };
        let short = lacks_room(start(c), bytes.len());
        assert(!short ==> write_outcome(c, data, post.write, wr));
        assert(!short && g is Err ==> has_resolved(post));
        assert(!short && g is Err ==> has_resolved(post.write));
        assert(!short && g is Err ==> has_resolved(post.write.0));
        assert(short ==> has_resolved(start(c)));
        assert(short ==> has_resolved(start(c).write));
        assert(short ==> has_resolved(c.0));
        assert(!short ==> bytes.take(bytes.len() as int) =~= bytes);
    }
    r
}

/// Write an unsigned 1 byte integer at the offset.
pub fn set_be_u8<'a>(x: (&'a mut [u8], usize), v: u8) -> (r: Result<(&'a mut [u8], usize), GenError>)
    ensures
        room_at(old(x.0)@.len(), x.1 as nat) >= 1 ==> {
            &&& r is Ok
            &&& r->Ok_0.0@ == overlay(old(x.0)@, x.1 as int, be_bytes(v as nat, 1))
            &&& r->Ok_0.1 == x.1 + 1
            &&& final(x.0)@ == final(r->Ok_0.0)@
        },
        room_at(old(x.0)@.len(), x.1 as nat) < 1 ==> {
            &&& r == Err::<(&'a mut [u8], usize), GenError>(
                GenError::BufferTooSmall((1 - room_at(old(x.0)@.len(), x.1 as nat)) as usize),
            )
            &&& final(x.0)@ == old(x.0)@
        },
{
    proof {
        lemma_bytes_len(v as nat, 1);
    }
    put_at(be_u8(v), x, Ghost(be_bytes(v as nat, 1)))
}

/// Write an unsigned 2 bytes integer (big-endian order) at the offset.
pub fn set_be_u16<'a>(x: (&'a mut [u8], usize), v: u16) -> (r: Result<(&'a mut [u8], usize), GenError>)
    ensures
        room_at(old(x.0)@.len(), x.1 as nat) >= 2 ==> {
            &&& r is Ok
            &&& r->Ok_0.0@ == overlay(old(x.0)@, x.1 as int, be_bytes(v as nat, 2))
            &&& r->Ok_0.1 == x.1 + 2
            &&& final(x.0)@ == final(r->Ok_0.0)@
        },
        room_at(old(x.0)@.len(), x.1 as nat) < 2 ==> {
            &&& r == Err::<(&'a mut [u8], usize), GenError>(
                GenError::BufferTooSmall((2 - room_at(old(x.0)@.len(), x.1 as nat)) as usize),
            )
            &&& final(x.0)@ == old(x.0)@
        },
{
    proof {
        lemma_bytes_len(v as nat, 2);
    }
    put_at(be_u16(v), x, Ghost(be_bytes(v as nat, 2)))
}

/// Write an unsigned 4 bytes integer (big-endian order) at the offset.
pub fn set_be_u32<'a>(x: (&'a mut [u8], usize), v: u32) -> (r: Result<(&'a mut [u8], usize), GenError>)
    ensures
        room_at(old(x.0)@.len(), x.1 as nat) >= 4 ==> {
            &&& r is Ok
            &&& r->Ok_0.0@ == overlay(old(x.0)@, x.1 as int, be_bytes(v as nat, 4))
            &&& r->Ok_0.1 == x.1 + 4
            &&& final(x.0)@ == final(r->Ok_0.0)@
        },
        room_at(old(x.0)@.len(), x.1 as nat) < 4 ==> {
            &&& r == Err::<(&'a mut [u8], usize), GenError>(
                GenError::BufferTooSmall((4 - room_at(old(x.0)@.len(), x.1 as nat)) as usize),
            )
            &&& final(x.0)@ == old(x.0)@
        },
{
    proof {
        lemma_bytes_len(v as nat, 4);
    }
    put_at(be_u32(v), x, Ghost(be_bytes(v as nat, 4)))
}

/// Write an unsigned 8 bytes integer (big-endian order) at the offset.
pub fn set_be_u64<'a>(x: (&'a mut [u8], usize), v: u64) -> (r: Result<(&'a mut [u8], usize), GenError>)
    ensures
        room_at(old(x.0)@.len(), x.1 as nat) >= 8 ==> {
            &&& r is Ok
            &&& r->Ok_0.0@ == overlay(old(x.0)@, x.1 as int, be_bytes(v as nat, 8))
            &&& r->Ok_0.1 == x.1 + 8
            &&& final(x.0)@ == final(r->Ok_0.0)@
        },
        room_at(old(x.0)@.len(), x.1 as nat) < 8 ==> {
            &&& r == Err::<(&'a mut [u8], usize), GenError>(
                GenError::BufferTooSmall((8 - room_at(old(x.0)@.len(), x.1 as nat)) as usize),
            )
            &&& final(x.0)@ == old(x.0)@
        },
{
    proof {
        lemma_bytes_len(v as nat, 8);
    }
    put_at(be_u64(v), x, Ghost(be_bytes(v as nat, 8)))
}

/// Write an unsigned 1 byte integer at the offset.
pub fn set_le_u8<'a>(x: (&'a mut [u8], usize), v: u8) -> (r: Result<(&'a mut [u8], usize), GenError>)
    ensures
        room_at(old(x.0)@.len(), x.1 as nat) >= 1 ==> {
            &&& r is Ok
            &&& r->Ok_0.0@ == overlay(old(x.0)@, x.1 as int, le_bytes(v as nat, 1))
            &&& r->Ok_0.1 == x.1 + 1
            &&& final(x.0)@ == final(r->Ok_0.0)@
        },
        room_at(old(x.0)@.len(), x.1 as nat) < 1 ==> {
            &&& r == Err::<(&'a mut [u8], usize), GenError>(
                GenError::BufferTooSmall((1 - room_at(old(x.0)@.len(), x.1 as nat)) as usize),
            )
            &&& final(x.0)@ == old(x.0)@
        },
{
    proof {
        lemma_bytes_len(v as nat, 1);
    }
    put_at(le_u8(v), x, Ghost(le_bytes(v as nat, 1)))
}

/// Write an unsigned 2 bytes integer (little-endian order) at the offset.
pub fn set_le_u16<'a>(x: (&'a mut [u8], usize), v: u16) -> (r: Result<(&'a mut [u8], usize), GenError>)
    ensures
        room_at(old(x.0)@.len(), x.1 as nat) >= 2 ==> {
            &&& r is Ok
            &&& r->Ok_0.0@ == overlay(old(x.0)@, x.1 as int, le_bytes(v as nat, 2))
            &&& r->Ok_0.1 == x.1 + 2
            &&& final(x.0)@ == final(r->Ok_0.0)@
        },
        room_at(old(x.0)@.len(), x.1 as nat) < 2 ==> {
            &&& r == Err::<(&'a mut [u8], usize), GenError>(
                GenError::BufferTooSmall((2 - room_at(old(x.0)@.len(), x.1 as nat)) as usize),
            )
            &&& final(x.0)@ == old(x.0)@
        },
{
    proof {
        lemma_bytes_len(v as nat, 2);
    }
    put_at(le_u16(v), x, Ghost(le_bytes(v as nat, 2)))
}

/// Write an unsigned 4 bytes integer (little-endian order) at the offset.
pub fn set_le_u32<'a>(x: (&'a mut [u8], usize), v: u32) -> (r: Result<(&'a mut [u8], usize), GenError>)
    ensures
        room_at(old(x.0)@.len(), x.1 as nat) >= 4 ==> {
            &&& r is Ok
            &&& r->Ok_0.0@ == overlay(old(x.0)@, x.1 as int, le_bytes(v as nat, 4))
            &&& r->Ok_0.1 == x.1 + 4
            &&& final(x.0)@ == final(r->Ok_0.0)@
        },
        room_at(old(x.0)@.len(), x.1 as nat) < 4 ==> {
            &&& r == Err::<(&'a mut [u8], usize), GenError>(
                GenError::BufferTooSmall((4 - room_at(old(x.0)@.len(), x.1 as nat)) as usize),
            )
            &&& final(x.0)@ == old(x.0)@
        },
{
    proof {
        lemma_bytes_len(v as nat, 4);
    }
    put_at(le_u32(v), x, Ghost(le_bytes(v as nat, 4)))
}

/// Write an unsigned 8 bytes integer (little-endian order) at the offset.
pub fn set_le_u64<'a>(x: (&'a mut [u8], usize), v: u64) -> (r: Result<(&'a mut [u8], usize), GenError>)
    ensures
        room_at(old(x.0)@.len(), x.1 as nat) >= 8 ==> {
            &&& r is Ok
            &&& r->Ok_0.0@ == overlay(old(x.0)@, x.1 as int, le_bytes(v as nat, 8))
            &&& r->Ok_0.1 == x.1 + 8
            &&& final(x.0)@ == final(r->Ok_0.0)@
        },
        room_at(old(x.0)@.len(), x.1 as nat) < 8 ==> {
            &&& r == Err::<(&'a mut [u8], usize), GenError>(
                GenError::BufferTooSmall((8 - room_at(old(x.0)@.len(), x.1 as nat)) as usize),
            )
            &&& final(x.0)@ == old(x.0)@
        },
{
    proof {
        lemma_bytes_len(v as nat, 8);
    }
    put_at(le_u64(v), x, Ghost(le_bytes(v as nat, 8)))
}

/// The offset that `gen_align` moves `idx` to: the next multiple of `val`
/// that lies behind `idx`.
pub open spec fn aligned(idx: nat, val: nat) -> nat {
    (idx + val - idx % val) as nat
}

/// Align the offset to the next multiple of `val`.
///
/// Does not modify the buffer, but moves the offset. An offset that is a
/// multiple of `val` already moves on by `val`. The new offset has to lie
/// before the end of the buffer.
pub fn gen_align<'a>(x: (&'a mut [u8], usize), val: usize) -> (r: Result<(&'a mut [u8], usize), GenError>)
    requires
        val > 0,
        aligned(x.1 as nat, val as nat) <= usize::MAX,
    ensures
        final(x.0)@ == match r {
            Ok(o) => final(o.0)@,
            Err(_) => old(x.0)@,
        },
        old(x.0)@.len() > aligned(x.1 as nat, val as nat) ==> {
            &&& r is Ok
            &&& r->Ok_0.0@ == old(x.0)@
            &&& r->Ok_0.1 == aligned(x.1 as nat, val as nat)
        },
        old(x.0)@.len() <= aligned(x.1 as nat, val as nat) ==> r == Err::<(&'a mut [u8], usize), GenError>(
            GenError::BufferTooSmall((aligned(x.1 as nat, val as nat) - old(x.0)@.len()) as usize),
        ),
{
    let (i, idx) = x;
    let step = val - (idx % val);
    if i.len() <= idx + step {
        Err(GenError::BufferTooSmall(idx + step - i.len()))
    } else {
        Ok((i, idx + step))
    }
}

/// Copies the first `l` bytes of `val` into the buffer at the offset.
pub fn gen_copy<'a>(x: (&'a mut [u8], usize), val: &[u8], l: usize) -> (r: Result<(&'a mut [u8], usize), GenError>)
    requires
        l <= val@.len(),
        x.1 + l <= usize::MAX,
    ensures
        final(x.0)@ == match r {
            Ok(o) => final(o.0)@,
            Err(_) => old(x.0)@,
        },
        old(x.0)@.len() >= x.1 + l ==> {
            &&& r is Ok
            &&& r->Ok_0.0@ == overlay(old(x.0)@, x.1 as int, val@.take(l as int))
            &&& r->Ok_0.1 == x.1 + l
        },
        old(x.0)@.len() < x.1 + l ==> r == Err::<(&'a mut [u8], usize), GenError>(
            GenError::BufferTooSmall((x.1 + l - old(x.0)@.len()) as usize),
        ),
{
    let (i, idx) = x;
    if i.len() < idx + l {
        Err(GenError::BufferTooSmall(idx + l - i.len()))
    } else {
        let (head, _) = val.split_at(l);
        assert(head@ =~= val@.take(l as int));
        copy_at(i, idx, head);
        Ok((i, idx + l))
    }
}

/// Runs `f` on the buffer at the absolute offset `offset`, and returns the
/// buffer that `f` gives with the offset of `x`, which does not move.
pub fn gen_at_offset<'a, F>(x: (&'a mut [u8], usize), offset: usize, f: F) -> (r: Result<
    (&'a mut [u8], usize),
    GenError,
>) where F: FnOnce((&'a mut [u8], usize)) -> Result<(&'a mut [u8], usize), GenError>
    requires
        forall|y: (&'a mut [u8], usize)| y.0@ == old(x.0)@ && y.1 == offset ==> #[trigger] f.requires((y,)),
    ensures
        old(x.0)@.len() < offset ==> {
            &&& r == Err::<(&'a mut [u8], usize), GenError>(
                GenError::BufferTooSmall((offset - old(x.0)@.len()) as usize),
            )
            &&& final(x.0)@ == old(x.0)@
        },
        old(x.0)@.len() >= offset ==> exists|y: (&'a mut [u8], usize), o: Result<(&'a mut [u8], usize), GenError>|
            {
                &&& y.0@ == old(x.0)@
                &&& y.1 == offset
                &&& final(x.0)@ == final(y.0)@
                &&& #[trigger] f.ensures((y,), o)
                &&& match o {
                    Ok(done) => {
                        &&& r is Ok
                        &&& r->Ok_0.0@ == done.0@
                        &&& final(r->Ok_0.0)@ == final(done.0)@
                        &&& r->Ok_0.1 == x.1
                    },
                    Err(e) => r == Err::<(&'a mut [u8], usize), GenError>(e),
                }
            },
{
    let (i, idx) = x;
    if i.len() < offset {
        Err(GenError::BufferTooSmall(offset - i.len()))
    } else {
        let y = (i, offset);
        let ghost y0 = y;
        let o = f(y);
        assert(f.ensures((y0,), o));
        match o {
            Ok((b, _)) => Ok((b, idx)),
            Err(e) => Err(e),
        }
    }
}

/// The absolute offset that lies `rel_offset` bytes from `idx`, where both
/// `idx` and that offset are positive numbers of 32 bits with a sign.
pub open spec fn rel_target(idx: usize, rel_offset: i32) -> Option<usize> {
    if idx <= i32::MAX && 0 < idx + rel_offset <= i32::MAX {
        Some((idx + rel_offset) as usize)
    } else {
        None
    }
}

/// Runs `f` on the buffer at the offset that lies `rel_offset` bytes from the
/// offset of `x`, as `gen_at_offset` does; `InvalidOffset` where
/// `rel_target` gives no offset.
pub fn gen_at_rel_offset<'a, F>(x: (&'a mut [u8], usize), rel_offset: i32, f: F) -> (r: Result<
    (&'a mut [u8], usize),
    GenError,
>) where F: FnOnce((&'a mut [u8], usize)) -> Result<(&'a mut [u8], usize), GenError>
    requires
        rel_target(x.1, rel_offset) matches Some(offset) ==> forall|y: (&'a mut [u8], usize)|
            y.0@ == old(x.0)@ && y.1 == offset ==> #[trigger] f.requires((y,)),
    ensures
        match rel_target(x.1, rel_offset) {
            None => r == Err::<(&'a mut [u8], usize), GenError>(GenError::InvalidOffset) && final(x.0)@ == old(
                x.0,
            )@,
            Some(offset) => {
                &&& old(x.0)@.len() < offset ==> {
                    &&& r == Err::<(&'a mut [u8], usize), GenError>(
                        GenError::BufferTooSmall((offset - old(x.0)@.len()) as usize),
                    )
                    &&& final(x.0)@ == old(x.0)@
                }
                &&& old(x.0)@.len() >= offset ==> exists|
                    y: (&'a mut [u8], usize),
                    o: Result<(&'a mut [u8], usize), GenError>,
                |
                    {
                        &&& y.0@ == old(x.0)@
                        &&& y.1 == offset
                        &&& final(x.0)@ == final(y.0)@
                        &&& #[trigger] f.ensures((y,), o)
                        &&& match o {
                            Ok(done) => {
                                &&& r is Ok
                                &&& r->Ok_0.0@ == done.0@
                                &&& final(r->Ok_0.0)@ == final(done.0)@
                                &&& r->Ok_0.1 == x.1
                            },
                            Err(e) => r == Err::<(&'a mut [u8], usize), GenError>(e),
                        }
                    }
            },
        },
{
    let idx = x.1;
    if idx > i32::MAX as usize {
        return Err(GenError::InvalidOffset);
    }
    let s: i64 = rel_offset as i64 + idx as i64;
    if s > 0 && s <= i32::MAX as i64 {
        gen_at_offset(x, s as usize, f)
    } else {
        Err(GenError::InvalidOffset)
    }
}

/// The buffer and the offset after the payloads of `chunks` were written to
/// `buf` one after another from the offset `at` on; the buffer as it stood
/// and the error where a payload found no room.
pub open spec fn put_chunks(buf: Seq<u8>, at: nat, chunks: Seq<Seq<u8>>) -> (Seq<u8>, Result<nat, GenError>)
    decreases chunks.len(),
{
    if chunks.len() == 0 {
        (buf, Ok(at))
    } else if room_at(buf.len(), at) >= chunks[0].len() {
        put_chunks(overlay(buf, at as int, chunks[0]), at + chunks[0].len(), chunks.skip(1))
    } else {
        (buf, Err(GenError::BufferTooSmall((chunks[0].len() - room_at(buf.len(), at)) as usize)))
    }
}

/// Writing the payloads of `a` and then those of `b` is writing those of
/// `a + b`.
pub proof fn lemma_put_chunks_concat(buf: Seq<u8>, at: nat, a: Seq<Seq<u8>>, b: Seq<Seq<u8>>)
    ensures
        put_chunks(buf, at, a + b) == match put_chunks(buf, at, a).1 {
            Ok(then) => put_chunks(put_chunks(buf, at, a).0, then, b),
            Err(e) => put_chunks(buf, at, a),
        },
    decreases a.len(),
{
    if a.len() == 0 {
        assert(a + b =~= b);
    } else {
        assert((a + b)[0] == a[0]);
        assert((a + b).skip(1) =~= a.skip(1) + b);
        if room_at(buf.len(), at) >= a[0].len() {
            lemma_put_chunks_concat(overlay(buf, at as int, a[0]), at + a[0].len(), a.skip(1), b);
        }
    }
}

/// Writes a byte slice at the offset.
pub fn gen_slice<'a>(x: (&'a mut [u8], usize), data: &[u8]) -> (r: Result<(&'a mut [u8], usize), GenError>)
    ensures
        room_at(old(x.0)@.len(), x.1 as nat) >= data@.len() ==> {
            &&& r is Ok
            &&& r->Ok_0.0@ == overlay(old(x.0)@, x.1 as int, data@)
            &&& r->Ok_0.1 == x.1 + data@.len()
            &&& final(x.0)@ == final(r->Ok_0.0)@
        },
        room_at(old(x.0)@.len(), x.1 as nat) < data@.len() ==> {
            &&& r == Err::<(&'a mut [u8], usize), GenError>(
                GenError::BufferTooSmall((data@.len() - room_at(old(x.0)@.len(), x.1 as nat)) as usize),
            )
            &&& final(x.0)@ == old(x.0)@
        },
{
    proof {
        vstd::slice::axiom_spec_len(data);
    }
    put_at(slice(data), x, Ghost(data@))
}

} // verus!
