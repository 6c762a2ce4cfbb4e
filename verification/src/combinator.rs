//! Basic serializers.
use vstd::prelude::*;
use vstd::string::StringSliceAdditionalSpecFns;
use crate::internal::{release, released, reserve_outcome, skip_outcome, BackToTheBuffer, GenError, GenResult, SerializeFn, Skip, WriteContext};
use crate::io_compat::{Error, Write, write_outcome};

verus! {

/// What a serializer makes of the answer `wr` of the sink to a payload of
/// `len` bytes: the context `post` to go on with where all of them were taken,
/// the number of bytes that found no room where fewer were, the sink's error
/// where it gave one.
pub open spec fn settled<W>(len: nat, post: WriteContext<W>, wr: Result<usize, Error>) -> GenResult<W> {
    match wr {
        Err(e) => Err(GenError::IoError(e)),
        Ok(n) => if n < len {
            Err(GenError::BufferTooSmall((len - n) as usize))
        } else {
            Ok(post)
        },
    }
}

/// The context tells its room, and that is less than `len` bytes.
pub open spec fn lacks_room<W: Write>(ctx: WriteContext<W>, len: nat) -> bool {
    ctx.spare() matches Some(room) && room < len
}

/// `r` is a result of offering the payload `data` to the context `ctx` in one
/// piece. Where the context tells its room and the payload does not fit, the
/// payload is not offered: the context is let go as it is, and the result is
/// `BufferTooSmall` with the number of bytes that find no room. Else the
/// result is what `settled` makes of the sink's answer.
pub open spec fn offered<W: Write>(ctx: WriteContext<W>, data: &[u8], r: GenResult<W>) -> bool {
    if lacks_room(ctx, data@.len()) {
        &&& r == Err::<WriteContext<W>, GenError>(
            GenError::BufferTooSmall((data@.len() - ctx.spare()->Some_0) as usize),
        )
        &&& released(ctx)
    } else {
        exists|post: WriteContext<W>, wr: Result<usize, Error>|
            {
                &&& #[trigger] write_outcome(ctx, data, post, wr)
                &&& r == settled(data@.len(), post, wr)
                &&& r is Err ==> released(post)
            }
    }
}

/// `r` is a result of offering the bytes `bytes` to the context `ctx` in one
/// piece.
pub open spec fn emitted<W: Write>(ctx: WriteContext<W>, bytes: Seq<u8>, r: GenResult<W>) -> bool {
    exists|data: &[u8]| data@ == bytes && #[trigger] offered(ctx, data, r)
}

/// `f` offers `bytes` to its context in one piece: it may be run on every
/// context that is ready for as many bytes, and what it returns is then a
/// result that `emitted` describes.
pub open spec fn emits<W: Write, F: SerializeFn<W>>(f: F, bytes: Seq<u8>) -> bool {
    &&& forall|ctx: WriteContext<W>| ctx.ready(bytes.len()) ==> #[trigger] f.requires((ctx,))
    &&& forall|ctx: WriteContext<W>, r: GenResult<W>| #[trigger] f.ensures((ctx,), r) ==> emitted(ctx, bytes, r)
}

/// Offers `data` to `out` and settles the answer.
pub fn try_write<W: Write>(out: WriteContext<W>, data: &[u8]) -> (r: GenResult<W>)
    requires
        out.ready(data@.len()),
    ensures
        offered(out, data, r),
        emitted(out, data@, r),
{
    let len = data.len();
    if let Some(room) = out.room() {
        if room < len {
            release(out);
            let r = Err(GenError::BufferTooSmall(len - room));
            assert(offered(out, data, r));
            return r;
        }
    }
    let (post, wr) = out.write(data);
    let ghost post0 = post;
    let r = match wr {
        Err(io) => {
            release(post);
            Err(GenError::IoError(io))
        },
        Ok(n) => if n < len {
            release(post);
            Err(GenError::BufferTooSmall(len - n))
        } else {
            Ok(post)
        },
    };
    assert(write_outcome(out, data, post0, wr) && r == settled(data@.len(), post0, wr));
    assert(r is Err ==> released(post0));
    assert(offered(out, data, r));
    r
}

/// Writes a byte slice to the output.
pub fn slice<'a, W: Write>(data: &'a [u8]) -> (f: impl SerializeFn<W> + 'a)
    ensures
        emits(f, data@),
{
    move |out: WriteContext<W>| -> (r: GenResult<W>)
        requires
            out.ready(data@.len()),
        ensures
            emitted(out, data@, r),
    {
        try_write(out, data)
    }
}

/// Writes a string slice to the output.
pub fn string<'a, W: Write>(data: &'a str) -> (f: impl SerializeFn<W> + 'a)
    ensures
        emits(f, data.spec_bytes()),
{
    move |out: WriteContext<W>| -> (r: GenResult<W>)
        requires
            out.ready(data.spec_bytes().len()),
        ensures
            emitted(out, data.spec_bytes(), r),
    {
        try_write(out, data.as_bytes())
    }
}

/// The upper case hexadecimal digit for `d`, as a byte of text.
pub open spec fn hex_digit(d: nat) -> u8 {
    if d < 10 {
        (48 + d) as u8
    } else {
        (55 + d) as u8
    }
}

/// The upper case hexadecimal text of `v`, without leading zeros; `"0"` for 0.
pub open spec fn upper_hex(v: nat) -> Seq<u8>
    decreases v,
{
    if v < 16 {
        seq![hex_digit(v)]
    } else {
        upper_hex(v / 16).push(hex_digit(v % 16))
    }
}

/// The upper case hexadecimal text of `v`.
pub fn upper_hex_text(v: u64) -> (text: Vec<u8>)
    ensures
        text@ == upper_hex(v as nat),
{
    let mut digits: Vec<u8> = Vec::new();
    let mut x = v;
    // the digits of `v`, least significant first
    while x >= 16
        invariant
            upper_hex(v as nat) =~= upper_hex(x as nat) + digits@.reverse(),
        decreases x,
    {
        let d = (x % 16) as u8;
        let c = if d < 10 { 48 + d } else { 55 + d };
        proof {
            let rest = digits@.reverse();
            assert(digits@.push(c).reverse() =~= seq![c] + rest);
            assert(upper_hex(x as nat) =~= upper_hex((x / 16) as nat).push(c));
            assert(upper_hex((x / 16) as nat).push(c) + rest =~= upper_hex((x / 16) as nat) + (seq![c] + rest));
        }
        digits.push(c);
        x = x / 16;
    }
    let d = x as u8;
    let c = if d < 10 { 48 + d } else { 55 + d };
    let mut text: Vec<u8> = Vec::new();
    text.push(c);
    let n = digits.len();
    let mut i: usize = 0;
    while i < n
        invariant
            i <= n,
            n == digits@.len(),
            text@ =~= seq![c] + digits@.reverse().take(i as int),
        decreases n - i,
    {
        text.push(digits[n - 1 - i]);
        i += 1;
        proof {
            let rev = digits@.reverse();
            assert(rev.take(i as int) =~= rev.take(i - 1).push(rev[i - 1]));
        }
    }
    proof {
        assert(digits@.reverse().take(n as int) =~= digits@.reverse());
        assert(upper_hex(x as nat) =~= seq![c]);
    }
    text
}

/// `r` is a result of offering the text `bytes` to the context `ctx` in one
/// piece. Where the context tells its room and the text does not fit, the
/// text is not offered and the result is `IoError`. Else the result is the
/// context to go on with where all of the text was taken, and `IoError` where
/// it was not.
pub open spec fn printed<W: Write>(ctx: WriteContext<W>, bytes: Seq<u8>, r: GenResult<W>) -> bool {
    if lacks_room(ctx, bytes.len()) {
        r == Err::<WriteContext<W>, GenError>(GenError::IoError(())) && released(ctx)
    } else {
        exists|data: &[u8], post: WriteContext<W>, wr: Result<usize, Error>|
            {
                &&& data@ == bytes
                &&& #[trigger] write_outcome(ctx, data, post, wr)
                &&& r == match wr {
                    Ok(n) => if n < bytes.len() {
                        Err(GenError::IoError(()))
                    } else {
                        Ok(post)
                    },
                    Err(e) => Err(GenError::IoError(e)),
                }
                &&& r is Err ==> released(post)
            }
    }
}

/// Writes the upper case hexadecimal text of a number to the output.
pub fn hex<W: Write>(data: u64) -> (f: impl SerializeFn<W>)
    ensures
        forall|ctx: WriteContext<W>| ctx.ready(upper_hex(data as nat).len()) ==> #[trigger] f.requires((ctx,)),
        forall|ctx: WriteContext<W>, r: GenResult<W>| #[trigger]
            f.ensures((ctx,), r) ==> printed(ctx, upper_hex(data as nat), r),
{
    let text = upper_hex_text(data);
    move |out: WriteContext<W>| -> (r: GenResult<W>)
        requires
            out.ready(text@.len()),
        ensures
            printed(out, text@, r),
    {
        let len = text.len();
        let data = text.as_slice();
        if let Some(room) = out.room() {
            if room < len {
                release(out);
                return Err(GenError::IoError(()));
            }
        }
        let (post, wr) = out.write(data);
        let ghost post0 = post;
        let r = match wr {
            Ok(n) => if n < len {
                release(post);
                Err(GenError::IoError(()))
            } else {
                Ok(post)
            },
            Err(io) => {
                release(post);
                Err(GenError::IoError(io))
            },
        };
        assert(write_outcome(out, data, post0, wr));
        r
    }
}

/// Skips over some bytes of the output without writing anything.
pub fn skip<W: Write + Skip>(len: usize) -> (f: impl SerializeFn<W>)
    ensures
        forall|ctx: WriteContext<W>| ctx.position + len <= u64::MAX ==> #[trigger] f.requires((ctx,)),
        forall|ctx: WriteContext<W>, r: GenResult<W>| #[trigger] f.ensures((ctx,), r) ==> skip_outcome(ctx, len, r),
{
    move |out: WriteContext<W>| -> (r: GenResult<W>)
        requires
            out.position + len <= u64::MAX,
        ensures
            skip_outcome(out, len, r),
    {
        W::skip(out, len)
    }
}

/// Applies a serializer if the condition is true; hands the context on as it
/// is if not.
pub fn cond<F, W: Write>(condition: bool, f: F) -> (h: impl SerializeFn<W>) where F: SerializeFn<W>
    ensures
        forall|ctx: WriteContext<W>| (condition ==> f.requires((ctx,))) ==> #[trigger] h.requires((ctx,)),
        forall|ctx: WriteContext<W>, r: GenResult<W>| #[trigger]
            h.ensures((ctx,), r) ==> if condition {
                f.ensures((ctx,), r)
            } else {
                r == Ok::<WriteContext<W>, GenError>(ctx)
            },
{
    move |out: WriteContext<W>| -> (r: GenResult<W>)
        requires
            condition ==> f.requires((out,)),
        ensures
            if condition {
                f.ensures((out,), r)
            } else {
                r == Ok::<WriteContext<W>, GenError>(out)
            },
    {
        if condition {
            f(out)
        } else {
            Ok(out)
        }
    }
}

/// Reserves space for the `Before` combinator, applies the `Gen` combinator,
/// then applies the `Before` combinator with the output from `Gen` onto the
/// reserved space.
pub fn back_to_the_buffer<W, Tmp, Gen, Before>(reserved: usize, gen: Gen, before: Before) -> (f: impl SerializeFn<
    W,
>) where
    W: BackToTheBuffer<Tmp, Gen, Before>,
    Gen: Fn(WriteContext<W>) -> Result<(WriteContext<W>, Tmp), GenError>,
    Before: Fn(WriteContext<W>, Tmp) -> GenResult<W>,

    ensures
        forall|ctx: WriteContext<W>| W::can_reserve(ctx, reserved, &gen, &before) ==> #[trigger] f.requires((ctx,)),
        forall|ctx: WriteContext<W>, r: GenResult<W>| #[trigger]
            f.ensures((ctx,), r) ==> reserve_outcome(ctx, reserved, &gen, &before, r),
{
    move |w: WriteContext<W>| -> (r: GenResult<W>)
        requires
            W::can_reserve(w, reserved, &gen, &before),
        ensures
            reserve_outcome(w, reserved, &gen, &before, r),
    {
        W::reserve_write_use(w, reserved, &gen, &before)
    }
}

} // verus!
