//! Serializers on a plain span of bytes: each takes the span, writes to its
//! front, and returns the rest of the span.
use vstd::prelude::*;
use vstd::string::StringSliceAdditionalSpecFns;
use crate::bytes::{be1, be2, be_bytes, lemma_bytes_len};
use crate::internal::GenError;
use crate::io_compat::copy_at;

verus! {

/// Trait for serializing functions on an input of any kind.
pub trait SerializeFn<I>: Fn(I) -> Result<I, GenError> {

}

impl<I, F: Fn(I) -> Result<I, GenError>> SerializeFn<I> for F {

}

/// Writes `data` to the front of `out` and returns the rest, or leaves `out`
/// as it is and fails with `BufferTooSmall` and the length of `data` where
/// `out` is shorter than `data`.
pub fn put<'a>(out: &'a mut [u8], data: &[u8]) -> (r: Result<&'a mut [u8], GenError>)
    ensures
        old(out)@.len() < data@.len() ==> r == Err::<&'a mut [u8], GenError>(
            GenError::BufferTooSmall(data@.len() as usize),
        ) && final(out)@ == old(out)@,
        old(out)@.len() >= data@.len() ==> {
            &&& r is Ok
            &&& r->Ok_0@ == old(out)@.skip(data@.len() as int)
            &&& final(out)@ == data@ + final(r->Ok_0)@
        },
{
    let len = data.len();
    if out.len() < len {
        Err(GenError::BufferTooSmall(len))
    } else {
        let (front, rest) = out.split_at_mut(len);
        copy_at(front, 0, data);
        assert(front@ =~= data@);
        Ok(rest)
    }
}

/// Writes a byte slice to the front of the span.
pub fn slice<'a>(data: &'a [u8]) -> (f: impl SerializeFn<&'a mut [u8]>)
    ensures
        forall|out: &'a mut [u8]| #[trigger] f.requires((out,)),
        forall|out: &'a mut [u8], r: Result<&'a mut [u8], GenError>| #[trigger]
            f.ensures((out,), r) ==> {
                &&& out@.len() < data@.len() ==> r == Err::<&'a mut [u8], GenError>(
                    GenError::BufferTooSmall(data@.len() as usize),
                ) && final(out)@ == out@
                &&& out@.len() >= data@.len() ==> {
                    &&& r is Ok
                    &&& r->Ok_0@ == out@.skip(data@.len() as int)
                    &&& final(out)@ == data@ + final(r->Ok_0)@
                }
            },
{
    move |out: &'a mut [u8]| -> (r: Result<&'a mut [u8], GenError>)
        ensures
            old(out)@.len() < data@.len() ==> r == Err::<&'a mut [u8], GenError>(
                GenError::BufferTooSmall(data@.len() as usize),
            ) && final(out)@ == old(out)@,
            old(out)@.len() >= data@.len() ==> {
                &&& r is Ok
                &&& r->Ok_0@ == old(out)@.skip(data@.len() as int)
                &&& final(out)@ == data@ + final(r->Ok_0)@
            },
    {
        put(out, data)
    }
}

/// Writes a string slice to the front of the span.
pub fn string<'a>(data: &'a str) -> (f: impl SerializeFn<&'a mut [u8]>)
    ensures
        forall|out: &'a mut [u8]| #[trigger] f.requires((out,)),
        forall|out: &'a mut [u8], r: Result<&'a mut [u8], GenError>| #[trigger]
            f.ensures((out,), r) ==> {
                &&& out@.len() < data.spec_bytes().len() ==> r == Err::<&'a mut [u8], GenError>(
                    GenError::BufferTooSmall(data.spec_bytes().len() as usize),
                ) && final(out)@ == out@
                &&& out@.len() >= data.spec_bytes().len() ==> {
                    &&& r is Ok
                    &&& r->Ok_0@ == out@.skip(data.spec_bytes().len() as int)
                    &&& final(out)@ == data.spec_bytes() + final(r->Ok_0)@
                }
            },
{
    move |out: &'a mut [u8]| -> (r: Result<&'a mut [u8], GenError>)
        ensures
            old(out)@.len() < data.spec_bytes().len() ==> r == Err::<&'a mut [u8], GenError>(
                GenError::BufferTooSmall(data.spec_bytes().len() as usize),
            ) && final(out)@ == old(out)@,
            old(out)@.len() >= data.spec_bytes().len() ==> {
                &&& r is Ok
                &&& r->Ok_0@ == old(out)@.skip(data.spec_bytes().len() as int)
                &&& final(out)@ == data.spec_bytes() + final(r->Ok_0)@
            },
    {
        put(out, data.as_bytes())
    }
}

/// Writes an `u8` to the front of the span.
pub fn be_u8<'a>(i: u8) -> (f: impl SerializeFn<&'a mut [u8]>)
    ensures
        forall|out: &'a mut [u8]| #[trigger] f.requires((out,)),
        forall|out: &'a mut [u8], r: Result<&'a mut [u8], GenError>| #[trigger]
            f.ensures((out,), r) ==> {
                &&& out@.len() < be_bytes(i as nat, 1).len() ==> r == Err::<&'a mut [u8], GenError>(
                    GenError::BufferTooSmall(be_bytes(i as nat, 1).len() as usize),
                ) && final(out)@ == out@
                &&& out@.len() >= be_bytes(i as nat, 1).len() ==> {
                    &&& r is Ok
                    &&& r->Ok_0@ == out@.skip(be_bytes(i as nat, 1).len() as int)
                    &&& final(out)@ == be_bytes(i as nat, 1) + final(r->Ok_0)@
                }
            },
{
    let bytes = be1(i);
    move |out: &'a mut [u8]| -> (r: Result<&'a mut [u8], GenError>)
        ensures
            old(out)@.len() < be_bytes(i as nat, 1).len() ==> r == Err::<&'a mut [u8], GenError>(
                GenError::BufferTooSmall(be_bytes(i as nat, 1).len() as usize),
            ) && final(out)@ == old(out)@,
            old(out)@.len() >= be_bytes(i as nat, 1).len() ==> {
                &&& r is Ok
                &&& r->Ok_0@ == old(out)@.skip(be_bytes(i as nat, 1).len() as int)
                &&& final(out)@ == be_bytes(i as nat, 1) + final(r->Ok_0)@
            },
    {
        put(out, bytes.as_slice())
    }
}

/// Writes an `u16` in big endian byte order to the front of the span.
pub fn be_u16<'a>(i: u16) -> (f: impl SerializeFn<&'a mut [u8]>)
    ensures
        forall|out: &'a mut [u8]| #[trigger] f.requires((out,)),
        forall|out: &'a mut [u8], r: Result<&'a mut [u8], GenError>| #[trigger]
            f.ensures((out,), r) ==> {
                &&& out@.len() < be_bytes(i as nat, 2).len() ==> r == Err::<&'a mut [u8], GenError>(
                    GenError::BufferTooSmall(be_bytes(i as nat, 2).len() as usize),
                ) && final(out)@ == out@
                &&& out@.len() >= be_bytes(i as nat, 2).len() ==> {
                    &&& r is Ok
                    &&& r->Ok_0@ == out@.skip(be_bytes(i as nat, 2).len() as int)
                    &&& final(out)@ == be_bytes(i as nat, 2) + final(r->Ok_0)@
                }
            },
{
    let bytes = be2(i);
    move |out: &'a mut [u8]| -> (r: Result<&'a mut [u8], GenError>)
        ensures
            old(out)@.len() < be_bytes(i as nat, 2).len() ==> r == Err::<&'a mut [u8], GenError>(
                GenError::BufferTooSmall(be_bytes(i as nat, 2).len() as usize),
            ) && final(out)@ == old(out)@,
            old(out)@.len() >= be_bytes(i as nat, 2).len() ==> {
                &&& r is Ok
                &&& r->Ok_0@ == old(out)@.skip(be_bytes(i as nat, 2).len() as int)
                &&& final(out)@ == be_bytes(i as nat, 2) + final(r->Ok_0)@
            },
    {
        put(out, bytes.as_slice())
    }
}

/// Drops the first `len` bytes from the span without writing anything, or
/// fails with `BufferTooSmall` and `len` where the span is shorter.
pub fn skip<'a>(len: usize) -> (f: impl SerializeFn<&'a mut [u8]>)
    ensures
        forall|out: &'a mut [u8]| #[trigger] f.requires((out,)),
        forall|out: &'a mut [u8], r: Result<&'a mut [u8], GenError>| #[trigger]
            f.ensures((out,), r) ==> {
                &&& out@.len() < len ==> r == Err::<&'a mut [u8], GenError>(GenError::BufferTooSmall(len))
                    && final(out)@ == out@
                &&& out@.len() >= len ==> {
                    &&& r is Ok
                    &&& r->Ok_0@ == out@.skip(len as int)
                    &&& final(out)@.skip(len as int) == final(r->Ok_0)@
                }
            },
{
    move |out: &'a mut [u8]| -> (r: Result<&'a mut [u8], GenError>)
        ensures
            old(out)@.len() < len ==> r == Err::<&'a mut [u8], GenError>(GenError::BufferTooSmall(len))
                && final(out)@ == old(out)@,
            old(out)@.len() >= len ==> {
                &&& r is Ok
                &&& r->Ok_0@ == old(out)@.skip(len as int)
                &&& final(out)@.skip(len as int) == final(r->Ok_0)@
            },
    {
        if out.len() < len {
            Err(GenError::BufferTooSmall(len))
        } else {
            let (skipped, rest) = out.split_at_mut(len);
            assert((final(skipped)@ + final(rest)@).skip(len as int) =~= final(rest)@);
            Ok(rest)
        }
    }
}

/// `second` may be run on whatever input `first` hands on from `ctx`.
pub open spec fn can_chain<I, F: SerializeFn<I>, G: SerializeFn<I>>(first: F, second: G, ctx: I) -> bool {
    &&& first.requires((ctx,))
    &&& forall|mid: I| #[trigger] first.ensures((ctx,), Ok(mid)) ==> second.requires((mid,))
}

/// `r` is a result of running `first` on `ctx` and then, where that went well,
/// `second` on what `first` handed on; an error of `first` is the result as it
/// stands.
pub open spec fn chained<I, F: SerializeFn<I>, G: SerializeFn<I>>(first: F, second: G, ctx: I, r: Result<I, GenError>) -> bool {
    exists|mid: Result<I, GenError>| #[trigger] first.ensures((ctx,), mid) && match mid {
        Ok(c) => second.ensures((c,), r),
        Err(e) => r == Err::<I, GenError>(e),
    }
}

/// Applies 2 serializers in sequence.
pub fn pair<F, G, I>(first: F, second: G) -> (h: impl SerializeFn<I>)
    where
        F: SerializeFn<I>,
        G: SerializeFn<I>,
    ensures
        forall|ctx: I| can_chain(first, second, ctx) ==> #[trigger] h.requires((ctx,)),
        forall|ctx: I, r: Result<I, GenError>| #[trigger] h.ensures((ctx,), r) ==> chained(first, second, ctx, r),
{
    move |out: I| -> (r: Result<I, GenError>)
        requires
            can_chain(first, second, out),
        ensures
            chained(first, second, out, r),
    {
        match first(out) {
            Ok(mid) => second(mid),
            Err(e) => Err(e),
        }
    }
}

/// Each serializer of `items` may be run on the input that it gets when
/// they are run in order from `ctx` on.
pub open spec fn can_run_all<I, G: SerializeFn<I>>(items: Seq<G>, ctx: I) -> bool
    decreases items.len(),
{
    items.len() > 0 ==> {
        &&& items[0].requires((ctx,))
        &&& forall|mid: I| #[trigger]
            items[0].ensures((ctx,), Ok(mid)) ==> can_run_all(items.skip(1), mid)
    }
}

/// `r` is a result of running the serializers of `items` in order from `ctx`
/// on, each on what the one before handed on: the input that the last one
/// returned, or the error of the first one that failed. With no serializer the
/// result is `ctx` itself.
pub open spec fn ran_all<I, G: SerializeFn<I>>(items: Seq<G>, ctx: I, r: Result<I, GenError>) -> bool
    decreases items.len(),
{
    if items.len() == 0 {
        r == Ok::<I, GenError>(ctx)
    } else {
        exists|mid: Result<I, GenError>| #[trigger]
            items[0].ensures((ctx,), mid) && match mid {
                Ok(c) => ran_all(items.skip(1), c, r),
                Err(e) => r == Err::<I, GenError>(e),
            }
    }
}

/// Applies a list of serializers of the same type, in the order of the list.
pub fn _all<'a, G, I>(values: &'a [G]) -> (h: impl SerializeFn<I> + 'a) where G: SerializeFn<I>
    ensures
        forall|ctx: I| can_run_all(values@, ctx) ==> #[trigger] h.requires((ctx,)),
        forall|ctx: I, r: Result<I, GenError>| #[trigger] h.ensures((ctx,), r) ==> ran_all(values@, ctx, r),
{
    move |out: I| -> (r: Result<I, GenError>)
        requires
            can_run_all(values@, out),
        ensures
            ran_all(values@, out, r),
    {
        let mut ctx = out;
        let n = values.len();
        let mut i: usize = 0;
        assert(values@.skip(0) =~= values@);
        while i < n
            invariant
                i <= n,
                n == values@.len(),
                can_run_all(values@.skip(i as int), ctx),
                forall|r: Result<I, GenError>| #[trigger]
                    ran_all(values@.skip(i as int), ctx, r) ==> ran_all(values@, out, r),
            decreases n - i,
        {
            let ghost before = ctx;
            let ghost rest = values@.skip(i as int);
            assert(rest[0] == values@[i as int]);
            assert(rest.skip(1) =~= values@.skip(i + 1));
            match (values[i])(ctx) {
                Ok(next) => {
                    assert forall|r: Result<I, GenError>| #[trigger]
                        ran_all(values@.skip(i + 1), next, r) implies ran_all(values@, out, r) by {
                        assert(rest[0].ensures((before,), Ok(next)));
                        assert(ran_all(rest, before, r));
                    }
                    ctx = next;
                },
                Err(e) => {
                    assert(rest[0].ensures((before,), Err(e)));
                    assert(ran_all(rest, before, Err(e)));
                    return Err(e);
                },
            }
            i += 1;
        }
        assert(ran_all(values@.skip(i as int), ctx, Ok(ctx)));
        Ok(ctx)
    }
}

/// The separator and each serializer of `items` may be run on the input
/// that it gets when `ran_separated_rest` runs them from `ctx` on.
pub open spec fn can_run_separated_rest<I, F: SerializeFn<I>, G: SerializeFn<I>>(
    sep: F,
    items: Seq<G>,
    ctx: I,
) -> bool
    decreases items.len(),
{
    items.len() > 0 ==> {
        &&& sep.requires((ctx,))
        &&& forall|c1: I| #[trigger]
            sep.ensures((ctx,), Ok(c1)) ==> {
                &&& items[0].requires((c1,))
                &&& forall|c2: I| #[trigger]
                    items[0].ensures((c1,), Ok(c2)) ==> can_run_separated_rest(sep, items.skip(1), c2)
            }
    }
}

/// The separator and each serializer of `items` may be run on the input
/// that it gets when `ran_separated` runs them from `ctx` on.
pub open spec fn can_run_separated<I, F: SerializeFn<I>, G: SerializeFn<I>>(
    sep: F,
    items: Seq<G>,
    ctx: I,
) -> bool {
    items.len() > 0 ==> {
        &&& items[0].requires((ctx,))
        &&& forall|mid: I| #[trigger]
            items[0].ensures((ctx,), Ok(mid)) ==> can_run_separated_rest(sep, items.skip(1), mid)
    }
}

/// `r` is a result of running, for each serializer of `items` in order, first
/// the separator and then the serializer, from `ctx` on: the input that the
/// last one returned, or the error of whichever failed first.
pub open spec fn ran_separated_rest<I, F: SerializeFn<I>, G: SerializeFn<I>>(
    sep: F,
    items: Seq<G>,
    ctx: I,
    r: Result<I, GenError>,
) -> bool
    decreases items.len(),
{
    if items.len() == 0 {
        r == Ok::<I, GenError>(ctx)
    } else {
        exists|mid: Result<I, GenError>| #[trigger]
            chained(sep, items[0], ctx, mid) && match mid {
                Ok(c) => ran_separated_rest(sep, items.skip(1), c, r),
                Err(e) => r == Err::<I, GenError>(e),
            }
    }
}

/// `r` is a result of running the serializers of `items` in order from `ctx`
/// on with the separator between each two of them, and neither before the
/// first nor after the last: the first serializer, then the separator and a
/// serializer for each one that is left. With no serializer the result is
/// `ctx` itself, and the separator is not run.
pub open spec fn ran_separated<I, F: SerializeFn<I>, G: SerializeFn<I>>(
    sep: F,
    items: Seq<G>,
    ctx: I,
    r: Result<I, GenError>,
) -> bool {
    if items.len() == 0 {
        r == Ok::<I, GenError>(ctx)
    } else {
        exists|mid: Result<I, GenError>| #[trigger]
            items[0].ensures((ctx,), mid) && match mid {
                Ok(c) => ran_separated_rest(sep, items.skip(1), c, r),
                Err(e) => r == Err::<I, GenError>(e),
            }
    }
}

/// Applies a list of serializers of the same type with a separator between
/// each serializer.
pub fn separated_list<'a, F, G, I>(sep: F, values: &'a [G]) -> (h: impl SerializeFn<I> + 'a) where
    F: SerializeFn<I> + 'a,
    G: SerializeFn<I>,

    ensures
        forall|ctx: I| can_run_separated(sep, values@, ctx) ==> #[trigger] h.requires((ctx,)),
        forall|ctx: I, r: Result<I, GenError>| #[trigger]
            h.ensures((ctx,), r) ==> ran_separated(sep, values@, ctx, r),
{
    move |out: I| -> (r: Result<I, GenError>)
        requires
            can_run_separated(sep, values@, out),
        ensures
            ran_separated(sep, values@, out, r),
    {
        let n = values.len();
        if n == 0 {
            return Ok(out);
        }
        let first = (values[0])(out);
        let mut ctx = match first {
            Ok(next) => next,
            Err(e) => {
                return Err(e);
            },
        };
        let ghost after_first = ctx;
        let mut i: usize = 1;
        while i < n
            invariant
                1 <= i <= n,
                n == values@.len(),
                values@[0].ensures((out,), Ok(after_first)),
                can_run_separated_rest(sep, values@.skip(i as int), ctx),
                forall|r: Result<I, GenError>| #[trigger]
                    ran_separated_rest(sep, values@.skip(i as int), ctx, r) ==> ran_separated_rest(
                        sep,
                        values@.skip(1),
                        after_first,
                        r,
                    ),
            decreases n - i,
        {
            let ghost before = ctx;
            let ghost rest = values@.skip(i as int);
            assert(rest[0] == values@[i as int]);
            assert(rest.skip(1) =~= values@.skip(i + 1));
            let separated = sep(ctx);
            let mid = match separated {
                Ok(c1) => (values[i])(c1),
                Err(e) => Err(e),
            };
            assert(chained(sep, rest[0], before, mid)) by {
                assert(sep.ensures((before,), separated));
            }
            match mid {
                Ok(next) => {
                    assert forall|r: Result<I, GenError>| #[trigger]
                        ran_separated_rest(sep, values@.skip(i + 1), next, r) implies ran_separated_rest(
                        sep,
                        values@.skip(1),
                        after_first,
                        r,
                    ) by {
                        assert(ran_separated_rest(sep, rest, before, r));
                    }
                    ctx = next;
                },
                Err(e) => {
                    assert(ran_separated_rest(sep, rest, before, Err(e)));
                    return Err(e);
                },
            }
            i += 1;
        }
        assert(ran_separated_rest(sep, values@.skip(i as int), ctx, Ok(ctx)));
        Ok(ctx)
    }
}

} // verus!
