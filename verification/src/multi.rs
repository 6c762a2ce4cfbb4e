//! Serializers working on a list of elements.
use vstd::prelude::*;
use crate::internal::{GenError, GenResult, SerializeFn, WriteContext};
use crate::io_compat::Write;
use crate::sequence::chained;

verus! {

/// Each serializer of `items` may be run on the context that it gets when
/// they are run in order from `ctx` on.
pub open spec fn can_run_all<W, G: SerializeFn<W>>(items: Seq<G>, ctx: WriteContext<W>) -> bool
    decreases items.len(),
{
    items.len() > 0 ==> {
        &&& items[0].requires((ctx,))
        &&& forall|mid: WriteContext<W>| #[trigger]
            items[0].ensures((ctx,), Ok(mid)) ==> can_run_all(items.skip(1), mid)
    }
}

/// `r` is a result of running the serializers of `items` in order from `ctx`
/// on, each on what the one before handed on: the context that the last one
/// returned, or the error of the first one that failed. With no serializer the
/// result is `ctx` itself.
pub open spec fn ran_all<W, G: SerializeFn<W>>(items: Seq<G>, ctx: WriteContext<W>, r: GenResult<W>) -> bool
    decreases items.len(),
{
    if items.len() == 0 {
        r == Ok::<WriteContext<W>, GenError>(ctx)
    } else {
        exists|mid: GenResult<W>| #[trigger]
            items[0].ensures((ctx,), mid) && match mid {
                Ok(c) => ran_all(items.skip(1), c, r),
                Err(e) => r == Err::<WriteContext<W>, GenError>(e),
            }
    }
}

/// Applies a list of serializers of the same type, in the order of the list.
pub fn all<'a, G, W: Write>(values: &'a [G]) -> (h: impl SerializeFn<W> + 'a) where G: SerializeFn<W>
    ensures
        forall|ctx: WriteContext<W>| can_run_all(values@, ctx) ==> #[trigger] h.requires((ctx,)),
        forall|ctx: WriteContext<W>, r: GenResult<W>| #[trigger] h.ensures((ctx,), r) ==> ran_all(values@, ctx, r),
{
    move |out: WriteContext<W>| -> (r: GenResult<W>)
        requires
            can_run_all(values@, out),
        ensures
            ran_all(values@, out, r),
    {
        let mut ctx = out;
        let n = values.len();
        let mut i: usize = 0;
        assert(values@.skip(0) =~= values@);
        while i < n
            invariant
                i <= n,
                n == values@.len(),
                can_run_all(values@.skip(i as int), ctx),
                forall|r: GenResult<W>| #[trigger]
                    ran_all(values@.skip(i as int), ctx, r) ==> ran_all(values@, out, r),
            decreases n - i,
        {
            let ghost before = ctx;
            let ghost rest = values@.skip(i as int);
            assert(rest[0] == values@[i as int]);
            assert(rest.skip(1) =~= values@.skip(i + 1));
            match (values[i])(ctx) {
                Ok(next) => {
                    assert forall|r: GenResult<W>| #[trigger]
                        ran_all(values@.skip(i + 1), next, r) implies ran_all(values@, out, r) by {
                        assert(rest[0].ensures((before,), Ok(next)));
                        assert(ran_all(rest, before, r));
                    }
                    ctx = next;
                },
                Err(e) => {
                    assert(rest[0].ensures((before,), Err(e)));
                    assert(ran_all(rest, before, Err(e)));
                    return Err(e);
                },
            }
            i += 1;
        }
        assert(ran_all(values@.skip(i as int), ctx, Ok(ctx)));
        Ok(ctx)
    }
}

/// The separator and each serializer of `items` may be run on the context
/// that it gets when `ran_separated_rest` runs them from `ctx` on.
pub open spec fn can_run_separated_rest<W, F: SerializeFn<W>, G: SerializeFn<W>>(
    sep: F,
    items: Seq<G>,
    ctx: WriteContext<W>,
) -> bool
    decreases items.len(),
{
    items.len() > 0 ==> {
        &&& sep.requires((ctx,))
        &&& forall|c1: WriteContext<W>| #[trigger]
            sep.ensures((ctx,), Ok(c1)) ==> {
                &&& items[0].requires((c1,))
                &&& forall|c2: WriteContext<W>| #[trigger]
                    items[0].ensures((c1,), Ok(c2)) ==> can_run_separated_rest(sep, items.skip(1), c2)
            }
    }
}

/// The separator and each serializer of `items` may be run on the context
/// that it gets when `ran_separated` runs them from `ctx` on.
pub open spec fn can_run_separated<W, F: SerializeFn<W>, G: SerializeFn<W>>(
    sep: F,
    items: Seq<G>,
    ctx: WriteContext<W>,
) -> bool {
    items.len() > 0 ==> {
        &&& items[0].requires((ctx,))
        &&& forall|mid: WriteContext<W>| #[trigger]
            items[0].ensures((ctx,), Ok(mid)) ==> can_run_separated_rest(sep, items.skip(1), mid)
    }
}

/// `r` is a result of running, for each serializer of `items` in order, first
/// the separator and then the serializer, from `ctx` on: the context that the
/// last one returned, or the error of whichever failed first.
pub open spec fn ran_separated_rest<W, F: SerializeFn<W>, G: SerializeFn<W>>(
    sep: F,
    items: Seq<G>,
    ctx: WriteContext<W>,
    r: GenResult<W>,
) -> bool
    decreases items.len(),
{
    if items.len() == 0 {
        r == Ok::<WriteContext<W>, GenError>(ctx)
    } else {
        exists|mid: GenResult<W>| #[trigger]
            chained(sep, items[0], ctx, mid) && match mid {
                Ok(c) => ran_separated_rest(sep, items.skip(1), c, r),
                Err(e) => r == Err::<WriteContext<W>, GenError>(e),
            }
    }
}

/// `r` is a result of running the serializers of `items` in order from `ctx`
/// on with the separator between each two of them, and neither before the
/// first nor after the last: the first serializer, then the separator and a
/// serializer for each one that is left. With no serializer the result is
/// `ctx` itself, and the separator is not run.
pub open spec fn ran_separated<W, F: SerializeFn<W>, G: SerializeFn<W>>(
    sep: F,
    items: Seq<G>,
    ctx: WriteContext<W>,
    r: GenResult<W>,
) -> bool {
    if items.len() == 0 {
        r == Ok::<WriteContext<W>, GenError>(ctx)
    } else {
        exists|mid: GenResult<W>| #[trigger]
            items[0].ensures((ctx,), mid) && match mid {
                Ok(c) => ran_separated_rest(sep, items.skip(1), c, r),
                Err(e) => r == Err::<WriteContext<W>, GenError>(e),
            }
    }
}

/// Applies a list of serializers of the same type with a separator between
/// each serializer.
pub fn separated_list<'a, F, G, W: Write>(sep: F, values: &'a [G]) -> (h: impl SerializeFn<W> + 'a) where
    F: SerializeFn<W> + 'a,
    G: SerializeFn<W>,

    ensures
        forall|ctx: WriteContext<W>| can_run_separated(sep, values@, ctx) ==> #[trigger] h.requires((ctx,)),
        forall|ctx: WriteContext<W>, r: GenResult<W>| #[trigger]
            h.ensures((ctx,), r) ==> ran_separated(sep, values@, ctx, r),
{
    move |out: WriteContext<W>| -> (r: GenResult<W>)
        requires
            can_run_separated(sep, values@, out),
        ensures
            ran_separated(sep, values@, out, r),
    {
        let n = values.len();
        if n == 0 {
            return Ok(out);
        }
        let first = (values[0])(out);
        let mut ctx = match first {
            Ok(next) => next,
            Err(e) => {
                return Err(e);
            },
        };
        let ghost after_first = ctx;
        let mut i: usize = 1;
        while i < n
            invariant
                1 <= i <= n,
                n == values@.len(),
                values@[0].ensures((out,), Ok(after_first)),
                can_run_separated_rest(sep, values@.skip(i as int), ctx),
                forall|r: GenResult<W>| #[trigger]
                    ran_separated_rest(sep, values@.skip(i as int), ctx, r) ==> ran_separated_rest(
                        sep,
                        values@.skip(1),
                        after_first,
                        r,
                    ),
            decreases n - i,
        {
            let ghost before = ctx;
            let ghost rest = values@.skip(i as int);
            assert(rest[0] == values@[i as int]);
            assert(rest.skip(1) =~= values@.skip(i + 1));
            let separated = sep(ctx);
            let mid = match separated {
                Ok(c1) => (values[i])(c1),
                Err(e) => Err(e),
            };
            assert(chained(sep, rest[0], before, mid)) by {
                assert(sep.ensures((before,), separated));
            }
            match mid {
                Ok(next) => {
                    assert forall|r: GenResult<W>| #[trigger]
                        ran_separated_rest(sep, values@.skip(i + 1), next, r) implies ran_separated_rest(
                        sep,
                        values@.skip(1),
                        after_first,
                        r,
                    ) by {
                        assert(ran_separated_rest(sep, rest, before, r));
                    }
                    ctx = next;
                },
                Err(e) => {
                    assert(ran_separated_rest(sep, rest, before, Err(e)));
                    return Err(e);
                },
            }
            i += 1;
        }
        assert(ran_separated_rest(sep, values@.skip(i as int), ctx, Ok(ctx)));
        Ok(ctx)
    }
}

/// The generator may be called on each item of `items`, and each serializer
/// it gives may be run on the context that it gets when they are run in order
/// from `ctx` on.
pub open spec fn can_run_many<'a, W, E: 'a, F: Fn(&'a E) -> G, G: SerializeFn<W>>(
    items: Seq<E>,
    generator: F,
    ctx: WriteContext<W>,
) -> bool
    decreases items.len(),
{
    items.len() > 0 ==> {
        &&& generator.requires((&items[0],))
        &&& forall|g: G| #[trigger]
            generator.ensures((&items[0],), g) ==> {
                &&& g.requires((ctx,))
                &&& forall|mid: WriteContext<W>| #[trigger]
                    g.ensures((ctx,), Ok(mid)) ==> can_run_many(items.skip(1), generator, mid)
            }
    }
}

/// `r` is a result of running, for each item of `items` in order, the
/// serializer that the generator gives for it, from `ctx` on: the context that
/// the last one returned, or the error of the first one that failed.
pub open spec fn ran_many<'a, W, E: 'a, F: Fn(&'a E) -> G, G: SerializeFn<W>>(
    items: Seq<E>,
    generator: F,
    ctx: WriteContext<W>,
    r: GenResult<W>,
) -> bool
    decreases items.len(),
{
    if items.len() == 0 {
        r == Ok::<WriteContext<W>, GenError>(ctx)
    } else {
        exists|g: G, mid: GenResult<W>|
            #![trigger generator.ensures((&items[0],), g), g.ensures((ctx,), mid)]
            generator.ensures((&items[0],), g) && g.ensures((ctx,), mid) && match mid {
                Ok(c) => ran_many(items.skip(1), generator, c, r),
                Err(e) => r == Err::<WriteContext<W>, GenError>(e),
            }
    }
}

/// Applies a generator over a list of values, and applies the serializers
/// generated.
pub fn many_ref<'a, E, F, G, O: Write>(items: &'a [E], generator: F) -> (h: impl SerializeFn<O> + 'a) where
    F: Fn(&'a E) -> G + 'a,
    G: SerializeFn<O>,

    ensures
        forall|ctx: WriteContext<O>| can_run_many(items@, generator, ctx) ==> #[trigger] h.requires((ctx,)),
        forall|ctx: WriteContext<O>, r: GenResult<O>| #[trigger]
            h.ensures((ctx,), r) ==> ran_many(items@, generator, ctx, r),
{
    move |out: WriteContext<O>| -> (r: GenResult<O>)
        requires
            can_run_many(items@, generator, out),
        ensures
            ran_many(items@, generator, out, r),
    {
        let mut ctx = out;
        let n = items.len();
        let mut i: usize = 0;
        assert(items@.skip(0) =~= items@);
        while i < n
            invariant
                i <= n,
                n == items@.len(),
                can_run_many(items@.skip(i as int), generator, ctx),
                forall|r: GenResult<O>| #[trigger]
                    ran_many(items@.skip(i as int), generator, ctx, r) ==> ran_many(items@, generator, out, r),
            decreases n - i,
        {
            let ghost before = ctx;
            let ghost rest = items@.skip(i as int);
            assert(rest[0] == items@[i as int]);
            assert(rest.skip(1) =~= items@.skip(i + 1));
            let g = generator(&items[i]);
            assert(generator.ensures((&rest[0],), g));
            let mid = g(ctx);
            assert(g.ensures((before,), mid));
            match mid {
                Ok(next) => {
                    assert forall|r: GenResult<O>| #[trigger]
                        ran_many(items@.skip(i + 1), generator, next, r) implies ran_many(
                        items@,
                        generator,
                        out,
                        r,
                    ) by {
                        assert(ran_many(rest, generator, before, r));
                    }
                    ctx = next;
                },
                Err(e) => {
                    assert(ran_many(rest, generator, before, Err(e)));
                    return Err(e);
                },
            }
            i += 1;
        }
        assert(ran_many(items@.skip(i as int), generator, ctx, Ok(ctx)));
        Ok(ctx)
    }
}

} // verus!
