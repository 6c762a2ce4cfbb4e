//! What composed serializers write, told in bytes.
//!
//! A growable buffer takes every payload whole, so on it a serializer that
//! is built from the serializers of this library appends one fixed sequence
//! of bytes. A fixed span with room for that sequence is filled with it from
//! the front. The lemmas here say which sequence that is for each way of
//! composing, that two runs on equal sinks end alike, and that the position a
//! serializer reports moves by the number of bytes it writes, on every sink.
use vstd::prelude::*;
use crate::combinator::{emits, emitted, offered, settled};
use crate::internal::{GenError, GenResult, SerializeFn, WriteContext};
use crate::io_compat::{write_outcome, Error, Write};
use crate::multi::{ran_all, ran_separated, ran_separated_rest};
use crate::sequence::chained;

verus! {

/// On a growable buffer `f` never fails, and it appends `bytes` to the buffer
/// and adds their number to the position.
pub open spec fn appends<F: SerializeFn<Vec<u8>>>(f: F, bytes: Seq<u8>) -> bool {
    forall|ctx: WriteContext<Vec<u8>>, r: GenResult<Vec<u8>>| #[trigger]
        f.ensures((ctx,), r) ==> appended(ctx, bytes, r)
}

/// `r` is the context `ctx` with `bytes` appended to its buffer and their
/// number added to its position.
pub open spec fn appended(ctx: WriteContext<Vec<u8>>, bytes: Seq<u8>, r: GenResult<Vec<u8>>) -> bool {
    &&& r is Ok
    &&& r->Ok_0.write@ == ctx.write@ + bytes
    &&& r->Ok_0.position == ctx.position + bytes.len()
}

/// Whenever `f` succeeds, the position has moved on by `n`.
pub open spec fn advances<W, F: SerializeFn<W>>(f: F, n: nat) -> bool {
    forall|ctx: WriteContext<W>, c: WriteContext<W>| #[trigger]
        f.ensures((ctx,), Ok(c)) ==> c.position == ctx.position + n
}

/// A serializer that offers `bytes` in one piece moves the position on by the
/// number of those bytes, whatever the sink.
pub proof fn lemma_emits_advances<W: Write, F: SerializeFn<W>>(f: F, bytes: Seq<u8>)
    requires
        emits(f, bytes),
    ensures
        advances(f, bytes.len()),
{
    assert forall|ctx: WriteContext<W>, c: WriteContext<W>| #[trigger]
        f.ensures((ctx,), Ok(c)) implies c.position == ctx.position + bytes.len() by {
        let r: GenResult<W> = Ok(c);
        assert(emitted(ctx, bytes, r));
        let data = choose|data: &[u8]| data@ == bytes && #[trigger] offered(ctx, data, r);
        let (post, wr) = choose|post: WriteContext<W>, wr: Result<usize, Error>|
            {
                &&& #[trigger] write_outcome(ctx, data, post, wr)
                &&& r == settled(data@.len(), post, wr)
            };
        assert(write_outcome(ctx.write, data, post.write, wr));
    }
}

/// Length additivity: where `first` moves the position on by `a` and `second`
/// by `b`, the two in sequence move it on by `a + b`.
pub proof fn lemma_pair_advances<W, F: SerializeFn<W>, G: SerializeFn<W>, H: SerializeFn<W>>(
    first: F,
    second: G,
    both: H,
    a: nat,
    b: nat,
)
    requires
        advances(first, a),
        advances(second, b),
        forall|ctx: WriteContext<W>, r: GenResult<W>| #[trigger]
            both.ensures((ctx,), r) ==> chained(first, second, ctx, r),
    ensures
        advances(both, a + b),
{
    assert forall|ctx: WriteContext<W>, c: WriteContext<W>| #[trigger]
        both.ensures((ctx,), Ok(c)) implies c.position == ctx.position + a + b by {
        assert(chained(first, second, ctx, Ok(c)));
    }
}

/// On a growable buffer a serializer that offers `bytes` in one piece appends
/// them.
pub proof fn lemma_emits_appends<F: SerializeFn<Vec<u8>>>(f: F, bytes: Seq<u8>)
    requires
        emits(f, bytes),
    ensures
        appends(f, bytes),
{
    assert forall|ctx: WriteContext<Vec<u8>>, r: GenResult<Vec<u8>>| #[trigger]
        f.ensures((ctx,), r) implies appended(ctx, bytes, r) by {
        assert(emitted(ctx, bytes, r));
        let data = choose|data: &[u8]| data@ == bytes && #[trigger] offered(ctx, data, r);
        let (post, wr) = choose|post: WriteContext<Vec<u8>>, wr: Result<usize, Error>|
            {
                &&& #[trigger] write_outcome(ctx, data, post, wr)
                &&& r == settled(data@.len(), post, wr)
            };
        assert(write_outcome(ctx.write, data, post.write, wr));
        vstd::slice::axiom_spec_len(data);
    }
}

/// Two serializers in sequence append what the first appends and then what
/// the second appends.
pub proof fn lemma_pair_appends<F: SerializeFn<Vec<u8>>, G: SerializeFn<Vec<u8>>, H: SerializeFn<Vec<u8>>>(
    first: F,
    second: G,
    both: H,
    a: Seq<u8>,
    b: Seq<u8>,
)
    requires
        appends(first, a),
        appends(second, b),
        forall|ctx: WriteContext<Vec<u8>>, r: GenResult<Vec<u8>>| #[trigger]
            both.ensures((ctx,), r) ==> chained(first, second, ctx, r),
    ensures
        appends(both, a + b),
{
    assert forall|ctx: WriteContext<Vec<u8>>, r: GenResult<Vec<u8>>| #[trigger]
        both.ensures((ctx,), r) implies appended(ctx, a + b, r) by {
        assert(chained(first, second, ctx, r));
        let mid = choose|mid: GenResult<Vec<u8>>| #[trigger]
            first.ensures((ctx,), mid) && match mid {
                Ok(c) => second.ensures((c,), r),
                Err(e) => r == Err::<WriteContext<Vec<u8>>, GenError>(e),
            };
        assert(appended(ctx, a, mid));
        assert(appended(mid->Ok_0, b, r));
        assert(ctx.write@ + a + b =~= ctx.write@ + (a + b));
    }
}

/// Determinism: a serializer that appends `bytes` brings two buffers that hold
/// the same bytes, at the same position, to buffers that hold the same bytes,
/// and reports the same length for both.
pub proof fn lemma_appends_deterministic<F: SerializeFn<Vec<u8>>>(
    f: F,
    bytes: Seq<u8>,
    sink1: WriteContext<Vec<u8>>,
    sink2: WriteContext<Vec<u8>>,
    r1: GenResult<Vec<u8>>,
    r2: GenResult<Vec<u8>>,
)
    requires
        appends(f, bytes),
        sink1.write@ == sink2.write@,
        sink1.position == sink2.position,
        f.ensures((sink1,), r1),
        f.ensures((sink2,), r2),
    ensures
        r1 is Ok,
        r2 is Ok,
        r1->Ok_0.write@ == r2->Ok_0.write@,
        r1->Ok_0.position == r2->Ok_0.position,
{
    assert(appended(sink1, bytes, r1));
    assert(appended(sink2, bytes, r2));
}

/// The payloads of `payloads`, one after another.
pub open spec fn flat(payloads: Seq<Seq<u8>>) -> Seq<u8>
    decreases payloads.len(),
{
    if payloads.len() == 0 {
        Seq::empty()
    } else {
        payloads[0] + flat(payloads.skip(1))
    }
}

/// The payloads of `payloads`, one after another, with `sep` before each.
pub open spec fn prefixed(payloads: Seq<Seq<u8>>, sep: Seq<u8>) -> Seq<u8>
    decreases payloads.len(),
{
    if payloads.len() == 0 {
        Seq::empty()
    } else {
        sep + payloads[0] + prefixed(payloads.skip(1), sep)
    }
}

/// The payloads of `payloads`, one after another, with `sep` between each
/// two: nothing for no payload, the payload alone for one.
pub open spec fn joined(payloads: Seq<Seq<u8>>, sep: Seq<u8>) -> Seq<u8> {
    if payloads.len() == 0 {
        Seq::empty()
    } else {
        payloads[0] + prefixed(payloads.skip(1), sep)
    }
}

/// Each serializer of `items` appends the payload of `payloads` at its index.
pub open spec fn each_appends<G: SerializeFn<Vec<u8>>>(items: Seq<G>, payloads: Seq<Seq<u8>>) -> bool {
    &&& items.len() == payloads.len()
    &&& forall|i: int| 0 <= i < items.len() ==> appends(#[trigger] items[i], payloads[i])
}

/// A run of all serializers of a list appends their payloads in the order of
/// the list.
pub proof fn lemma_ran_all_appended<G: SerializeFn<Vec<u8>>>(
    items: Seq<G>,
    payloads: Seq<Seq<u8>>,
    ctx: WriteContext<Vec<u8>>,
    r: GenResult<Vec<u8>>,
)
    requires
        each_appends(items, payloads),
        ran_all(items, ctx, r),
    ensures
        appended(ctx, flat(payloads), r),
    decreases items.len(),
{
    if items.len() == 0 {
        assert(ctx.write@ + flat(payloads) =~= ctx.write@);
    } else {
        let mid = choose|mid: GenResult<Vec<u8>>| #[trigger]
            items[0].ensures((ctx,), mid) && match mid {
                Ok(c) => ran_all(items.skip(1), c, r),
                Err(e) => r == Err::<WriteContext<Vec<u8>>, GenError>(e),
            };
        assert(appended(ctx, payloads[0], mid));
        assert forall|i: int| 0 <= i < items.skip(1).len() implies appends(
            #[trigger] items.skip(1)[i],
            payloads.skip(1)[i],
        ) by {
            assert(items.skip(1)[i] == items[i + 1]);
        }
        lemma_ran_all_appended(items.skip(1), payloads.skip(1), mid->Ok_0, r);
        assert(ctx.write@ + payloads[0] + flat(payloads.skip(1)) =~= ctx.write@ + flat(payloads));
    }
}

/// A run of the rest of a separated list appends, for each serializer, the
/// separator and then the payload.
pub proof fn lemma_ran_separated_rest_appended<F: SerializeFn<Vec<u8>>, G: SerializeFn<Vec<u8>>>(
    sep: F,
    sep_bytes: Seq<u8>,
    items: Seq<G>,
    payloads: Seq<Seq<u8>>,
    ctx: WriteContext<Vec<u8>>,
    r: GenResult<Vec<u8>>,
)
    requires
        appends(sep, sep_bytes),
        each_appends(items, payloads),
        ran_separated_rest(sep, items, ctx, r),
    ensures
        appended(ctx, prefixed(payloads, sep_bytes), r),
    decreases items.len(),
{
    if items.len() == 0 {
        assert(ctx.write@ + prefixed(payloads, sep_bytes) =~= ctx.write@);
    } else {
        let mid = choose|mid: GenResult<Vec<u8>>| #[trigger]
            chained(sep, items[0], ctx, mid) && match mid {
                Ok(c) => ran_separated_rest(sep, items.skip(1), c, r),
                Err(e) => r == Err::<WriteContext<Vec<u8>>, GenError>(e),
            };
        let m1 = choose|m1: GenResult<Vec<u8>>| #[trigger]
            sep.ensures((ctx,), m1) && match m1 {
                Ok(c) => items[0].ensures((c,), mid),
                Err(e) => mid == Err::<WriteContext<Vec<u8>>, GenError>(e),
            };
        assert(appended(ctx, sep_bytes, m1));
        assert(appended(m1->Ok_0, payloads[0], mid));
        assert forall|i: int| 0 <= i < items.skip(1).len() implies appends(
            #[trigger] items.skip(1)[i],
            payloads.skip(1)[i],
        ) by {
            assert(items.skip(1)[i] == items[i + 1]);
        }
        lemma_ran_separated_rest_appended(sep, sep_bytes, items.skip(1), payloads.skip(1), mid->Ok_0, r);
        assert(ctx.write@ + sep_bytes + payloads[0] + prefixed(payloads.skip(1), sep_bytes) =~= ctx.write@
            + prefixed(payloads, sep_bytes));
    }
}

/// A run of a separated list appends the payloads in the order of the list
/// with the separator between each two of them: as many payloads as there
/// are serializers, and one separator fewer.
pub proof fn lemma_ran_separated_appended<F: SerializeFn<Vec<u8>>, G: SerializeFn<Vec<u8>>>(
    sep: F,
    sep_bytes: Seq<u8>,
    items: Seq<G>,
    payloads: Seq<Seq<u8>>,
    ctx: WriteContext<Vec<u8>>,
    r: GenResult<Vec<u8>>,
)
    requires
        appends(sep, sep_bytes),
        each_appends(items, payloads),
        ran_separated(sep, items, ctx, r),
    ensures
        appended(ctx, joined(payloads, sep_bytes), r),
{
    if items.len() == 0 {
        assert(ctx.write@ + joined(payloads, sep_bytes) =~= ctx.write@);
    } else {
        let mid = choose|mid: GenResult<Vec<u8>>| #[trigger]
            items[0].ensures((ctx,), mid) && match mid {
                Ok(c) => ran_separated_rest(sep, items.skip(1), c, r),
                Err(e) => r == Err::<WriteContext<Vec<u8>>, GenError>(e),
            };
        assert(appended(ctx, payloads[0], mid));
        assert forall|i: int| 0 <= i < items.skip(1).len() implies appends(
            #[trigger] items.skip(1)[i],
            payloads.skip(1)[i],
        ) by {
            assert(items.skip(1)[i] == items[i + 1]);
        }
        lemma_ran_separated_rest_appended(sep, sep_bytes, items.skip(1), payloads.skip(1), mid->Ok_0, r);
        assert(ctx.write@ + payloads[0] + prefixed(payloads.skip(1), sep_bytes) =~= ctx.write@ + joined(
            payloads,
            sep_bytes,
        ));
    }
}

/// A separated list of no serializer hands the context on as it is: nothing
/// is written, and the separator is not run. This holds on every sink.
pub proof fn lemma_separated_none<W, F: SerializeFn<W>, G: SerializeFn<W>>(
    sep: F,
    ctx: WriteContext<W>,
    r: GenResult<W>,
)
    ensures
        ran_separated(sep, Seq::<G>::empty(), ctx, r) <==> r == Ok::<WriteContext<W>, GenError>(ctx),
{
}

/// A separated list of one serializer does what that serializer does, and
/// the separator is not run. This holds on every sink.
pub proof fn lemma_separated_one<W, F: SerializeFn<W>, G: SerializeFn<W>>(
    sep: F,
    item: G,
    ctx: WriteContext<W>,
    r: GenResult<W>,
)
    ensures
        ran_separated(sep, seq![item], ctx, r) <==> item.ensures((ctx,), r),
{
    let items = seq![item];
    assert(items[0] == item);
    assert(items.skip(1).len() == 0);
    if item.ensures((ctx,), r) {
        match r {
            Ok(c) => {
                assert(ran_separated_rest(sep, items.skip(1), c, r));
            },
            Err(e) => {},
        }
        assert(ran_separated(sep, items, ctx, r));
    }
    if ran_separated(sep, items, ctx, r) {
        let mid = choose|mid: GenResult<W>| #[trigger]
            items[0].ensures((ctx,), mid) && match mid {
                Ok(c) => ran_separated_rest(sep, items.skip(1), c, r),
                Err(e) => r == Err::<WriteContext<W>, GenError>(e),
            };
        assert(mid == r);
    }
}

/// With no payload nothing stands between separators, and with one payload
/// there is no separator.
pub proof fn lemma_joined_small(payload: Seq<u8>, sep: Seq<u8>)
    ensures
        joined(Seq::empty(), sep) == Seq::<u8>::empty(),
        joined(seq![payload], sep) == payload,
{
    let one = seq![payload];
    assert(one.skip(1).len() == 0);
    assert(payload + prefixed(one.skip(1), sep) =~= payload);
}

/// On a fixed span a serializer that offers `bytes` in one piece, where the
/// span has room for them, writes them to the front of the span and hands on
/// the rest of the span, and it adds their number to the position.
pub proof fn lemma_emits_fills_span<'a, F: SerializeFn<&'a mut [u8]>>(f: F, bytes: Seq<u8>)
    requires
        emits(f, bytes),
    ensures
        forall|ctx: WriteContext<&'a mut [u8]>, r: GenResult<&'a mut [u8]>| #[trigger]
            f.ensures((ctx,), r) && bytes.len() <= ctx.write@.len() ==> {
                &&& r is Ok
                &&& r->Ok_0.position == ctx.position + bytes.len()
                &&& r->Ok_0.write@ == ctx.write@.skip(bytes.len() as int)
                &&& final(ctx.write)@ == bytes + final(r->Ok_0.write)@
            },
{
    assert forall|ctx: WriteContext<&'a mut [u8]>, r: GenResult<&'a mut [u8]>| #[trigger]
        f.ensures((ctx,), r) && bytes.len() <= ctx.write@.len() implies {
        &&& r is Ok
        &&& r->Ok_0.position == ctx.position + bytes.len()
        &&& r->Ok_0.write@ == ctx.write@.skip(bytes.len() as int)
        &&& final(ctx.write)@ == bytes + final(r->Ok_0.write)@
    } by {
        assert(emitted(ctx, bytes, r));
        let data = choose|data: &[u8]| data@ == bytes && #[trigger] offered(ctx, data, r);
        let (post, wr) = choose|post: WriteContext<&'a mut [u8]>, wr: Result<usize, Error>|
            {
                &&& #[trigger] write_outcome(ctx, data, post, wr)
                &&& r == settled(data@.len(), post, wr)
            };
        assert(write_outcome(ctx.write, data, post.write, wr));
        vstd::slice::axiom_spec_len(data);
        assert(bytes.take(bytes.len() as int) =~= bytes);
    }
}

/// On a fixed span with room for both, two serializers in sequence write what
/// the first writes and then what the second writes.
pub proof fn lemma_pair_fills_span<
    'a,
    F: SerializeFn<&'a mut [u8]>,
    G: SerializeFn<&'a mut [u8]>,
    H: SerializeFn<&'a mut [u8]>,
>(first: F, second: G, both: H, a: Seq<u8>, b: Seq<u8>)
    requires
        forall|ctx: WriteContext<&'a mut [u8]>, r: GenResult<&'a mut [u8]>| #[trigger]
            first.ensures((ctx,), r) && a.len() <= ctx.write@.len() ==> {
                &&& r is Ok
                &&& r->Ok_0.position == ctx.position + a.len()
                &&& r->Ok_0.write@ == ctx.write@.skip(a.len() as int)
                &&& final(ctx.write)@ == a + final(r->Ok_0.write)@
            },
        forall|ctx: WriteContext<&'a mut [u8]>, r: GenResult<&'a mut [u8]>| #[trigger]
            second.ensures((ctx,), r) && b.len() <= ctx.write@.len() ==> {
                &&& r is Ok
                &&& r->Ok_0.position == ctx.position + b.len()
                &&& r->Ok_0.write@ == ctx.write@.skip(b.len() as int)
                &&& final(ctx.write)@ == b + final(r->Ok_0.write)@
            },
        forall|ctx: WriteContext<&'a mut [u8]>, r: GenResult<&'a mut [u8]>| #[trigger]
            both.ensures((ctx,), r) ==> chained(first, second, ctx, r),
    ensures
        forall|ctx: WriteContext<&'a mut [u8]>, r: GenResult<&'a mut [u8]>| #[trigger]
            both.ensures((ctx,), r) && (a + b).len() <= ctx.write@.len() ==> {
                &&& r is Ok
                &&& r->Ok_0.position == ctx.position + (a + b).len()
                &&& r->Ok_0.write@ == ctx.write@.skip((a + b).len() as int)
                &&& final(ctx.write)@ == (a + b) + final(r->Ok_0.write)@
            },
{
    assert forall|ctx: WriteContext<&'a mut [u8]>, r: GenResult<&'a mut [u8]>| #[trigger]
        both.ensures((ctx,), r) && (a + b).len() <= ctx.write@.len() implies {
        &&& r is Ok
        &&& r->Ok_0.position == ctx.position + (a + b).len()
        &&& r->Ok_0.write@ == ctx.write@.skip((a + b).len() as int)
        &&& final(ctx.write)@ == (a + b) + final(r->Ok_0.write)@
    } by {
        assert(chained(first, second, ctx, r));
        let mid = choose|mid: GenResult<&'a mut [u8]>| #[trigger]
            first.ensures((ctx,), mid) && match mid {
                Ok(c) => second.ensures((c,), r),
                Err(e) => r == Err::<WriteContext<&'a mut [u8]>, GenError>(e),
            };
        assert(mid is Ok);
        assert(second.ensures((mid->Ok_0,), r));
        assert(ctx.write@.skip(a.len() as int).skip(b.len() as int) =~= ctx.write@.skip((a + b).len() as int));
        assert(a + (b + final(r->Ok_0.write)@) =~= (a + b) + final(r->Ok_0.write)@);
    }
}

/// On a fixed span with room for all payloads, a run of all serializers of a
/// list writes their payloads in the order of the list, where each serializer
/// fills spans with the payload at its index as `lemma_emits_fills_span` says
/// of one serializer.
pub proof fn lemma_ran_all_filled_span<'a, G: SerializeFn<&'a mut [u8]>>(
    items: Seq<G>,
    payloads: Seq<Seq<u8>>,
    ctx: WriteContext<&'a mut [u8]>,
    r: GenResult<&'a mut [u8]>,
)
    requires
        items.len() == payloads.len(),
        forall|i: int, c: WriteContext<&'a mut [u8]>, o: GenResult<&'a mut [u8]>|
            0 <= i < items.len() && #[trigger] items[i].ensures((c,), o) && payloads[i].len() <= c.write@.len() ==> {
                &&& o is Ok
                &&& o->Ok_0.position == c.position + payloads[i].len()
                &&& o->Ok_0.write@ == c.write@.skip(payloads[i].len() as int)
                &&& final(c.write)@ == payloads[i] + final(o->Ok_0.write)@
            },
        ran_all(items, ctx, r),
        flat(payloads).len() <= old(ctx.write)@.len(),
    ensures
        r is Ok,
        r->Ok_0.position == ctx.position + flat(payloads).len(),
        r->Ok_0.write@ == old(ctx.write)@.skip(flat(payloads).len() as int),
        final(ctx.write)@ == flat(payloads) + final(r->Ok_0.write)@,
    decreases items.len(),
{
    if items.len() == 0 {
        assert(flat(payloads) + final(ctx.write)@ =~= final(ctx.write)@);
        assert(ctx.write@.skip(0) =~= ctx.write@);
    } else {
        let mid = choose|mid: GenResult<&'a mut [u8]>| #[trigger]
            items[0].ensures((ctx,), mid) && match mid {
                Ok(c) => ran_all(items.skip(1), c, r),
                Err(e) => r == Err::<WriteContext<&'a mut [u8]>, GenError>(e),
            };
        assert(mid is Ok);
        let next = mid->Ok_0;
        assert forall|i: int, c: WriteContext<&'a mut [u8]>, o: GenResult<&'a mut [u8]>|
            0 <= i < items.skip(1).len() && #[trigger] items.skip(1)[i].ensures((c,), o) && payloads.skip(1)[i].len()
                <= c.write@.len() implies {
            &&& o is Ok
            &&& o->Ok_0.position == c.position + payloads.skip(1)[i].len()
            &&& o->Ok_0.write@ == c.write@.skip(payloads.skip(1)[i].len() as int)
            &&& final(c.write)@ == payloads.skip(1)[i] + final(o->Ok_0.write)@
        } by {
            assert(items.skip(1)[i] == items[i + 1]);
            assert(items[i + 1].ensures((c,), o));
        }
        lemma_ran_all_filled_span(items.skip(1), payloads.skip(1), next, r);
        let first = payloads[0];
        let others = flat(payloads.skip(1));
        assert(ctx.write@.skip(first.len() as int).skip(others.len() as int) =~= ctx.write@.skip(
            (first + others).len() as int,
        ));
        assert(first + (others + final(r->Ok_0.write)@) =~= (first + others) + final(r->Ok_0.write)@);
    }
}

/// Determinism on fixed spans: a serializer that fills spans with `bytes`
/// brings two spans that hold the same bytes, at the same position and with
/// room for `bytes`, to the same reported position and to rests of the same
/// contents; both spans begin with `bytes` in the end, and they end up equal
/// where their rests do.
pub proof fn lemma_fills_span_deterministic<'a, F: SerializeFn<&'a mut [u8]>>(
    f: F,
    bytes: Seq<u8>,
    sink1: WriteContext<&'a mut [u8]>,
    sink2: WriteContext<&'a mut [u8]>,
    r1: GenResult<&'a mut [u8]>,
    r2: GenResult<&'a mut [u8]>,
)
    requires
        forall|ctx: WriteContext<&'a mut [u8]>, r: GenResult<&'a mut [u8]>| #[trigger]
            f.ensures((ctx,), r) && bytes.len() <= ctx.write@.len() ==> {
                &&& r is Ok
                &&& r->Ok_0.position == ctx.position + bytes.len()
                &&& r->Ok_0.write@ == ctx.write@.skip(bytes.len() as int)
                &&& final(ctx.write)@ == bytes + final(r->Ok_0.write)@
            },
        old(sink1.write)@ == old(sink2.write)@,
        sink1.position == sink2.position,
        bytes.len() <= old(sink1.write)@.len(),
        f.ensures((sink1,), r1),
        f.ensures((sink2,), r2),
    ensures
        r1 is Ok,
        r2 is Ok,
        r1->Ok_0.position == r2->Ok_0.position,
        r1->Ok_0.write@ == r2->Ok_0.write@,
        final(sink1.write)@ == bytes + final(r1->Ok_0.write)@,
        final(sink2.write)@ == bytes + final(r2->Ok_0.write)@,
        final(r1->Ok_0.write)@ == final(r2->Ok_0.write)@ ==> final(sink1.write)@ == final(sink2.write)@,
{
}

/// On a fixed span with room for all of it, a run of the rest of a separated
/// list writes, for each serializer, the separator and then the payload.
pub proof fn lemma_ran_separated_rest_filled_span<
    'a,
    F: SerializeFn<&'a mut [u8]>,
    G: SerializeFn<&'a mut [u8]>,
>(sep: F, sep_bytes: Seq<u8>, items: Seq<G>, payloads: Seq<Seq<u8>>, ctx: WriteContext<&'a mut [u8]>, r: GenResult<
    &'a mut [u8],
>)
    requires
        items.len() == payloads.len(),
        forall|c: WriteContext<&'a mut [u8]>, o: GenResult<&'a mut [u8]>| #[trigger]
            sep.ensures((c,), o) && sep_bytes.len() <= c.write@.len() ==> {
                &&& o is Ok
                &&& o->Ok_0.position == c.position + sep_bytes.len()
                &&& o->Ok_0.write@ == c.write@.skip(sep_bytes.len() as int)
                &&& final(c.write)@ == sep_bytes + final(o->Ok_0.write)@
            },
        forall|i: int, c: WriteContext<&'a mut [u8]>, o: GenResult<&'a mut [u8]>|
            0 <= i < items.len() && #[trigger] items[i].ensures((c,), o) && payloads[i].len() <= c.write@.len() ==> {
                &&& o is Ok
                &&& o->Ok_0.position == c.position + payloads[i].len()
                &&& o->Ok_0.write@ == c.write@.skip(payloads[i].len() as int)
                &&& final(c.write)@ == payloads[i] + final(o->Ok_0.write)@
            },
        ran_separated_rest(sep, items, ctx, r),
        prefixed(payloads, sep_bytes).len() <= old(ctx.write)@.len(),
    ensures
        r is Ok,
        r->Ok_0.position == ctx.position + prefixed(payloads, sep_bytes).len(),
        r->Ok_0.write@ == old(ctx.write)@.skip(prefixed(payloads, sep_bytes).len() as int),
        final(ctx.write)@ == prefixed(payloads, sep_bytes) + final(r->Ok_0.write)@,
    decreases items.len(),
{
    if items.len() == 0 {
        assert(prefixed(payloads, sep_bytes) + final(ctx.write)@ =~= final(ctx.write)@);
        assert(ctx.write@.skip(0) =~= ctx.write@);
    } else {
        let mid = choose|mid: GenResult<&'a mut [u8]>| #[trigger]
            chained(sep, items[0], ctx, mid) && match mid {
                Ok(c) => ran_separated_rest(sep, items.skip(1), c, r),
                Err(e) => r == Err::<WriteContext<&'a mut [u8]>, GenError>(e),
            };
        let m1 = choose|m1: GenResult<&'a mut [u8]>| #[trigger]
            sep.ensures((ctx,), m1) && match m1 {
                Ok(c) => items[0].ensures((c,), mid),
                Err(e) => mid == Err::<WriteContext<&'a mut [u8]>, GenError>(e),
            };
        assert(m1 is Ok);
        assert(items[0].ensures((m1->Ok_0,), mid));
        assert(mid is Ok);
        assert forall|i: int, c: WriteContext<&'a mut [u8]>, o: GenResult<&'a mut [u8]>|
    0 <= i < items.skip(1).len() && #[trigger] items.skip(1)[i].ensures((c,), o) && payloads.skip(1)[i].len() <= c.write@.len() implies {
                &&& o is Ok
                &&& o->Ok_0.position == c.position + payloads.skip(1)[i].len()
                &&& o->Ok_0.write@ == c.write@.skip(payloads.skip(1)[i].len() as int)
                &&& final(c.write)@ == payloads.skip(1)[i] + final(o->Ok_0.write)@
            } by {
            assert(items.skip(1)[i] == items[i + 1]);
            assert(items[i + 1].ensures((c,), o));
        }
        lemma_ran_separated_rest_filled_span(sep, sep_bytes, items.skip(1), payloads.skip(1), mid->Ok_0, r);
        let first = payloads[0];
        let others = prefixed(payloads.skip(1), sep_bytes);
        let end = final(r->Ok_0.write)@;
        assert(ctx.write@.skip(sep_bytes.len() as int).skip(first.len() as int).skip(others.len() as int)
            =~= ctx.write@.skip((sep_bytes + first + others).len() as int));
        assert(sep_bytes + (first + (others + end)) =~= (sep_bytes + first + others) + end);
    }
}

/// On a fixed span with room for all of it, a run of a separated list writes
/// the payloads in the order of the list with the separator between each two
/// of them.
pub proof fn lemma_ran_separated_filled_span<'a, F: SerializeFn<&'a mut [u8]>, G: SerializeFn<&'a mut [u8]>>(
    sep: F,
    sep_bytes: Seq<u8>,
    items: Seq<G>,
    payloads: Seq<Seq<u8>>,
    ctx: WriteContext<&'a mut [u8]>,
    r: GenResult<&'a mut [u8]>,
)
    requires
        items.len() == payloads.len(),
        forall|c: WriteContext<&'a mut [u8]>, o: GenResult<&'a mut [u8]>| #[trigger]
            sep.ensures((c,), o) && sep_bytes.len() <= c.write@.len() ==> {
                &&& o is Ok
                &&& o->Ok_0.position == c.position + sep_bytes.len()
                &&& o->Ok_0.write@ == c.write@.skip(sep_bytes.len() as int)
                &&& final(c.write)@ == sep_bytes + final(o->Ok_0.write)@
            },
        forall|i: int, c: WriteContext<&'a mut [u8]>, o: GenResult<&'a mut [u8]>|
            0 <= i < items.len() && #[trigger] items[i].ensures((c,), o) && payloads[i].len() <= c.write@.len() ==> {
                &&& o is Ok
                &&& o->Ok_0.position == c.position + payloads[i].len()
                &&& o->Ok_0.write@ == c.write@.skip(payloads[i].len() as int)
                &&& final(c.write)@ == payloads[i] + final(o->Ok_0.write)@
            },
        ran_separated(sep, items, ctx, r),
        joined(payloads, sep_bytes).len() <= old(ctx.write)@.len(),
    ensures
        r is Ok,
        r->Ok_0.position == ctx.position + joined(payloads, sep_bytes).len(),
        r->Ok_0.write@ == old(ctx.write)@.skip(joined(payloads, sep_bytes).len() as int),
        final(ctx.write)@ == joined(payloads, sep_bytes) + final(r->Ok_0.write)@,
{
    if items.len() == 0 {
        assert(joined(payloads, sep_bytes) + final(ctx.write)@ =~= final(ctx.write)@);
        assert(ctx.write@.skip(0) =~= ctx.write@);
    } else {
        let mid = choose|mid: GenResult<&'a mut [u8]>| #[trigger]
            items[0].ensures((ctx,), mid) && match mid {
                Ok(c) => ran_separated_rest(sep, items.skip(1), c, r),
                Err(e) => r == Err::<WriteContext<&'a mut [u8]>, GenError>(e),
            };
        assert(mid is Ok);
        assert forall|i: int, c: WriteContext<&'a mut [u8]>, o: GenResult<&'a mut [u8]>|
    0 <= i < items.skip(1).len() && #[trigger] items.skip(1)[i].ensures((c,), o) && payloads.skip(1)[i].len() <= c.write@.len() implies {
                &&& o is Ok
                &&& o->Ok_0.position == c.position + payloads.skip(1)[i].len()
                &&& o->Ok_0.write@ == c.write@.skip(payloads.skip(1)[i].len() as int)
                &&& final(c.write)@ == payloads.skip(1)[i] + final(o->Ok_0.write)@
            } by {
            assert(items.skip(1)[i] == items[i + 1]);
            assert(items[i + 1].ensures((c,), o));
        }
        lemma_ran_separated_rest_filled_span(sep, sep_bytes, items.skip(1), payloads.skip(1), mid->Ok_0, r);
        let first = payloads[0];
        let others = prefixed(payloads.skip(1), sep_bytes);
        let end = final(r->Ok_0.write)@;
        assert(ctx.write@.skip(first.len() as int).skip(others.len() as int) =~= ctx.write@.skip(
            (first + others).len() as int,
        ));
        assert(first + (others + end) =~= (first + others) + end);
    }
}

} // verus!
