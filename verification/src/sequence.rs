//! Serializers working on a sequence of objects (pairs, tuples, etc).
use vstd::prelude::*;
use crate::internal::{GenResult, SerializeFn, WriteContext};
use crate::io_compat::Write;

verus! {

/// `second` may be run on whatever context `first` hands on from `ctx`.
pub open spec fn can_chain<W, F: SerializeFn<W>, G: SerializeFn<W>>(first: F, second: G, ctx: WriteContext<W>) -> bool {
    &&& first.requires((ctx,))
    &&& forall|mid: WriteContext<W>| #[trigger] first.ensures((ctx,), Ok(mid)) ==> second.requires((mid,))
}

/// `r` is a result of running `first` on `ctx` and then, where that went well,
/// `second` on what `first` handed on; an error of `first` is the result as it
/// stands.
pub open spec fn chained<W, F: SerializeFn<W>, G: SerializeFn<W>>(first: F, second: G, ctx: WriteContext<W>, r: GenResult<W>) -> bool {
    exists|mid: GenResult<W>| #[trigger] first.ensures((ctx,), mid) && match mid {
        Ok(c) => second.ensures((c,), r),
        Err(e) => r == Err::<WriteContext<W>, _>(e),
    }
}

/// Applies 2 serializers in sequence.
pub fn pair<F, G, W: Write>(first: F, second: G) -> (h: impl SerializeFn<W>)
    where
        F: SerializeFn<W>,
        G: SerializeFn<W>,
    ensures
        forall|ctx: WriteContext<W>| can_chain(first, second, ctx) ==> #[trigger] h.requires((ctx,)),
        forall|ctx: WriteContext<W>, r: GenResult<W>| #[trigger] h.ensures((ctx,), r) ==> chained(first, second, ctx, r),
{
    move |out: WriteContext<W>| -> (r: GenResult<W>)
        requires
            can_chain(first, second, out),
        ensures
            chained(first, second, out, r),
    {
        match first(out) {
            Ok(mid) => second(mid),
            Err(e) => Err(e),
        }
    }
}

/// Helper trait for the `tuple` combinator: a tuple of serializers that are
/// run one after another, each on what the one before handed on, up to the
/// first that fails.
pub trait Tuple<W> {
    /// Each serializer of the tuple may be run on the context that it gets.
    spec fn can_serialize(&self, w: WriteContext<W>) -> bool;

    /// `r` is a result of running the serializers of the tuple in order from
    /// `w` on: the context that the last one returned, or the error of the
    /// first one that failed.
    spec fn serialized(&self, w: WriteContext<W>, r: GenResult<W>) -> bool;

    fn serialize(&self, w: WriteContext<W>) -> (r: GenResult<W>)
        requires
            self.can_serialize(w),
        ensures
            self.serialized(w, r),
    ;
}

impl<W: Write, FnA: SerializeFn<W>> Tuple<W> for (FnA,) {
    open spec fn can_serialize(&self, w: WriteContext<W>) -> bool {
        self.0.requires((w,))
    }

    open spec fn serialized(&self, w: WriteContext<W>, r: GenResult<W>) -> bool {
        self.0.ensures((w,), r)
    }

    fn serialize(&self, w: WriteContext<W>) -> (r: GenResult<W>) {
        (self.0)(w)
    }
}

impl<W: Write, FnA: SerializeFn<W>, FnB: SerializeFn<W>> Tuple<W> for (FnA, FnB) {
    open spec fn can_serialize(&self, w: WriteContext<W>) -> bool {
        &&& self.0.requires((w,))
        &&& forall|mid: WriteContext<W>| #[trigger] self.0.ensures((w,), Ok(mid)) ==> (self.1,).can_serialize(mid)
    }

    open spec fn serialized(&self, w: WriteContext<W>, r: GenResult<W>) -> bool {
        exists|mid: GenResult<W>| #[trigger] self.0.ensures((w,), mid) && match mid {
            Ok(c) => (self.1,).serialized(c, r),
            Err(e) => r == Err::<WriteContext<W>, _>(e),
        }
    }

    fn serialize(&self, w: WriteContext<W>) -> (r: GenResult<W>) {
        let w = match (self.0)(w) {
            Ok(w) => w,
            Err(e) => { return Err(e); },
        };
        (self.1)(w)
    }
}

impl<W: Write, FnA: SerializeFn<W>, FnB: SerializeFn<W>, FnC: SerializeFn<W>> Tuple<W> for (FnA, FnB, FnC) {
    open spec fn can_serialize(&self, w: WriteContext<W>) -> bool {
        &&& self.0.requires((w,))
        &&& forall|mid: WriteContext<W>| #[trigger] self.0.ensures((w,), Ok(mid)) ==> (self.1, self.2).can_serialize(mid)
    }

    open spec fn serialized(&self, w: WriteContext<W>, r: GenResult<W>) -> bool {
        exists|mid: GenResult<W>| #[trigger] self.0.ensures((w,), mid) && match mid {
            Ok(c) => (self.1, self.2).serialized(c, r),
            Err(e) => r == Err::<WriteContext<W>, _>(e),
        }
    }

    fn serialize(&self, w: WriteContext<W>) -> (r: GenResult<W>) {
        let w = match (self.0)(w) {
            Ok(w) => w,
            Err(e) => { return Err(e); },
        };
        let w = match (self.1)(w) {
            Ok(w) => w,
            Err(e) => { return Err(e); },
        };
        (self.2)(w)
    }
}

impl<W: Write, FnA: SerializeFn<W>, FnB: SerializeFn<W>, FnC: SerializeFn<W>, FnD: SerializeFn<W>> Tuple<W> for (FnA, FnB, FnC, FnD) {
    open spec fn can_serialize(&self, w: WriteContext<W>) -> bool {
        &&& self.0.requires((w,))
        &&& forall|mid: WriteContext<W>| #[trigger] self.0.ensures((w,), Ok(mid)) ==> (self.1, self.2, self.3).can_serialize(mid)
    }

    open spec fn serialized(&self, w: WriteContext<W>, r: GenResult<W>) -> bool {
        exists|mid: GenResult<W>| #[trigger] self.0.ensures((w,), mid) && match mid {
            Ok(c) => (self.1, self.2, self.3).serialized(c, r),
            Err(e) => r == Err::<WriteContext<W>, _>(e),
        }
    }

    fn serialize(&self, w: WriteContext<W>) -> (r: GenResult<W>) {
        let w = match (self.0)(w) {
            Ok(w) => w,
            Err(e) => { return Err(e); },
        };
        let w = match (self.1)(w) {
            Ok(w) => w,
            Err(e) => { return Err(e); },
        };
        let w = match (self.2)(w) {
            Ok(w) => w,
            Err(e) => { return Err(e); },
        };
        (self.3)(w)
    }
}

impl<W: Write, FnA: SerializeFn<W>, FnB: SerializeFn<W>, FnC: SerializeFn<W>, FnD: SerializeFn<W>, FnE: SerializeFn<W>> Tuple<W> for (FnA, FnB, FnC, FnD, FnE) {
    open spec fn can_serialize(&self, w: WriteContext<W>) -> bool {
        &&& self.0.requires((w,))
        &&& forall|mid: WriteContext<W>| #[trigger] self.0.ensures((w,), Ok(mid)) ==> (self.1, self.2, self.3, self.4).can_serialize(mid)
    }

    open spec fn serialized(&self, w: WriteContext<W>, r: GenResult<W>) -> bool {
        exists|mid: GenResult<W>| #[trigger] self.0.ensures((w,), mid) && match mid {
            Ok(c) => (self.1, self.2, self.3, self.4).serialized(c, r),
            Err(e) => r == Err::<WriteContext<W>, _>(e),
        }
    }

    fn serialize(&self, w: WriteContext<W>) -> (r: GenResult<W>) {
        let w = match (self.0)(w) {
            Ok(w) => w,
            Err(e) => { return Err(e); },
        };
        let w = match (self.1)(w) {
            Ok(w) => w,
            Err(e) => { return Err(e); },
        };
        let w = match (self.2)(w) {
            Ok(w) => w,
            Err(e) => { return Err(e); },
        };
        let w = match (self.3)(w) {
            Ok(w) => w,
            Err(e) => { return Err(e); },
        };
        (self.4)(w)
    }
}

impl<W: Write, FnA: SerializeFn<W>, FnB: SerializeFn<W>, FnC: SerializeFn<W>, FnD: SerializeFn<W>, FnE: SerializeFn<W>, FnF: SerializeFn<W>> Tuple<W> for (FnA, FnB, FnC, FnD, FnE, FnF) {
    open spec fn can_serialize(&self, w: WriteContext<W>) -> bool {
        &&& self.0.requires((w,))
        &&& forall|mid: WriteContext<W>| #[trigger] self.0.ensures((w,), Ok(mid)) ==> (self.1, self.2, self.3, self.4, self.5).can_serialize(mid)
    }

    open spec fn serialized(&self, w: WriteContext<W>, r: GenResult<W>) -> bool {
        exists|mid: GenResult<W>| #[trigger] self.0.ensures((w,), mid) && match mid {
            Ok(c) => (self.1, self.2, self.3, self.4, self.5).serialized(c, r),
            Err(e) => r == Err::<WriteContext<W>, _>(e),
        }
    }

    fn serialize(&self, w: WriteContext<W>) -> (r: GenResult<W>) {
        let w = match (self.0)(w) {
            Ok(w) => w,
            Err(e) => { return Err(e); },
        };
        let w = match (self.1)(w) {
            Ok(w) => w,
            Err(e) => { return Err(e); },
        };
        let w = match (self.2)(w) {
            Ok(w) => w,
            Err(e) => { return Err(e); },
        };
        let w = match (self.3)(w) {
            Ok(w) => w,
            Err(e) => { return Err(e); },
        };
        let w = match (self.4)(w) {
            Ok(w) => w,
            Err(e) => { return Err(e); },
        };
        (self.5)(w)
    }
}

impl<W: Write, FnA: SerializeFn<W>, FnB: SerializeFn<W>, FnC: SerializeFn<W>, FnD: SerializeFn<W>, FnE: SerializeFn<W>, FnF: SerializeFn<W>, FnG: SerializeFn<W>> Tuple<W> for (FnA, FnB, FnC, FnD, FnE, FnF, FnG) {
    open spec fn can_serialize(&self, w: WriteContext<W>) -> bool {
        &&& self.0.requires((w,))
        &&& forall|mid: WriteContext<W>| #[trigger] self.0.ensures((w,), Ok(mid)) ==> (self.1, self.2, self.3, self.4, self.5, self.6).can_serialize(mid)
    }

    open spec fn serialized(&self, w: WriteContext<W>, r: GenResult<W>) -> bool {
        exists|mid: GenResult<W>| #[trigger] self.0.ensures((w,), mid) && match mid {
            Ok(c) => (self.1, self.2, self.3, self.4, self.5, self.6).serialized(c, r),
            Err(e) => r == Err::<WriteContext<W>, _>(e),
        }
    }

    fn serialize(&self, w: WriteContext<W>) -> (r: GenResult<W>) {
        let w = match (self.0)(w) {
            Ok(w) => w,
            Err(e) => { return Err(e); },
        };
        let w = match (self.1)(w) {
            Ok(w) => w,
            Err(e) => { return Err(e); },
        };
        let w = match (self.2)(w) {
            Ok(w) => w,
            Err(e) => { return Err(e); },
        };
        let w = match (self.3)(w) {
            Ok(w) => w,
            Err(e) => { return Err(e); },
        };
        let w = match (self.4)(w) {
            Ok(w) => w,
            Err(e) => { return Err(e); },
        };
        let w = match (self.5)(w) {
            Ok(w) => w,
            Err(e) => { return Err(e); },
        };
        (self.6)(w)
    }
}

impl<W: Write, FnA: SerializeFn<W>, FnB: SerializeFn<W>, FnC: SerializeFn<W>, FnD: SerializeFn<W>, FnE: SerializeFn<W>, FnF: SerializeFn<W>, FnG: SerializeFn<W>, FnH: SerializeFn<W>> Tuple<W> for (FnA, FnB, FnC, FnD, FnE, FnF, FnG, FnH) {
    open spec fn can_serialize(&self, w: WriteContext<W>) -> bool {
        &&& self.0.requires((w,))
        &&& forall|mid: WriteContext<W>| #[trigger] self.0.ensures((w,), Ok(mid)) ==> (self.1, self.2, self.3, self.4, self.5, self.6, self.7).can_serialize(mid)
    }

    open spec fn serialized(&self, w: WriteContext<W>, r: GenResult<W>) -> bool {
        exists|mid: GenResult<W>| #[trigger] self.0.ensures((w,), mid) && match mid {
            Ok(c) => (self.1, self.2, self.3, self.4, self.5, self.6, self.7).serialized(c, r),
            Err(e) => r == Err::<WriteContext<W>, _>(e),
        }
    }

    fn serialize(&self, w: WriteContext<W>) -> (r: GenResult<W>) {
        let w = match (self.0)(w) {
            Ok(w) => w,
            Err(e) => { return Err(e); },
        };
        let w = match (self.1)(w) {
            Ok(w) => w,
            Err(e) => { return Err(e); },
        };
        let w = match (self.2)(w) {
            Ok(w) => w,
            Err(e) => { return Err(e); },
        };
        let w = match (self.3)(w) {
            Ok(w) => w,
            Err(e) => { return Err(e); },
        };
        let w = match (self.4)(w) {
            Ok(w) => w,
            Err(e) => { return Err(e); },
        };
        let w = match (self.5)(w) {
            Ok(w) => w,
            Err(e) => { return Err(e); },
        };
        let w = match (self.6)(w) {
            Ok(w) => w,
            Err(e) => { return Err(e); },
        };
        (self.7)(w)
    }
}

impl<W: Write, FnA: SerializeFn<W>, FnB: SerializeFn<W>, FnC: SerializeFn<W>, FnD: SerializeFn<W>, FnE: SerializeFn<W>, FnF: SerializeFn<W>, FnG: SerializeFn<W>, FnH: SerializeFn<W>, FnI: SerializeFn<W>> Tuple<W> for (FnA, FnB, FnC, FnD, FnE, FnF, FnG, FnH, FnI) {
    open spec fn can_serialize(&self, w: WriteContext<W>) -> bool {
        &&& self.0.requires((w,))
        &&& forall|mid: WriteContext<W>| #[trigger] self.0.ensures((w,), Ok(mid)) ==> (self.1, self.2, self.3, self.4, self.5, self.6, self.7, self.8).can_serialize(mid)
    }

    open spec fn serialized(&self, w: WriteContext<W>, r: GenResult<W>) -> bool {
        exists|mid: GenResult<W>| #[trigger] self.0.ensures((w,), mid) && match mid {
            Ok(c) => (self.1, self.2, self.3, self.4, self.5, self.6, self.7, self.8).serialized(c, r),
            Err(e) => r == Err::<WriteContext<W>, _>(e),
        }
    }

    fn serialize(&self, w: WriteContext<W>) -> (r: GenResult<W>) {
        let w = match (self.0)(w) {
            Ok(w) => w,
            Err(e) => { return Err(e); },
        };
        let w = match (self.1)(w) {
            Ok(w) => w,
            Err(e) => { return Err(e); },
        };
        let w = match (self.2)(w) {
            Ok(w) => w,
            Err(e) => { return Err(e); },
        };
        let w = match (self.3)(w) {
            Ok(w) => w,
            Err(e) => { return Err(e); },
        };
        let w = match (self.4)(w) {
            Ok(w) => w,
            Err(e) => { return Err(e); },
        };
        let w = match (self.5)(w) {
            Ok(w) => w,
            Err(e) => { return Err(e); },
        };
        let w = match (self.6)(w) {
            Ok(w) => w,
            Err(e) => { return Err(e); },
        };
        let w = match (self.7)(w) {
            Ok(w) => w,
            Err(e) => { return Err(e); },
        };
        (self.8)(w)
    }
}

impl<W: Write, FnA: SerializeFn<W>, FnB: SerializeFn<W>, FnC: SerializeFn<W>, FnD: SerializeFn<W>, FnE: SerializeFn<W>, FnF: SerializeFn<W>, FnG: SerializeFn<W>, FnH: SerializeFn<W>, FnI: SerializeFn<W>, FnJ: SerializeFn<W>> Tuple<W> for (FnA, FnB, FnC, FnD, FnE, FnF, FnG, FnH, FnI, FnJ) {
    open spec fn can_serialize(&self, w: WriteContext<W>) -> bool {
        &&& self.0.requires((w,))
        &&& forall|mid: WriteContext<W>| #[trigger] self.0.ensures((w,), Ok(mid)) ==> (self.1, self.2, self.3, self.4, self.5, self.6, self.7, self.8, self.9).can_serialize(mid)
    }

    open spec fn serialized(&self, w: WriteContext<W>, r: GenResult<W>) -> bool {
        exists|mid: GenResult<W>| #[trigger] self.0.ensures((w,), mid) && match mid {
            Ok(c) => (self.1, self.2, self.3, self.4, self.5, self.6, self.7, self.8, self.9).serialized(c, r),
            Err(e) => r == Err::<WriteContext<W>, _>(e),
        }
    }

    fn serialize(&self, w: WriteContext<W>) -> (r: GenResult<W>) {
        let w = match (self.0)(w) {
            Ok(w) => w,
            Err(e) => { return Err(e); },
        };
        let w = match (self.1)(w) {
            Ok(w) => w,
            Err(e) => { return Err(e); },
        };
        let w = match (self.2)(w) {
            Ok(w) => w,
            Err(e) => { return Err(e); },
        };
        let w = match (self.3)(w) {
            Ok(w) => w,
            Err(e) => { return Err(e); },
        };
        let w = match (self.4)(w) {
            Ok(w) => w,
            Err(e) => { return Err(e); },
        };
        let w = match (self.5)(w) {
            Ok(w) => w,
            Err(e) => { return Err(e); },
        };
        let w = match (self.6)(w) {
            Ok(w) => w,
            Err(e) => { return Err(e); },
        };
        let w = match (self.7)(w) {
            Ok(w) => w,
            Err(e) => { return Err(e); },
        };
        let w = match (self.8)(w) {
            Ok(w) => w,
            Err(e) => { return Err(e); },
        };
        (self.9)(w)
    }
}

impl<W: Write, FnA: SerializeFn<W>, FnB: SerializeFn<W>, FnC: SerializeFn<W>, FnD: SerializeFn<W>, FnE: SerializeFn<W>, FnF: SerializeFn<W>, FnG: SerializeFn<W>, FnH: SerializeFn<W>, FnI: SerializeFn<W>, FnJ: SerializeFn<W>, FnK: SerializeFn<W>> Tuple<W> for (FnA, FnB, FnC, FnD, FnE, FnF, FnG, FnH, FnI, FnJ, FnK) {
    open spec fn can_serialize(&self, w: WriteContext<W>) -> bool {
        &&& self.0.requires((w,))
        &&& forall|mid: WriteContext<W>| #[trigger] self.0.ensures((w,), Ok(mid)) ==> (self.1, self.2, self.3, self.4, self.5, self.6, self.7, self.8, self.9, self.10).can_serialize(mid)
    }

    open spec fn serialized(&self, w: WriteContext<W>, r: GenResult<W>) -> bool {
        exists|mid: GenResult<W>| #[trigger] self.0.ensures((w,), mid) && match mid {
            Ok(c) => (self.1, self.2, self.3, self.4, self.5, self.6, self.7, self.8, self.9, self.10).serialized(c, r),
            Err(e) => r == Err::<WriteContext<W>, _>(e),
        }
    }

    fn serialize(&self, w: WriteContext<W>) -> (r: GenResult<W>) {
        let w = match (self.0)(w) {
            Ok(w) => w,
            Err(e) => { return Err(e); },
        };
        let w = match (self.1)(w) {
            Ok(w) => w,
            Err(e) => { return Err(e); },
        };
        let w = match (self.2)(w) {
            Ok(w) => w,
            Err(e) => { return Err(e); },
        };
        let w = match (self.3)(w) {
            Ok(w) => w,
            Err(e) => { return Err(e); },
        };
        let w = match (self.4)(w) {
            Ok(w) => w,
            Err(e) => { return Err(e); },
        };
        let w = match (self.5)(w) {
            Ok(w) => w,
            Err(e) => { return Err(e); },
        };
        let w = match (self.6)(w) {
            Ok(w) => w,
            Err(e) => { return Err(e); },
        };
        let w = match (self.7)(w) {
            Ok(w) => w,
            Err(e) => { return Err(e); },
        };
        let w = match (self.8)(w) {
            Ok(w) => w,
            Err(e) => { return Err(e); },
        };
        let w = match (self.9)(w) {
            Ok(w) => w,
            Err(e) => { return Err(e); },
        };
        (self.10)(w)
    }
}

impl<W: Write, FnA: SerializeFn<W>, FnB: SerializeFn<W>, FnC: SerializeFn<W>, FnD: SerializeFn<W>, FnE: SerializeFn<W>, FnF: SerializeFn<W>, FnG: SerializeFn<W>, FnH: SerializeFn<W>, FnI: SerializeFn<W>, FnJ: SerializeFn<W>, FnK: SerializeFn<W>, FnL: SerializeFn<W>> Tuple<W> for (FnA, FnB, FnC, FnD, FnE, FnF, FnG, FnH, FnI, FnJ, FnK, FnL) {
    open spec fn can_serialize(&self, w: WriteContext<W>) -> bool {
        &&& self.0.requires((w,))
        &&& forall|mid: WriteContext<W>| #[trigger] self.0.ensures((w,), Ok(mid)) ==> (self.1, self.2, self.3, self.4, self.5, self.6, self.7, self.8, self.9, self.10, self.11).can_serialize(mid)
    }

    open spec fn serialized(&self, w: WriteContext<W>, r: GenResult<W>) -> bool {
        exists|mid: GenResult<W>| #[trigger] self.0.ensures((w,), mid) && match mid {
            Ok(c) => (self.1, self.2, self.3, self.4, self.5, self.6, self.7, self.8, self.9, self.10, self.11).serialized(c, r),
            Err(e) => r == Err::<WriteContext<W>, _>(e),
        }
    }

    fn serialize(&self, w: WriteContext<W>) -> (r: GenResult<W>) {
        let w = match (self.0)(w) {
            Ok(w) => w,
            Err(e) => { return Err(e); },
        };
        let w = match (self.1)(w) {
            Ok(w) => w,
            Err(e) => { return Err(e); },
        };
        let w = match (self.2)(w) {
            Ok(w) => w,
            Err(e) => { return Err(e); },
        };
        let w = match (self.3)(w) {
            Ok(w) => w,
            Err(e) => { return Err(e); },
        };
        let w = match (self.4)(w) {
            Ok(w) => w,
            Err(e) => { return Err(e); },
        };
        let w = match (self.5)(w) {
            Ok(w) => w,
            Err(e) => { return Err(e); },
        };
        let w = match (self.6)(w) {
            Ok(w) => w,
            Err(e) => { return Err(e); },
        };
        let w = match (self.7)(w) {
            Ok(w) => w,
            Err(e) => { return Err(e); },
        };
        let w = match (self.8)(w) {
            Ok(w) => w,
            Err(e) => { return Err(e); },
        };
        let w = match (self.9)(w) {
            Ok(w) => w,
            Err(e) => { return Err(e); },
        };
        let w = match (self.10)(w) {
            Ok(w) => w,
            Err(e) => { return Err(e); },
        };
        (self.11)(w)
    }
}

impl<W: Write, FnA: SerializeFn<W>, FnB: SerializeFn<W>, FnC: SerializeFn<W>, FnD: SerializeFn<W>, FnE: SerializeFn<W>, FnF: SerializeFn<W>, FnG: SerializeFn<W>, FnH: SerializeFn<W>, FnI: SerializeFn<W>, FnJ: SerializeFn<W>, FnK: SerializeFn<W>, FnL: SerializeFn<W>, FnM: SerializeFn<W>> Tuple<W> for (FnA, FnB, FnC, FnD, FnE, FnF, FnG, FnH, FnI, FnJ, FnK, FnL, FnM) {
    open spec fn can_serialize(&self, w: WriteContext<W>) -> bool {
        &&& self.0.requires((w,))
        &&& forall|mid: WriteContext<W>| #[trigger] self.0.ensures((w,), Ok(mid)) ==> (self.1, self.2, self.3, self.4, self.5, self.6, self.7, self.8, self.9, self.10, self.11, self.12).can_serialize(mid)
    }

    open spec fn serialized(&self, w: WriteContext<W>, r: GenResult<W>) -> bool {
        exists|mid: GenResult<W>| #[trigger] self.0.ensures((w,), mid) && match mid {
            Ok(c) => (self.1, self.2, self.3, self.4, self.5, self.6, self.7, self.8, self.9, self.10, self.11, self.12).serialized(c, r),
            Err(e) => r == Err::<WriteContext<W>, _>(e),
        }
    }

    fn serialize(&self, w: WriteContext<W>) -> (r: GenResult<W>) {
        let w = match (self.0)(w) {
            Ok(w) => w,
            Err(e) => { return Err(e); },
        };
        let w = match (self.1)(w) {
            Ok(w) => w,
            Err(e) => { return Err(e); },
        };
        let w = match (self.2)(w) {
            Ok(w) => w,
            Err(e) => { return Err(e); },
        };
        let w = match (self.3)(w) {
            Ok(w) => w,
            Err(e) => { return Err(e); },
        };
        let w = match (self.4)(w) {
            Ok(w) => w,
            Err(e) => { return Err(e); },
        };
        let w = match (self.5)(w) {
            Ok(w) => w,
            Err(e) => { return Err(e); },
        };
        let w = match (self.6)(w) {
            Ok(w) => w,
            Err(e) => { return Err(e); },
        };
        let w = match (self.7)(w) {
            Ok(w) => w,
            Err(e) => { return Err(e); },
        };
        let w = match (self.8)(w) {
            Ok(w) => w,
            Err(e) => { return Err(e); },
        };
        let w = match (self.9)(w) {
            Ok(w) => w,
            Err(e) => { return Err(e); },
        };
        let w = match (self.10)(w) {
            Ok(w) => w,
            Err(e) => { return Err(e); },
        };
        let w = match (self.11)(w) {
            Ok(w) => w,
            Err(e) => { return Err(e); },
        };
        (self.12)(w)
    }
}

impl<W: Write, FnA: SerializeFn<W>, FnB: SerializeFn<W>, FnC: SerializeFn<W>, FnD: SerializeFn<W>, FnE: SerializeFn<W>, FnF: SerializeFn<W>, FnG: SerializeFn<W>, FnH: SerializeFn<W>, FnI: SerializeFn<W>, FnJ: SerializeFn<W>, FnK: SerializeFn<W>, FnL: SerializeFn<W>, FnM: SerializeFn<W>, FnN: SerializeFn<W>> Tuple<W> for (FnA, FnB, FnC, FnD, FnE, FnF, FnG, FnH, FnI, FnJ, FnK, FnL, FnM, FnN) {
    open spec fn can_serialize(&self, w: WriteContext<W>) -> bool {
        &&& self.0.requires((w,))
        &&& forall|mid: WriteContext<W>| #[trigger] self.0.ensures((w,), Ok(mid)) ==> (self.1, self.2, self.3, self.4, self.5, self.6, self.7, self.8, self.9, self.10, self.11, self.12, self.13).can_serialize(mid)
    }

    open spec fn serialized(&self, w: WriteContext<W>, r: GenResult<W>) -> bool {
        exists|mid: GenResult<W>| #[trigger] self.0.ensures((w,), mid) && match mid {
            Ok(c) => (self.1, self.2, self.3, self.4, self.5, self.6, self.7, self.8, self.9, self.10, self.11, self.12, self.13).serialized(c, r),
            Err(e) => r == Err::<WriteContext<W>, _>(e),
        }
    }

    fn serialize(&self, w: WriteContext<W>) -> (r: GenResult<W>) {
        let w = match (self.0)(w) {
            Ok(w) => w,
            Err(e) => { return Err(e); },
        };
        let w = match (self.1)(w) {
            Ok(w) => w,
            Err(e) => { return Err(e); },
        };
        let w = match (self.2)(w) {
            Ok(w) => w,
            Err(e) => { return Err(e); },
        };
        let w = match (self.3)(w) {
            Ok(w) => w,
            Err(e) => { return Err(e); },
        };
        let w = match (self.4)(w) {
            Ok(w) => w,
            Err(e) => { return Err(e); },
        };
        let w = match (self.5)(w) {
            Ok(w) => w,
            Err(e) => { return Err(e); },
        };
        let w = match (self.6)(w) {
            Ok(w) => w,
            Err(e) => { return Err(e); },
        };
        let w = match (self.7)(w) {
            Ok(w) => w,
            Err(e) => { return Err(e); },
        };
        let w = match (self.8)(w) {
            Ok(w) => w,
            Err(e) => { return Err(e); },
        };
        let w = match (self.9)(w) {
            Ok(w) => w,
            Err(e) => { return Err(e); },
        };
        let w = match (self.10)(w) {
            Ok(w) => w,
            Err(e) => { return Err(e); },
        };
        let w = match (self.11)(w) {
            Ok(w) => w,
            Err(e) => { return Err(e); },
        };
        let w = match (self.12)(w) {
            Ok(w) => w,
            Err(e) => { return Err(e); },
        };
        (self.13)(w)
    }
}

impl<W: Write, FnA: SerializeFn<W>, FnB: SerializeFn<W>, FnC: SerializeFn<W>, FnD: SerializeFn<W>, FnE: SerializeFn<W>, FnF: SerializeFn<W>, FnG: SerializeFn<W>, FnH: SerializeFn<W>, FnI: SerializeFn<W>, FnJ: SerializeFn<W>, FnK: SerializeFn<W>, FnL: SerializeFn<W>, FnM: SerializeFn<W>, FnN: SerializeFn<W>, FnO: SerializeFn<W>> Tuple<W> for (FnA, FnB, FnC, FnD, FnE, FnF, FnG, FnH, FnI, FnJ, FnK, FnL, FnM, FnN, FnO) {
    open spec fn can_serialize(&self, w: WriteContext<W>) -> bool {
        &&& self.0.requires((w,))
        &&& forall|mid: WriteContext<W>| #[trigger] self.0.ensures((w,), Ok(mid)) ==> (self.1, self.2, self.3, self.4, self.5, self.6, self.7, self.8, self.9, self.10, self.11, self.12, self.13, self.14).can_serialize(mid)
    }

    open spec fn serialized(&self, w: WriteContext<W>, r: GenResult<W>) -> bool {
        exists|mid: GenResult<W>| #[trigger] self.0.ensures((w,), mid) && match mid {
            Ok(c) => (self.1, self.2, self.3, self.4, self.5, self.6, self.7, self.8, self.9, self.10, self.11, self.12, self.13, self.14).serialized(c, r),
            Err(e) => r == Err::<WriteContext<W>, _>(e),
        }
    }

    fn serialize(&self, w: WriteContext<W>) -> (r: GenResult<W>) {
        let w = match (self.0)(w) {
            Ok(w) => w,
            Err(e) => { return Err(e); },
        };
        let w = match (self.1)(w) {
            Ok(w) => w,
            Err(e) => { return Err(e); },
        };
        let w = match (self.2)(w) {
            Ok(w) => w,
            Err(e) => { return Err(e); },
        };
        let w = match (self.3)(w) {
            Ok(w) => w,
            Err(e) => { return Err(e); },
        };
        let w = match (self.4)(w) {
            Ok(w) => w,
            Err(e) => { return Err(e); },
        };
        let w = match (self.5)(w) {
            Ok(w) => w,
            Err(e) => { return Err(e); },
        };
        let w = match (self.6)(w) {
            Ok(w) => w,
            Err(e) => { return Err(e); },
        };
        let w = match (self.7)(w) {
            Ok(w) => w,
            Err(e) => { return Err(e); },
        };
        let w = match (self.8)(w) {
            Ok(w) => w,
            Err(e) => { return Err(e); },
        };
        let w = match (self.9)(w) {
            Ok(w) => w,
            Err(e) => { return Err(e); },
        };
        let w = match (self.10)(w) {
            Ok(w) => w,
            Err(e) => { return Err(e); },
        };
        let w = match (self.11)(w) {
            Ok(w) => w,
            Err(e) => { return Err(e); },
        };
        let w = match (self.12)(w) {
            Ok(w) => w,
            Err(e) => { return Err(e); },
        };
        let w = match (self.13)(w) {
            Ok(w) => w,
            Err(e) => { return Err(e); },
        };
        (self.14)(w)
    }
}

impl<W: Write, FnA: SerializeFn<W>, FnB: SerializeFn<W>, FnC: SerializeFn<W>, FnD: SerializeFn<W>, FnE: SerializeFn<W>, FnF: SerializeFn<W>, FnG: SerializeFn<W>, FnH: SerializeFn<W>, FnI: SerializeFn<W>, FnJ: SerializeFn<W>, FnK: SerializeFn<W>, FnL: SerializeFn<W>, FnM: SerializeFn<W>, FnN: SerializeFn<W>, FnO: SerializeFn<W>, FnP: SerializeFn<W>> Tuple<W> for (FnA, FnB, FnC, FnD, FnE, FnF, FnG, FnH, FnI, FnJ, FnK, FnL, FnM, FnN, FnO, FnP) {
    open spec fn can_serialize(&self, w: WriteContext<W>) -> bool {
        &&& self.0.requires((w,))
        &&& forall|mid: WriteContext<W>| #[trigger] self.0.ensures((w,), Ok(mid)) ==> (self.1, self.2, self.3, self.4, self.5, self.6, self.7, self.8, self.9, self.10, self.11, self.12, self.13, self.14, self.15).can_serialize(mid)
    }

    open spec fn serialized(&self, w: WriteContext<W>, r: GenResult<W>) -> bool {
        exists|mid: GenResult<W>| #[trigger] self.0.ensures((w,), mid) && match mid {
            Ok(c) => (self.1, self.2, self.3, self.4, self.5, self.6, self.7, self.8, self.9, self.10, self.11, self.12, self.13, self.14, self.15).serialized(c, r),
            Err(e) => r == Err::<WriteContext<W>, _>(e),
        }
    }

    fn serialize(&self, w: WriteContext<W>) -> (r: GenResult<W>) {
        let w = match (self.0)(w) {
            Ok(w) => w,
            Err(e) => { return Err(e); },
        };
        let w = match (self.1)(w) {
            Ok(w) => w,
            Err(e) => { return Err(e); },
        };
        let w = match (self.2)(w) {
            Ok(w) => w,
            Err(e) => { return Err(e); },
        };
        let w = match (self.3)(w) {
            Ok(w) => w,
            Err(e) => { return Err(e); },
        };
        let w = match (self.4)(w) {
            Ok(w) => w,
            Err(e) => { return Err(e); },
        };
        let w = match (self.5)(w) {
            Ok(w) => w,
            Err(e) => { return Err(e); },
        };
        let w = match (self.6)(w) {
            Ok(w) => w,
            Err(e) => { return Err(e); },
        };
        let w = match (self.7)(w) {
            Ok(w) => w,
            Err(e) => { return Err(e); },
        };
        let w = match (self.8)(w) {
            Ok(w) => w,
            Err(e) => { return Err(e); },
        };
        let w = match (self.9)(w) {
            Ok(w) => w,
            Err(e) => { return Err(e); },
        };
        let w = match (self.10)(w) {
            Ok(w) => w,
            Err(e) => { return Err(e); },
        };
        let w = match (self.11)(w) {
            Ok(w) => w,
            Err(e) => { return Err(e); },
        };
        let w = match (self.12)(w) {
            Ok(w) => w,
            Err(e) => { return Err(e); },
        };
        let w = match (self.13)(w) {
            Ok(w) => w,
            Err(e) => { return Err(e); },
        };
        let w = match (self.14)(w) {
            Ok(w) => w,
            Err(e) => { return Err(e); },
        };
        (self.15)(w)
    }
}

impl<W: Write, FnA: SerializeFn<W>, FnB: SerializeFn<W>, FnC: SerializeFn<W>, FnD: SerializeFn<W>, FnE: SerializeFn<W>, FnF: SerializeFn<W>, FnG: SerializeFn<W>, FnH: SerializeFn<W>, FnI: SerializeFn<W>, FnJ: SerializeFn<W>, FnK: SerializeFn<W>, FnL: SerializeFn<W>, FnM: SerializeFn<W>, FnN: SerializeFn<W>, FnO: SerializeFn<W>, FnP: SerializeFn<W>, FnQ: SerializeFn<W>> Tuple<W> for (FnA, FnB, FnC, FnD, FnE, FnF, FnG, FnH, FnI, FnJ, FnK, FnL, FnM, FnN, FnO, FnP, FnQ) {
    open spec fn can_serialize(&self, w: WriteContext<W>) -> bool {
        &&& self.0.requires((w,))
        &&& forall|mid: WriteContext<W>| #[trigger] self.0.ensures((w,), Ok(mid)) ==> (self.1, self.2, self.3, self.4, self.5, self.6, self.7, self.8, self.9, self.10, self.11, self.12, self.13, self.14, self.15, self.16).can_serialize(mid)
    }

    open spec fn serialized(&self, w: WriteContext<W>, r: GenResult<W>) -> bool {
        exists|mid: GenResult<W>| #[trigger] self.0.ensures((w,), mid) && match mid {
            Ok(c) => (self.1, self.2, self.3, self.4, self.5, self.6, self.7, self.8, self.9, self.10, self.11, self.12, self.13, self.14, self.15, self.16).serialized(c, r),
            Err(e) => r == Err::<WriteContext<W>, _>(e),
        }
    }

    fn serialize(&self, w: WriteContext<W>) -> (r: GenResult<W>) {
        let w = match (self.0)(w) {
            Ok(w) => w,
            Err(e) => { return Err(e); },
        };
        let w = match (self.1)(w) {
            Ok(w) => w,
            Err(e) => { return Err(e); },
        };
        let w = match (self.2)(w) {
            Ok(w) => w,
            Err(e) => { return Err(e); },
        };
        let w = match (self.3)(w) {
            Ok(w) => w,
            Err(e) => { return Err(e); },
        };
        let w = match (self.4)(w) {
            Ok(w) => w,
            Err(e) => { return Err(e); },
        };
        let w = match (self.5)(w) {
            Ok(w) => w,
            Err(e) => { return Err(e); },
        };
        let w = match (self.6)(w) {
            Ok(w) => w,
            Err(e) => { return Err(e); },
        };
        let w = match (self.7)(w) {
            Ok(w) => w,
            Err(e) => { return Err(e); },
        };
        let w = match (self.8)(w) {
            Ok(w) => w,
            Err(e) => { return Err(e); },
        };
        let w = match (self.9)(w) {
            Ok(w) => w,
            Err(e) => { return Err(e); },
        };
        let w = match (self.10)(w) {
            Ok(w) => w,
            Err(e) => { return Err(e); },
        };
        let w = match (self.11)(w) {
            Ok(w) => w,
            Err(e) => { return Err(e); },
        };
        let w = match (self.12)(w) {
            Ok(w) => w,
            Err(e) => { return Err(e); },
        };
        let w = match (self.13)(w) {
            Ok(w) => w,
            Err(e) => { return Err(e); },
        };
        let w = match (self.14)(w) {
            Ok(w) => w,
            Err(e) => { return Err(e); },
        };
        let w = match (self.15)(w) {
            Ok(w) => w,
            Err(e) => { return Err(e); },
        };
        (self.16)(w)
    }
}

impl<W: Write, FnA: SerializeFn<W>, FnB: SerializeFn<W>, FnC: SerializeFn<W>, FnD: SerializeFn<W>, FnE: SerializeFn<W>, FnF: SerializeFn<W>, FnG: SerializeFn<W>, FnH: SerializeFn<W>, FnI: SerializeFn<W>, FnJ: SerializeFn<W>, FnK: SerializeFn<W>, FnL: SerializeFn<W>, FnM: SerializeFn<W>, FnN: SerializeFn<W>, FnO: SerializeFn<W>, FnP: SerializeFn<W>, FnQ: SerializeFn<W>, FnR: SerializeFn<W>> Tuple<W> for (FnA, FnB, FnC, FnD, FnE, FnF, FnG, FnH, FnI, FnJ, FnK, FnL, FnM, FnN, FnO, FnP, FnQ, FnR) {
    open spec fn can_serialize(&self, w: WriteContext<W>) -> bool {
        &&& self.0.requires((w,))
        &&& forall|mid: WriteContext<W>| #[trigger] self.0.ensures((w,), Ok(mid)) ==> (self.1, self.2, self.3, self.4, self.5, self.6, self.7, self.8, self.9, self.10, self.11, self.12, self.13, self.14, self.15, self.16, self.17).can_serialize(mid)
    }

    open spec fn serialized(&self, w: WriteContext<W>, r: GenResult<W>) -> bool {
        exists|mid: GenResult<W>| #[trigger] self.0.ensures((w,), mid) && match mid {
            Ok(c) => (self.1, self.2, self.3, self.4, self.5, self.6, self.7, self.8, self.9, self.10, self.11, self.12, self.13, self.14, self.15, self.16, self.17).serialized(c, r),
            Err(e) => r == Err::<WriteContext<W>, _>(e),
        }
    }

    fn serialize(&self, w: WriteContext<W>) -> (r: GenResult<W>) {
        let w = match (self.0)(w) {
            Ok(w) => w,
            Err(e) => { return Err(e); },
        };
        let w = match (self.1)(w) {
            Ok(w) => w,
            Err(e) => { return Err(e); },
        };
        let w = match (self.2)(w) {
            Ok(w) => w,
            Err(e) => { return Err(e); },
        };
        let w = match (self.3)(w) {
            Ok(w) => w,
            Err(e) => { return Err(e); },
        };
        let w = match (self.4)(w) {
            Ok(w) => w,
            Err(e) => { return Err(e); },
        };
        let w = match (self.5)(w) {
            Ok(w) => w,
            Err(e) => { return Err(e); },
        };
        let w = match (self.6)(w) {
            Ok(w) => w,
            Err(e) => { return Err(e); },
        };
        let w = match (self.7)(w) {
            Ok(w) => w,
            Err(e) => { return Err(e); },
        };
        let w = match (self.8)(w) {
            Ok(w) => w,
            Err(e) => { return Err(e); },
        };
        let w = match (self.9)(w) {
            Ok(w) => w,
            Err(e) => { return Err(e); },
        };
        let w = match (self.10)(w) {
            Ok(w) => w,
            Err(e) => { return Err(e); },
        };
        let w = match (self.11)(w) {
            Ok(w) => w,
            Err(e) => { return Err(e); },
        };
        let w = match (self.12)(w) {
            Ok(w) => w,
            Err(e) => { return Err(e); },
        };
        let w = match (self.13)(w) {
            Ok(w) => w,
            Err(e) => { return Err(e); },
        };
        let w = match (self.14)(w) {
            Ok(w) => w,
            Err(e) => { return Err(e); },
        };
        let w = match (self.15)(w) {
            Ok(w) => w,
            Err(e) => { return Err(e); },
        };
        let w = match (self.16)(w) {
            Ok(w) => w,
            Err(e) => { return Err(e); },
        };
        (self.17)(w)
    }
}

impl<W: Write, FnA: SerializeFn<W>, FnB: SerializeFn<W>, FnC: SerializeFn<W>, FnD: SerializeFn<W>, FnE: SerializeFn<W>, FnF: SerializeFn<W>, FnG: SerializeFn<W>, FnH: SerializeFn<W>, FnI: SerializeFn<W>, FnJ: SerializeFn<W>, FnK: SerializeFn<W>, FnL: SerializeFn<W>, FnM: SerializeFn<W>, FnN: SerializeFn<W>, FnO: SerializeFn<W>, FnP: SerializeFn<W>, FnQ: SerializeFn<W>, FnR: SerializeFn<W>, FnS: SerializeFn<W>> Tuple<W> for (FnA, FnB, FnC, FnD, FnE, FnF, FnG, FnH, FnI, FnJ, FnK, FnL, FnM, FnN, FnO, FnP, FnQ, FnR, FnS) {
    open spec fn can_serialize(&self, w: WriteContext<W>) -> bool {
        &&& self.0.requires((w,))
        &&& forall|mid: WriteContext<W>| #[trigger] self.0.ensures((w,), Ok(mid)) ==> (self.1, self.2, self.3, self.4, self.5, self.6, self.7, self.8, self.9, self.10, self.11, self.12, self.13, self.14, self.15, self.16, self.17, self.18).can_serialize(mid)
    }

    open spec fn serialized(&self, w: WriteContext<W>, r: GenResult<W>) -> bool {
        exists|mid: GenResult<W>| #[trigger] self.0.ensures((w,), mid) && match mid {
            Ok(c) => (self.1, self.2, self.3, self.4, self.5, self.6, self.7, self.8, self.9, self.10, self.11, self.12, self.13, self.14, self.15, self.16, self.17, self.18).serialized(c, r),
            Err(e) => r == Err::<WriteContext<W>, _>(e),
        }
    }

    fn serialize(&self, w: WriteContext<W>) -> (r: GenResult<W>) {
        let w = match (self.0)(w) {
            Ok(w) => w,
            Err(e) => { return Err(e); },
        };
        let w = match (self.1)(w) {
            Ok(w) => w,
            Err(e) => { return Err(e); },
        };
        let w = match (self.2)(w) {
            Ok(w) => w,
            Err(e) => { return Err(e); },
        };
        let w = match (self.3)(w) {
            Ok(w) => w,
            Err(e) => { return Err(e); },
        };
        let w = match (self.4)(w) {
            Ok(w) => w,
            Err(e) => { return Err(e); },
        };
        let w = match (self.5)(w) {
            Ok(w) => w,
            Err(e) => { return Err(e); },
        };
        let w = match (self.6)(w) {
            Ok(w) => w,
            Err(e) => { return Err(e); },
        };
        let w = match (self.7)(w) {
            Ok(w) => w,
            Err(e) => { return Err(e); },
        };
        let w = match (self.8)(w) {
            Ok(w) => w,
            Err(e) => { return Err(e); },
        };
        let w = match (self.9)(w) {
            Ok(w) => w,
            Err(e) => { return Err(e); },
        };
        let w = match (self.10)(w) {
            Ok(w) => w,
            Err(e) => { return Err(e); },
        };
        let w = match (self.11)(w) {
            Ok(w) => w,
            Err(e) => { return Err(e); },
        };
        let w = match (self.12)(w) {
            Ok(w) => w,
            Err(e) => { return Err(e); },
        };
        let w = match (self.13)(w) {
            Ok(w) => w,
            Err(e) => { return Err(e); },
        };
        let w = match (self.14)(w) {
            Ok(w) => w,
            Err(e) => { return Err(e); },
        };
        let w = match (self.15)(w) {
            Ok(w) => w,
            Err(e) => { return Err(e); },
        };
        let w = match (self.16)(w) {
            Ok(w) => w,
            Err(e) => { return Err(e); },
        };
        let w = match (self.17)(w) {
            Ok(w) => w,
            Err(e) => { return Err(e); },
        };
        (self.18)(w)
    }
}

impl<W: Write, FnA: SerializeFn<W>, FnB: SerializeFn<W>, FnC: SerializeFn<W>, FnD: SerializeFn<W>, FnE: SerializeFn<W>, FnF: SerializeFn<W>, FnG: SerializeFn<W>, FnH: SerializeFn<W>, FnI: SerializeFn<W>, FnJ: SerializeFn<W>, FnK: SerializeFn<W>, FnL: SerializeFn<W>, FnM: SerializeFn<W>, FnN: SerializeFn<W>, FnO: SerializeFn<W>, FnP: SerializeFn<W>, FnQ: SerializeFn<W>, FnR: SerializeFn<W>, FnS: SerializeFn<W>, FnT: SerializeFn<W>> Tuple<W> for (FnA, FnB, FnC, FnD, FnE, FnF, FnG, FnH, FnI, FnJ, FnK, FnL, FnM, FnN, FnO, FnP, FnQ, FnR, FnS, FnT) {
    open spec fn can_serialize(&self, w: WriteContext<W>) -> bool {
        &&& self.0.requires((w,))
        &&& forall|mid: WriteContext<W>| #[trigger] self.0.ensures((w,), Ok(mid)) ==> (self.1, self.2, self.3, self.4, self.5, self.6, self.7, self.8, self.9, self.10, self.11, self.12, self.13, self.14, self.15, self.16, self.17, self.18, self.19).can_serialize(mid)
    }

    open spec fn serialized(&self, w: WriteContext<W>, r: GenResult<W>) -> bool {
        exists|mid: GenResult<W>| #[trigger] self.0.ensures((w,), mid) && match mid {
            Ok(c) => (self.1, self.2, self.3, self.4, self.5, self.6, self.7, self.8, self.9, self.10, self.11, self.12, self.13, self.14, self.15, self.16, self.17, self.18, self.19).serialized(c, r),
            Err(e) => r == Err::<WriteContext<W>, _>(e),
        }
    }

    fn serialize(&self, w: WriteContext<W>) -> (r: GenResult<W>) {
        let w = match (self.0)(w) {
            Ok(w) => w,
            Err(e) => { return Err(e); },
        };
        let w = match (self.1)(w) {
            Ok(w) => w,
            Err(e) => { return Err(e); },
        };
        let w = match (self.2)(w) {
            Ok(w) => w,
            Err(e) => { return Err(e); },
        };
        let w = match (self.3)(w) {
            Ok(w) => w,
            Err(e) => { return Err(e); },
        };
        let w = match (self.4)(w) {
            Ok(w) => w,
            Err(e) => { return Err(e); },
        };
        let w = match (self.5)(w) {
            Ok(w) => w,
            Err(e) => { return Err(e); },
        };
        let w = match (self.6)(w) {
            Ok(w) => w,
            Err(e) => { return Err(e); },
        };
        let w = match (self.7)(w) {
            Ok(w) => w,
            Err(e) => { return Err(e); },
        };
        let w = match (self.8)(w) {
            Ok(w) => w,
            Err(e) => { return Err(e); },
        };
        let w = match (self.9)(w) {
            Ok(w) => w,
            Err(e) => { return Err(e); },
        };
        let w = match (self.10)(w) {
            Ok(w) => w,
            Err(e) => { return Err(e); },
        };
        let w = match (self.11)(w) {
            Ok(w) => w,
            Err(e) => { return Err(e); },
        };
        let w = match (self.12)(w) {
            Ok(w) => w,
            Err(e) => { return Err(e); },
        };
        let w = match (self.13)(w) {
            Ok(w) => w,
            Err(e) => { return Err(e); },
        };
        let w = match (self.14)(w) {
            Ok(w) => w,
            Err(e) => { return Err(e); },
        };
        let w = match (self.15)(w) {
            Ok(w) => w,
            Err(e) => { return Err(e); },
        };
        let w = match (self.16)(w) {
            Ok(w) => w,
            Err(e) => { return Err(e); },
        };
        let w = match (self.17)(w) {
            Ok(w) => w,
            Err(e) => { return Err(e); },
        };
        let w = match (self.18)(w) {
            Ok(w) => w,
            Err(e) => { return Err(e); },
        };
        (self.19)(w)
    }
}

impl<W: Write, FnA: SerializeFn<W>, FnB: SerializeFn<W>, FnC: SerializeFn<W>, FnD: SerializeFn<W>, FnE: SerializeFn<W>, FnF: SerializeFn<W>, FnG: SerializeFn<W>, FnH: SerializeFn<W>, FnI: SerializeFn<W>, FnJ: SerializeFn<W>, FnK: SerializeFn<W>, FnL: SerializeFn<W>, FnM: SerializeFn<W>, FnN: SerializeFn<W>, FnO: SerializeFn<W>, FnP: SerializeFn<W>, FnQ: SerializeFn<W>, FnR: SerializeFn<W>, FnS: SerializeFn<W>, FnT: SerializeFn<W>, FnU: SerializeFn<W>> Tuple<W> for (FnA, FnB, FnC, FnD, FnE, FnF, FnG, FnH, FnI, FnJ, FnK, FnL, FnM, FnN, FnO, FnP, FnQ, FnR, FnS, FnT, FnU) {
    open spec fn can_serialize(&self, w: WriteContext<W>) -> bool {
        &&& self.0.requires((w,))
        &&& forall|mid: WriteContext<W>| #[trigger] self.0.ensures((w,), Ok(mid)) ==> (self.1, self.2, self.3, self.4, self.5, self.6, self.7, self.8, self.9, self.10, self.11, self.12, self.13, self.14, self.15, self.16, self.17, self.18, self.19, self.20).can_serialize(mid)
    }

    open spec fn serialized(&self, w: WriteContext<W>, r: GenResult<W>) -> bool {
        exists|mid: GenResult<W>| #[trigger] self.0.ensures((w,), mid) && match mid {
            Ok(c) => (self.1, self.2, self.3, self.4, self.5, self.6, self.7, self.8, self.9, self.10, self.11, self.12, self.13, self.14, self.15, self.16, self.17, self.18, self.19, self.20).serialized(c, r),
            Err(e) => r == Err::<WriteContext<W>, _>(e),
        }
    }

    fn serialize(&self, w: WriteContext<W>) -> (r: GenResult<W>) {
        let w = match (self.0)(w) {
            Ok(w) => w,
            Err(e) => { return Err(e); },
        };
        let w = match (self.1)(w) {
            Ok(w) => w,
            Err(e) => { return Err(e); },
        };
        let w = match (self.2)(w) {
            Ok(w) => w,
            Err(e) => { return Err(e); },
        };
        let w = match (self.3)(w) {
            Ok(w) => w,
            Err(e) => { return Err(e); },
        };
        let w = match (self.4)(w) {
            Ok(w) => w,
            Err(e) => { return Err(e); },
        };
        let w = match (self.5)(w) {
            Ok(w) => w,
            Err(e) => { return Err(e); },
        };
        let w = match (self.6)(w) {
            Ok(w) => w,
            Err(e) => { return Err(e); },
        };
        let w = match (self.7)(w) {
            Ok(w) => w,
            Err(e) => { return Err(e); },
        };
        let w = match (self.8)(w) {
            Ok(w) => w,
            Err(e) => { return Err(e); },
        };
        let w = match (self.9)(w) {
            Ok(w) => w,
            Err(e) => { return Err(e); },
        };
        let w = match (self.10)(w) {
            Ok(w) => w,
            Err(e) => { return Err(e); },
        };
        let w = match (self.11)(w) {
            Ok(w) => w,
            Err(e) => { return Err(e); },
        };
        let w = match (self.12)(w) {
            Ok(w) => w,
            Err(e) => { return Err(e); },
        };
        let w = match (self.13)(w) {
            Ok(w) => w,
            Err(e) => { return Err(e); },
        };
        let w = match (self.14)(w) {
            Ok(w) => w,
            Err(e) => { return Err(e); },
        };
        let w = match (self.15)(w) {
            Ok(w) => w,
            Err(e) => { return Err(e); },
        };
        let w = match (self.16)(w) {
            Ok(w) => w,
            Err(e) => { return Err(e); },
        };
        let w = match (self.17)(w) {
            Ok(w) => w,
            Err(e) => { return Err(e); },
        };
        let w = match (self.18)(w) {
            Ok(w) => w,
            Err(e) => { return Err(e); },
        };
        let w = match (self.19)(w) {
            Ok(w) => w,
            Err(e) => { return Err(e); },
        };
        (self.20)(w)
    }
}

/// Applies multiple serializers in sequence.
///
/// Tuples of up to 21 elements are supported.
pub fn tuple<W: Write, List: Tuple<W>>(l: List) -> (h: impl SerializeFn<W>)
    ensures
        forall|ctx: WriteContext<W>| l.can_serialize(ctx) ==> #[trigger] h.requires((ctx,)),
        forall|ctx: WriteContext<W>, r: GenResult<W>| #[trigger] h.ensures((ctx,), r) ==> l.serialized(ctx, r),
{
    move |w: WriteContext<W>| -> (r: GenResult<W>)
        requires
            l.can_serialize(w),
        ensures
            l.serialized(w, r),
    {
        l.serialize(w)
    }
}

} // verus!
