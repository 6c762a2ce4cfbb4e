//! Serializers with state that give up what they have written: a slice
//! serializer that keeps only the bytes it has still to write, sequences of
//! three and four serializers, and serializers for two kinds of text.
use vstd::prelude::*;
use vstd::string::StringSliceAdditionalSpecFns;
use crate::combinators::{continued, filled, left, pending_of, shifted, slot_outcome, told, Serialized, Serializer, Then};
use crate::internal::GenError;
use crate::io_compat::copy_at;

verus! {

/// The serializer that writes nothing.
#[derive(Debug)]
pub struct EmptySerializer;

impl Serializer for EmptySerializer {
    open spec fn wf(&self) -> bool {
        true
    }

    open spec fn pending(&self) -> Seq<u8> {
        Seq::empty()
    }

    open spec fn rewound(&self) -> Seq<u8> {
        Seq::empty()
    }

    open spec fn outcome(&self, room: nat) -> Result<(nat, Serialized), GenError> {
        Ok((0nat, Serialized::Done))
    }

    open spec fn rewound_outcome(&self, room: nat) -> Result<(nat, Serialized), GenError> {
        Ok((0nat, Serialized::Done))
    }

    fn serialize(&mut self, _output: &mut [u8]) -> (r: Result<(usize, Serialized), GenError>)
        ensures
            r == Ok::<(usize, Serialized), GenError>((0, Serialized::Done)),
            final(_output)@ == old(_output)@,
    {
        assert(_output@.take(0) =~= Seq::<u8>::empty().take(0));
        Ok((0, Serialized::Done))
    }
}

pub fn empty() -> (e: EmptySerializer) {
    EmptySerializer
}

/// Writes the bytes of a slice, and keeps the part it has still to write.
#[derive(Debug)]
pub struct SliceSerializer<'a> {
    pub value: &'a [u8],
}

impl<'a> SliceSerializer<'a> {
    pub fn new(s: &'a [u8]) -> (r: SliceSerializer<'a>)
        ensures
            r.value@ == s@,
    {
        SliceSerializer { value: s }
    }

    /// The serializer that writes what `self` writes and then what `next`
    /// writes.
    pub fn then<T: Serializer>(self, next: T) -> (t: Then<Self, T>)
        ensures
            t.a == Some(self),
            t.b == next,
    {
        Then::new(self, next)
    }
}

impl<'a> Serializer for SliceSerializer<'a> {
    open spec fn wf(&self) -> bool {
        true
    }

    open spec fn pending(&self) -> Seq<u8> {
        self.value@
    }

    open spec fn rewound(&self) -> Seq<u8> {
        Seq::empty()
    }

    open spec fn outcome(&self, room: nat) -> Result<(nat, Serialized), GenError> {
        filled(self.value@.len(), room)
    }

    open spec fn rewound_outcome(&self, room: nat) -> Result<(nat, Serialized), GenError> {
        Ok((0nat, Serialized::Done))
    }

    fn serialize(&mut self, output: &mut [u8]) -> (r: Result<(usize, Serialized), GenError>)
        ensures
            old(self).value@.len() <= old(output)@.len() ==> r == Ok::<(usize, Serialized), GenError>(
                (old(self).value@.len() as usize, Serialized::Done),
            ),
            old(self).value@.len() > old(output)@.len() ==> r == Ok::<(usize, Serialized), GenError>(
                (old(output)@.len() as usize, Serialized::Continue),
            ),
    {
        let output_len = output.len();
        let value = self.value;
        let self_len = value.len();
        if self_len <= output_len {
            copy_at(output, 0, value);
            proof {
                let n = self_len as int;
                assert(output@.take(n) =~= value@.take(n));
                assert(output@.skip(n) =~= old(output)@.skip(n));
            }
            Ok((self_len, Serialized::Done))
        } else {
            let (now, rest) = value.split_at(output_len);
            copy_at(output, 0, now);
            self.value = rest;
            proof {
                let n = output_len as int;
                assert(output@.take(n) =~= value@.take(n));
                assert(output@.skip(n) =~= old(output)@.skip(n));
                assert(rest@ =~= value@.skip(n));
            }
            Ok((output_len, Serialized::Continue))
        }
    }
}

/// The strings, which are written as their bytes.
pub trait StrSr {
    fn raw<'a>(&'a self) -> (r: SliceSerializer<'a>)
        ensures
            r.value@ == self.text(),
    ;

    /// The bytes of the string.
    spec fn text(&self) -> Seq<u8>;
}

impl StrSr for str {
    open spec fn text(&self) -> Seq<u8> {
        self.spec_bytes()
    }

    fn raw<'a>(&'a self) -> (r: SliceSerializer<'a>) {
        SliceSerializer::new(self.as_bytes())
    }
}

impl StrSr for String {
    open spec fn text(&self) -> Seq<u8> {
        vstd::utf8::encode_utf8(self@)
    }

    fn raw<'a>(&'a self) -> (r: SliceSerializer<'a>) {
        SliceSerializer::new(self.as_str().as_bytes())
    }
}

/// Writes a string between double quotes.
pub fn gen_str<'a>(s: &'a str) -> (r: Then<Then<SliceSerializer<'a>, SliceSerializer<'a>>, SliceSerializer<'a>>)
    ensures
        r.wf(),
        r.pending() == "\"".spec_bytes() + s.spec_bytes() + "\"".spec_bytes(),
{
    let r = Then::new(Then::new("\"".raw(), s.raw()), "\"".raw());
    assert(r.pending() =~= "\"".spec_bytes() + s.spec_bytes() + "\"".spec_bytes());
    r
}

/// Writes `true` or `false`.
pub fn gen_bool(b: &bool) -> (r: SliceSerializer<'static>)
    ensures
        r.pending() == if *b {
            "true".spec_bytes()
        } else {
            "false".spec_bytes()
        },
{
    if *b {
        "true".raw()
    } else {
        "false".raw()
    }
}

/// Runs the serializer of `slot`, where there is one, on the part of `output`
/// from `index` on. A serializer that is done is taken out of the slot.
fn run_slot<A: Serializer>(slot: &mut Option<A>, output: &mut [u8], index: usize) -> (r: Result<
    (usize, Serialized),
    GenError,
>)
    requires
        *old(slot) matches Some(a) ==> a.wf(),
        index <= old(output)@.len(),
    ensures
        told(r) == slot_outcome(*old(slot), (old(output)@.len() - index) as nat),
        *final(slot) matches Some(a) ==> a.wf(),
        final(output)@.len() == old(output)@.len(),
        r matches Ok((i, state)) ==> {
            &&& index + i <= old(output)@.len()
            &&& i <= pending_of(*old(slot)).len()
            &&& final(output)@.take(index as int) == old(output)@.take(index as int)
            &&& final(output)@.subrange(index as int, index + i) == pending_of(*old(slot)).take(i as int)
            &&& final(output)@.skip(index + i) == old(output)@.skip(index + i)
            &&& state == Serialized::Done ==> i == pending_of(*old(slot)).len() && *final(slot) is None
            &&& state == Serialized::Continue ==> pending_of(*final(slot)) == pending_of(*old(slot)).skip(i as int)
        },
{
    let total = output.len();
    match slot.take() {
        None => {
            proof {
                assert(output@.subrange(index as int, index as int) =~= Seq::<u8>::empty().take(0));
            }
            Ok((0, Serialized::Done))
        },
        Some(mut ser) => {
            let ghost p = ser.pending();
            let (head, sl) = output.split_at_mut(index);
            let res = ser.serialize(sl);
            match res {
                Err(e) => Err(e),
                Ok((i, state)) => {
                    proof {
                        let out = head@ + sl@;
                        let n = index + i;
                        assert(out.take(index as int) =~= head@);
                        assert(out.subrange(index as int, n) =~= sl@.take(i as int));
                        assert(out.skip(n) =~= sl@.skip(i as int));
                        assert(old(output)@.skip(n) =~= old(output)@.skip(index as int).skip(i as int));
                        assert(old(output)@.take(index as int) =~= head@);
                    }
                    match state {
                        Serialized::Continue => {
                            *slot = Some(ser);
                        },
                        Serialized::Done => {},
                    }
                    Ok((i, state))
                },
            }
        },
    }
}

/// The bookkeeping of one step of a sequence: `done` has been written to the
/// front of the buffer, and the step has written the first `n` bytes of `cur`
/// behind it.
proof fn lemma_step(
    done: Seq<u8>,
    cur: Seq<u8>,
    rest: Seq<u8>,
    start: Seq<u8>,
    before: Seq<u8>,
    after: Seq<u8>,
    n: int,
)
    requires
        start.len() == before.len(),
        before.skip(done.len() as int) == start.skip(done.len() as int),
        after.skip(done.len() + n) == before.skip(done.len() + n),
        0 <= n <= cur.len(),
        done.len() + n <= after.len(),
        before.len() == after.len(),
        before.take(done.len() as int) == done,
        after.take(done.len() as int) == before.take(done.len() as int),
        after.subrange(done.len() as int, done.len() + n) == cur.take(n),
    ensures
        after.take(done.len() + n) == (done + cur + rest).take(done.len() + n),
        after.take(done.len() + n) == done + cur.take(n),
        (done + cur + rest).skip(done.len() + n) == cur.skip(n) + rest,
        after.skip(done.len() + n) == start.skip(done.len() + n),
{
    assert(before.skip(done.len() + n) =~= before.skip(done.len() as int).skip(n));
    assert(start.skip(done.len() + n) =~= start.skip(done.len() as int).skip(n));
    let k = done.len() + n;
    assert(after.take(k) =~= after.take(done.len() as int) + after.subrange(done.len() as int, k));
    assert((done + cur + rest).take(k) =~= done + cur.take(n));
    assert((done + cur + rest).skip(k) =~= cur.skip(n) + rest);
}

/// Writes what three serializers write, one after another. Each is let go
/// once it is done.
pub struct Then3<A, B, C> {
    pub serializers: (Option<A>, Option<B>, Option<C>),
}

impl<A: Serializer, B: Serializer, C: Serializer> Serializer for Then3<A, B, C> {
    open spec fn wf(&self) -> bool {
        &&& self.serializers.0 matches Some(x) ==> x.wf()
        &&& self.serializers.1 matches Some(x) ==> x.wf()
        &&& self.serializers.2 matches Some(x) ==> x.wf()
    }

    open spec fn pending(&self) -> Seq<u8> {
        pending_of(self.serializers.0) + pending_of(self.serializers.1) + pending_of(self.serializers.2)
    }

    open spec fn rewound(&self) -> Seq<u8> {
        Seq::empty()
    }

    open spec fn outcome(&self, room: nat) -> Result<(nat, Serialized), GenError> {
        {
            let o0 = slot_outcome(self.serializers.0, room);
            let r1 = left(o0, room);
            let o1 = slot_outcome(self.serializers.1, r1);
            let r2 = left(o1, r1);
            continued(o0, continued(o1, slot_outcome(self.serializers.2, r2)))
        }
    }

    open spec fn rewound_outcome(&self, room: nat) -> Result<(nat, Serialized), GenError> {
        Ok((0nat, Serialized::Done))
    }

    #[verifier::rlimit(60)]
    fn serialize(&mut self, output: &mut [u8]) -> (r: Result<(usize, Serialized), GenError>) {
        let ghost p0 = pending_of(self.serializers.0);
        let ghost p1 = pending_of(self.serializers.1);
        let ghost p2 = pending_of(self.serializers.2);
        let total = output.len();
        let mut i: usize = 0;
        assert(output@.take(0) =~= Seq::<u8>::empty());
        assert(output@.skip(0) =~= old(output)@.skip(0));
        let ghost before = output@;
        match run_slot(&mut self.serializers.0, output, i) {
            Err(e) => {
                return Err(e);
            },
            Ok((n, state)) => {
                proof {
                    let done = Seq::<u8>::empty();
                    let rest = p1 + p2;
                    assert(before.take(i as int) =~= done);
                    lemma_step(done, p0, rest, old(output)@, before, output@, n as int);
                    assert(done + p0 + rest =~= p0 + p1 + p2);
                }
                match state {
                    Serialized::Continue => {
                        assert(self.pending() =~= (p0 + p1 + p2).skip(i + n));
                        return Ok((i + n, Serialized::Continue));
                    },
                    Serialized::Done => {
                        assert(p0.take(n as int) =~= p0);
                        i += n;
                    },
                }
            },
        }
        assert(output@.take(i as int) =~= p0);
        assert(output@.skip(i as int) =~= old(output)@.skip(i as int));
        let ghost before = output@;
        match run_slot(&mut self.serializers.1, output, i) {
            Err(e) => {
                return Err(e);
            },
            Ok((n, state)) => {
                proof {
                    let done = p0;
                    let rest = p2;
                    assert(before.take(i as int) =~= done);
                    lemma_step(done, p1, rest, old(output)@, before, output@, n as int);
                    assert(done + p1 + rest =~= p0 + p1 + p2);
                }
                match state {
                    Serialized::Continue => {
                        assert(self.pending() =~= (p0 + p1 + p2).skip(i + n));
                        return Ok((i + n, Serialized::Continue));
                    },
                    Serialized::Done => {
                        assert(p1.take(n as int) =~= p1);
                        i += n;
                    },
                }
            },
        }
        assert(output@.take(i as int) =~= p0 + p1);
        assert(output@.skip(i as int) =~= old(output)@.skip(i as int));
        let ghost before = output@;
        match run_slot(&mut self.serializers.2, output, i) {
            Err(e) => {
                return Err(e);
            },
            Ok((n, state)) => {
                proof {
                    let done = p0 + p1;
                    let rest = Seq::<u8>::empty();
                    assert(before.take(i as int) =~= done);
                    lemma_step(done, p2, rest, old(output)@, before, output@, n as int);
                    assert(done + p2 + rest =~= p0 + p1 + p2);
                }
                match state {
                    Serialized::Continue => {
                        assert(self.pending() =~= (p0 + p1 + p2).skip(i + n));
                        return Ok((i + n, Serialized::Continue));
                    },
                    Serialized::Done => {
                        assert(p2.take(n as int) =~= p2);
                        i += n;
                    },
                }
            },
        }
        assert(output@.take(i as int) =~= p0 + p1 + p2);
        assert(output@.skip(i as int) =~= old(output)@.skip(i as int));
        assert((p0 + p1 + p2).take(i as int) =~= p0 + p1 + p2);
        Ok((i, Serialized::Done))
    }
}

/// Writes what four serializers write, one after another. Each is let go
/// once it is done.
pub struct Then4<A, B, C, D> {
    pub serializers: (Option<A>, Option<B>, Option<C>, Option<D>),
}

impl<A: Serializer, B: Serializer, C: Serializer, D: Serializer> Serializer for Then4<A, B, C, D> {
    open spec fn wf(&self) -> bool {
        &&& self.serializers.0 matches Some(x) ==> x.wf()
        &&& self.serializers.1 matches Some(x) ==> x.wf()
        &&& self.serializers.2 matches Some(x) ==> x.wf()
        &&& self.serializers.3 matches Some(x) ==> x.wf()
    }

    open spec fn pending(&self) -> Seq<u8> {
        pending_of(self.serializers.0) + pending_of(self.serializers.1) + pending_of(self.serializers.2) + pending_of(self.serializers.3)
    }

    open spec fn rewound(&self) -> Seq<u8> {
        Seq::empty()
    }

    open spec fn outcome(&self, room: nat) -> Result<(nat, Serialized), GenError> {
        {
            let o0 = slot_outcome(self.serializers.0, room);
            let r1 = left(o0, room);
            let o1 = slot_outcome(self.serializers.1, r1);
            let r2 = left(o1, r1);
            let o2 = slot_outcome(self.serializers.2, r2);
            let r3 = left(o2, r2);
            continued(o0, continued(o1, continued(o2, slot_outcome(self.serializers.3, r3))))
        }
    }

    open spec fn rewound_outcome(&self, room: nat) -> Result<(nat, Serialized), GenError> {
        Ok((0nat, Serialized::Done))
    }

    #[verifier::rlimit(60)]
    fn serialize(&mut self, output: &mut [u8]) -> (r: Result<(usize, Serialized), GenError>) {
        let ghost p0 = pending_of(self.serializers.0);
        let ghost p1 = pending_of(self.serializers.1);
        let ghost p2 = pending_of(self.serializers.2);
        let ghost p3 = pending_of(self.serializers.3);
        let total = output.len();
        let mut i: usize = 0;
        assert(output@.take(0) =~= Seq::<u8>::empty());
        assert(output@.skip(0) =~= old(output)@.skip(0));
        let ghost before = output@;
        match run_slot(&mut self.serializers.0, output, i) {
            Err(e) => {
                return Err(e);
            },
            Ok((n, state)) => {
                proof {
                    let done = Seq::<u8>::empty();
                    let rest = p1 + p2 + p3;
                    assert(before.take(i as int) =~= done);
                    lemma_step(done, p0, rest, old(output)@, before, output@, n as int);
                    assert(done + p0 + rest =~= p0 + p1 + p2 + p3);
                }
                match state {
                    Serialized::Continue => {
                        assert(self.pending() =~= (p0 + p1 + p2 + p3).skip(i + n));
                        return Ok((i + n, Serialized::Continue));
                    },
                    Serialized::Done => {
                        assert(p0.take(n as int) =~= p0);
                        i += n;
                    },
                }
            },
        }
        assert(output@.take(i as int) =~= p0);
        assert(output@.skip(i as int) =~= old(output)@.skip(i as int));
        let ghost before = output@;
        match run_slot(&mut self.serializers.1, output, i) {
            Err(e) => {
                return Err(e);
            },
            Ok((n, state)) => {
                proof {
                    let done = p0;
                    let rest = p2 + p3;
                    assert(before.take(i as int) =~= done);
                    lemma_step(done, p1, rest, old(output)@, before, output@, n as int);
                    assert(done + p1 + rest =~= p0 + p1 + p2 + p3);
                }
                match state {
                    Serialized::Continue => {
                        assert(self.pending() =~= (p0 + p1 + p2 + p3).skip(i + n));
                        return Ok((i + n, Serialized::Continue));
                    },
                    Serialized::Done => {
                        assert(p1.take(n as int) =~= p1);
                        i += n;
                    },
                }
            },
        }
        assert(output@.take(i as int) =~= p0 + p1);
        assert(output@.skip(i as int) =~= old(output)@.skip(i as int));
        let ghost before = output@;
        match run_slot(&mut self.serializers.2, output, i) {
            Err(e) => {
                return Err(e);
            },
            Ok((n, state)) => {
                proof {
                    let done = p0 + p1;
                    let rest = p3;
                    assert(before.take(i as int) =~= done);
                    lemma_step(done, p2, rest, old(output)@, before, output@, n as int);
                    assert(done + p2 + rest =~= p0 + p1 + p2 + p3);
                }
                match state {
                    Serialized::Continue => {
                        assert(self.pending() =~= (p0 + p1 + p2 + p3).skip(i + n));
                        return Ok((i + n, Serialized::Continue));
                    },
                    Serialized::Done => {
                        assert(p2.take(n as int) =~= p2);
                        i += n;
                    },
                }
            },
        }
        assert(output@.take(i as int) =~= p0 + p1 + p2);
        assert(output@.skip(i as int) =~= old(output)@.skip(i as int));
        let ghost before = output@;
        match run_slot(&mut self.serializers.3, output, i) {
            Err(e) => {
                return Err(e);
            },
            Ok((n, state)) => {
                proof {
                    let done = p0 + p1 + p2;
                    let rest = Seq::<u8>::empty();
                    assert(before.take(i as int) =~= done);
                    lemma_step(done, p3, rest, old(output)@, before, output@, n as int);
                    assert(done + p3 + rest =~= p0 + p1 + p2 + p3);
                }
                match state {
                    Serialized::Continue => {
                        assert(self.pending() =~= (p0 + p1 + p2 + p3).skip(i + n));
                        return Ok((i + n, Serialized::Continue));
                    },
                    Serialized::Done => {
                        assert(p3.take(n as int) =~= p3);
                        i += n;
                    },
                }
            },
        }
        assert(output@.take(i as int) =~= p0 + p1 + p2 + p3);
        assert(output@.skip(i as int) =~= old(output)@.skip(i as int));
        assert((p0 + p1 + p2 + p3).take(i as int) =~= p0 + p1 + p2 + p3);
        Ok((i, Serialized::Done))
    }
}

} // verus!
