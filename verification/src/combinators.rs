//! Serializers that keep their own state and can be resumed: each call of
//! `serialize` writes as much as fits into the buffer it is given and says
//! whether the serializer is done.
use vstd::prelude::*;
use vstd::string::StringSliceAdditionalSpecFns;
use crate::bytes::{be1, be2, be4, be8, be_bytes, le1, le2, le4, le8, le_bytes, lemma_bytes_len};
use crate::combinator::{upper_hex, upper_hex_text};
use crate::internal::GenError;
use crate::io_compat::copy_at;

verus! {

/// Whether a serializer has written all of its bytes.
#[derive(Clone, Copy, Debug, PartialEq)]
pub enum Serialized {
    Done,
    Continue,
}

/// A serializer with state.
///
/// `pending` is what the serializer has still to write. A call of `serialize`
/// writes a prefix of it to the front of `output`, and nothing else; it
/// returns how many bytes that was. With `Done` the prefix was all of
/// `pending`, and the state of the serializer is then its own affair. With
/// `Continue` the serializer goes on behind the prefix the next time.
pub trait Serializer {
    /// The state of the serializer is in order.
    spec fn wf(&self) -> bool;

    /// The bytes that are still to be written.
    spec fn pending(&self) -> Seq<u8>;

    /// The bytes that are to be written after a reset, for a serializer that
    /// can be reset. No call of `serialize` changes them.
    spec fn rewound(&self) -> Seq<u8>;

    /// What `serialize` returns when it is given a buffer of `room` bytes.
    spec fn outcome(&self, room: nat) -> Result<(nat, Serialized), GenError>;

    /// What `serialize` returns on a buffer of `room` bytes after a reset, for
    /// a serializer that can be reset. No call of `serialize` changes it.
    spec fn rewound_outcome(&self, room: nat) -> Result<(nat, Serialized), GenError>;

    fn serialize(&mut self, output: &mut [u8]) -> (r: Result<(usize, Serialized), GenError>)
        requires
            old(self).wf(),
        ensures
            told(r) == old(self).outcome(old(output)@.len()),
            final(self).wf(),
            final(self).rewound() == old(self).rewound(),
            forall|room: nat| #[trigger] final(self).rewound_outcome(room) == old(self).rewound_outcome(room),
            final(output)@.len() == old(output)@.len(),
            r matches Ok((n, state)) ==> {
                &&& n <= old(output)@.len()
                &&& n <= old(self).pending().len()
                &&& final(output)@.take(n as int) == old(self).pending().take(n as int)
                &&& final(output)@.skip(n as int) == old(output)@.skip(n as int)
                &&& state == Serialized::Done ==> n == old(self).pending().len()
                &&& state == Serialized::Continue ==> final(self).pending() == old(self).pending().skip(n as int)
            },
    ;
}

/// A serializer that can be put back to its start.
pub trait Reset: Serializer {
    fn reset(&mut self) -> (b: bool)
        requires
            old(self).wf(),
        ensures
            final(self).wf(),
            final(self).rewound() == old(self).rewound(),
            final(self).pending() == old(self).rewound(),
            forall|room: nat| #[trigger] final(self).rewound_outcome(room) == old(self).rewound_outcome(room),
            forall|room: nat| #[trigger] final(self).outcome(room) == old(self).rewound_outcome(room),
    ;
}

/// The result `r` of `serialize` with its count as a number without bound.
pub open spec fn told(r: Result<(usize, Serialized), GenError>) -> Result<(nat, Serialized), GenError> {
    match r {
        Ok((n, state)) => Ok((n as nat, state)),
        Err(e) => Err(e),
    }
}

/// What a serializer returns that writes all of its `len` bytes where the
/// buffer has room for them, and fills the buffer where it has not.
pub open spec fn filled(len: nat, room: nat) -> Result<(nat, Serialized), GenError> {
    if len <= room {
        Ok((len, Serialized::Done))
    } else {
        Ok((room, Serialized::Continue))
    }
}

/// What a serializer returns that writes all of its `len` bytes where the
/// buffer has room for them, and nothing where it has not.
pub open spec fn whole(len: nat, room: nat) -> Result<(nat, Serialized), GenError> {
    if room < len {
        Ok((0nat, Serialized::Continue))
    } else {
        Ok((len, Serialized::Done))
    }
}

/// The result `r` of a serializer that ran behind `by` bytes that were
/// written before it: its count with `by` added.
pub open spec fn shifted(by: nat, r: Result<(nat, Serialized), GenError>) -> Result<
    (nat, Serialized),
    GenError,
> {
    match r {
        Ok((n, state)) => Ok((n + by, state)),
        Err(e) => Err(e),
    }
}

/// The room that is left of `room` bytes behind what a serializer with the
/// result `first` has written.
pub open spec fn left(first: Result<(nat, Serialized), GenError>, room: nat) -> nat {
    match first {
        Ok((n, _)) => (room - n) as nat,
        Err(_) => room,
    }
}

/// The result of two serializers in sequence: that of the first one where it
/// is not done or has failed; else `next`, the result of the second one on
/// the room that was left, with the count of the first one added.
pub open spec fn continued(
    first: Result<(nat, Serialized), GenError>,
    next: Result<(nat, Serialized), GenError>,
) -> Result<(nat, Serialized), GenError> {
    match first {
        Ok((n, Serialized::Done)) => shifted(n, next),
        _ => first,
    }
}

/// What an optional serializer returns on a buffer of `room` bytes: where
/// there is none, nothing is written and all is done.
pub open spec fn slot_outcome<A: Serializer>(a: Option<A>, room: nat) -> Result<(nat, Serialized), GenError> {
    match a {
        Some(a) => a.outcome(room),
        None => Ok((0nat, Serialized::Done)),
    }
}

/// The serializer that writes nothing.
#[derive(Debug)]
pub struct Empty;

impl Serializer for Empty {
    open spec fn wf(&self) -> bool {
        true
    }

    open spec fn pending(&self) -> Seq<u8> {
        Seq::empty()
    }

    open spec fn rewound(&self) -> Seq<u8> {
        Seq::empty()
    }

    open spec fn outcome(&self, room: nat) -> Result<(nat, Serialized), GenError> {
        Ok((0nat, Serialized::Done))
    }

    open spec fn rewound_outcome(&self, room: nat) -> Result<(nat, Serialized), GenError> {
        Ok((0nat, Serialized::Done))
    }

    fn serialize(&mut self, _output: &mut [u8]) -> (r: Result<(usize, Serialized), GenError>)
        ensures
            r == Ok::<(usize, Serialized), GenError>((0, Serialized::Done)),
            final(_output)@ == old(_output)@,
    {
        assert(_output@.take(0) =~= Seq::<u8>::empty().take(0));
        Ok((0, Serialized::Done))
    }
}

impl Reset for Empty {
    fn reset(&mut self) -> (b: bool)
        ensures
            b,
    {
        true
    }
}

impl Empty {
    /// The serializer that writes what `self` writes and then what `next`
    /// writes.
    pub fn then<T: Serializer>(self, next: T) -> (t: Then<Self, T>)
        ensures
            t.a == Some(self),
            t.b == next,
    {
        Then::new(self, next)
    }
}

pub fn empty() -> (e: Empty)
    ensures
        e.wf(),
{
    Empty
}

/// Writes the bytes of a slice, from `index` on.
#[derive(Debug)]
pub struct Slice<'a> {
    pub value: &'a [u8],
    pub index: usize,
}

impl<'a> Slice<'a> {
    pub fn new(s: &'a [u8]) -> (r: Slice<'a>)
        ensures
            r.wf(),
            r.value@ == s@,
            r.index == 0,
            r.pending() == s@,
            r.rewound() == s@,
    {
        let r = Slice { value: s, index: 0 };
        assert(s@.skip(0) =~= s@);
        r
    }

    /// The serializer that writes what `self` writes and then what `next`
    /// writes.
    pub fn then<T: Serializer>(self, next: T) -> (t: Then<Self, T>)
        ensures
            t.a == Some(self),
            t.b == next,
    {
        Then::new(self, next)
    }
}

impl<'a> Serializer for Slice<'a> {
    open spec fn wf(&self) -> bool {
        self.index <= self.value@.len()
    }

    open spec fn pending(&self) -> Seq<u8> {
        self.value@.skip(self.index as int)
    }

    open spec fn rewound(&self) -> Seq<u8> {
        self.value@
    }

    open spec fn outcome(&self, room: nat) -> Result<(nat, Serialized), GenError> {
        filled(self.pending().len(), room)
    }

    open spec fn rewound_outcome(&self, room: nat) -> Result<(nat, Serialized), GenError> {
        filled(self.value@.len(), room)
    }

    fn serialize(&mut self, output: &mut [u8]) -> (r: Result<(usize, Serialized), GenError>)
        ensures
            final(self).value@ == old(self).value@,
            old(self).pending().len() <= old(output)@.len() ==> r == Ok::<(usize, Serialized), GenError>(
                (old(self).pending().len() as usize, Serialized::Done),
            ) && final(self).index == old(self).index,
            old(self).pending().len() > old(output)@.len() ==> r == Ok::<(usize, Serialized), GenError>(
                (old(output)@.len() as usize, Serialized::Continue),
            ),
    {
        let output_len = output.len();
        let self_len = self.value.len() - self.index;
        let value = self.value;
        let index = self.index;
        if self_len <= output_len {
            let (_, rest) = value.split_at(index);
            copy_at(output, 0, rest);
            proof {
                let n = self_len as int;
                assert(output@.take(n) =~= old(self).pending().take(n));
                assert(output@.skip(n) =~= old(output)@.skip(n));
            }
            Ok((self_len, Serialized::Done))
        } else {
            let (_, rest) = value.split_at(index);
            let (now, _) = rest.split_at(output_len);
            copy_at(output, 0, now);
            self.index = index + output_len;
            proof {
                let n = output_len as int;
                assert(output@.take(n) =~= old(self).pending().take(n));
                assert(output@.skip(n) =~= old(output)@.skip(n));
                assert(self.pending() =~= old(self).pending().skip(n));
            }
            Ok((output_len, Serialized::Continue))
        }
    }
}

impl<'a> Reset for Slice<'a> {
    fn reset(&mut self) -> (b: bool)
        ensures
            b,
            final(self).value@ == old(self).value@,
            final(self).index == 0,
    {
        self.index = 0;
        assert(self.value@.skip(0) =~= self.value@);
        true
    }
}

/// What an optional serializer has still to write: nothing where there is
/// none.
pub open spec fn pending_of<A: Serializer>(a: Option<A>) -> Seq<u8> {
    match a {
        Some(a) => a.pending(),
        None => Seq::empty(),
    }
}

/// Writes what `a` writes and then what `b` writes. `a` is let go once it is
/// done.
pub struct Then<A, B> {
    pub a: Option<A>,
    pub b: B,
}

impl<A: Serializer, B: Serializer> Then<A, B> {
    pub fn new(a: A, b: B) -> (t: Self)
        ensures
            t.a == Some(a),
            t.b == b,
    {
        Then { a: Some(a), b }
    }

    /// The serializer that writes what `self` writes and then what `next`
    /// writes.
    pub fn then<T: Serializer>(self, next: T) -> (t: Then<Self, T>)
        ensures
            t.a == Some(self),
            t.b == next,
    {
        Then::new(self, next)
    }
}

impl<A: Serializer, B: Serializer> Serializer for Then<A, B> {
    open spec fn wf(&self) -> bool {
        &&& self.a matches Some(a) ==> a.wf()
        &&& self.b.wf()
    }

    open spec fn pending(&self) -> Seq<u8> {
        pending_of(self.a) + self.b.pending()
    }

    open spec fn rewound(&self) -> Seq<u8> {
        self.b.rewound()
    }

    open spec fn outcome(&self, room: nat) -> Result<(nat, Serialized), GenError> {
        continued(
            slot_outcome(self.a, room),
            self.b.outcome(left(slot_outcome(self.a, room), room)),
        )
    }

    open spec fn rewound_outcome(&self, room: nat) -> Result<(nat, Serialized), GenError> {
        Ok((0nat, Serialized::Done))
    }

    fn serialize(&mut self, output: &mut [u8]) -> (r: Result<(usize, Serialized), GenError>) {
        let mut i: usize = 0;
        let first = self.a.take();
        if let Some(mut a) = first {
            match a.serialize(output) {
                Err(e) => {
                    return Err(e);
                },
                Ok((index, Serialized::Continue)) => {
                    self.a = Some(a);
                    proof {
                        let n = index as int;
                        let p = old(self).a->Some_0.pending();
                        let q = old(self).b.pending();
                        assert((p + q).take(n) =~= p.take(n));
                        assert(self.pending() =~= (p + q).skip(n));
                    }
                    return Ok((index, Serialized::Continue));
                },
                Ok((index, Serialized::Done)) => {
                    i = index;
                },
            }
        }
        let ghost mid = output@;
        let ghost p = pending_of(old(self).a);
        let ghost q = old(self).b.pending();
        assert(i == p.len());
        assert(mid.take(i as int) == p.take(i as int));
        let total = output.len();
        let (head, sl) = output.split_at_mut(i);
        let res = self.b.serialize(sl);
        match res {
            Err(e) => Err(e),
            Ok((index, state)) => {
                proof {
                    let n = (index + i) as int;
                    let out = head@ + sl@;
                    assert(head@ =~= p);
                    assert(sl@.take(index as int) == q.take(index as int));
                    assert(index <= total - i);
                    assert((p + q).take(n) =~= p + q.take(index as int));
                    assert(out.take(n) =~= head@ + sl@.take(index as int));
                    assert(out.skip(n) =~= sl@.skip(index as int));
                    assert(old(output)@.skip(n) =~= mid.skip(i as int).skip(index as int));
                    assert(out.len() == old(output)@.len());
                    if state == Serialized::Continue {
                        assert(self.pending() =~= (p + q).skip(n));
                    }
                }
                Ok((index + i, state))
            },
        }
    }
}

/// Writes what `a` writes where there is an `a`, and what `b` writes where
/// there is none.
pub struct Or<A, B> {
    pub a: Option<A>,
    pub b: B,
}

impl<A: Serializer, B: Serializer> Or<A, B> {
    pub fn new(a: Option<A>, b: B) -> (o: Self)
        ensures
            o.a == a,
            o.b == b,
    {
        Or { a, b }
    }

    /// The serializer that writes what `self` writes and then what `next`
    /// writes.
    pub fn then<T: Serializer>(self, next: T) -> (t: Then<Self, T>)
        ensures
            t.a == Some(self),
            t.b == next,
    {
        Then::new(self, next)
    }
}

impl<A: Serializer, B: Serializer> Serializer for Or<A, B> {
    open spec fn wf(&self) -> bool {
        &&& self.a matches Some(a) ==> a.wf()
        &&& self.b.wf()
    }

    open spec fn pending(&self) -> Seq<u8> {
        match self.a {
            Some(a) => a.pending(),
            None => self.b.pending(),
        }
    }

    open spec fn rewound(&self) -> Seq<u8> {
        match self.a {
            Some(a) => a.rewound(),
            None => self.b.rewound(),
        }
    }

    open spec fn outcome(&self, room: nat) -> Result<(nat, Serialized), GenError> {
        match self.a {
            Some(a) => a.outcome(room),
            None => self.b.outcome(room),
        }
    }

    open spec fn rewound_outcome(&self, room: nat) -> Result<(nat, Serialized), GenError> {
        match self.a {
            Some(a) => a.rewound_outcome(room),
            None => self.b.rewound_outcome(room),
        }
    }

    fn serialize(&mut self, output: &mut [u8]) -> (r: Result<(usize, Serialized), GenError>) {
        match &mut self.a {
            Some(a) => a.serialize(output),
            None => self.b.serialize(output),
        }
    }
}

impl<A: Serializer + Reset, B: Serializer + Reset> Reset for Or<A, B> {
    fn reset(&mut self) -> (b: bool) {
        let second = self.b.reset();
        match &mut self.a {
            Some(a) => a.reset(),
            None => second,
        }
    }
}

pub fn or<T, U>(t: Option<T>, u: U) -> (o: Or<T, U>) where T: Serializer, U: Serializer
    ensures
        o.a == t,
        o.b == u,
{
    Or::new(t, u)
}

/// A number that is written most significant byte first.
pub struct BigEndian<N> {
    pub num: N,
}

/// A number that is written least significant byte first.
pub struct LittleEndian<N> {
    pub num: N,
}

/// The numbers that can be written in either byte order.
pub trait Num: Copy {
    fn be(&self) -> (r: BigEndian<Self>)
        ensures
            r.num == *self,
    ;

    fn le(&self) -> (r: LittleEndian<Self>)
        ensures
            r.num == *self,
    ;
}

pub fn be<N: Num>(n: N) -> (r: BigEndian<N>)
    ensures
        r.num == n,
{
    n.be()
}

pub fn le<N: Num>(n: N) -> (r: LittleEndian<N>)
    ensures
        r.num == n,
{
    n.le()
}

impl Num for u8 {
    fn be(&self) -> (r: BigEndian<Self>) {
        BigEndian { num: *self }
    }

    fn le(&self) -> (r: LittleEndian<Self>) {
        LittleEndian { num: *self }
    }
}

impl Num for u16 {
    fn be(&self) -> (r: BigEndian<Self>) {
        BigEndian { num: *self }
    }

    fn le(&self) -> (r: LittleEndian<Self>) {
        LittleEndian { num: *self }
    }
}

impl Num for u32 {
    fn be(&self) -> (r: BigEndian<Self>) {
        BigEndian { num: *self }
    }

    fn le(&self) -> (r: LittleEndian<Self>) {
        LittleEndian { num: *self }
    }
}

impl Num for u64 {
    fn be(&self) -> (r: BigEndian<Self>) {
        BigEndian { num: *self }
    }

    fn le(&self) -> (r: LittleEndian<Self>) {
        LittleEndian { num: *self }
    }
}

impl<N> BigEndian<N> {
    /// The serializer that writes what `self` writes and then what `next`
    /// writes.
    pub fn then<T: Serializer>(self, next: T) -> (t: Then<Self, T>) where Self: Serializer
        ensures
            t.a == Some(self),
            t.b == next,
    {
        Then::new(self, next)
    }
}

impl Reset for BigEndian<u8> {
    fn reset(&mut self) -> (b: bool)
        ensures
            b,
            *final(self) == *old(self),
    {
        true
    }
}

impl Reset for BigEndian<u16> {
    fn reset(&mut self) -> (b: bool)
        ensures
            b,
            *final(self) == *old(self),
    {
        true
    }
}

impl Reset for BigEndian<u32> {
    fn reset(&mut self) -> (b: bool)
        ensures
            b,
            *final(self) == *old(self),
    {
        true
    }
}

impl Reset for BigEndian<u64> {
    fn reset(&mut self) -> (b: bool)
        ensures
            b,
            *final(self) == *old(self),
    {
        true
    }
}

/// The 1 byte of the number are written at once, or none of them where the
/// buffer has no room for all.
impl Serializer for BigEndian<u8> {
    open spec fn wf(&self) -> bool {
        true
    }

    open spec fn pending(&self) -> Seq<u8> {
        be_bytes(self.num as nat, 1)
    }

    open spec fn rewound(&self) -> Seq<u8> {
        be_bytes(self.num as nat, 1)
    }

    open spec fn outcome(&self, room: nat) -> Result<(nat, Serialized), GenError> {
        whole(1, room)
    }

    open spec fn rewound_outcome(&self, room: nat) -> Result<(nat, Serialized), GenError> {
        whole(1, room)
    }

    fn serialize(&mut self, output: &mut [u8]) -> (r: Result<(usize, Serialized), GenError>)
        ensures
            *final(self) == *old(self),
            old(output)@.len() < 1 ==> r == Ok::<(usize, Serialized), GenError>((0, Serialized::Continue))
                && final(output)@ == old(output)@,
            old(output)@.len() >= 1 ==> r == Ok::<(usize, Serialized), GenError>((1, Serialized::Done)),
    {
        proof {
            lemma_bytes_len(self.num as nat, 1);
        }
        if output.len() < 1 {
            assert(output@.take(0) =~= self.pending().take(0));
            assert(self.pending().skip(0) =~= self.pending());
            Ok((0, Serialized::Continue))
        } else {
            let bytes = be1(self.num);
            copy_at(output, 0, bytes.as_slice());
            assert(output@.take(1) =~= self.pending().take(1));
            assert(output@.skip(1) =~= old(output)@.skip(1));
            Ok((1, Serialized::Done))
        }
    }
}

/// The 2 bytes of the number are written at once, or none of them where the
/// buffer has no room for all.
impl Serializer for BigEndian<u16> {
    open spec fn wf(&self) -> bool {
        true
    }

    open spec fn pending(&self) -> Seq<u8> {
        be_bytes(self.num as nat, 2)
    }

    open spec fn rewound(&self) -> Seq<u8> {
        be_bytes(self.num as nat, 2)
    }

    open spec fn outcome(&self, room: nat) -> Result<(nat, Serialized), GenError> {
        whole(2, room)
    }

    open spec fn rewound_outcome(&self, room: nat) -> Result<(nat, Serialized), GenError> {
        whole(2, room)
    }

    fn serialize(&mut self, output: &mut [u8]) -> (r: Result<(usize, Serialized), GenError>)
        ensures
            *final(self) == *old(self),
            old(output)@.len() < 2 ==> r == Ok::<(usize, Serialized), GenError>((0, Serialized::Continue))
                && final(output)@ == old(output)@,
            old(output)@.len() >= 2 ==> r == Ok::<(usize, Serialized), GenError>((2, Serialized::Done)),
    {
        proof {
            lemma_bytes_len(self.num as nat, 2);
        }
        if output.len() < 2 {
            assert(output@.take(0) =~= self.pending().take(0));
            assert(self.pending().skip(0) =~= self.pending());
            Ok((0, Serialized::Continue))
        } else {
            let bytes = be2(self.num);
            copy_at(output, 0, bytes.as_slice());
            assert(output@.take(2) =~= self.pending().take(2));
            assert(output@.skip(2) =~= old(output)@.skip(2));
            Ok((2, Serialized::Done))
        }
    }
}

/// The 4 bytes of the number are written at once, or none of them where the
/// buffer has no room for all.
impl Serializer for BigEndian<u32> {
    open spec fn wf(&self) -> bool {
        true
    }

    open spec fn pending(&self) -> Seq<u8> {
        be_bytes(self.num as nat, 4)
    }

    open spec fn rewound(&self) -> Seq<u8> {
        be_bytes(self.num as nat, 4)
    }

    open spec fn outcome(&self, room: nat) -> Result<(nat, Serialized), GenError> {
        whole(4, room)
    }

    open spec fn rewound_outcome(&self, room: nat) -> Result<(nat, Serialized), GenError> {
        whole(4, room)
    }

    fn serialize(&mut self, output: &mut [u8]) -> (r: Result<(usize, Serialized), GenError>)
        ensures
            *final(self) == *old(self),
            old(output)@.len() < 4 ==> r == Ok::<(usize, Serialized), GenError>((0, Serialized::Continue))
                && final(output)@ == old(output)@,
            old(output)@.len() >= 4 ==> r == Ok::<(usize, Serialized), GenError>((4, Serialized::Done)),
    {
        proof {
            lemma_bytes_len(self.num as nat, 4);
        }
        if output.len() < 4 {
            assert(output@.take(0) =~= self.pending().take(0));
            assert(self.pending().skip(0) =~= self.pending());
            Ok((0, Serialized::Continue))
        } else {
            let bytes = be4(self.num);
            copy_at(output, 0, bytes.as_slice());
            assert(output@.take(4) =~= self.pending().take(4));
            assert(output@.skip(4) =~= old(output)@.skip(4));
            Ok((4, Serialized::Done))
        }
    }
}

/// The 8 bytes of the number are written at once, or none of them where the
/// buffer has no room for all.
impl Serializer for BigEndian<u64> {
    open spec fn wf(&self) -> bool {
        true
    }

    open spec fn pending(&self) -> Seq<u8> {
        be_bytes(self.num as nat, 8)
    }

    open spec fn rewound(&self) -> Seq<u8> {
        be_bytes(self.num as nat, 8)
    }

    open spec fn outcome(&self, room: nat) -> Result<(nat, Serialized), GenError> {
        whole(8, room)
    }

    open spec fn rewound_outcome(&self, room: nat) -> Result<(nat, Serialized), GenError> {
        whole(8, room)
    }

    fn serialize(&mut self, output: &mut [u8]) -> (r: Result<(usize, Serialized), GenError>)
        ensures
            *final(self) == *old(self),
            old(output)@.len() < 8 ==> r == Ok::<(usize, Serialized), GenError>((0, Serialized::Continue))
                && final(output)@ == old(output)@,
            old(output)@.len() >= 8 ==> r == Ok::<(usize, Serialized), GenError>((8, Serialized::Done)),
    {
        proof {
            lemma_bytes_len(self.num as nat, 8);
        }
        if output.len() < 8 {
            assert(output@.take(0) =~= self.pending().take(0));
            assert(self.pending().skip(0) =~= self.pending());
            Ok((0, Serialized::Continue))
        } else {
            let bytes = be8(self.num);
            copy_at(output, 0, bytes.as_slice());
            assert(output@.take(8) =~= self.pending().take(8));
            assert(output@.skip(8) =~= old(output)@.skip(8));
            Ok((8, Serialized::Done))
        }
    }
}

impl<N> LittleEndian<N> {
    /// The serializer that writes what `self` writes and then what `next`
    /// writes.
    pub fn then<T: Serializer>(self, next: T) -> (t: Then<Self, T>) where Self: Serializer
        ensures
            t.a == Some(self),
            t.b == next,
    {
        Then::new(self, next)
    }
}

impl Reset for LittleEndian<u8> {
    fn reset(&mut self) -> (b: bool)
        ensures
            b,
            *final(self) == *old(self),
    {
        true
    }
}

impl Reset for LittleEndian<u16> {
    fn reset(&mut self) -> (b: bool)
        ensures
            b,
            *final(self) == *old(self),
    {
        true
    }
}

impl Reset for LittleEndian<u32> {
    fn reset(&mut self) -> (b: bool)
        ensures
            b,
            *final(self) == *old(self),
    {
        true
    }
}

impl Reset for LittleEndian<u64> {
    fn reset(&mut self) -> (b: bool)
        ensures
            b,
            *final(self) == *old(self),
    {
        true
    }
}

/// The 1 byte of the number are written at once, or none of them where the
/// buffer has no room for all.
impl Serializer for LittleEndian<u8> {
    open spec fn wf(&self) -> bool {
        true
    }

    open spec fn pending(&self) -> Seq<u8> {
        le_bytes(self.num as nat, 1)
    }

    open spec fn rewound(&self) -> Seq<u8> {
        le_bytes(self.num as nat, 1)
    }

    open spec fn outcome(&self, room: nat) -> Result<(nat, Serialized), GenError> {
        whole(1, room)
    }

    open spec fn rewound_outcome(&self, room: nat) -> Result<(nat, Serialized), GenError> {
        whole(1, room)
    }

    fn serialize(&mut self, output: &mut [u8]) -> (r: Result<(usize, Serialized), GenError>)
        ensures
            *final(self) == *old(self),
            old(output)@.len() < 1 ==> r == Ok::<(usize, Serialized), GenError>((0, Serialized::Continue))
                && final(output)@ == old(output)@,
            old(output)@.len() >= 1 ==> r == Ok::<(usize, Serialized), GenError>((1, Serialized::Done)),
    {
        proof {
            lemma_bytes_len(self.num as nat, 1);
        }
        if output.len() < 1 {
            assert(output@.take(0) =~= self.pending().take(0));
            assert(self.pending().skip(0) =~= self.pending());
            Ok((0, Serialized::Continue))
        } else {
            let bytes = le1(self.num);
            copy_at(output, 0, bytes.as_slice());
            assert(output@.take(1) =~= self.pending().take(1));
            assert(output@.skip(1) =~= old(output)@.skip(1));
            Ok((1, Serialized::Done))
        }
    }
}

/// The 2 bytes of the number are written at once, or none of them where the
/// buffer has no room for all.
impl Serializer for LittleEndian<u16> {
    open spec fn wf(&self) -> bool {
        true
    }

    open spec fn pending(&self) -> Seq<u8> {
        le_bytes(self.num as nat, 2)
    }

    open spec fn rewound(&self) -> Seq<u8> {
        le_bytes(self.num as nat, 2)
    }

    open spec fn outcome(&self, room: nat) -> Result<(nat, Serialized), GenError> {
        whole(2, room)
    }

    open spec fn rewound_outcome(&self, room: nat) -> Result<(nat, Serialized), GenError> {
        whole(2, room)
    }

    fn serialize(&mut self, output: &mut [u8]) -> (r: Result<(usize, Serialized), GenError>)
        ensures
            *final(self) == *old(self),
            old(output)@.len() < 2 ==> r == Ok::<(usize, Serialized), GenError>((0, Serialized::Continue))
                && final(output)@ == old(output)@,
            old(output)@.len() >= 2 ==> r == Ok::<(usize, Serialized), GenError>((2, Serialized::Done)),
    {
        proof {
            lemma_bytes_len(self.num as nat, 2);
        }
        if output.len() < 2 {
            assert(output@.take(0) =~= self.pending().take(0));
            assert(self.pending().skip(0) =~= self.pending());
            Ok((0, Serialized::Continue))
        } else {
            let bytes = le2(self.num);
            copy_at(output, 0, bytes.as_slice());
            assert(output@.take(2) =~= self.pending().take(2));
            assert(output@.skip(2) =~= old(output)@.skip(2));
            Ok((2, Serialized::Done))
        }
    }
}

/// The 4 bytes of the number are written at once, or none of them where the
/// buffer has no room for all.
impl Serializer for LittleEndian<u32> {
    open spec fn wf(&self) -> bool {
        true
    }

    open spec fn pending(&self) -> Seq<u8> {
        le_bytes(self.num as nat, 4)
    }

    open spec fn rewound(&self) -> Seq<u8> {
        le_bytes(self.num as nat, 4)
    }

    open spec fn outcome(&self, room: nat) -> Result<(nat, Serialized), GenError> {
        whole(4, room)
    }

    open spec fn rewound_outcome(&self, room: nat) -> Result<(nat, Serialized), GenError> {
        whole(4, room)
    }

    fn serialize(&mut self, output: &mut [u8]) -> (r: Result<(usize, Serialized), GenError>)
        ensures
            *final(self) == *old(self),
            old(output)@.len() < 4 ==> r == Ok::<(usize, Serialized), GenError>((0, Serialized::Continue))
                && final(output)@ == old(output)@,
            old(output)@.len() >= 4 ==> r == Ok::<(usize, Serialized), GenError>((4, Serialized::Done)),
    {
        proof {
            lemma_bytes_len(self.num as nat, 4);
        }
        if output.len() < 4 {
            assert(output@.take(0) =~= self.pending().take(0));
            assert(self.pending().skip(0) =~= self.pending());
            Ok((0, Serialized::Continue))
        } else {
            let bytes = le4(self.num);
            copy_at(output, 0, bytes.as_slice());
            assert(output@.take(4) =~= self.pending().take(4));
            assert(output@.skip(4) =~= old(output)@.skip(4));
            Ok((4, Serialized::Done))
        }
    }
}

/// The 8 bytes of the number are written at once, or none of them where the
/// buffer has no room for all.
impl Serializer for LittleEndian<u64> {
    open spec fn wf(&self) -> bool {
        true
    }

    open spec fn pending(&self) -> Seq<u8> {
        le_bytes(self.num as nat, 8)
    }

    open spec fn rewound(&self) -> Seq<u8> {
        le_bytes(self.num as nat, 8)
    }

    open spec fn outcome(&self, room: nat) -> Result<(nat, Serialized), GenError> {
        whole(8, room)
    }

    open spec fn rewound_outcome(&self, room: nat) -> Result<(nat, Serialized), GenError> {
        whole(8, room)
    }

    fn serialize(&mut self, output: &mut [u8]) -> (r: Result<(usize, Serialized), GenError>)
        ensures
            *final(self) == *old(self),
            old(output)@.len() < 8 ==> r == Ok::<(usize, Serialized), GenError>((0, Serialized::Continue))
                && final(output)@ == old(output)@,
            old(output)@.len() >= 8 ==> r == Ok::<(usize, Serialized), GenError>((8, Serialized::Done)),
    {
        proof {
            lemma_bytes_len(self.num as nat, 8);
        }
        if output.len() < 8 {
            assert(output@.take(0) =~= self.pending().take(0));
            assert(self.pending().skip(0) =~= self.pending());
            Ok((0, Serialized::Continue))
        } else {
            let bytes = le8(self.num);
            copy_at(output, 0, bytes.as_slice());
            assert(output@.take(8) =~= self.pending().take(8));
            assert(output@.skip(8) =~= old(output)@.skip(8));
            Ok((8, Serialized::Done))
        }
    }
}

/// The strings, which are written as their bytes.
pub trait StrSr {
    fn raw<'a>(&'a self) -> (r: Slice<'a>)
        ensures
            r.wf(),
            r.index == 0,
            r.value@ == self.text(),
    ;

    /// The bytes of the string.
    spec fn text(&self) -> Seq<u8>;
}

impl StrSr for str {
    open spec fn text(&self) -> Seq<u8> {
        self.spec_bytes()
    }

    fn raw<'a>(&'a self) -> (r: Slice<'a>) {
        Slice::new(self.as_bytes())
    }
}

impl StrSr for String {
    open spec fn text(&self) -> Seq<u8> {
        vstd::utf8::encode_utf8(self@)
    }

    fn raw<'a>(&'a self) -> (r: Slice<'a>) {
        Slice::new(self.as_str().as_bytes())
    }
}

/// What the serializers of `items` from index `from` on have still to write,
/// one after another.
pub open spec fn pending_from<T: Serializer>(items: Seq<T>, from: int) -> Seq<u8>
    decreases items.len() - from,
{
    if 0 <= from < items.len() {
        items[from].pending() + pending_from(items, from + 1)
    } else {
        Seq::empty()
    }
}

/// `pending_from` looks at the items from `from` on only.
pub proof fn lemma_pending_from_update<T: Serializer>(items: Seq<T>, from: int, at: int, item: T)
    requires
        0 <= at < from,
        at < items.len(),
    ensures
        pending_from(items.update(at, item), from) == pending_from(items, from),
    decreases items.len() - from,
{
    if from < items.len() {
        lemma_pending_from_update(items, from + 1, at, item);
    }
}

/// What the serializers of `items` from index `from` on return on a buffer of
/// `room` bytes when they run one after another, each on the room that the
/// ones before it have left, up to the first that is not done or fails.
pub open spec fn outcome_from<T: Serializer>(items: Seq<T>, from: int, room: nat) -> Result<
    (nat, Serialized),
    GenError,
>
    decreases items.len() - from,
{
    if 0 <= from < items.len() {
        continued(
            items[from].outcome(room),
            outcome_from(items, from + 1, left(items[from].outcome(room), room)),
        )
    } else {
        Ok((0nat, Serialized::Done))
    }
}

/// `outcome_from` looks at the items from `from` on only.
pub proof fn lemma_outcome_from_update<T: Serializer>(items: Seq<T>, from: int, at: int, item: T, room: nat)
    requires
        0 <= at < from,
        at < items.len(),
    ensures
        outcome_from(items.update(at, item), from, room) == outcome_from(items, from, room),
    decreases items.len() - from,
{
    if from < items.len() {
        lemma_outcome_from_update(items, from + 1, at, item, left(items[from].outcome(room), room));
    }
}

/// Writes what each serializer of a list writes, in the order of the list.
/// `index` is the serializer whose turn it is.
pub struct All<T> {
    pub items: Vec<T>,
    pub index: usize,
}

impl<T: Serializer> All<T> {
    pub fn new(it: Vec<T>) -> (a: Self)
        ensures
            a.items == it,
            a.index == 0,
    {
        All { items: it, index: 0 }
    }

    /// The serializer that writes what `self` writes and then what `next`
    /// writes.
    pub fn then<U: Serializer>(self, next: U) -> (t: Then<Self, U>)
        ensures
            t.a == Some(self),
            t.b == next,
    {
        Then::new(self, next)
    }
}

impl<T: Serializer> Serializer for All<T> {
    open spec fn wf(&self) -> bool {
        &&& self.index <= self.items@.len()
        &&& forall|i: int| self.index <= i < self.items@.len() ==> (#[trigger] self.items@[i]).wf()
    }

    open spec fn pending(&self) -> Seq<u8> {
        pending_from(self.items@, self.index as int)
    }

    open spec fn rewound(&self) -> Seq<u8> {
        Seq::empty()
    }

    open spec fn outcome(&self, room: nat) -> Result<(nat, Serialized), GenError> {
        outcome_from(self.items@, self.index as int, room)
    }

    open spec fn rewound_outcome(&self, room: nat) -> Result<(nat, Serialized), GenError> {
        Ok((0nat, Serialized::Done))
    }

    fn serialize(&mut self, output: &mut [u8]) -> (r: Result<(usize, Serialized), GenError>) {
        let total = output.len();
        let mut index: usize = 0;
        let ghost start = pending_from(self.items@, self.index as int);
        proof {
            assert(output@.take(0) =~= start.take(0));
            assert(start.skip(0) =~= start);
        }
        loop
            invariant
                self.wf(),
                total == output@.len(),
                total == old(output)@.len(),
                index <= total,
                index <= start.len(),
                start == old(self).pending(),
                output@.take(index as int) == start.take(index as int),
                output@.skip(index as int) == old(output)@.skip(index as int),
                self.pending() == start.skip(index as int),
                shifted(index as nat, self.outcome((total - index) as nat)) == old(self).outcome(total as nat),
            decreases self.items@.len() - self.index,
        {
            if self.index >= self.items.len() {
                assert(self.pending() =~= Seq::<u8>::empty());
                return Ok((index, Serialized::Done));
            }
            let ghost before = *self;
            let ghost mid = output@;
            let at = self.index;
            let (head, sl) = output.split_at_mut(index);
            let item = &mut self.items[at];
            let ghost item0 = *item;
            let res = item.serialize(sl);
            let ghost p = item0.pending();
            let ghost tail = pending_from(before.items@, at + 1);
            assert(start.skip(index as int) == p + tail);
            proof {
                let room = (total - index) as nat;
                assert(told(res) == item0.outcome(room));
                lemma_outcome_from_update(
                    before.items@,
                    at + 1,
                    at as int,
                    self.items@[at as int],
                    left(item0.outcome(room), room),
                );
            }
            match res {
                Err(e) => {
                    return Err(e);
                },
                Ok((i, Serialized::Continue)) => {
                    proof {
                        let n = (index + i) as int;
                        lemma_pending_from_update(before.items@, at + 1, at as int, self.items@[at as int]);
                        assert(self.pending() =~= p.skip(i as int) + tail);
                        assert((p + tail).skip(i as int) =~= p.skip(i as int) + tail);
                        assert(start.skip(n) =~= start.skip(index as int).skip(i as int));
                        assert((p + tail).take(i as int) =~= p.take(i as int));
                        assert(start.take(n) =~= start.take(index as int) + start.skip(index as int).take(i as int));
                        assert((head@ + sl@).take(n) =~= head@ + sl@.take(i as int));
                        assert((head@ + sl@).skip(n) =~= sl@.skip(i as int));
                        assert(old(output)@.skip(n) =~= mid.skip(index as int).skip(i as int));
                    }
                    return Ok((index + i, Serialized::Continue));
                },
                Ok((i, Serialized::Done)) => {
                    proof {
                        let n = (index + i) as int;
                        lemma_pending_from_update(before.items@, at + 1, at as int, self.items@[at as int]);
                        assert((p + tail).skip(i as int) =~= tail);
                        assert(start.skip(n) =~= start.skip(index as int).skip(i as int));
                        assert((p + tail).take(i as int) =~= p.take(i as int));
                        assert(start.take(n) =~= start.take(index as int) + start.skip(index as int).take(i as int));
                        assert((head@ + sl@).take(n) =~= head@ + sl@.take(i as int));
                        assert((head@ + sl@).skip(n) =~= sl@.skip(i as int));
                        assert(old(output)@.skip(n) =~= mid.skip(index as int).skip(i as int));
                    }
                    index += i;
                    self.index = at + 1;
                },
            }
        }
    }
}

pub fn all<T: Serializer>(it: Vec<T>) -> (a: All<T>)
    ensures
        a.items == it,
        a.index == 0,
{
    All::new(it)
}

/// What is still to be written for the items of `items` from index `from` on
/// when none of them has had its turn: for each the separator `sep` and then
/// what the item has to write.
pub open spec fn separated_from<T: Serializer>(items: Seq<T>, sep: Seq<u8>, from: int) -> Seq<u8>
    decreases items.len() - from,
{
    if 0 <= from < items.len() {
        sep + items[from].pending() + separated_from(items, sep, from + 1)
    } else {
        Seq::empty()
    }
}

/// `separated_from` looks at the items from `from` on only.
pub proof fn lemma_separated_from_update<T: Serializer>(items: Seq<T>, sep: Seq<u8>, from: int, at: int, item: T)
    requires
        0 <= at < from,
        at < items.len(),
    ensures
        separated_from(items.update(at, item), sep, from) == separated_from(items, sep, from),
    decreases items.len() - from,
{
    if from < items.len() {
        lemma_separated_from_update(items, sep, from + 1, at, item);
    }
}

/// What a separated list returns on a buffer of `room` bytes when none of the
/// items from index `from` on has had its turn and each separator starts
/// afresh. With `element` it is the turn of the item `from`; without, that of
/// the separator before it. Each runs on the room that the ones before it have
/// left, up to the first that is not done or fails.
pub open spec fn separated_outcome<T: Serializer, U: Serializer>(
    items: Seq<T>,
    sep: U,
    from: int,
    element: bool,
    room: nat,
) -> Result<(nat, Serialized), GenError>
    decreases items.len() - from, if element { 0int } else { 1int },
{
    if 0 <= from < items.len() {
        if element {
            continued(
                items[from].outcome(room),
                separated_outcome(items, sep, from + 1, false, left(items[from].outcome(room), room)),
            )
        } else {
            continued(
                sep.rewound_outcome(room),
                separated_outcome(items, sep, from, true, left(sep.rewound_outcome(room), room)),
            )
        }
    } else {
        Ok((0nat, Serialized::Done))
    }
}

/// `separated_outcome` looks at the items from `from` on only, and at what
/// the separator returns after a reset.
pub proof fn lemma_separated_outcome_same<T: Serializer, U: Serializer>(
    items: Seq<T>,
    others: Seq<T>,
    sep: U,
    other: U,
    from: int,
    element: bool,
    room: nat,
)
    requires
        0 <= from,
        items.len() == others.len(),
        forall|i: int| from <= i < items.len() ==> items[i] == others[i],
        same_afresh(sep, other),
    ensures
        separated_outcome(items, sep, from, element, room) == separated_outcome(others, other, from, element, room),
    decreases items.len() - from, if element { 0int } else { 1int },
{
    if from < items.len() {
        if element {
            lemma_separated_outcome_same(
                items,
                others,
                sep,
                other,
                from + 1,
                false,
                left(items[from].outcome(room), room),
            );
        } else {
            lemma_separated_outcome_same(
                items,
                others,
                sep,
                other,
                from,
                true,
                left(sep.rewound_outcome(room), room),
            );
        }
    }
}

/// The serializer returns what it returns after a reset, whatever the room.
pub open spec fn starts_afresh<U: Serializer>(sep: U) -> bool {
    forall|room: nat| #[trigger] sep.outcome(room) == sep.rewound_outcome(room)
}

/// Two serializers return the same after a reset, whatever the room.
pub open spec fn same_afresh<U: Serializer>(sep: U, other: U) -> bool {
    forall|room: nat| #[trigger] sep.rewound_outcome(room) == other.rewound_outcome(room)
}

/// A count that is added in two steps is added at once.
pub proof fn lemma_shifted_twice(a: nat, b: nat, r: Result<(nat, Serialized), GenError>)
    ensures
        shifted(a, shifted(b, r)) == shifted(a + b, r),
{
}

/// The turn of an item that gets done: the list returns what it returns
/// afterwards on the room that is left, with the count of the item added.
pub proof fn lemma_element_turn<T: Serializer, U: Serializer + Reset>(
    list: SeparatedList<T, U>,
    next: SeparatedList<T, U>,
    room: nat,
    n: nat,
)
    requires
        list.serialize_element,
        list.index < list.items@.len(),
        starts_afresh(list.separator),
        list.items@[list.index as int].outcome(room) == Ok::<(nat, Serialized), GenError>((n, Serialized::Done)),
        next.items@.len() == list.items@.len(),
        forall|i: int| list.index < i < list.items@.len() ==> next.items@[i] == list.items@[i],
        next.index == list.index + 1,
        next.separator == list.separator,
        next.serialize_element == (next.index >= next.items@.len()),
    ensures
        list.outcome(room) == shifted(n, next.outcome((room - n) as nat)),
{
    let left_room = (room - n) as nat;
    lemma_separated_outcome_same(
        list.items@,
        next.items@,
        list.separator,
        list.separator,
        list.index + 1,
        true,
        left(list.separator.rewound_outcome(left_room), left_room),
    );
    lemma_separated_outcome_same(
        list.items@,
        next.items@,
        list.separator,
        list.separator,
        list.index + 1,
        false,
        left_room,
    );
    assert(list.separator.outcome(left_room) == list.separator.rewound_outcome(left_room));
}

/// The turn of a separator that gets done and is reset: the list returns what
/// it returns afterwards on the room that is left, with the count of the
/// separator added.
pub proof fn lemma_separator_turn<T: Serializer, U: Serializer + Reset>(
    list: SeparatedList<T, U>,
    next: SeparatedList<T, U>,
    room: nat,
    n: nat,
)
    requires
        !list.serialize_element,
        list.index < list.items@.len(),
        list.separator.outcome(room) == Ok::<(nat, Serialized), GenError>((n, Serialized::Done)),
        next.items@ == list.items@,
        next.index == list.index,
        same_afresh(list.separator, next.separator),
        next.serialize_element,
    ensures
        list.outcome(room) == shifted(n, next.outcome((room - n) as nat)),
{
    lemma_separated_outcome_same(
        list.items@,
        next.items@,
        list.separator,
        next.separator,
        list.index as int,
        true,
        (room - n) as nat,
    );
}

/// Writes what each serializer of a list writes, in the order of the list, with
/// what the separator writes between each two of them. `index` is the item
/// whose turn it is or comes next; `serialize_element` says whether it is the
/// item's turn or that of the separator before it.
pub struct SeparatedList<T, U> {
    pub items: Vec<T>,
    pub index: usize,
    pub separator: U,
    pub serialize_element: bool,
}

impl<T: Serializer, U: Serializer + Reset> SeparatedList<T, U> {
    pub fn new(separator: U, it: Vec<T>) -> (l: Self)
        ensures
            l.items == it,
            l.index == 0,
            l.separator == separator,
            l.serialize_element,
    {
        SeparatedList { items: it, index: 0, separator, serialize_element: true }
    }

    /// The serializer that writes what `self` writes and then what `next`
    /// writes.
    pub fn then<V: Serializer>(self, next: V) -> (t: Then<Self, V>)
        ensures
            t.a == Some(self),
            t.b == next,
    {
        Then::new(self, next)
    }
}

impl<T: Serializer, U: Serializer + Reset> Serializer for SeparatedList<T, U> {
    open spec fn wf(&self) -> bool {
        &&& self.index <= self.items@.len()
        &&& forall|i: int| self.index <= i < self.items@.len() ==> (#[trigger] self.items@[i]).wf()
        &&& self.separator.wf()
        &&& self.serialize_element ==> self.separator.pending() == self.separator.rewound()
        &&& self.serialize_element ==> starts_afresh(self.separator)
        &&& !self.serialize_element ==> self.index < self.items@.len()
    }

    open spec fn pending(&self) -> Seq<u8> {
        if self.index >= self.items@.len() {
            Seq::empty()
        } else if self.serialize_element {
            self.items@[self.index as int].pending() + separated_from(
                self.items@,
                self.separator.rewound(),
                self.index + 1,
            )
        } else {
            self.separator.pending() + self.items@[self.index as int].pending() + separated_from(
                self.items@,
                self.separator.rewound(),
                self.index + 1,
            )
        }
    }

    open spec fn rewound(&self) -> Seq<u8> {
        Seq::empty()
    }

    open spec fn outcome(&self, room: nat) -> Result<(nat, Serialized), GenError> {
        if self.serialize_element {
            separated_outcome(self.items@, self.separator, self.index as int, true, room)
        } else {
            continued(
                self.separator.outcome(room),
                separated_outcome(
                    self.items@,
                    self.separator,
                    self.index as int,
                    true,
                    left(self.separator.outcome(room), room),
                ),
            )
        }
    }

    open spec fn rewound_outcome(&self, room: nat) -> Result<(nat, Serialized), GenError> {
        Ok((0nat, Serialized::Done))
    }

    #[verifier::rlimit(80)]
    fn serialize(&mut self, output: &mut [u8]) -> (r: Result<(usize, Serialized), GenError>) {
        let total = output.len();
        let mut index: usize = 0;
        let ghost start = self.pending();
        let ghost sep = self.separator.rewound();
        proof {
            assert(output@.take(0) =~= start.take(0));
            assert(start.skip(0) =~= start);
        }
        loop
            invariant
                self.wf(),
                total == output@.len(),
                total == old(output)@.len(),
                index <= total,
                index <= start.len(),
                start == old(self).pending(),
                sep == self.separator.rewound(),
                output@.take(index as int) == start.take(index as int),
                output@.skip(index as int) == old(output)@.skip(index as int),
                self.pending() == start.skip(index as int),
                shifted(index as nat, self.outcome((total - index) as nat)) == old(self).outcome(total as nat),
            decreases self.items@.len() - self.index, if self.serialize_element { 0int } else { 1int },
        {
            let ghost before = *self;
            let ghost mid = output@;
            let at = self.index;
            if self.serialize_element {
                if at >= self.items.len() {
                    assert(self.pending() =~= Seq::<u8>::empty());
                    return Ok((index, Serialized::Done));
                }
                let (head, sl) = output.split_at_mut(index);
                let item = &mut self.items[at];
                let ghost item0 = *item;
                let res = item.serialize(sl);
                let ghost p = item0.pending();
                let ghost tail = separated_from(before.items@, sep, at + 1);
                assert(start.skip(index as int) == p + tail);
                let ghost room = (total - index) as nat;
                assert(told(res) == item0.outcome(room));
                assert(before.outcome(room) == continued(
                    item0.outcome(room),
                    separated_outcome(before.items@, before.separator, at + 1, false, left(item0.outcome(room), room)),
                ));
                match res {
                    Err(e) => {
                        return Err(e);
                    },
                    Ok((i, state)) => {
                        proof {
                            let n = (index + i) as int;
                            lemma_separated_from_update(before.items@, sep, at + 1, at as int, self.items@[at as int]);
                            assert(start.skip(n) =~= start.skip(index as int).skip(i as int));
                            assert((p + tail).take(i as int) =~= p.take(i as int));
                            assert(start.take(n) =~= start.take(index as int) + start.skip(index as int).take(
                                i as int,
                            ));
                            assert((head@ + sl@).take(n) =~= head@ + sl@.take(i as int));
                            assert((head@ + sl@).skip(n) =~= sl@.skip(i as int));
                            assert(old(output)@.skip(n) =~= mid.skip(index as int).skip(i as int));
                        }
                        match state {
                            Serialized::Continue => {
                                proof {
                                    assert(self.pending() =~= p.skip(i as int) + tail);
                                    assert((p + tail).skip(i as int) =~= p.skip(i as int) + tail);
                                }
                                return Ok((index + i, Serialized::Continue));
                            },
                            Serialized::Done => {
                                index += i;
                                self.index = at + 1;
                                if self.index < self.items.len() {
                                    self.serialize_element = false;
                                }
                                proof {
                                    assert((p + tail).skip(i as int) =~= tail);
                                    assert(self.pending() =~= tail);
                                    lemma_element_turn(before, *self, room, i as nat);
                                    lemma_shifted_twice((index - i) as nat, i as nat, self.outcome((room - i) as nat));
                                }
                            },
                        }
                    },
                }
            } else {
                let (head, sl) = output.split_at_mut(index);
                let ghost p = self.separator.pending();
                let ghost tail = self.items@[at as int].pending() + separated_from(self.items@, sep, at + 1);
                assert(start.skip(index as int) =~= p + tail);
                let res = self.separator.serialize(sl);
                let ghost room = (total - index) as nat;
                assert(told(res) == before.separator.outcome(room));
                match res {
                    Err(e) => {
                        return Err(e);
                    },
                    Ok((i, state)) => {
                        proof {
                            let n = (index + i) as int;
                            assert(start.skip(n) =~= start.skip(index as int).skip(i as int));
                            assert((p + tail).take(i as int) =~= p.take(i as int));
                            assert(start.take(n) =~= start.take(index as int) + start.skip(index as int).take(
                                i as int,
                            ));
                            assert((head@ + sl@).take(n) =~= head@ + sl@.take(i as int));
                            assert((head@ + sl@).skip(n) =~= sl@.skip(i as int));
                            assert(old(output)@.skip(n) =~= mid.skip(index as int).skip(i as int));
                        }
                        match state {
                            Serialized::Continue => {
                                proof {
                                    assert(self.pending() =~= p.skip(i as int) + tail);
                                    assert((p + tail).skip(i as int) =~= p.skip(i as int) + tail);
                                }
                                return Ok((index + i, Serialized::Continue));
                            },
                            Serialized::Done => {
                                index += i;
                                self.serialize_element = true;
                                self.separator.reset();
                                proof {
                                    assert((p + tail).skip(i as int) =~= tail);
                                    assert(self.pending() =~= tail);
                                    lemma_separator_turn(before, *self, room, i as nat);
                                    lemma_shifted_twice((index - i) as nat, i as nat, self.outcome((room - i) as nat));
                                }
                            },
                        }
                    },
                }
            }
        }
    }
}

/// A number that is written as its upper case hexadecimal text.
pub struct PrintUpperHex<T> {
    pub value: T,
}

/// The text is written at once, or none of it where the buffer has no room
/// for all.
impl Serializer for PrintUpperHex<u64> {
    open spec fn wf(&self) -> bool {
        true
    }

    open spec fn pending(&self) -> Seq<u8> {
        upper_hex(self.value as nat)
    }

    open spec fn rewound(&self) -> Seq<u8> {
        upper_hex(self.value as nat)
    }

    open spec fn outcome(&self, room: nat) -> Result<(nat, Serialized), GenError> {
        whole(upper_hex(self.value as nat).len(), room)
    }

    open spec fn rewound_outcome(&self, room: nat) -> Result<(nat, Serialized), GenError> {
        whole(upper_hex(self.value as nat).len(), room)
    }

    fn serialize(&mut self, output: &mut [u8]) -> (r: Result<(usize, Serialized), GenError>)
        ensures
            *final(self) == *old(self),
            old(output)@.len() < upper_hex(old(self).value as nat).len() ==> r == Ok::<(usize, Serialized), GenError>(
                (0, Serialized::Continue),
            ) && final(output)@ == old(output)@,
            old(output)@.len() >= upper_hex(old(self).value as nat).len() ==> r == Ok::<(usize, Serialized), GenError>(
                (upper_hex(old(self).value as nat).len() as usize, Serialized::Done),
            ),
    {
        let text = upper_hex_text(self.value);
        let n = text.len();
        if output.len() < n {
            assert(output@.take(0) =~= self.pending().take(0));
            assert(self.pending().skip(0) =~= self.pending());
            Ok((0, Serialized::Continue))
        } else {
            copy_at(output, 0, text.as_slice());
            assert(output@.take(n as int) =~= self.pending().take(n as int));
            assert(output@.skip(n as int) =~= old(output)@.skip(n as int));
            Ok((n, Serialized::Done))
        }
    }
}

/// The numbers that can be written as hexadecimal text.
pub trait PrintUpperHexSr: Sized + Copy {
    fn hex(self) -> (r: PrintUpperHex<Self>)
        ensures
            r.value == self,
    ;
}

impl PrintUpperHexSr for u64 {
    fn hex(self) -> (r: PrintUpperHex<u64>) {
        PrintUpperHex { value: self }
    }
}

/// What a length that was written into the bytes left free for it makes of
/// the whole: the error of its serializer, `InvalidOffset` where that did not
/// get done, and else `total` bytes written and all done.
pub open spec fn closed_by_length(length: Result<(nat, Serialized), GenError>, total: nat) -> Result<
    (nat, Serialized),
    GenError,
> {
    match length {
        Err(e) => Err(e),
        Ok((_, Serialized::Continue)) => Err(GenError::InvalidOffset),
        Ok((_, Serialized::Done)) => Ok((total, Serialized::Done)),
    }
}

/// `r` is what a value with its length returns where the value, on the room
/// behind the `skip` bytes that are left free, returns `value`: the error of
/// the value; nothing written and not done where the value is not done; and
/// where it is done with `i` bytes, what `closed_by_length` makes of the
/// serializer that `length` gives for `i`, run on the `skip` bytes.
pub open spec fn length_value_told<A: Serializer, L: Fn(usize) -> A>(
    value: Result<(nat, Serialized), GenError>,
    length: L,
    skip: usize,
    r: Result<(usize, Serialized), GenError>,
) -> bool {
    match value {
        Err(e) => r == Err::<(usize, Serialized), GenError>(e),
        Ok((_, Serialized::Continue)) => r == Ok::<(usize, Serialized), GenError>((0, Serialized::Continue)),
        Ok((i, Serialized::Done)) => exists|a: A| #[trigger]
            length.ensures((i as usize,), a) && told(r) == closed_by_length(a.outcome(skip as nat), (skip + i) as nat),
    }
}

/// A value with its length before it: `skip` bytes are left free for the
/// length, the value is written behind them, and then the serializer that
/// `length` gives for the number of bytes of the value is written into the
/// bytes that were left free.
pub struct LengthValue<B, L> {
    pub skip: usize,
    pub length: L,
    pub value: B,
}

impl<A: Serializer, B: Serializer, L: Fn(usize) -> A> LengthValue<B, L> {
    pub fn new(skip: usize, length: L, value: B) -> (l: Self)
        ensures
            l.skip == skip,
            l.length == length,
            l.value == value,
    {
        LengthValue { skip, length, value }
    }

    /// Writes the value and its length at once.
    ///
    /// Where the value is not done within the buffer, nothing counts as
    /// written: the result is `(0, Continue)`, though the value has gone on
    /// by what it wrote behind the bytes that were left free. Where the value
    /// is done, the length is written to the front; a length that does not get
    /// done within the bytes left free for it gives `InvalidOffset`.
    pub fn serialize(&mut self, output: &mut [u8]) -> (r: Result<(usize, Serialized), GenError>)
        requires
            old(self).skip <= old(output)@.len(),
            old(self).value.wf(),
            forall|i: usize| #[trigger] call_requires(old(self).length, (i,)),
            forall|i: usize, a: A| #[trigger] call_ensures(old(self).length, (i,), a) ==> a.wf(),
        ensures
            length_value_told(
                old(self).value.outcome((old(output)@.len() - old(self).skip) as nat),
                old(self).length,
                old(self).skip,
                r,
            ),
            final(self).skip == old(self).skip,
            final(self).length == old(self).length,
            final(self).value.wf(),
            final(output)@.len() == old(output)@.len(),
            r matches Ok((n, Serialized::Continue)) ==> {
                &&& n == 0
                &&& exists|k: int|
                    0 <= k <= old(self).value.pending().len() && final(self).value.pending()
                        == #[trigger] old(self).value.pending().skip(k)
            },
            r matches Ok((n, Serialized::Done)) ==> {
                let i = old(self).value.pending().len();
                &&& n == old(self).skip + i
                &&& final(output)@.subrange(old(self).skip as int, n as int) == old(self).value.pending()
                &&& final(output)@.skip(n as int) == old(output)@.skip(n as int)
                &&& exists|a: A|
                    {
                        &&& #[trigger] call_ensures(old(self).length, (i as usize,), a)
                        &&& a.pending().len() <= old(self).skip
                        &&& final(output)@.take(a.pending().len() as int) == a.pending()
                        &&& final(output)@.subrange(a.pending().len() as int, old(self).skip as int) == old(
                            output,
                        )@.subrange(a.pending().len() as int, old(self).skip as int)
                    }
            },
    {
        let total = output.len();
        let skip = self.skip;
        let (front, back) = output.split_at_mut(skip);
        let ghost value0 = self.value;
        let ghost room = (total - skip) as nat;
        let first = self.value.serialize(back);
        assert(told(first) == value0.outcome(room));
        match first {
            Err(e) => Err(e),
            Ok((i, Serialized::Continue)) => {
                assert(self.value.pending() == value0.pending().skip(i as int));
                Ok((0, Serialized::Continue))
            },
            Ok((i, Serialized::Done)) => {
                let mut length = (self.length)(i);
                let ghost a = length;
                assert(call_ensures(old(self).length, ((i as nat) as usize,), a));
                let second = length.serialize(front);
                assert(told(second) == a.outcome(skip as nat));
                match second {
                    Err(e) => {
                        let r = Err(e);
                        assert(told(r) == closed_by_length(a.outcome(skip as nat), (skip + i) as nat));
                        r
                    },
                    Ok((_, Serialized::Continue)) => {
                        let r = Err(GenError::InvalidOffset);
                        assert(told(r) == closed_by_length(a.outcome(skip as nat), (skip + i) as nat));
                        r
                    },
                    Ok((l, Serialized::Done)) => {
                        proof {
                            let n = (skip + i) as int;
                            let out = front@ + back@;
                            assert(out.subrange(skip as int, n) =~= back@.take(i as int));
                            assert(value0.pending().take(i as int) =~= value0.pending());
                            assert(out.skip(n) =~= back@.skip(i as int));
                            assert(old(output)@.skip(n) =~= old(output)@.skip(skip as int).skip(i as int));
                            assert(a.pending().take(l as int) =~= a.pending());
                            assert(out.take(l as int) =~= front@.take(l as int));
                            assert(out.subrange(l as int, skip as int) =~= front@.skip(l as int));
                            assert(old(output)@.subrange(l as int, skip as int) =~= old(output)@.take(
                                skip as int,
                            ).skip(l as int));
                            assert(call_ensures(old(self).length, (old(self).value.pending().len() as usize,), a));
                        }
                        let r = Ok((skip + i, Serialized::Done));
                        assert(told(r) == closed_by_length(a.outcome(skip as nat), (skip + i) as nat));
                        r
                    },
                }
            },
        }
    }
}

pub fn length_value<A: Serializer, B: Serializer, L: Fn(usize) -> A>(skip: usize, length: L, value: B) -> (l: LengthValue<
    B,
    L,
>)
    ensures
        l.skip == skip,
        l.length == length,
        l.value == value,
{
    LengthValue::new(skip, length, value)
}

} // verus!
