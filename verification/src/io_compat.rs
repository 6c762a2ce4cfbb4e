//! The byte sinks that serializers write into, and the capabilities they offer.
//!
//! A sink is handed to a serializer by value and comes back by value, so every
//! operation here takes the sink and returns it.
use vstd::prelude::*;

verus! {

/// There is no real I/O error on a byte buffer.
pub type Error = ();

/// `dst` with `src` laid over it from index `at` on; `dst` itself where `src`
/// does not fit there.
pub open spec fn overlay(dst: Seq<u8>, at: int, src: Seq<u8>) -> Seq<u8> {
    if 0 <= at && at + src.len() <= dst.len() {
        dst.take(at) + src + dst.skip(at + src.len())
    } else {
        dst
    }
}

/// Copies `src` over the bytes of `dst` that start at `at`.
pub fn copy_at(dst: &mut [u8], at: usize, src: &[u8])
    requires
        at + src@.len() <= old(dst)@.len(),
    ensures
        final(dst)@ == overlay(old(dst)@, at as int, src@),
{
    let n = src.len();
    let total = dst.len();
    let mut i: usize = 0;
    while i < n
        invariant
            i <= n,
            n == src@.len(),
            at + n <= total,
            dst@.len() == total,
            total == old(dst)@.len(),
            forall|j: int| 0 <= j < at ==> dst@[j] == old(dst)@[j],
            forall|j: int| at <= j < at + i ==> dst@[j] == src@[j - at],
            forall|j: int| at + i <= j < dst@.len() ==> dst@[j] == old(dst)@[j],
        decreases n - i,
    {
        dst[at + i] = src[i];
        i += 1;
    }
    assert(dst@ =~= overlay(old(dst)@, at as int, src@));
}

/// A sink that accepts bytes.
///
/// `write` takes bytes from the front of `buf` and returns how many it took.
/// A sink of fixed size tells through `room` how many bytes it can still
/// take, so that a serializer sees beforehand whether a payload fits.
pub trait Write: Sized {
    /// Whether `len` more bytes may be offered to the sink.
    spec fn ready(&self, len: nat) -> bool;

    /// The number of bytes that the sink can still take, for a sink of fixed
    /// size; none for a sink that tells no such number.
    spec fn spare(&self) -> Option<nat>;

    /// The number of bytes that the sink can still take, where it tells one.
    fn room(&self) -> (r: Option<usize>)
        ensures
            self.spare() == match r {
                Some(n) => Some(n as nat),
                None => None::<nat>,
            },
    ;

    fn write(self, buf: &[u8]) -> (r: (Self, Result<usize, Error>))
        requires
            self.ready(buf@.len()),
        ensures
            r.1 matches Ok(n) ==> n <= buf@.len(),
    ;
}

/// `post` and `r` are an outcome that `pre.write(data)` may have. For a given
/// sink type the `ensures` of its `write` say what follows from that.
pub open spec fn write_outcome<W: Write>(pre: W, data: &[u8], post: W, r: Result<usize, Error>) -> bool {
    call_ensures(W::write, (pre, data), (post, r))
}

/// The smaller of two numbers.
pub open spec fn least(a: nat, b: nat) -> nat {
    if a <= b {
        a
    } else {
        b
    }
}

/// A fixed span of bytes. Writing fills its front with as many bytes of the
/// payload as it has room for, and leaves the rest of the span as the sink.
impl<'a> Write for &'a mut [u8] {
    open spec fn ready(&self, len: nat) -> bool {
        true
    }

    open spec fn spare(&self) -> Option<nat> {
        Some(self@.len())
    }

    fn room(&self) -> (r: Option<usize>) {
        Some(self.len())
    }

    fn write(self, buf: &[u8]) -> (r: (Self, Result<usize, Error>))
        ensures
            r.1 == Ok::<usize, Error>(least(buf@.len(), old(self)@.len()) as usize),
            r.0@ == old(self)@.skip(least(buf@.len(), old(self)@.len()) as int),
            final(self)@ == buf@.take(least(buf@.len(), old(self)@.len()) as int) + final(r.0)@,
    {
        let room = self.len();
        let amt = if buf.len() <= room { buf.len() } else { room };
        let (now, _) = buf.split_at(amt);
        let (a, b) = self.split_at_mut(amt);
        copy_at(a, 0, now);
        proof {
            assert(now@ =~= buf@.take(amt as int));
            assert(overlay(old(self)@.subrange(0, amt as int), 0, now@) =~= now@);
        }
        (b, Ok(amt))
    }
}

/// A growable buffer. Writing appends, and always takes the whole payload.
impl Write for Vec<u8> {
    open spec fn ready(&self, len: nat) -> bool {
        true
    }

    open spec fn spare(&self) -> Option<nat> {
        None
    }

    fn room(&self) -> (r: Option<usize>) {
        None
    }

    fn write(self, buf: &[u8]) -> (r: (Self, Result<usize, Error>))
        ensures
            r.1 == Ok::<usize, Error>(buf@.len() as usize),
            r.0@ == self@ + buf@,
    {
        let mut v = self;
        v.extend_from_slice(buf);
        assert(v@ =~= self@ + buf@);
        (v, Ok(buf.len()))
    }
}

/// A position to seek to.
pub enum SeekFrom {
    /// An absolute position, counted from the start.
    Start(u64),
    /// An offset from the current position.
    Current(i64),
}

/// The position that a seek from `from` arrives at.
pub open spec fn seek_target(from: u64, pos: SeekFrom) -> int {
    match pos {
        SeekFrom::Start(n) => n as int,
        SeekFrom::Current(d) => from + d,
    }
}

/// A sink with a position that can be set.
pub trait Seek: Sized {
    /// Whether the sink can seek to `pos`.
    spec fn can_seek(&self, pos: SeekFrom) -> bool;

    fn seek(self, pos: SeekFrom) -> (r: (Self, Result<u64, Error>))
        requires
            self.can_seek(pos),
    ;
}

/// `post` and `r` are an outcome that `pre.seek(pos)` may have.
pub open spec fn seek_outcome<S: Seek>(pre: S, pos: SeekFrom, post: S, r: Result<u64, Error>) -> bool {
    call_ensures(S::seek, (pre, pos), (post, r))
}

/// The current position of `s`: a seek by zero bytes.
pub fn stream_position<S: Seek>(s: S) -> (r: (S, Result<u64, Error>))
    requires
        s.can_seek(SeekFrom::Current(0)),
    ensures
        seek_outcome(s, SeekFrom::Current(0), r.0, r.1),
{
    s.seek(SeekFrom::Current(0))
}

/// A span of bytes together with the position at which the next write goes.
pub struct Cursor<T>(pub T, pub u64);

impl<'a> Cursor<&'a mut [u8]> {
    /// The bytes between the position and the end of the span.
    pub open spec fn free(&self) -> nat {
        if self.1 <= self.0@.len() {
            (self.0@.len() - self.1) as nat
        } else {
            0
        }
    }

    pub fn new(inner: &'a mut [u8]) -> (c: Self)
        ensures
            c.0@ == old(inner)@,
            c.1 == 0,
            final(inner)@ == final(c.0)@,
    {
        Cursor(inner, 0)
    }

    pub fn into_inner(self) -> (inner: &'a mut [u8])
        ensures
            inner@ == old(self.0)@,
            final(self.0)@ == final(inner)@,
    {
        self.0
    }

    pub fn position(&self) -> (p: u64)
        ensures
            p == self.1,
    {
        self.1
    }

    pub fn set_position(&mut self, pos: u64)
        ensures
            final(self).1 == pos,
            final(self).0@ == old(self).0@,
            final(final(self).0)@ == final(old(self).0)@,
    {
        self.1 = pos;
    }

    pub fn get_mut(&mut self) -> (r: &mut [u8])
        ensures
            r@ == old(self).0@,
            final(self).0@ == final(r)@,
            final(self).1 == old(self).1,
            final(final(self).0)@ == final(old(self).0)@,
    {
        &mut *self.0
    }

    pub fn get_ref(&self) -> (r: &[u8])
        ensures
            r@ == old(self.0)@,
    {
        self.0
    }
}

/// Writing puts as many bytes of the payload as lie between the position and
/// the end of the span at the position, and moves the position past them.
impl<'a> Write for Cursor<&'a mut [u8]> {
    open spec fn ready(&self, len: nat) -> bool {
        true
    }

    open spec fn spare(&self) -> Option<nat> {
        Some(self.free())
    }

    fn room(&self) -> (r: Option<usize>) {
        let len = self.0.len();
        if self.1 <= len as u64 {
            Some(len - self.1 as usize)
        } else {
            Some(0)
        }
    }

    fn write(self, buf: &[u8]) -> (r: (Self, Result<usize, Error>))
        ensures
            final(self.0)@ == final(r.0.0)@,
            r.1 == Ok::<usize, Error>(least(buf@.len(), self.free()) as usize),
            r.0.0@ == overlay(old(self.0)@, self.1 as int, buf@.take(least(buf@.len(), self.free()) as int)),
            r.0.1 == self.1 + least(buf@.len(), self.free()),
    {
        let Cursor(inner, pos) = self;
        let len = inner.len();
        let room: usize = if pos <= len as u64 { len - pos as usize } else { 0 };
        let amt = if buf.len() <= room { buf.len() } else { room };
        let (now, _) = buf.split_at(amt);
        assert(now@ =~= buf@.take(amt as int));
        if amt == 0 {
            assert(overlay(inner@, pos as int, now@) =~= inner@);
            return (Cursor(inner, pos), Ok(0));
        }
        copy_at(inner, pos as usize, now);
        (Cursor(inner, pos + amt as u64), Ok(amt))
    }
}

impl<'a> Seek for Cursor<&'a mut [u8]> {
    open spec fn can_seek(&self, pos: SeekFrom) -> bool {
        0 <= seek_target(self.1, pos) <= u64::MAX
    }

    fn seek(self, pos: SeekFrom) -> (r: (Self, Result<u64, Error>))
        ensures
            r.1 == Ok::<u64, Error>(seek_target(self.1, pos) as u64),
            r.0.1 == seek_target(self.1, pos),
            r.0.0@ == old(self.0)@,
            final(self.0)@ == final(r.0.0)@,
    {
        let Cursor(inner, start) = self;
        let n: u64 = match pos {
            SeekFrom::Start(n) => n,
            SeekFrom::Current(offset) => {
                if offset >= 0 {
                    start + offset as u64
                } else {
                    let back: u64 = if offset == i64::MIN {
                        0x8000_0000_0000_0000
                    } else {
                        (-offset) as u64
                    };
                    start - back
                }
            },
        };
        (Cursor(inner, n), Ok(n))
    }
}

} // verus!
