//! Main structures and traits used to build serializers.
use vstd::prelude::*;
use crate::io_compat::{copy_at, overlay, seek_outcome, stream_position, write_outcome, Cursor, Error, SeekFrom, Write};

verus! {

/// Base type for generator errors.
#[derive(Debug, Clone, Copy, PartialEq, Eq)]
pub enum GenError {
    /// The sink is too small. Argument is the additional room that is required.
    BufferTooSmall(usize),
    /// We expected to fill the whole reserved space but there is some left.
    BufferTooBig(usize),
    /// Operation asked for accessing an invalid index.
    InvalidOffset,
    /// Error returned by the sink.
    IoError(Error),
    /// Allocated for custom errors.
    CustomError(u32),
    /// Generator or function not yet implemented.
    NotYetImplemented,
}

/// Context around a sink that is passed through serializing functions.
///
/// It keeps track of the current write position since the start of
/// serialization.
pub struct WriteContext<W> {
    pub write: W,
    pub position: u64,
}

/// Holds the result of serializing functions: the context to go on with, or
/// the error of the serializer that failed.
pub type GenResult<W> = Result<WriteContext<W>, GenError>;

/// Trait for serializing functions.
///
/// It is implemented for all `Fn(WriteContext<W>) -> GenResult<W>`.
pub trait SerializeFn<W>: Fn(WriteContext<W>) -> GenResult<W> {}

impl<W, F: Fn(WriteContext<W>) -> GenResult<W>> SerializeFn<W> for F {}

/// The context that a run on the sink `w` starts with.
pub open spec fn start<W>(w: W) -> WriteContext<W> {
    WriteContext { write: w, position: 0 }
}

impl<W: Write> From<W> for WriteContext<W> {
    fn from(write: W) -> (c: Self) {
        Self { write, position: 0 }
    }
}

impl<W: Write> vstd::std_specs::convert::FromSpecImpl<W> for WriteContext<W> {
    open spec fn obeys_from_spec() -> bool {
        true
    }

    open spec fn from_spec(write: W) -> Self {
        start(write)
    }
}

impl<W: Write> WriteContext<W> {
    /// Returns the contained sink and the current position.
    pub fn into_inner(self) -> (r: (W, u64))
        ensures
            r == (self.write, self.position),
    {
        (self.write, self.position)
    }
}

/// A context is itself a sink: it hands the bytes to the sink it holds and
/// adds the number of those that were taken to its position.
impl<W: Write> Write for WriteContext<W> {
    open spec fn ready(&self, len: nat) -> bool {
        self.write.ready(len) && self.position + len <= u64::MAX
    }

    open spec fn spare(&self) -> Option<nat> {
        self.write.spare()
    }

    fn room(&self) -> (r: Option<usize>) {
        self.write.room()
    }

    fn write(self, buf: &[u8]) -> (r: (Self, Result<usize, Error>))
        ensures
            write_outcome(self.write, buf, r.0.write, r.1),
            r.0.position == self.position + match r.1 {
                Ok(n) => n as int,
                Err(_) => 0,
            },
    {
        let WriteContext { write, position } = self;
        let (write, r) = write.write(buf);
        match r {
            Ok(amt) => (WriteContext { write, position: position + amt as u64 }, Ok(amt)),
            Err(e) => (WriteContext { write, position }, Err(e)),
        }
    }
}

/// What `gen` makes of the result `r` of a serializer.
pub open spec fn unwrapped<W>(r: Result<(W, u64), GenError>) -> GenResult<W> {
    match r {
        Ok((w, position)) => Ok(WriteContext { write: w, position }),
        Err(e) => Err(e),
    }
}

/// Runs the given serializer `f` with the sink `w` and returns the sink
/// together with the number of bytes that went into it.
///
/// This internally wraps `w` in a `WriteContext`, starting at position 0.
pub fn gen<W: Write, F: SerializeFn<W>>(f: F, w: W) -> (r: Result<(W, u64), GenError>)
    requires
        f.requires((start(w),)),
    ensures
        f.ensures((start(w),), unwrapped(r)),
{
    match f(WriteContext::from(w)) {
        Ok(ctx) => Ok(ctx.into_inner()),
        Err(e) => Err(e),
    }
}

/// The result `r` of `gen_simple` with the position put back beside the sink.
pub open spec fn with_position<W>(r: Result<W, GenError>, position: u64) -> Result<(W, u64), GenError> {
    match r {
        Ok(w) => Ok((w, position)),
        Err(e) => Err(e),
    }
}

/// Runs the given serializer `f` with the sink `w` and returns the updated `w`.
///
/// This internally wraps `w` in a `WriteContext`, starting at position 0.
pub fn gen_simple<W: Write, F: SerializeFn<W>>(f: F, w: W) -> (r: Result<W, GenError>)
    requires
        f.requires((start(w),)),
    ensures
        exists|position: u64| f.ensures((start(w),), #[trigger] unwrapped(with_position(r, position))),
{
    match f(WriteContext::from(w)) {
        Ok(ctx) => {
            let (w2, position) = ctx.into_inner();
            assert(unwrapped(with_position(Ok::<W, GenError>(w2), position)) == Ok::<WriteContext<W>, GenError>(ctx));
            Ok(w2)
        },
        Err(e) => {
            assert(unwrapped(with_position(Err::<W, GenError>(e), 0)) == Err::<WriteContext<W>, GenError>(e));
            Err(e)
        },
    }
}

/// Lets go of `t`.
pub fn release<T>(t: T)
    ensures
        has_resolved(t),
{
}

/// `t` was let go: what it borrowed keeps the contents that it had then.
pub open spec fn released<T>(t: T) -> bool {
    call_ensures(release::<T>, (t,), ())
}

impl From<Error> for GenError {
    fn from(err: Error) -> (e: Self) {
        GenError::IoError(err)
    }
}

impl vstd::std_specs::convert::FromSpecImpl<Error> for GenError {
    open spec fn obeys_from_spec() -> bool {
        true
    }

    open spec fn from_spec(err: Error) -> Self {
        GenError::IoError(err)
    }
}

/// `post` and `r` are an outcome of a seek of the context `pre` to `pos`: the
/// sink is asked where it stands, then it seeks, and the context's position
/// moves by as much as the sink's.
pub open spec fn context_seek<W: crate::io_compat::Seek>(
    pre: WriteContext<W>,
    pos: SeekFrom,
    post: WriteContext<W>,
    r: Result<u64, Error>,
) -> bool {
    exists|w1: W, r0: Result<u64, Error>| #[trigger]
        seek_outcome(pre.write, SeekFrom::Current(0), w1, r0) && match r0 {
            Err(e) => r == Err::<u64, Error>(e) && post == (WriteContext { write: w1, position: pre.position }),
            Ok(p0) => seek_outcome(w1, pos, post.write, r) && post.position == match r {
                Ok(p1) => pre.position + p1 - p0,
                Err(_) => pre.position as int,
            },
        }
}

impl<W: crate::io_compat::Seek> crate::io_compat::Seek for WriteContext<W> {
    open spec fn can_seek(&self, pos: SeekFrom) -> bool {
        &&& self.write.can_seek(SeekFrom::Current(0))
        &&& forall|w1: W, p0: u64| #[trigger]
            seek_outcome(self.write, SeekFrom::Current(0), w1, Ok(p0)) ==> {
                &&& w1.can_seek(pos)
                &&& forall|w2: W, p1: u64| #[trigger]
                    seek_outcome(w1, pos, w2, Ok(p1)) ==> 0 <= self.position + p1 - p0 <= u64::MAX
            }
    }

    fn seek(self, pos: SeekFrom) -> (r: (Self, Result<u64, Error>))
        ensures
            context_seek(self, pos, r.0, r.1),
    {
        let WriteContext { write, position } = self;
        let (w1, r0) = stream_position(write);
        assert(seek_outcome(self.write, SeekFrom::Current(0), w1, r0));
        match r0 {
            Err(e) => (WriteContext { write: w1, position }, Err(e)),
            Ok(old_pos) => {
                let (w2, r1) = w1.seek(pos);
                assert(seek_outcome(w1, pos, w2, r1));
                match r1 {
                    Err(e) => (WriteContext { write: w2, position }, Err(e)),
                    Ok(new_pos) => {
                        let position = if new_pos >= old_pos {
                            position + (new_pos - old_pos)
                        } else {
                            position - (old_pos - new_pos)
                        };
                        (WriteContext { write: w2, position }, Ok(new_pos))
                    },
                }
            },
        }
    }
}

/// Trait for sinks that allow skipping over the data.
pub trait Skip: Write {
    fn skip(s: WriteContext<Self>, sz: usize) -> (r: GenResult<Self>)
        requires
            s.position + sz <= u64::MAX,
    ;
}

/// `r` is a result that skipping `sz` bytes of the context `s` may have. For
/// a given sink type the `ensures` of its `skip` say what follows from that.
pub open spec fn skip_outcome<W: Skip>(s: WriteContext<W>, sz: usize, r: GenResult<W>) -> bool {
    call_ensures(W::skip, (s, sz), r)
}

/// Skipping drops the first `len` bytes of the span from the sink. Nothing is
/// said of what those bytes hold afterwards.
impl<'a> Skip for &'a mut [u8] {
    fn skip(s: WriteContext<Self>, len: usize) -> (r: GenResult<Self>)
        ensures
            old(s.write)@.len() < len ==> {
                &&& r == Err::<WriteContext<Self>, GenError>(GenError::BufferTooSmall((len - old(s.write)@.len()) as usize))
                &&& final(s.write)@ == old(s.write)@
            },
            old(s.write)@.len() >= len ==> {
                &&& r is Ok
                &&& r->Ok_0.position == s.position + len
                &&& r->Ok_0.write@ == old(s.write)@.skip(len as int)
                &&& final(s.write)@.len() == len + final(r->Ok_0.write)@.len()
                &&& final(s.write)@.skip(len as int) == final(r->Ok_0.write)@
            },
    {
        let WriteContext { write, position } = s;
        let room = write.len();
        if room < len {
            Err(GenError::BufferTooSmall(len - room))
        } else {
            let (skipped, rest) = write.split_at_mut(len);
            assert(final(skipped)@ == skipped@);
            assert((final(skipped)@ + final(rest)@).skip(len as int) =~= final(rest)@);
            Ok(WriteContext { write: rest, position: position + len as u64 })
        }
    }
}

/// Skipping moves the position forward by `len` bytes, where that many lie
/// between the position and the end of the span.
impl<'a> Skip for Cursor<&'a mut [u8]> {
    fn skip(s: WriteContext<Self>, len: usize) -> (r: GenResult<Self>)
        ensures
            s.write.free() < len ==> {
                &&& r == Err::<WriteContext<Self>, GenError>(GenError::BufferTooSmall((len - s.write.free()) as usize))
                &&& final(s.write.0)@ == old(s.write.0)@
            },
            s.write.free() >= len ==> {
                &&& r is Ok
                &&& r->Ok_0.position == s.position + len
                &&& r->Ok_0.write.1 == s.write.1 + len
                &&& r->Ok_0.write.0@ == old(s.write.0)@
                &&& final(s.write.0)@ == final(r->Ok_0.write.0)@
            },
    {
        let WriteContext { write, position } = s;
        let Cursor(inner, at) = write;
        let total = inner.len();
        let remaining: usize = if at <= total as u64 { total - at as usize } else { 0 };
        if remaining < len {
            Err(GenError::BufferTooSmall(len - remaining))
        } else {
            Ok(WriteContext { write: Cursor(inner, at + len as u64), position: position + len as u64 })
        }
    }
}

/// Trait for sinks that allow setting a span aside, then writing some data,
/// then writing into the span that was set aside with what the data write
/// returned.
///
/// `gen` runs on a context that stands behind the reserved span, `before` on one
/// that stands at it. `before` has to fill the span exactly: where it leaves
/// room, the result is `BufferTooBig`, whatever the sink.
pub trait BackToTheBuffer<Tmp, Gen, Before>: Write where
    Gen: Fn(WriteContext<Self>) -> Result<(WriteContext<Self>, Tmp), GenError>,
    Before: Fn(WriteContext<Self>, Tmp) -> GenResult<Self>,
 {
    /// Whether `reserved` bytes may be set aside in `s` and `gen` and `before`
    /// may be run on the contexts that they are then given.
    spec fn can_reserve(s: WriteContext<Self>, reserved: usize, gen: &Gen, before: &Before) -> bool;

    fn reserve_write_use(s: WriteContext<Self>, reserved: usize, gen: &Gen, before: &Before) -> (r: Result<
        WriteContext<Self>,
        GenError,
    >)
        requires
            Self::can_reserve(s, reserved, gen, before),
    ;
}

/// `r` is a result that `reserve_write_use` may have. For a given sink type
/// the `ensures` of its `reserve_write_use` say what follows from that.
pub open spec fn reserve_outcome<W, Tmp, Gen, Before>(
    s: WriteContext<W>,
    reserved: usize,
    gen: &Gen,
    before: &Before,
    r: GenResult<W>,
) -> bool where
    W: BackToTheBuffer<Tmp, Gen, Before>,
    Gen: Fn(WriteContext<W>) -> Result<(WriteContext<W>, Tmp), GenError>,
    Before: Fn(WriteContext<W>, Tmp) -> GenResult<W>,
 {
    call_ensures(W::reserve_write_use, (s, reserved, gen, before), r)
}

/// The two-pass run on a span that was split in two: `gen` runs on `after`,
/// which stands on the part behind the reservation, then `before` on `at`,
/// which stands on the reserved part. An error of either is the result. Where
/// `before` has left room in the reserved part the result is `BufferTooBig`
/// with the room that is left. Else the result is the context that `gen`
/// returned. Each context that is not returned is let go.
pub open spec fn span_backpatched<'a, Tmp, Gen, Before>(
    at: WriteContext<&'a mut [u8]>,
    after: WriteContext<&'a mut [u8]>,
    gen: &Gen,
    before: &Before,
    r: GenResult<&'a mut [u8]>,
) -> bool where
    Gen: Fn(WriteContext<&'a mut [u8]>) -> Result<(WriteContext<&'a mut [u8]>, Tmp), GenError>,
    Before: Fn(WriteContext<&'a mut [u8]>, Tmp) -> GenResult<&'a mut [u8]>,
 {
    exists|g: Result<(WriteContext<&'a mut [u8]>, Tmp), GenError>| #[trigger]
        gen.ensures((after,), g) && match g {
            Err(e) => r == Err::<WriteContext<&'a mut [u8]>, GenError>(e) && released(at),
            Ok((filled, tmp)) => exists|b: GenResult<&'a mut [u8]>| #[trigger]
                before.ensures((at, tmp), b) && match b {
                    Err(e) => r == Err::<WriteContext<&'a mut [u8]>, GenError>(e) && released(filled),
                    Ok(patched) => released(patched) && if patched.write@.len() != 0 {
                        &&& r == Err::<WriteContext<&'a mut [u8]>, GenError>(
                            GenError::BufferTooBig(patched.write@.len() as usize),
                        )
                        &&& released(filled)
                    } else {
                        r == Ok::<WriteContext<&'a mut [u8]>, GenError>(filled)
                    },
                },
        }
}

/// On a span the reserved part and the part behind it are the two halves of
/// the span, split in place.
impl<'a, Tmp, Gen, Before> BackToTheBuffer<Tmp, Gen, Before> for &'a mut [u8] where
    Gen: Fn(WriteContext<Self>) -> Result<(WriteContext<Self>, Tmp), GenError>,
    Before: Fn(WriteContext<Self>, Tmp) -> GenResult<Self>,
 {
    open spec fn can_reserve(s: WriteContext<Self>, reserved: usize, gen: &Gen, before: &Before) -> bool {
        &&& reserved <= s.write@.len()
        &&& s.position + reserved <= u64::MAX
        &&& forall|after: WriteContext<Self>|
            after.position == s.position + reserved && after.write@ == s.write@.skip(reserved as int)
                ==> #[trigger] gen.requires((after,))
        &&& forall|at: WriteContext<Self>, after: WriteContext<Self>, filled: WriteContext<Self>, tmp: Tmp|
            #![trigger gen.ensures((after,), Ok((filled, tmp))), before.requires((at, tmp))]
            {
                &&& at.position == s.position
                &&& at.write@ == s.write@.take(reserved as int)
                &&& after.position == s.position + reserved
                &&& after.write@ == s.write@.skip(reserved as int)
                &&& gen.ensures((after,), Ok((filled, tmp)))
            } ==> before.requires((at, tmp))
    }

    fn reserve_write_use(s: WriteContext<Self>, reserved: usize, gen: &Gen, before: &Before) -> (r: Result<
        WriteContext<Self>,
        GenError,
    >)
        ensures
            exists|at: WriteContext<Self>, after: WriteContext<Self>|
                {
                    &&& at.position == s.position
                    &&& at.write@ == old(s.write)@.take(reserved as int)
                    &&& after.position == s.position + reserved
                    &&& after.write@ == old(s.write)@.skip(reserved as int)
                    &&& final(s.write)@ == final(at.write)@ + final(after.write)@
                    &&& #[trigger] span_backpatched(at, after, gen, before, r)
                },
    {
        let WriteContext { write: slice, position: original_position } = s;
        let (res, buf) = slice.split_at_mut(reserved);
        let after = WriteContext { write: buf, position: original_position + reserved as u64 };
        let at = WriteContext { write: res, position: original_position };
        let ghost after0 = after;
        let ghost at0 = at;
        let r = match gen(after) {
            Err(e) => {
                release(at);
                Err(e)
            },
            Ok((new_context, tmp)) => {
                match before(at, tmp) {
                    Err(e) => {
                        release(new_context);
                        Err(e)
                    },
                    Ok(res) => {
                        if !res.write.is_empty() {
                            let left = res.write.len();
                            release(res);
                            release(new_context);
                            Err(GenError::BufferTooBig(left))
                        } else {
                            release(res);
                            Ok(new_context)
                        }
                    },
                }
            },
        };
        assert(span_backpatched(at0, after0, gen, before, r));
        r
    }
}

/// `n` bytes of zero.
pub open spec fn zeros(n: nat) -> Seq<u8> {
    Seq::new(n, |i: int| 0u8)
}

/// How much of the reservation was left unfilled when it should have been
/// filled up to `begin` and was filled up to `pos`; 0 where `pos` lies behind
/// `begin`.
pub open spec fn shortfall(begin: int, pos: int) -> usize {
    if pos >= begin {
        0
    } else if begin - pos > usize::MAX {
        usize::MAX
    } else {
        (begin - pos) as usize
    }
}

/// The two-pass run on a growable buffer: `reserved` zero bytes are appended
/// as a placeholder and `gen` runs on the buffer so extended; `before` runs on
/// an empty scratch buffer at the position of the placeholder. An error of
/// either is the result. Where `before` has not written exactly `reserved`
/// bytes the result is `BufferTooBig`. Else the result is the context that
/// `gen` returned, with the scratch bytes laid over the placeholder.
pub open spec fn vec_backpatched<Tmp, Gen, Before>(
    s: WriteContext<Vec<u8>>,
    reserved: usize,
    gen: &Gen,
    before: &Before,
    r: GenResult<Vec<u8>>,
) -> bool where
    Gen: Fn(WriteContext<Vec<u8>>) -> Result<(WriteContext<Vec<u8>>, Tmp), GenError>,
    Before: Fn(WriteContext<Vec<u8>>, Tmp) -> GenResult<Vec<u8>>,
 {
    exists|after: WriteContext<Vec<u8>>, g: Result<(WriteContext<Vec<u8>>, Tmp), GenError>|
        {
            &&& after.position == s.position + reserved
            &&& after.write@ == s.write@ + zeros(reserved as nat)
            &&& #[trigger] gen.ensures((after,), g)
            &&& match g {
                Err(e) => r == Err::<WriteContext<Vec<u8>>, GenError>(e),
                Ok((filled, tmp)) => exists|at: WriteContext<Vec<u8>>, b: GenResult<Vec<u8>>|
                    {
                        &&& at.position == s.position
                        &&& at.write@.len() == 0
                        &&& #[trigger] before.ensures((at, tmp), b)
                        &&& match b {
                            Err(e) => r == Err::<WriteContext<Vec<u8>>, GenError>(e),
                            Ok(patch) => if patch.write@.len() != reserved {
                                r == Err::<WriteContext<Vec<u8>>, GenError>(
                                    GenError::BufferTooBig(shortfall(reserved as int, patch.write@.len() as int)),
                                )
                            } else {
                                &&& r is Ok
                                &&& r->Ok_0.position == filled.position
                                &&& r->Ok_0.write@ == overlay(filled.write@, s.write@.len() as int, patch.write@)
                            },
                        }
                    },
            }
        }
}

/// On a growable buffer the reserved bytes are appended as a placeholder, and
/// the backpatch is written into a scratch buffer and then copied over the
/// placeholder.
impl<Tmp, Gen, Before> BackToTheBuffer<Tmp, Gen, Before> for Vec<u8> where
    Gen: Fn(WriteContext<Self>) -> Result<(WriteContext<Self>, Tmp), GenError>,
    Before: Fn(WriteContext<Self>, Tmp) -> GenResult<Self>,
 {
    open spec fn can_reserve(s: WriteContext<Self>, reserved: usize, gen: &Gen, before: &Before) -> bool {
        &&& s.position + reserved <= u64::MAX
        &&& forall|after: WriteContext<Self>|
            after.position == s.position + reserved && after.write@ == s.write@ + zeros(reserved as nat)
                ==> #[trigger] gen.requires((after,))
        &&& forall|after: WriteContext<Self>, filled: WriteContext<Self>, tmp: Tmp|
            {
                &&& after.position == s.position + reserved
                &&& after.write@ == s.write@ + zeros(reserved as nat)
                &&& #[trigger] gen.ensures((after,), Ok((filled, tmp)))
            } ==> filled.write@.len() >= s.write@.len() + reserved
        &&& forall|at: WriteContext<Self>, after: WriteContext<Self>, filled: WriteContext<Self>, tmp: Tmp|
            #![trigger gen.ensures((after,), Ok((filled, tmp))), before.requires((at, tmp))]
            {
                &&& at.position == s.position
                &&& at.write@.len() == 0
                &&& after.position == s.position + reserved
                &&& after.write@ == s.write@ + zeros(reserved as nat)
                &&& gen.ensures((after,), Ok((filled, tmp)))
            } ==> before.requires((at, tmp))
    }

    fn reserve_write_use(s: WriteContext<Self>, reserved: usize, gen: &Gen, before: &Before) -> (r: Result<
        WriteContext<Self>,
        GenError,
    >)
        ensures
            vec_backpatched(s, reserved, gen, before, r),
    {
        let WriteContext { write: mut vec, position: original_position } = s;
        let start_len = vec.len();
        let mut i: usize = 0;
        while i < reserved
            invariant
                i <= reserved,
                vec@ == s.write@ + zeros(i as nat),
            decreases reserved - i,
        {
            vec.push(0);
            i += 1;
            assert(vec@ =~= s.write@ + zeros(i as nat));
        }
        let after = WriteContext { write: vec, position: original_position + reserved as u64 };
        let g = gen(after);
        let r = match g {
            Err(e) => Err(e),
            Ok((new_context, tmp)) => {
                let at = WriteContext { write: Vec::new(), position: original_position };
                let b = before(at, tmp);
                assert(before.ensures((at, tmp), b));
                match b {
                    Err(e) => Err(e),
                    Ok(tmp_context) => {
                        let tmp_written = tmp_context.write.len();
                        if tmp_written != reserved {
                            Err(
                                GenError::BufferTooBig(
                                    if tmp_written < reserved {
                                        reserved - tmp_written
                                    } else {
                                        0
                                    },
                                ),
                            )
                        } else {
                            let WriteContext { write: mut filled, position } = new_context;
                            copy_at(filled.as_mut_slice(), start_len, tmp_context.write.as_slice());
                            Ok(WriteContext { write: filled, position })
                        }
                    },
                }
            },
        };
        assert(vec_backpatched(s, reserved, gen, before, r));
        r
    }
}

/// Trait for seekable sinks that get `BackToTheBuffer` from their seeks.
pub trait Seek: Write + crate::io_compat::Seek {

}

impl<'a> Seek for Cursor<&'a mut [u8]> {

}

/// The last step of the two-pass run on a seekable sink: `b3` is asked where
/// it stands. Where that is not `begin`, the end of the reservation, the
/// result is `BufferTooBig`; else the sink seeks to `end`, where `gen` had
/// arrived, and is the result. A failing seek gives `IoError`.
pub open spec fn seek_closed<W: crate::io_compat::Seek>(
    begin: u64,
    end: u64,
    b3: WriteContext<W>,
    r: GenResult<W>,
) -> bool {
    exists|b4: WriteContext<W>, r7: Result<u64, Error>| #[trigger]
        context_seek(b3, SeekFrom::Current(0), b4, r7) && match r7 {
            Err(e) => r == Err::<WriteContext<W>, GenError>(GenError::IoError(e)),
            Ok(pos) => if pos != begin {
                r == Err::<WriteContext<W>, GenError>(GenError::BufferTooBig(shortfall(begin as int, pos as int)))
            } else {
                exists|b5: WriteContext<W>, r9: Result<u64, Error>| #[trigger]
                    context_seek(b4, SeekFrom::Start(end), b5, r9) && r == match r9 {
                        Err(e) => Err::<WriteContext<W>, GenError>(GenError::IoError(e)),
                        Ok(_) => Ok(b5),
                    }
            },
        }
}

/// The middle steps of the two-pass run on a seekable sink: `buf`, as `gen`
/// returned it, is asked where it stands, seeks back to `start`, the start of
/// the reservation, and `before` runs on it with `tmp`.
pub open spec fn seek_patched<W: crate::io_compat::Seek, Tmp, Before>(
    start: u64,
    begin: u64,
    buf: WriteContext<W>,
    tmp: Tmp,
    before: &Before,
    r: GenResult<W>,
) -> bool where Before: Fn(WriteContext<W>, Tmp) -> GenResult<W> {
    exists|b1: WriteContext<W>, r4: Result<u64, Error>| #[trigger]
        context_seek(buf, SeekFrom::Current(0), b1, r4) && match r4 {
            Err(e) => r == Err::<WriteContext<W>, GenError>(GenError::IoError(e)),
            Ok(end) => exists|b2: WriteContext<W>, r5: Result<u64, Error>| #[trigger]
                context_seek(b1, SeekFrom::Start(start), b2, r5) && match r5 {
                    Err(e) => r == Err::<WriteContext<W>, GenError>(GenError::IoError(e)),
                    Ok(_) => exists|b: GenResult<W>| #[trigger]
                        before.ensures((b2, tmp), b) && match b {
                            Err(e) => r == Err::<WriteContext<W>, GenError>(e),
                            Ok(b3) => seek_closed(begin, end, b3, r),
                        },
                },
        }
}

/// The two-pass run on a seekable sink: the sink is asked where it stands,
/// seeks forward past the reservation, and `gen` runs on it; then come the
/// steps of `seek_patched`.
pub open spec fn seek_backpatched<W: crate::io_compat::Seek, Tmp, Gen, Before>(
    s: WriteContext<W>,
    reserved: usize,
    gen: &Gen,
    before: &Before,
    r: GenResult<W>,
) -> bool where
    Gen: Fn(WriteContext<W>) -> Result<(WriteContext<W>, Tmp), GenError>,
    Before: Fn(WriteContext<W>, Tmp) -> GenResult<W>,
 {
    exists|s1: WriteContext<W>, r1: Result<u64, Error>| #[trigger]
        context_seek(s, SeekFrom::Current(0), s1, r1) && match r1 {
            Err(e) => r == Err::<WriteContext<W>, GenError>(GenError::IoError(e)),
            Ok(start) => exists|s2: WriteContext<W>, r2: Result<u64, Error>| #[trigger]
                context_seek(s1, SeekFrom::Current(reserved as i64), s2, r2) && match r2 {
                    Err(e) => r == Err::<WriteContext<W>, GenError>(GenError::IoError(e)),
                    Ok(begin) => exists|g: Result<(WriteContext<W>, Tmp), GenError>| #[trigger]
                        gen.ensures((s2,), g) && match g {
                            Err(e) => r == Err::<WriteContext<W>, GenError>(e),
                            Ok((buf, tmp)) => seek_patched(start, begin, buf, tmp, before, r),
                        },
                },
        }
}

/// Whether the last step of the run may be taken from `b3`.
pub open spec fn can_close<W: crate::io_compat::Seek>(end: u64, b3: WriteContext<W>) -> bool {
    &&& crate::io_compat::Seek::can_seek(&b3, SeekFrom::Current(0))
    &&& forall|b4: WriteContext<W>, pos: u64| #[trigger]
        context_seek(b3, SeekFrom::Current(0), b4, Ok(pos)) ==> crate::io_compat::Seek::can_seek(
            &b4,
            SeekFrom::Start(end),
        )
}

/// Whether the middle steps of the run may be taken from `buf`.
pub open spec fn can_patch<W: crate::io_compat::Seek, Tmp, Before>(
    start: u64,
    buf: WriteContext<W>,
    tmp: Tmp,
    before: &Before,
) -> bool where Before: Fn(WriteContext<W>, Tmp) -> GenResult<W> {
    &&& crate::io_compat::Seek::can_seek(&buf, SeekFrom::Current(0))
    &&& forall|b1: WriteContext<W>, end: u64| #[trigger]
        context_seek(buf, SeekFrom::Current(0), b1, Ok(end)) ==> {
            &&& crate::io_compat::Seek::can_seek(&b1, SeekFrom::Start(start))
            &&& forall|b2: WriteContext<W>, x: u64| #[trigger]
                context_seek(b1, SeekFrom::Start(start), b2, Ok(x)) ==> {
                    &&& before.requires((b2, tmp))
                    &&& forall|b3: WriteContext<W>| #[trigger]
                        before.ensures((b2, tmp), Ok(b3)) ==> can_close(end, b3)
                }
        }
}

/// Any seekable sink reserves by seeking: forward past the reservation for
/// `gen`, back to it for `before`, and forward again to where `gen` arrived.
impl<Tmp, Gen, Before, W: Seek> BackToTheBuffer<Tmp, Gen, Before> for W where
    Gen: Fn(WriteContext<Self>) -> Result<(WriteContext<Self>, Tmp), GenError>,
    Before: Fn(WriteContext<Self>, Tmp) -> GenResult<Self>,
 {
    open spec fn can_reserve(s: WriteContext<Self>, reserved: usize, gen: &Gen, before: &Before) -> bool {
        &&& reserved <= i64::MAX
        &&& crate::io_compat::Seek::can_seek(&s, SeekFrom::Current(0))
        &&& forall|s1: WriteContext<Self>, start: u64| #[trigger]
            context_seek(s, SeekFrom::Current(0), s1, Ok(start)) ==> {
                &&& crate::io_compat::Seek::can_seek(&s1, SeekFrom::Current(reserved as i64))
                &&& forall|s2: WriteContext<Self>, begin: u64| #[trigger]
                    context_seek(s1, SeekFrom::Current(reserved as i64), s2, Ok(begin)) ==> {
                        &&& gen.requires((s2,))
                        &&& forall|buf: WriteContext<Self>, tmp: Tmp| #[trigger]
                            gen.ensures((s2,), Ok((buf, tmp))) ==> can_patch(start, buf, tmp, before)
                    }
            }
    }

    fn reserve_write_use(s: WriteContext<Self>, reserved: usize, gen: &Gen, before: &Before) -> (r: Result<
        WriteContext<Self>,
        GenError,
    >)
        ensures
            seek_backpatched(s, reserved, gen, before, r),
    {
        let (s1, r1) = crate::io_compat::Seek::seek(s, SeekFrom::Current(0));
        let start = match r1 {
            Err(e) => { return Err(GenError::from(e)); },
            Ok(start) => start,
        };
        let (s2, r2) = crate::io_compat::Seek::seek(s1, SeekFrom::Current(reserved as i64));
        let begin = match r2 {
            Err(e) => { return Err(GenError::from(e)); },
            Ok(begin) => begin,
        };
        let g = gen(s2);
        let (buf, tmp) = match g {
            Err(e) => { return Err(e); },
            Ok(x) => x,
        };
        let ghost tmp0 = tmp;
        let (b1, r4) = crate::io_compat::Seek::seek(buf, SeekFrom::Current(0));
        let end = match r4 {
            Err(e) => { return Err(GenError::from(e)); },
            Ok(end) => end,
        };
        let (b2, r5) = crate::io_compat::Seek::seek(b1, SeekFrom::Start(start));
        match r5 {
            Err(e) => { return Err(GenError::from(e)); },
            Ok(_) => {},
        }
        let b = before(b2, tmp);
        let b3 = match b {
            Err(e) => { return Err(e); },
            Ok(b3) => b3,
        };
        let (b4, r7) = crate::io_compat::Seek::seek(b3, SeekFrom::Current(0));
        let pos = match r7 {
            Err(e) => {
                let r = Err(GenError::from(e));
                assert(seek_closed(begin, end, b3, r));
                return r;
            },
            Ok(pos) => pos,
        };
        if pos != begin {
            let left: usize = if pos > begin {
                0
            } else if begin - pos > usize::MAX as u64 {
                usize::MAX
            } else {
                (begin - pos) as usize
            };
            let r = Err(GenError::BufferTooBig(left));
            assert(seek_closed(begin, end, b3, r));
            return r;
        }
        let (b5, r9) = crate::io_compat::Seek::seek(b4, SeekFrom::Start(end));
        let r = match r9 {
            Err(e) => Err(GenError::from(e)),
            Ok(_) => Ok(b5),
        };
        assert(seek_closed(begin, end, b3, r));
        assert(seek_patched(start, begin, buf, tmp0, before, r));
        r
    }
}

} // verus!
