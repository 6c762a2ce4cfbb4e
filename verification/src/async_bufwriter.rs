//! The buffer that stands between the serializers, which write at once, and
//! a sink that is written to asynchronously.
//!
//! Serializers write into the buffer. Draining it is the caller's part: it
//! hands `pending` to the sink, waits, and tells the buffer with `consume`
//! how many bytes the sink has taken.
use vstd::prelude::*;
use crate::io_compat::{copy_at, overlay, Error, Write};

verus! {

pub const DEFAULT_BUF_SIZE: usize = 8192;

/// A sink `inner` with a buffer of fixed size before it, of which the first
/// `pos` bytes wait to be handed on.
pub struct AsyncBufWriter<W> {
    pub inner: W,
    pub buf: Vec<u8>,
    pub pos: usize,
}

impl<W> AsyncBufWriter<W> {
    /// The buffer does not hold more than it has room for.
    pub open spec fn wf(&self) -> bool {
        self.pos <= self.buf@.len()
    }

    /// The bytes that wait in the buffer.
    pub open spec fn buffered(&self) -> Seq<u8> {
        self.buf@.take(self.pos as int)
    }

    /// The number of bytes that the buffer can hold.
    pub open spec fn capacity(&self) -> nat {
        self.buf@.len()
    }

    pub fn new(inner: W) -> (w: AsyncBufWriter<W>)
        ensures
            w.wf(),
            w.inner == inner,
            w.capacity() == DEFAULT_BUF_SIZE,
            w.buffered() == Seq::<u8>::empty(),
    {
        AsyncBufWriter::with_capacity(DEFAULT_BUF_SIZE, inner)
    }

    pub fn with_capacity(capacity: usize, inner: W) -> (w: AsyncBufWriter<W>)
        ensures
            w.wf(),
            w.inner == inner,
            w.capacity() == capacity,
            w.buffered() == Seq::<u8>::empty(),
    {
        let mut buf: Vec<u8> = Vec::new();
        let mut i: usize = 0;
        while i < capacity
            invariant
                i <= capacity,
                buf@.len() == i,
            decreases capacity - i,
        {
            buf.push(0);
            i += 1;
        }
        let w = AsyncBufWriter { inner, buf, pos: 0 };
        assert(w.buffered() =~= Seq::<u8>::empty());
        w
    }

    /// The number of bytes that wait in the buffer.
    pub fn remaining(&self) -> (n: usize)
        ensures
            n == self.pos,
    {
        self.pos
    }

    /// The sink, and the bytes that were still waiting in the buffer.
    pub fn into_parts(self) -> (r: (W, Vec<u8>))
        ensures
            r.0 == self.inner,
            self.wf() ==> r.1@ == self.buffered(),
            !self.wf() ==> r.1@ == self.buf@,
    {
        let AsyncBufWriter { inner, buf, pos } = self;
        let mut buf = buf;
        buf.truncate(pos);
        (inner, buf)
    }

    /// The bytes that wait in the buffer, to be handed to the sink.
    pub fn pending(&self) -> (bytes: &[u8])
        requires
            self.wf(),
        ensures
            bytes@ == self.buffered(),
    {
        let (head, _) = self.buf.as_slice().split_at(self.pos);
        head
    }

    /// Takes note that the sink has taken the first `sz` of the bytes that
    /// were waiting: the others move to the front of the buffer.
    pub fn consume(&mut self, sz: usize)
        requires
            old(self).wf(),
            sz <= old(self).pos,
        ensures
            final(self).wf(),
            final(self).inner == old(self).inner,
            final(self).capacity() == old(self).capacity(),
            final(self).pos == old(self).pos - sz,
            final(self).buffered() == old(self).buffered().skip(sz as int),
    {
        let left = self.pos - sz;
        if sz > 0 {
            let mut i: usize = 0;
            while i < left
                invariant
                    i <= left,
                    left == old(self).pos - sz,
                    self.pos == old(self).pos,
                    self.inner == old(self).inner,
                    self.buf@.len() == old(self).buf@.len(),
                    old(self).wf(),
                    sz > 0,
                    forall|j: int| 0 <= j < i ==> self.buf@[j] == old(self).buf@[j + sz],
                    forall|j: int| i <= j < self.buf@.len() ==> self.buf@[j] == old(self).buf@[j],
                decreases left - i,
            {
                let byte = self.buf[sz + i];
                self.buf[i] = byte;
                i += 1;
            }
        }
        self.pos = left;
        assert(self.buffered() =~= old(self).buffered().skip(sz as int));
    }
}

/// Writing appends to the bytes that wait, as far as the buffer has room:
/// where it has room for a part of the payload only, that part is taken. The
/// buffer tells no room beforehand, as it is drained between writes.
impl<W> Write for AsyncBufWriter<W> {
    open spec fn ready(&self, len: nat) -> bool {
        self.wf()
    }

    open spec fn spare(&self) -> Option<nat> {
        None
    }

    fn room(&self) -> (r: Option<usize>) {
        None
    }

    fn write(self, buf: &[u8]) -> (r: (Self, Result<usize, Error>))
        ensures
            r.0.wf(),
            r.0.inner == self.inner,
            r.0.capacity() == self.capacity(),
            r.1 == Ok::<usize, Error>(
                if buf@.len() <= self.capacity() - self.pos {
                    buf@.len() as usize
                } else {
                    (self.capacity() - self.pos) as usize
                },
            ),
            r.0.pos == self.pos + r.1->Ok_0,
            r.0.buffered() == self.buffered() + buf@.take(r.1->Ok_0 as int),
    {
        let AsyncBufWriter { inner, buf: own, pos } = self;
        let mut own = own;
        let room = own.len() - pos;
        let sz = if buf.len() <= room { buf.len() } else { room };
        let (now, _) = buf.split_at(sz);
        copy_at(own.as_mut_slice(), pos, now);
        let w = AsyncBufWriter { inner, buf: own, pos: pos + sz };
        assert(w.buffered() =~= self.buffered() + buf@.take(sz as int));
        (w, Ok(sz))
    }
}

} // verus!
