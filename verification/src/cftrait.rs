//! Values that know how to write themselves to the front of a buffer.
use vstd::prelude::*;
use vstd::string::StringSliceAdditionalSpecFns;
use crate::bytes::{be1, be2, be4, be8, be_bytes, cast16, cast32, cast64, cast8, le1, le2, le4, le8, le_bytes, lemma_bytes_len, unsigned};
use crate::internal::GenError;

verus! {

/// Copies the bytes of `from` to the front of `to`, as many as there is room
/// for, and returns the length of `from`.
pub fn zip_copy(from: &[u8], to: &mut [u8]) -> (len: usize)
    ensures
        len == from@.len(),
        final(to)@.len() == old(to)@.len(),
        from@.len() <= old(to)@.len() ==> final(to)@ == from@ + old(to)@.skip(from@.len() as int),
        from@.len() > old(to)@.len() ==> final(to)@ == from@.take(old(to)@.len() as int),
{
    let len = from.len();
    let room = to.len();
    let n = if len <= room { len } else { room };
    let mut i: usize = 0;
    while i < n
        invariant
            i <= n,
            n <= len,
            n <= room,
            len == from@.len(),
            room == to@.len(),
            room == old(to)@.len(),
            forall|j: int| 0 <= j < i ==> to@[j] == from@[j],
            forall|j: int| i <= j < room ==> to@[j] == old(to)@[j],
        decreases n - i,
    {
        to[i] = from[i];
        i += 1;
    }
    proof {
        if len <= room {
            assert(to@ =~= from@ + old(to)@.skip(len as int));
        } else {
            assert(to@ =~= from@.take(room as int));
        }
    }
    len
}

/// Whether a buffer of `len` bytes has room for a value of the size `size`;
/// a value that does not tell its size is taken to fit.
pub open spec fn fits(size: Option<usize>, len: nat) -> bool {
    match size {
        Some(n) => n <= len,
        None => true,
    }
}

/// A value that can be written to a buffer, in its usual form and in a
/// little endian form.
pub trait CookieFactorySerializable {
    /// The bytes of the value in its usual form.
    spec fn encoded(&self) -> Seq<u8>;

    /// The bytes of the value in its little endian form.
    spec fn encoded_le(&self) -> Seq<u8>;

    /// The number of bytes that either form takes, where the value tells it.
    spec fn size(&self) -> Option<usize>;

    /// The error that writing the usual form to a buffer of `room` bytes gives;
    /// none where the value is written.
    spec fn error(&self, room: nat) -> Option<GenError>;

    /// The error that writing the little endian form to a buffer of `room`
    /// bytes gives; none where the value is written.
    spec fn error_le(&self, room: nat) -> Option<GenError>;

    fn gen_size(&self) -> (size: Option<usize>)
        ensures
            size == self.size(),
            size matches Some(n) ==> n == self.encoded().len() && n == self.encoded_le().len(),
    ;

    /// Writes the usual form to the front of `buf` and returns the rest of
    /// `buf`.
    fn do_serialize<'a>(&self, buf: &'a mut [u8]) -> (r: Result<&'a mut [u8], GenError>)
        requires
            fits(self.size(), old(buf)@.len()),
        ensures
            self.error(old(buf)@.len()) matches Some(e) ==> r == Err::<&'a mut [u8], GenError>(e),
            self.error(old(buf)@.len()) is None ==> r is Ok,
            r matches Ok(rest) ==> {
                &&& self.encoded().len() <= old(buf)@.len()
                &&& rest@ == old(buf)@.skip(self.encoded().len() as int)
                &&& final(buf)@ == self.encoded() + final(rest)@
            },
    ;

    /// Writes the little endian form to the front of `buf` and returns the
    /// rest of `buf`.
    fn do_serialize_le<'a>(&self, buf: &'a mut [u8]) -> (r: Result<&'a mut [u8], GenError>)
        requires
            fits(self.size(), old(buf)@.len()),
        ensures
            self.error_le(old(buf)@.len()) matches Some(e) ==> r == Err::<&'a mut [u8], GenError>(e),
            self.error_le(old(buf)@.len()) is None ==> r is Ok,
            r matches Ok(rest) ==> {
                &&& self.encoded_le().len() <= old(buf)@.len()
                &&& rest@ == old(buf)@.skip(self.encoded_le().len() as int)
                &&& final(buf)@ == self.encoded_le() + final(rest)@
            },
    ;
}

/// The error that writing the usual form of `value` gives after a look at the
/// `room` bytes that the buffer has: `BufferTooSmall` with the size of the
/// value where the value tells a size that does not fit, else the error of
/// the writing itself; none where the value is written.
pub open spec fn serialize_error<S: CookieFactorySerializable + ?Sized>(value: &S, room: nat) -> Option<GenError> {
    if !fits(value.size(), room) {
        Some(GenError::BufferTooSmall(value.size()->Some_0))
    } else {
        value.error(room)
    }
}

/// The error that writing the little endian form of `value` gives after a
/// look at the `room` bytes that the buffer has.
pub open spec fn serialize_le_error<S: CookieFactorySerializable + ?Sized>(value: &S, room: nat) -> Option<
    GenError,
> {
    if !fits(value.size(), room) {
        Some(GenError::BufferTooSmall(value.size()->Some_0))
    } else {
        value.error_le(room)
    }
}

/// A value that is written after a look at the room that the buffer has.
pub trait CookieFactory: CookieFactorySerializable {
    /// Says whether `buf` has room for the value: `BufferTooSmall` with the
    /// size of the value where it has not.
    fn check_gen_size(&self, buf: &[u8]) -> (r: Result<(), GenError>)
        ensures
            fits(self.size(), buf@.len()) ==> r is Ok,
            !fits(self.size(), buf@.len()) ==> r == Err::<(), GenError>(GenError::BufferTooSmall(self.size()->Some_0)),
    {
        if let Some(size) = self.gen_size() {
            if buf.len() < size {
                return Err(GenError::BufferTooSmall(size));
            }
        }
        Ok(())
    }

    /// Writes the usual form to the front of `buf` and returns the rest of
    /// `buf`, where `buf` has room for the value.
    fn serialize<'a>(&self, buf: &'a mut [u8]) -> (r: Result<&'a mut [u8], GenError>)
        ensures
            !fits(self.size(), old(buf)@.len()) ==> r == Err::<&'a mut [u8], GenError>(
                GenError::BufferTooSmall(self.size()->Some_0),
            ) && final(buf)@ == old(buf)@,
            serialize_error(self, old(buf)@.len()) matches Some(e) ==> r == Err::<&'a mut [u8], GenError>(e),
            serialize_error(self, old(buf)@.len()) is None ==> r is Ok,
            r matches Ok(rest) ==> {
                &&& self.encoded().len() <= old(buf)@.len()
                &&& rest@ == old(buf)@.skip(self.encoded().len() as int)
                &&& final(buf)@ == self.encoded() + final(rest)@
            },
    {
        match self.check_gen_size(buf) {
            Err(e) => Err(e),
            Ok(_) => self.do_serialize(buf),
        }
    }

    /// Writes the little endian form to the front of `buf` and returns the
    /// rest of `buf`, where `buf` has room for the value.
    fn serialize_le<'a>(&self, buf: &'a mut [u8]) -> (r: Result<&'a mut [u8], GenError>)
        ensures
            !fits(self.size(), old(buf)@.len()) ==> r == Err::<&'a mut [u8], GenError>(
                GenError::BufferTooSmall(self.size()->Some_0),
            ) && final(buf)@ == old(buf)@,
            serialize_le_error(self, old(buf)@.len()) matches Some(e) ==> r == Err::<&'a mut [u8], GenError>(e),
            serialize_le_error(self, old(buf)@.len()) is None ==> r is Ok,
            r matches Ok(rest) ==> {
                &&& self.encoded_le().len() <= old(buf)@.len()
                &&& rest@ == old(buf)@.skip(self.encoded_le().len() as int)
                &&& final(buf)@ == self.encoded_le() + final(rest)@
            },
    {
        match self.check_gen_size(buf) {
            Err(e) => Err(e),
            Ok(_) => self.do_serialize_le(buf),
        }
    }
}

impl<T> CookieFactory for T where T: CookieFactorySerializable {

}

impl CookieFactorySerializable for u8 {
    open spec fn encoded(&self) -> Seq<u8> {
        be_bytes(*self as nat, 1)
    }

    open spec fn encoded_le(&self) -> Seq<u8> {
        le_bytes(*self as nat, 1)
    }

    open spec fn size(&self) -> Option<usize> {
        Some(1usize)
    }

    open spec fn error(&self, room: nat) -> Option<GenError> {
        None
    }

    open spec fn error_le(&self, room: nat) -> Option<GenError> {
        None
    }

    fn gen_size(&self) -> (size: Option<usize>) {
        proof {
            lemma_bytes_len(*self as nat, 1);
        }
        Some(1)
    }

    fn do_serialize<'a>(&self, buf: &'a mut [u8]) -> (r: Result<&'a mut [u8], GenError>)
        ensures
            r is Ok,
    {
        proof {
            lemma_bytes_len(*self as nat, 1);
        }
        let bytes = be1(*self);
        let len = zip_copy(bytes.as_slice(), buf);
        let (written, rest) = buf.split_at_mut(len);
        assert(written@ =~= self.encoded());
        Ok(rest)
    }

    fn do_serialize_le<'a>(&self, buf: &'a mut [u8]) -> (r: Result<&'a mut [u8], GenError>)
        ensures
            r is Ok,
    {
        proof {
            lemma_bytes_len(*self as nat, 1);
        }
        let bytes = le1(*self);
        let len = zip_copy(bytes.as_slice(), buf);
        let (written, rest) = buf.split_at_mut(len);
        assert(written@ =~= self.encoded_le());
        Ok(rest)
    }
}

impl CookieFactorySerializable for u16 {
    open spec fn encoded(&self) -> Seq<u8> {
        be_bytes(*self as nat, 2)
    }

    open spec fn encoded_le(&self) -> Seq<u8> {
        le_bytes(*self as nat, 2)
    }

    open spec fn size(&self) -> Option<usize> {
        Some(2usize)
    }

    open spec fn error(&self, room: nat) -> Option<GenError> {
        None
    }

    open spec fn error_le(&self, room: nat) -> Option<GenError> {
        None
    }

    fn gen_size(&self) -> (size: Option<usize>) {
        proof {
            lemma_bytes_len(*self as nat, 2);
        }
        Some(2)
    }

    fn do_serialize<'a>(&self, buf: &'a mut [u8]) -> (r: Result<&'a mut [u8], GenError>)
        ensures
            r is Ok,
    {
        proof {
            lemma_bytes_len(*self as nat, 2);
        }
        let bytes = be2(*self);
        let len = zip_copy(bytes.as_slice(), buf);
        let (written, rest) = buf.split_at_mut(len);
        assert(written@ =~= self.encoded());
        Ok(rest)
    }

    fn do_serialize_le<'a>(&self, buf: &'a mut [u8]) -> (r: Result<&'a mut [u8], GenError>)
        ensures
            r is Ok,
    {
        proof {
            lemma_bytes_len(*self as nat, 2);
        }
        let bytes = le2(*self);
        let len = zip_copy(bytes.as_slice(), buf);
        let (written, rest) = buf.split_at_mut(len);
        assert(written@ =~= self.encoded_le());
        Ok(rest)
    }
}

impl CookieFactorySerializable for u32 {
    open spec fn encoded(&self) -> Seq<u8> {
        be_bytes(*self as nat, 4)
    }

    open spec fn encoded_le(&self) -> Seq<u8> {
        le_bytes(*self as nat, 4)
    }

    open spec fn size(&self) -> Option<usize> {
        Some(4usize)
    }

    open spec fn error(&self, room: nat) -> Option<GenError> {
        None
    }

    open spec fn error_le(&self, room: nat) -> Option<GenError> {
        None
    }

    fn gen_size(&self) -> (size: Option<usize>) {
        proof {
            lemma_bytes_len(*self as nat, 4);
        }
        Some(4)
    }

    fn do_serialize<'a>(&self, buf: &'a mut [u8]) -> (r: Result<&'a mut [u8], GenError>)
        ensures
            r is Ok,
    {
        proof {
            lemma_bytes_len(*self as nat, 4);
        }
        let bytes = be4(*self);
        let len = zip_copy(bytes.as_slice(), buf);
        let (written, rest) = buf.split_at_mut(len);
        assert(written@ =~= self.encoded());
        Ok(rest)
    }

    fn do_serialize_le<'a>(&self, buf: &'a mut [u8]) -> (r: Result<&'a mut [u8], GenError>)
        ensures
            r is Ok,
    {
        proof {
            lemma_bytes_len(*self as nat, 4);
        }
        let bytes = le4(*self);
        let len = zip_copy(bytes.as_slice(), buf);
        let (written, rest) = buf.split_at_mut(len);
        assert(written@ =~= self.encoded_le());
        Ok(rest)
    }
}

impl CookieFactorySerializable for u64 {
    open spec fn encoded(&self) -> Seq<u8> {
        be_bytes(*self as nat, 8)
    }

    open spec fn encoded_le(&self) -> Seq<u8> {
        le_bytes(*self as nat, 8)
    }

    open spec fn size(&self) -> Option<usize> {
        Some(8usize)
    }

    open spec fn error(&self, room: nat) -> Option<GenError> {
        None
    }

    open spec fn error_le(&self, room: nat) -> Option<GenError> {
        None
    }

    fn gen_size(&self) -> (size: Option<usize>) {
        proof {
            lemma_bytes_len(*self as nat, 8);
        }
        Some(8)
    }

    fn do_serialize<'a>(&self, buf: &'a mut [u8]) -> (r: Result<&'a mut [u8], GenError>)
        ensures
            r is Ok,
    {
        proof {
            lemma_bytes_len(*self as nat, 8);
        }
        let bytes = be8(*self);
        let len = zip_copy(bytes.as_slice(), buf);
        let (written, rest) = buf.split_at_mut(len);
        assert(written@ =~= self.encoded());
        Ok(rest)
    }

    fn do_serialize_le<'a>(&self, buf: &'a mut [u8]) -> (r: Result<&'a mut [u8], GenError>)
        ensures
            r is Ok,
    {
        proof {
            lemma_bytes_len(*self as nat, 8);
        }
        let bytes = le8(*self);
        let len = zip_copy(bytes.as_slice(), buf);
        let (written, rest) = buf.split_at_mut(len);
        assert(written@ =~= self.encoded_le());
        Ok(rest)
    }
}

impl CookieFactorySerializable for i8 {
    open spec fn encoded(&self) -> Seq<u8> {
        be_bytes(unsigned(*self as int, 1), 1)
    }

    open spec fn encoded_le(&self) -> Seq<u8> {
        le_bytes(unsigned(*self as int, 1), 1)
    }

    open spec fn size(&self) -> Option<usize> {
        Some(1usize)
    }

    open spec fn error(&self, room: nat) -> Option<GenError> {
        None
    }

    open spec fn error_le(&self, room: nat) -> Option<GenError> {
        None
    }

    fn gen_size(&self) -> (size: Option<usize>) {
        proof {
            lemma_bytes_len(unsigned(*self as int, 1), 1);
        }
        Some(1)
    }

    fn do_serialize<'a>(&self, buf: &'a mut [u8]) -> (r: Result<&'a mut [u8], GenError>)
        ensures
            r is Ok,
    {
        proof {
            lemma_bytes_len(unsigned(*self as int, 1), 1);
        }
        let bytes = be1(cast8(*self));
        let len = zip_copy(bytes.as_slice(), buf);
        let (written, rest) = buf.split_at_mut(len);
        assert(written@ =~= self.encoded());
        Ok(rest)
    }

    fn do_serialize_le<'a>(&self, buf: &'a mut [u8]) -> (r: Result<&'a mut [u8], GenError>)
        ensures
            r is Ok,
    {
        proof {
            lemma_bytes_len(unsigned(*self as int, 1), 1);
        }
        let bytes = le1(cast8(*self));
        let len = zip_copy(bytes.as_slice(), buf);
        let (written, rest) = buf.split_at_mut(len);
        assert(written@ =~= self.encoded_le());
        Ok(rest)
    }
}

impl CookieFactorySerializable for i16 {
    open spec fn encoded(&self) -> Seq<u8> {
        be_bytes(unsigned(*self as int, 2), 2)
    }

    open spec fn encoded_le(&self) -> Seq<u8> {
        le_bytes(unsigned(*self as int, 2), 2)
    }

    open spec fn size(&self) -> Option<usize> {
        Some(2usize)
    }

    open spec fn error(&self, room: nat) -> Option<GenError> {
        None
    }

    open spec fn error_le(&self, room: nat) -> Option<GenError> {
        None
    }

    fn gen_size(&self) -> (size: Option<usize>) {
        proof {
            lemma_bytes_len(unsigned(*self as int, 2), 2);
        }
        Some(2)
    }

    fn do_serialize<'a>(&self, buf: &'a mut [u8]) -> (r: Result<&'a mut [u8], GenError>)
        ensures
            r is Ok,
    {
        proof {
            lemma_bytes_len(unsigned(*self as int, 2), 2);
        }
        let bytes = be2(cast16(*self));
        let len = zip_copy(bytes.as_slice(), buf);
        let (written, rest) = buf.split_at_mut(len);
        assert(written@ =~= self.encoded());
        Ok(rest)
    }

    fn do_serialize_le<'a>(&self, buf: &'a mut [u8]) -> (r: Result<&'a mut [u8], GenError>)
        ensures
            r is Ok,
    {
        proof {
            lemma_bytes_len(unsigned(*self as int, 2), 2);
        }
        let bytes = le2(cast16(*self));
        let len = zip_copy(bytes.as_slice(), buf);
        let (written, rest) = buf.split_at_mut(len);
        assert(written@ =~= self.encoded_le());
        Ok(rest)
    }
}

impl CookieFactorySerializable for i32 {
    open spec fn encoded(&self) -> Seq<u8> {
        be_bytes(unsigned(*self as int, 4), 4)
    }

    open spec fn encoded_le(&self) -> Seq<u8> {
        le_bytes(unsigned(*self as int, 4), 4)
    }

    open spec fn size(&self) -> Option<usize> {
        Some(4usize)
    }

    open spec fn error(&self, room: nat) -> Option<GenError> {
        None
    }

    open spec fn error_le(&self, room: nat) -> Option<GenError> {
        None
    }

    fn gen_size(&self) -> (size: Option<usize>) {
        proof {
            lemma_bytes_len(unsigned(*self as int, 4), 4);
        }
        Some(4)
    }

    fn do_serialize<'a>(&self, buf: &'a mut [u8]) -> (r: Result<&'a mut [u8], GenError>)
        ensures
            r is Ok,
    {
        proof {
            lemma_bytes_len(unsigned(*self as int, 4), 4);
        }
        let bytes = be4(cast32(*self));
        let len = zip_copy(bytes.as_slice(), buf);
        let (written, rest) = buf.split_at_mut(len);
        assert(written@ =~= self.encoded());
        Ok(rest)
    }

    fn do_serialize_le<'a>(&self, buf: &'a mut [u8]) -> (r: Result<&'a mut [u8], GenError>)
        ensures
            r is Ok,
    {
        proof {
            lemma_bytes_len(unsigned(*self as int, 4), 4);
        }
        let bytes = le4(cast32(*self));
        let len = zip_copy(bytes.as_slice(), buf);
        let (written, rest) = buf.split_at_mut(len);
        assert(written@ =~= self.encoded_le());
        Ok(rest)
    }
}

impl CookieFactorySerializable for i64 {
    open spec fn encoded(&self) -> Seq<u8> {
        be_bytes(unsigned(*self as int, 8), 8)
    }

    open spec fn encoded_le(&self) -> Seq<u8> {
        le_bytes(unsigned(*self as int, 8), 8)
    }

    open spec fn size(&self) -> Option<usize> {
        Some(8usize)
    }

    open spec fn error(&self, room: nat) -> Option<GenError> {
        None
    }

    open spec fn error_le(&self, room: nat) -> Option<GenError> {
        None
    }

    fn gen_size(&self) -> (size: Option<usize>) {
        proof {
            lemma_bytes_len(unsigned(*self as int, 8), 8);
        }
        Some(8)
    }

    fn do_serialize<'a>(&self, buf: &'a mut [u8]) -> (r: Result<&'a mut [u8], GenError>)
        ensures
            r is Ok,
    {
        proof {
            lemma_bytes_len(unsigned(*self as int, 8), 8);
        }
        let bytes = be8(cast64(*self));
        let len = zip_copy(bytes.as_slice(), buf);
        let (written, rest) = buf.split_at_mut(len);
        assert(written@ =~= self.encoded());
        Ok(rest)
    }

    fn do_serialize_le<'a>(&self, buf: &'a mut [u8]) -> (r: Result<&'a mut [u8], GenError>)
        ensures
            r is Ok,
    {
        proof {
            lemma_bytes_len(unsigned(*self as int, 8), 8);
        }
        let bytes = le8(cast64(*self));
        let len = zip_copy(bytes.as_slice(), buf);
        let (written, rest) = buf.split_at_mut(len);
        assert(written@ =~= self.encoded_le());
        Ok(rest)
    }
}

/// The usual forms of the values of `items` from index `from` on, one after
/// another.
pub open spec fn encoded_from<S: CookieFactorySerializable>(items: Seq<S>, from: int) -> Seq<u8>
    decreases items.len() - from,
{
    if 0 <= from < items.len() {
        items[from].encoded() + encoded_from(items, from + 1)
    } else {
        Seq::empty()
    }
}

/// The little endian forms of the values of `items` from index `from` on,
/// one after another.
pub open spec fn encoded_le_from<S: CookieFactorySerializable>(items: Seq<S>, from: int) -> Seq<u8>
    decreases items.len() - from,
{
    if 0 <= from < items.len() {
        items[from].encoded_le() + encoded_le_from(items, from + 1)
    } else {
        Seq::empty()
    }
}

/// The sizes of the values of `items` from index `from` on added up, where
/// each of them tells its size and the sum is a `usize`.
pub open spec fn size_from<S: CookieFactorySerializable>(items: Seq<S>, from: int) -> Option<usize>
    decreases items.len() - from,
{
    if 0 <= from < items.len() {
        match (items[from].size(), size_from(items, from + 1)) {
            (Some(sz), Some(acc)) => if acc + sz <= usize::MAX {
                Some((acc + sz) as usize)
            } else {
                None
            },
            _ => None,
        }
    } else {
        Some(0usize)
    }
}

/// The error that writing the usual forms of the values of `items` from
/// index `from` on to a buffer of `room` bytes gives: that of the first value
/// that is not written, each value finding the room that those before it have
/// left; none where all are written.
pub open spec fn error_from<S: CookieFactorySerializable>(items: Seq<S>, from: int, room: nat) -> Option<GenError>
    decreases items.len() - from,
{
    if 0 <= from < items.len() {
        match serialize_error(&items[from], room) {
            Some(e) => Some(e),
            None => error_from(items, from + 1, (room - items[from].encoded().len()) as nat),
        }
    } else {
        None
    }
}

/// The error that writing the little endian forms of the values of `items`
/// from index `from` on to a buffer of `room` bytes gives.
pub open spec fn error_le_from<S: CookieFactorySerializable>(items: Seq<S>, from: int, room: nat) -> Option<
    GenError,
>
    decreases items.len() - from,
{
    if 0 <= from < items.len() {
        match serialize_le_error(&items[from], room) {
            Some(e) => Some(e),
            None => error_le_from(items, from + 1, (room - items[from].encoded_le().len()) as nat),
        }
    } else {
        None
    }
}

/// The size of the values of `items` from index `from` on.
fn gen_size_from<S: CookieFactory>(items: &[S], from: usize) -> (size: Option<usize>)
    requires
        from <= items@.len(),
    ensures
        size == size_from(items@, from as int),
        size matches Some(n) ==> n == encoded_from(items@, from as int).len() && n == encoded_le_from(
            items@,
            from as int,
        ).len(),
    decreases items@.len() - from,
{
    if from >= items.len() {
        return Some(0);
    }
    let first = items[from].gen_size();
    let others = gen_size_from(items, from + 1);
    match (first, others) {
        (Some(sz), Some(acc)) => if sz > usize::MAX - acc {
            None
        } else {
            Some(acc + sz)
        },
        _ => None,
    }
}

/// Writes the usual forms of the values of `items` from index `from` on.
fn do_serialize_from<'a, S: CookieFactory>(items: &[S], from: usize, buf: &'a mut [u8]) -> (r: Result<
    &'a mut [u8],
    GenError,
>)
    requires
        from <= items@.len(),
    ensures
        error_from(items@, from as int, old(buf)@.len()) matches Some(e) ==> r == Err::<&'a mut [u8], GenError>(e),
        error_from(items@, from as int, old(buf)@.len()) is None ==> r is Ok,
        r matches Ok(rest) ==> {
            &&& encoded_from(items@, from as int).len() <= old(buf)@.len()
            &&& rest@ == old(buf)@.skip(encoded_from(items@, from as int).len() as int)
            &&& final(buf)@ == encoded_from(items@, from as int) + final(rest)@
        },
    decreases items@.len() - from,
{
    if from >= items.len() {
        assert(buf@.skip(0) =~= buf@);
        return Ok(buf);
    }
    match items[from].serialize(buf) {
        Err(e) => Err(e),
        Ok(next) => {
            let ghost mid = next@;
            match do_serialize_from(items, from + 1, next) {
                Err(e) => Err(e),
                Ok(rest) => {
                    proof {
                        let now = items@[from as int].encoded();
                        let later = encoded_from(items@, from + 1);
                        assert(old(buf)@.skip(now.len() as int).skip(later.len() as int) =~= old(buf)@.skip(
                            (now + later).len() as int,
                        ));
                        assert(now + (later + final(rest)@) =~= (now + later) + final(rest)@);
                    }
                    Ok(rest)
                },
            }
        },
    }
}

/// Writes the little endian forms of the values of `items` from index `from`
/// on.
fn do_serialize_le_from<'a, S: CookieFactory>(items: &[S], from: usize, buf: &'a mut [u8]) -> (r: Result<
    &'a mut [u8],
    GenError,
>)
    requires
        from <= items@.len(),
    ensures
        error_le_from(items@, from as int, old(buf)@.len()) matches Some(e) ==> r == Err::<&'a mut [u8], GenError>(
            e,
        ),
        error_le_from(items@, from as int, old(buf)@.len()) is None ==> r is Ok,
        r matches Ok(rest) ==> {
            &&& encoded_le_from(items@, from as int).len() <= old(buf)@.len()
            &&& rest@ == old(buf)@.skip(encoded_le_from(items@, from as int).len() as int)
            &&& final(buf)@ == encoded_le_from(items@, from as int) + final(rest)@
        },
    decreases items@.len() - from,
{
    if from >= items.len() {
        assert(buf@.skip(0) =~= buf@);
        return Ok(buf);
    }
    match items[from].serialize_le(buf) {
        Err(e) => Err(e),
        Ok(next) => {
            match do_serialize_le_from(items, from + 1, next) {
                Err(e) => Err(e),
                Ok(rest) => {
                    proof {
                        let now = items@[from as int].encoded_le();
                        let later = encoded_le_from(items@, from + 1);
                        assert(old(buf)@.skip(now.len() as int).skip(later.len() as int) =~= old(buf)@.skip(
                            (now + later).len() as int,
                        ));
                        assert(now + (later + final(rest)@) =~= (now + later) + final(rest)@);
                    }
                    Ok(rest)
                },
            }
        },
    }
}

/// A list of values is written as its values, one after another.
impl<S: CookieFactory> CookieFactorySerializable for [S] {
    open spec fn encoded(&self) -> Seq<u8> {
        encoded_from(self@, 0)
    }

    open spec fn encoded_le(&self) -> Seq<u8> {
        encoded_le_from(self@, 0)
    }

    open spec fn size(&self) -> Option<usize> {
        size_from(self@, 0)
    }

    open spec fn error(&self, room: nat) -> Option<GenError> {
        error_from(self@, 0, room)
    }

    open spec fn error_le(&self, room: nat) -> Option<GenError> {
        error_le_from(self@, 0, room)
    }

    fn gen_size(&self) -> (size: Option<usize>) {
        gen_size_from(self, 0)
    }

    fn do_serialize<'a>(&self, buf: &'a mut [u8]) -> (r: Result<&'a mut [u8], GenError>) {
        do_serialize_from(self, 0, buf)
    }

    fn do_serialize_le<'a>(&self, buf: &'a mut [u8]) -> (r: Result<&'a mut [u8], GenError>) {
        do_serialize_le_from(self, 0, buf)
    }
}

/// A string is written as its bytes.
impl CookieFactorySerializable for str {
    open spec fn encoded(&self) -> Seq<u8> {
        encoded_from(self.spec_bytes(), 0)
    }

    open spec fn encoded_le(&self) -> Seq<u8> {
        encoded_from(self.spec_bytes(), 0)
    }

    open spec fn size(&self) -> Option<usize> {
        size_from(self.spec_bytes(), 0)
    }

    open spec fn error(&self, room: nat) -> Option<GenError> {
        error_from(self.spec_bytes(), 0, room)
    }

    open spec fn error_le(&self, room: nat) -> Option<GenError> {
        error_from(self.spec_bytes(), 0, room)
    }

    fn gen_size(&self) -> (size: Option<usize>) {
        gen_size_from(self.as_bytes(), 0)
    }

    fn do_serialize<'a>(&self, buf: &'a mut [u8]) -> (r: Result<&'a mut [u8], GenError>) {
        do_serialize_from(self.as_bytes(), 0, buf)
    }

    fn do_serialize_le<'a>(&self, buf: &'a mut [u8]) -> (r: Result<&'a mut [u8], GenError>) {
        do_serialize_from(self.as_bytes(), 0, buf)
    }
}

impl<'s, S: CookieFactory> CookieFactorySerializable for &'s [S] {
    open spec fn encoded(&self) -> Seq<u8> {
        encoded_from(self@, 0)
    }

    open spec fn encoded_le(&self) -> Seq<u8> {
        encoded_le_from(self@, 0)
    }

    open spec fn size(&self) -> Option<usize> {
        size_from(self@, 0)
    }

    open spec fn error(&self, room: nat) -> Option<GenError> {
        error_from(self@, 0, room)
    }

    open spec fn error_le(&self, room: nat) -> Option<GenError> {
        error_le_from(self@, 0, room)
    }

    fn gen_size(&self) -> (size: Option<usize>) {
        gen_size_from(*self, 0)
    }

    fn do_serialize<'a>(&self, buf: &'a mut [u8]) -> (r: Result<&'a mut [u8], GenError>) {
        do_serialize_from(*self, 0, buf)
    }

    fn do_serialize_le<'a>(&self, buf: &'a mut [u8]) -> (r: Result<&'a mut [u8], GenError>) {
        do_serialize_le_from(*self, 0, buf)
    }
}

impl<'s> CookieFactorySerializable for &'s str {
    open spec fn encoded(&self) -> Seq<u8> {
        encoded_from(self.spec_bytes(), 0)
    }

    open spec fn encoded_le(&self) -> Seq<u8> {
        encoded_from(self.spec_bytes(), 0)
    }

    open spec fn size(&self) -> Option<usize> {
        size_from(self.spec_bytes(), 0)
    }

    open spec fn error(&self, room: nat) -> Option<GenError> {
        error_from(self.spec_bytes(), 0, room)
    }

    open spec fn error_le(&self, room: nat) -> Option<GenError> {
        error_from(self.spec_bytes(), 0, room)
    }

    fn gen_size(&self) -> (size: Option<usize>) {
        gen_size_from(self.as_bytes(), 0)
    }

    fn do_serialize<'a>(&self, buf: &'a mut [u8]) -> (r: Result<&'a mut [u8], GenError>) {
        do_serialize_from(self.as_bytes(), 0, buf)
    }

    fn do_serialize_le<'a>(&self, buf: &'a mut [u8]) -> (r: Result<&'a mut [u8], GenError>) {
        do_serialize_from(self.as_bytes(), 0, buf)
    }
}

} // verus!
