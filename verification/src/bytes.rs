//! Bytes and numbers related serialization functions.
use vstd::prelude::*;
use crate::combinator::{emits, try_write};
use crate::internal::{GenResult, SerializeFn, WriteContext};
use crate::io_compat::Write;

verus! {

/// The `n` low bytes of `v`, most significant first.
pub open spec fn be_bytes(v: nat, n: nat) -> Seq<u8>
    decreases n,
{
    if n == 0 {
        Seq::empty()
    } else {
        be_bytes(v / 256, (n - 1) as nat).push((v % 256) as u8)
    }
}

/// The `n` low bytes of `v`, least significant first.
pub open spec fn le_bytes(v: nat, n: nat) -> Seq<u8>
    decreases n,
{
    if n == 0 {
        Seq::empty()
    } else {
        seq![(v % 256) as u8] + le_bytes(v / 256, (n - 1) as nat)
    }
}

/// `be_bytes` and `le_bytes` give as many bytes as they are asked for.
pub proof fn lemma_bytes_len(v: nat, n: nat)
    ensures
        be_bytes(v, n).len() == n,
        le_bytes(v, n).len() == n,
    decreases n,
{
    if n > 0 {
        lemma_bytes_len(v / 256, (n - 1) as nat);
    }
}

/// The number that a signed `i` is written as on `bytes` bytes: `i` itself
/// where it is not negative, else `i` plus 256 to the power `bytes`.
pub open spec fn unsigned(i: int, bytes: nat) -> nat
    decreases bytes,
{
    if i >= 0 {
        i as nat
    } else {
        (i + radix(bytes)) as nat
    }
}

/// 256 to the power `bytes`.
pub open spec fn radix(bytes: nat) -> nat
    decreases bytes,
{
    if bytes == 0 {
        1
    } else {
        256 * radix((bytes - 1) as nat)
    }
}

/// The 1 low byte of `i` in big endian order.
pub(crate) fn be1(i: u8) -> (b: [u8; 1])
    ensures
        b@ == be_bytes(i as nat, 1),
{
    let x0: u8 = i;
    let b = [x0];
    proof {
        reveal_with_fuel(be_bytes, 2);
        assert(b@ =~= be_bytes(i as nat, 1));
    }
    b
}

/// The 1 low byte of `i` in little endian order.
pub(crate) fn le1(i: u8) -> (b: [u8; 1])
    ensures
        b@ == le_bytes(i as nat, 1),
{
    let x0: u8 = i;
    let b = [x0];
    proof {
        reveal_with_fuel(le_bytes, 2);
        assert(b@ =~= le_bytes(i as nat, 1));
    }
    b
}

/// The 2 low bytes of `i` in big endian order.
pub(crate) fn be2(i: u16) -> (b: [u8; 2])
    ensures
        b@ == be_bytes(i as nat, 2),
{
    let x0: u16 = i;
    let x1: u16 = x0 / 256;
    let b = [(x1 % 256) as u8, (x0 % 256) as u8];
    proof {
        reveal_with_fuel(be_bytes, 3);
        assert(b@ =~= be_bytes(i as nat, 2));
    }
    b
}

/// The 2 low bytes of `i` in little endian order.
pub(crate) fn le2(i: u16) -> (b: [u8; 2])
    ensures
        b@ == le_bytes(i as nat, 2),
{
    let x0: u16 = i;
    let x1: u16 = x0 / 256;
    let b = [(x0 % 256) as u8, (x1 % 256) as u8];
    proof {
        reveal_with_fuel(le_bytes, 3);
        assert(b@ =~= le_bytes(i as nat, 2));
    }
    b
}

/// The 3 low bytes of `i` in big endian order.
pub(crate) fn be3(i: u32) -> (b: [u8; 3])
    ensures
        b@ == be_bytes(i as nat, 3),
{
    let x0: u32 = i;
    let x1: u32 = x0 / 256;
    let x2: u32 = x1 / 256;
    let b = [(x2 % 256) as u8, (x1 % 256) as u8, (x0 % 256) as u8];
    proof {
        reveal_with_fuel(be_bytes, 4);
        assert(b@ =~= be_bytes(i as nat, 3));
    }
    b
}

/// The 3 low bytes of `i` in little endian order.
pub(crate) fn le3(i: u32) -> (b: [u8; 3])
    ensures
        b@ == le_bytes(i as nat, 3),
{
    let x0: u32 = i;
    let x1: u32 = x0 / 256;
    let x2: u32 = x1 / 256;
    let b = [(x0 % 256) as u8, (x1 % 256) as u8, (x2 % 256) as u8];
    proof {
        reveal_with_fuel(le_bytes, 4);
        assert(b@ =~= le_bytes(i as nat, 3));
    }
    b
}

/// The 4 low bytes of `i` in big endian order.
pub(crate) fn be4(i: u32) -> (b: [u8; 4])
    ensures
        b@ == be_bytes(i as nat, 4),
{
    let x0: u32 = i;
    let x1: u32 = x0 / 256;
    let x2: u32 = x1 / 256;
    let x3: u32 = x2 / 256;
    let b = [(x3 % 256) as u8, (x2 % 256) as u8, (x1 % 256) as u8, (x0 % 256) as u8];
    proof {
        reveal_with_fuel(be_bytes, 5);
        assert(b@ =~= be_bytes(i as nat, 4));
    }
    b
}

/// The 4 low bytes of `i` in little endian order.
pub(crate) fn le4(i: u32) -> (b: [u8; 4])
    ensures
        b@ == le_bytes(i as nat, 4),
{
    let x0: u32 = i;
    let x1: u32 = x0 / 256;
    let x2: u32 = x1 / 256;
    let x3: u32 = x2 / 256;
    let b = [(x0 % 256) as u8, (x1 % 256) as u8, (x2 % 256) as u8, (x3 % 256) as u8];
    proof {
        reveal_with_fuel(le_bytes, 5);
        assert(b@ =~= le_bytes(i as nat, 4));
    }
    b
}

/// The 8 low bytes of `i` in big endian order.
pub(crate) fn be8(i: u64) -> (b: [u8; 8])
    ensures
        b@ == be_bytes(i as nat, 8),
{
    let x0: u64 = i;
    let x1: u64 = x0 / 256;
    let x2: u64 = x1 / 256;
    let x3: u64 = x2 / 256;
    let x4: u64 = x3 / 256;
    let x5: u64 = x4 / 256;
    let x6: u64 = x5 / 256;
    let x7: u64 = x6 / 256;
    let b = [(x7 % 256) as u8, (x6 % 256) as u8, (x5 % 256) as u8, (x4 % 256) as u8, (x3 % 256) as u8, (x2 % 256) as u8, (x1 % 256) as u8, (x0 % 256) as u8];
    proof {
        reveal_with_fuel(be_bytes, 9);
        assert(b@ =~= be_bytes(i as nat, 8));
    }
    b
}

/// The 8 low bytes of `i` in little endian order.
pub(crate) fn le8(i: u64) -> (b: [u8; 8])
    ensures
        b@ == le_bytes(i as nat, 8),
{
    let x0: u64 = i;
    let x1: u64 = x0 / 256;
    let x2: u64 = x1 / 256;
    let x3: u64 = x2 / 256;
    let x4: u64 = x3 / 256;
    let x5: u64 = x4 / 256;
    let x6: u64 = x5 / 256;
    let x7: u64 = x6 / 256;
    let b = [(x0 % 256) as u8, (x1 % 256) as u8, (x2 % 256) as u8, (x3 % 256) as u8, (x4 % 256) as u8, (x5 % 256) as u8, (x6 % 256) as u8, (x7 % 256) as u8];
    proof {
        reveal_with_fuel(le_bytes, 9);
        assert(b@ =~= le_bytes(i as nat, 8));
    }
    b
}

/// The number that `i` is written as.
pub(crate) fn cast8(i: i8) -> (u: u8)
    ensures
        u == unsigned(i as int, 1),
{
    proof {
        reveal_with_fuel(radix, 2);
    }
    if i >= 0 {
        i as u8
    } else {
        (i - i8::MIN) as u8 + 0x80
    }
}

/// The number that `i` is written as.
pub(crate) fn cast16(i: i16) -> (u: u16)
    ensures
        u == unsigned(i as int, 2),
{
    proof {
        reveal_with_fuel(radix, 3);
    }
    if i >= 0 {
        i as u16
    } else {
        (i - i16::MIN) as u16 + 0x8000
    }
}

/// The number that `i` is written as.
pub(crate) fn cast32(i: i32) -> (u: u32)
    ensures
        u == unsigned(i as int, 4),
{
    proof {
        reveal_with_fuel(radix, 5);
    }
    if i >= 0 {
        i as u32
    } else {
        (i - i32::MIN) as u32 + 0x8000_0000
    }
}

/// The number that `i` is written as.
pub(crate) fn cast64(i: i64) -> (u: u64)
    ensures
        u == unsigned(i as int, 8),
{
    proof {
        reveal_with_fuel(radix, 9);
    }
    if i >= 0 {
        i as u64
    } else {
        (i - i64::MIN) as u64 + 0x8000_0000_0000_0000
    }
}

/// Writes an `u8` to the output.
pub fn be_u8<W: Write>(i: u8) -> (f: impl SerializeFn<W>)
    ensures
        emits(f, be_bytes(i as nat, 1)),
{
    let bytes = be1(i);
    move |out: WriteContext<W>| -> (r: GenResult<W>)
        requires
            out.ready(bytes@.len()),
        ensures
            crate::combinator::emitted(out, bytes@, r),
    {
        try_write(out, bytes.as_slice())
    }
}

/// Writes an `u16` in big endian byte order to the output.
pub fn be_u16<W: Write>(i: u16) -> (f: impl SerializeFn<W>)
    ensures
        emits(f, be_bytes(i as nat, 2)),
{
    let bytes = be2(i);
    move |out: WriteContext<W>| -> (r: GenResult<W>)
        requires
            out.ready(bytes@.len()),
        ensures
            crate::combinator::emitted(out, bytes@, r),
    {
        try_write(out, bytes.as_slice())
    }
}

/// Writes the lower 24 bit of an `u32` in big endian byte order to the output.
pub fn be_u24<W: Write>(i: u32) -> (f: impl SerializeFn<W>)
    ensures
        emits(f, be_bytes(i as nat, 3)),
{
    let bytes = be3(i);
    move |out: WriteContext<W>| -> (r: GenResult<W>)
        requires
            out.ready(bytes@.len()),
        ensures
            crate::combinator::emitted(out, bytes@, r),
    {
        try_write(out, bytes.as_slice())
    }
}

/// Writes an `u32` in big endian byte order to the output.
pub fn be_u32<W: Write>(i: u32) -> (f: impl SerializeFn<W>)
    ensures
        emits(f, be_bytes(i as nat, 4)),
{
    let bytes = be4(i);
    move |out: WriteContext<W>| -> (r: GenResult<W>)
        requires
            out.ready(bytes@.len()),
        ensures
            crate::combinator::emitted(out, bytes@, r),
    {
        try_write(out, bytes.as_slice())
    }
}

/// Writes an `u64` in big endian byte order to the output.
pub fn be_u64<W: Write>(i: u64) -> (f: impl SerializeFn<W>)
    ensures
        emits(f, be_bytes(i as nat, 8)),
{
    let bytes = be8(i);
    move |out: WriteContext<W>| -> (r: GenResult<W>)
        requires
            out.ready(bytes@.len()),
        ensures
            crate::combinator::emitted(out, bytes@, r),
    {
        try_write(out, bytes.as_slice())
    }
}

/// Writes an `i8` to the output.
pub fn be_i8<W: Write>(i: i8) -> (f: impl SerializeFn<W>)
    ensures
        emits(f, be_bytes(unsigned(i as int, 1), 1)),
{
    be_u8(cast8(i))
}

/// Writes an `i16` in big endian byte order to the output.
pub fn be_i16<W: Write>(i: i16) -> (f: impl SerializeFn<W>)
    ensures
        emits(f, be_bytes(unsigned(i as int, 2), 2)),
{
    be_u16(cast16(i))
}

/// Writes the lower 24 bit of an `i32` in big endian byte order to the output.
pub fn be_i24<W: Write>(i: i32) -> (f: impl SerializeFn<W>)
    ensures
        emits(f, be_bytes(unsigned(i as int, 4), 3)),
{
    be_u24(cast32(i))
}

/// Writes an `i32` in big endian byte order to the output.
pub fn be_i32<W: Write>(i: i32) -> (f: impl SerializeFn<W>)
    ensures
        emits(f, be_bytes(unsigned(i as int, 4), 4)),
{
    be_u32(cast32(i))
}

/// Writes an `i64` in big endian byte order to the output.
pub fn be_i64<W: Write>(i: i64) -> (f: impl SerializeFn<W>)
    ensures
        emits(f, be_bytes(unsigned(i as int, 8), 8)),
{
    be_u64(cast64(i))
}

/// Writes an `u8` to the output.
pub fn le_u8<W: Write>(i: u8) -> (f: impl SerializeFn<W>)
    ensures
        emits(f, le_bytes(i as nat, 1)),
{
    let bytes = le1(i);
    move |out: WriteContext<W>| -> (r: GenResult<W>)
        requires
            out.ready(bytes@.len()),
        ensures
            crate::combinator::emitted(out, bytes@, r),
    {
        try_write(out, bytes.as_slice())
    }
}

/// Writes an `u16` in little endian byte order to the output.
pub fn le_u16<W: Write>(i: u16) -> (f: impl SerializeFn<W>)
    ensures
        emits(f, le_bytes(i as nat, 2)),
{
    let bytes = le2(i);
    move |out: WriteContext<W>| -> (r: GenResult<W>)
        requires
            out.ready(bytes@.len()),
        ensures
            crate::combinator::emitted(out, bytes@, r),
    {
        try_write(out, bytes.as_slice())
    }
}

/// Writes the lower 24 bit of an `u32` in little endian byte order to the output.
pub fn le_u24<W: Write>(i: u32) -> (f: impl SerializeFn<W>)
    ensures
        emits(f, le_bytes(i as nat, 3)),
{
    let bytes = le3(i);
    move |out: WriteContext<W>| -> (r: GenResult<W>)
        requires
            out.ready(bytes@.len()),
        ensures
            crate::combinator::emitted(out, bytes@, r),
    {
        try_write(out, bytes.as_slice())
    }
}

/// Writes an `u32` in little endian byte order to the output.
pub fn le_u32<W: Write>(i: u32) -> (f: impl SerializeFn<W>)
    ensures
        emits(f, le_bytes(i as nat, 4)),
{
    let bytes = le4(i);
    move |out: WriteContext<W>| -> (r: GenResult<W>)
        requires
            out.ready(bytes@.len()),
        ensures
            crate::combinator::emitted(out, bytes@, r),
    {
        try_write(out, bytes.as_slice())
    }
}

/// Writes an `u64` in little endian byte order to the output.
pub fn le_u64<W: Write>(i: u64) -> (f: impl SerializeFn<W>)
    ensures
        emits(f, le_bytes(i as nat, 8)),
{
    let bytes = le8(i);
    move |out: WriteContext<W>| -> (r: GenResult<W>)
        requires
            out.ready(bytes@.len()),
        ensures
            crate::combinator::emitted(out, bytes@, r),
    {
        try_write(out, bytes.as_slice())
    }
}

/// Writes an `i8` to the output.
pub fn le_i8<W: Write>(i: i8) -> (f: impl SerializeFn<W>)
    ensures
        emits(f, le_bytes(unsigned(i as int, 1), 1)),
{
    le_u8(cast8(i))
}

/// Writes an `i16` in little endian byte order to the output.
pub fn le_i16<W: Write>(i: i16) -> (f: impl SerializeFn<W>)
    ensures
        emits(f, le_bytes(unsigned(i as int, 2), 2)),
{
    le_u16(cast16(i))
}

/// Writes the lower 24 bit of an `i32` in little endian byte order to the output.
pub fn le_i24<W: Write>(i: i32) -> (f: impl SerializeFn<W>)
    ensures
        emits(f, le_bytes(unsigned(i as int, 4), 3)),
{
    le_u24(cast32(i))
}

/// Writes an `i32` in little endian byte order to the output.
pub fn le_i32<W: Write>(i: i32) -> (f: impl SerializeFn<W>)
    ensures
        emits(f, le_bytes(unsigned(i as int, 4), 4)),
{
    le_u32(cast32(i))
}

/// Writes an `i64` in little endian byte order to the output.
pub fn le_i64<W: Write>(i: i64) -> (f: impl SerializeFn<W>)
    ensures
        emits(f, le_bytes(unsigned(i as int, 8), 8)),
{
    le_u64(cast64(i))
}

/// The bytes of `i` in the byte order of the machine, as `u16::to_ne_bytes`
/// gives them. That order is the big endian or the little endian one, and
/// which of the two is not stated.
#[verifier::external_body]
fn native2(i: u16) -> (b: [u8; 2])
    ensures
        b@ == be_bytes(i as nat, 2) || b@ == le_bytes(i as nat, 2),
{
    i.to_ne_bytes()
}

/// The bytes of `i` in the byte order of the machine, as `u32::to_ne_bytes`
/// gives them. That order is the big endian or the little endian one, and
/// which of the two is not stated.
#[verifier::external_body]
fn native4(i: u32) -> (b: [u8; 4])
    ensures
        b@ == be_bytes(i as nat, 4) || b@ == le_bytes(i as nat, 4),
{
    i.to_ne_bytes()
}

/// The bytes of `i` in the byte order of the machine, as `u64::to_ne_bytes`
/// gives them. That order is the big endian or the little endian one, and
/// which of the two is not stated.
#[verifier::external_body]
fn native8(i: u64) -> (b: [u8; 8])
    ensures
        b@ == be_bytes(i as nat, 8) || b@ == le_bytes(i as nat, 8),
{
    i.to_ne_bytes()
}

/// Writes an `u8` to the output.
pub fn ne_u8<W: Write>(i: u8) -> (f: impl SerializeFn<W>)
    ensures
        emits(f, be_bytes(i as nat, 1)),
{
    let bytes = be1(i);
    move |out: WriteContext<W>| -> (r: GenResult<W>)
        requires
            out.ready(bytes@.len()),
        ensures
            crate::combinator::emitted(out, bytes@, r),
    {
        try_write(out, bytes.as_slice())
    }
}

/// Writes an `u16` in native byte order to the output.
pub fn ne_u16<W: Write>(i: u16) -> (f: impl SerializeFn<W>)
    ensures
        emits(f, be_bytes(i as nat, 2)) || emits(f, le_bytes(i as nat, 2)),
{
    let bytes = native2(i);
    move |out: WriteContext<W>| -> (r: GenResult<W>)
        requires
            out.ready(bytes@.len()),
        ensures
            crate::combinator::emitted(out, bytes@, r),
    {
        try_write(out, bytes.as_slice())
    }
}

/// Writes an `u32` in native byte order to the output.
pub fn ne_u32<W: Write>(i: u32) -> (f: impl SerializeFn<W>)
    ensures
        emits(f, be_bytes(i as nat, 4)) || emits(f, le_bytes(i as nat, 4)),
{
    let bytes = native4(i);
    move |out: WriteContext<W>| -> (r: GenResult<W>)
        requires
            out.ready(bytes@.len()),
        ensures
            crate::combinator::emitted(out, bytes@, r),
    {
        try_write(out, bytes.as_slice())
    }
}

/// Writes an `u64` in native byte order to the output.
pub fn ne_u64<W: Write>(i: u64) -> (f: impl SerializeFn<W>)
    ensures
        emits(f, be_bytes(i as nat, 8)) || emits(f, le_bytes(i as nat, 8)),
{
    let bytes = native8(i);
    move |out: WriteContext<W>| -> (r: GenResult<W>)
        requires
            out.ready(bytes@.len()),
        ensures
            crate::combinator::emitted(out, bytes@, r),
    {
        try_write(out, bytes.as_slice())
    }
}

/// Writes the lower 24 bit of an `u32` in native byte order to the output.
pub fn ne_u24<W: Write>(i: u32) -> (f: impl SerializeFn<W>)
    ensures
        emits(f, be_bytes(i as nat, 3)) || emits(f, le_bytes(i as nat, 3)),
{
    // the first native byte of the number 1 is 0 where the order is big endian
    let probe = native2(1);
    let bytes = if probe[0] == 0 {
        be3(i)
    } else {
        le3(i)
    };
    move |out: WriteContext<W>| -> (r: GenResult<W>)
        requires
            out.ready(bytes@.len()),
        ensures
            crate::combinator::emitted(out, bytes@, r),
    {
        try_write(out, bytes.as_slice())
    }
}

/// Writes an `i8` to the output.
pub fn ne_i8<W: Write>(i: i8) -> (f: impl SerializeFn<W>)
    ensures
        emits(f, be_bytes(unsigned(i as int, 1), 1)),
{
    ne_u8(cast8(i))
}

/// Writes an `i16` in native byte order to the output.
pub fn ne_i16<W: Write>(i: i16) -> (f: impl SerializeFn<W>)
    ensures
        emits(f, be_bytes(unsigned(i as int, 2), 2)) || emits(f, le_bytes(unsigned(i as int, 2), 2)),
{
    ne_u16(cast16(i))
}

/// Writes the lower 24 bit of an `i32` in native byte order to the output.
pub fn ne_i24<W: Write>(i: i32) -> (f: impl SerializeFn<W>)
    ensures
        emits(f, be_bytes(unsigned(i as int, 4), 3)) || emits(f, le_bytes(unsigned(i as int, 4), 3)),
{
    ne_u24(cast32(i))
}

/// Writes an `i32` in native byte order to the output.
pub fn ne_i32<W: Write>(i: i32) -> (f: impl SerializeFn<W>)
    ensures
        emits(f, be_bytes(unsigned(i as int, 4), 4)) || emits(f, le_bytes(unsigned(i as int, 4), 4)),
{
    ne_u32(cast32(i))
}

/// Writes an `i64` in native byte order to the output.
pub fn ne_i64<W: Write>(i: i64) -> (f: impl SerializeFn<W>)
    ensures
        emits(f, be_bytes(unsigned(i as int, 8), 8)) || emits(f, le_bytes(unsigned(i as int, 8), 8)),
{
    ne_u64(cast64(i))
}

} // verus!
