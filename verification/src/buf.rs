//! Byte buffers: `Bytes` and `BytesMut` of the `bytes` crate, and integers in
//! network byte order.
use bytes::{Buf, BufMut, Bytes, BytesMut};
use vstd::prelude::*;

verus! {

/// `bytes::Bytes`, an immutable, shared run of bytes.
#[verifier::external_type_specification]
#[verifier::external_body]
pub struct ExBytes(bytes::Bytes);

/// `bytes::BytesMut`, a growable run of bytes.
#[verifier::external_type_specification]
#[verifier::external_body]
pub struct ExBytesMut(bytes::BytesMut);

/// The bytes that a `Bytes` still holds, in order.
pub uninterp spec fn bytes_content(b: Bytes) -> Seq<u8>;

/// The bytes that a `BytesMut` holds, in order.
pub uninterp spec fn bytes_mut_content(b: BytesMut) -> Seq<u8>;

// ---------------------------------------------------------------------------
// Bytes
// ---------------------------------------------------------------------------

/// `Bytes::copy_from_slice` holds a copy of the slice.
pub assume_specification[ Bytes::copy_from_slice ](data: &[u8]) -> (out: Bytes)
    ensures
        bytes_content(out) == data@,
;

/// `Bytes::from(Vec<u8>)` holds the vector's bytes.
#[verifier::external_body]
pub(crate) fn bytes_from_vec(data: Vec<u8>) -> (out: Bytes)
    ensures
        bytes_content(out) == data@,
{
    Bytes::from(data)
}

/// `Bytes::clone` holds the same bytes.
#[verifier::external_body]
pub(crate) fn bytes_clone(b: &Bytes) -> (out: Bytes)
    ensures
        bytes_content(out) == bytes_content(*b),
{
    b.clone()
}

/// `Bytes::as_ref` is a view of the bytes.
#[verifier::external_body]
pub(crate) fn bytes_as_slice<'a>(b: &'a Bytes) -> (out: &'a [u8])
    ensures
        out@ == bytes_content(*b),
{
    b.as_ref()
}

/// `Buf::get_u8` takes the first byte off the front.
#[verifier::external_body]
pub(crate) fn bytes_get_u8(b: &mut Bytes) -> (out: u8)
    requires
        bytes_content(*old(b)).len() >= 1,
    ensures
        out == bytes_content(*old(b))[0],
        bytes_content(*final(b)) == bytes_content(*old(b)).skip(1),
{
    b.get_u8()
}

/// `Buf::get_u32` takes a big-endian 32-bit number off the front.
#[verifier::external_body]
pub(crate) fn bytes_get_u32(b: &mut Bytes) -> (out: u32)
    requires
        bytes_content(*old(b)).len() >= 4,
    ensures
        out == be_u32(bytes_content(*old(b)).take(4)),
        bytes_content(*final(b)) == bytes_content(*old(b)).skip(4),
{
    b.get_u32()
}

/// `Buf::get_i32` takes a big-endian signed 32-bit number off the front.
#[verifier::external_body]
pub(crate) fn bytes_get_i32(b: &mut Bytes) -> (out: i32)
    requires
        bytes_content(*old(b)).len() >= 4,
    ensures
        out == be_i32(bytes_content(*old(b)).take(4)),
        bytes_content(*final(b)) == bytes_content(*old(b)).skip(4),
{
    b.get_i32()
}

/// `Buf::advance` drops `n` bytes from the front.
#[verifier::external_body]
pub(crate) fn bytes_advance(b: &mut Bytes, n: usize)
    requires
        n <= bytes_content(*old(b)).len(),
    ensures
        bytes_content(*final(b)) == bytes_content(*old(b)).skip(n as int),
{
    b.advance(n)
}

/// `Buf::copy_to_bytes` takes `n` bytes off the front.
#[verifier::external_body]
pub(crate) fn bytes_copy_to_bytes(b: &mut Bytes, n: usize) -> (out: Bytes)
    requires
        n <= bytes_content(*old(b)).len(),
    ensures
        bytes_content(out) == bytes_content(*old(b)).take(n as int),
        bytes_content(*final(b)) == bytes_content(*old(b)).skip(n as int),
{
    b.copy_to_bytes(n)
}

/// The bytes of a `Bytes`, as a vector.
pub fn bytes_to_vec(b: &Bytes) -> (out: Vec<u8>)
    ensures
        out@ == bytes_content(*b),
{
    vstd::slice::slice_to_vec(bytes_as_slice(b))
}

/// The number of bytes.
pub(crate) fn bytes_len(b: &Bytes) -> (n: usize)
    ensures
        n == bytes_content(*b).len(),
{
    bytes_as_slice(b).len()
}

// ---------------------------------------------------------------------------
// BytesMut
// ---------------------------------------------------------------------------

/// `BytesMut::new` is empty.
pub assume_specification[ BytesMut::new ]() -> (out: BytesMut)
    ensures
        bytes_mut_content(out) == Seq::<u8>::empty(),
;

/// `BytesMut::extend_from_slice` appends a slice.
pub assume_specification[ BytesMut::extend_from_slice ](b: &mut BytesMut, data: &[u8])
    ensures
        bytes_mut_content(*final(b)) == bytes_mut_content(*old(b)) + data@,
;

/// `BytesMut::freeze` keeps the bytes.
pub assume_specification[ BytesMut::freeze ](b: BytesMut) -> (out: Bytes)
    ensures
        bytes_content(out) == bytes_mut_content(b),
;

/// `BytesMut::split_to` takes the first `at` bytes off the front.
pub assume_specification[ BytesMut::split_to ](b: &mut BytesMut, at: usize) -> (out: BytesMut)
    requires
        at <= bytes_mut_content(*old(b)).len(),
    ensures
        bytes_mut_content(out) == bytes_mut_content(*old(b)).take(at as int),
        bytes_mut_content(*final(b)) == bytes_mut_content(*old(b)).skip(at as int),
;

/// `BytesMut::split` takes everything and leaves an empty buffer.
pub assume_specification[ BytesMut::split ](b: &mut BytesMut) -> (out: BytesMut)
    ensures
        bytes_mut_content(out) == bytes_mut_content(*old(b)),
        bytes_mut_content(*final(b)) == Seq::<u8>::empty(),
;

/// `BytesMut::len` counts the bytes.
pub assume_specification[ BytesMut::len ](b: &BytesMut) -> (n: usize)
    ensures
        n == bytes_mut_content(*b).len(),
;

/// `BufMut::put_u8` appends one byte.
#[verifier::external_body]
pub(crate) fn put_u8(b: &mut BytesMut, v: u8)
    ensures
        bytes_mut_content(*final(b)) == bytes_mut_content(*old(b)).push(v),
{
    b.put_u8(v)
}

/// `BufMut::put_u32` appends a number in big-endian order.
#[verifier::external_body]
pub(crate) fn put_u32(b: &mut BytesMut, v: u32)
    ensures
        bytes_mut_content(*final(b)) == bytes_mut_content(*old(b)) + u32_be(v),
{
    b.put_u32(v)
}

/// `BufMut::put_i32` appends a signed number in big-endian order.
#[verifier::external_body]
pub(crate) fn put_i32(b: &mut BytesMut, v: i32)
    ensures
        bytes_mut_content(*final(b)) == bytes_mut_content(*old(b)) + i32_be(v),
{
    b.put_i32(v)
}

// ---------------------------------------------------------------------------
// Network byte order
// ---------------------------------------------------------------------------

/// The number that two bytes write, most significant first.
pub open spec fn be_u16(s: Seq<u8>) -> int {
    s[0] as int * 0x100 + s[1] as int
}

/// The number that four bytes write, most significant first.
pub open spec fn be_u32(s: Seq<u8>) -> int {
    s[0] as int * 0x100_0000 + s[1] as int * 0x1_0000 + s[2] as int * 0x100 + s[3] as int
}

/// The two's-complement number that four bytes write, most significant first.
pub open spec fn be_i32(s: Seq<u8>) -> int {
    if be_u32(s) < 0x8000_0000 {
        be_u32(s)
    } else {
        be_u32(s) - 0x1_0000_0000
    }
}

/// Two bytes write a number, most significant first.
pub open spec fn writes_u16(b: Seq<u8>, n: int) -> bool {
    b.len() == 2 && n == b[0] as int * 256 + b[1] as int
}

/// Four bytes write a number, most significant first.
pub open spec fn writes_u32(b: Seq<u8>, n: int) -> bool {
    b.len() == 4 && n == ((b[0] as int * 256 + b[1] as int) * 256 + b[2] as int) * 256
        + b[3] as int
}

/// The two bytes of a number, most significant first.
pub open spec fn u16_be(v: u16) -> Seq<u8> {
    seq![(v / 0x100) as u8, (v % 0x100) as u8]
}

/// The four bytes of a number, most significant first.
pub open spec fn u32_be(v: u32) -> Seq<u8> {
    seq![
        (v / 0x100_0000) as u8,
        (v / 0x1_0000 % 0x100) as u8,
        (v / 0x100 % 0x100) as u8,
        (v % 0x100) as u8,
    ]
}

/// The four bytes of a two's-complement number, most significant first.
pub open spec fn i32_be(v: i32) -> Seq<u8> {
    u32_be(
        if v >= 0 {
            v as u32
        } else {
            (v + 0x1_0000_0000) as u32
        },
    )
}

/// Reading two bytes back gives the number that was written.
pub proof fn lemma_u16_be(v: u16)
    ensures
        u16_be(v).len() == 2,
        be_u16(u16_be(v)) == v,
{
}

/// Reading four bytes back gives the number that was written.
pub proof fn lemma_u32_be(v: u32)
    ensures
        u32_be(v).len() == 4,
        be_u32(u32_be(v)) == v,
{
}

/// Reading four bytes back gives the signed number that was written.
pub proof fn lemma_i32_be(v: i32)
    ensures
        i32_be(v).len() == 4,
        be_i32(i32_be(v)) == v,
{
    lemma_u32_be(
        if v >= 0 {
            v as u32
        } else {
            (v + 0x1_0000_0000) as u32
        },
    );
}

/// The bytes that write a number are its bytes.
pub proof fn lemma_u16_bytes(b: Seq<u8>, v: u16)
    requires
        writes_u16(b, v as int),
    ensures
        u16_be(v) == b,
{
    assert(u16_be(v) =~= b);
}

/// The bytes that write a number are its bytes.
pub proof fn lemma_u32_bytes(b: Seq<u8>, v: u32)
    requires
        writes_u32(b, v as int),
    ensures
        u32_be(v) == b,
{
    let high = b[0] as int * 256 + b[1] as int;
    let upper = high * 256 + b[2] as int;
    assert(v == upper * 256 + b[3] as int);
    assert(v as int / 0x100 == upper);
    assert(upper / 0x100 == high);
    assert(v as int / 0x1_0000 == high);
    assert(high / 0x100 == b[0] as int);
    assert(v as int / 0x100_0000 == b[0] as int);
    assert(u32_be(v) =~= b);
}

/// The number at `data[at..at + 2]`.
pub(crate) fn read_u16(data: &[u8], at: usize) -> (v: u16)
    requires
        at + 2 <= data@.len(),
    ensures
        v == be_u16(data@.subrange(at as int, at + 2)),
{
    data[at] as u16 * 0x100 + data[at + 1] as u16
}

/// The number at `data[at..at + 4]`.
pub(crate) fn read_u32(data: &[u8], at: usize) -> (v: u32)
    requires
        at + 4 <= data@.len(),
    ensures
        v == be_u32(data@.subrange(at as int, at + 4)),
{
    data[at] as u32 * 0x100_0000 + data[at + 1] as u32 * 0x1_0000 + data[at + 2] as u32 * 0x100
        + data[at + 3] as u32
}

/// Appends the two bytes of `v`.
pub(crate) fn push_u16(out: &mut Vec<u8>, v: u16)
    ensures
        final(out)@ == old(out)@ + u16_be(v),
{
    out.push((v / 0x100) as u8);
    out.push((v % 0x100) as u8);
    proof {
        assert(out@ =~= old(out)@ + u16_be(v));
    }
}

/// Appends the four bytes of `v`.
pub(crate) fn push_u32(out: &mut Vec<u8>, v: u32)
    ensures
        final(out)@ == old(out)@ + u32_be(v),
{
    out.push((v / 0x100_0000) as u8);
    out.push((v / 0x1_0000 % 0x100) as u8);
    out.push((v / 0x100 % 0x100) as u8);
    out.push((v % 0x100) as u8);
    proof {
        assert(out@ =~= old(out)@ + u32_be(v));
    }
}

/// Appends a copy of `data`.
pub(crate) fn extend(out: &mut Vec<u8>, data: &[u8])
    ensures
        final(out)@ == old(out)@ + data@,
{
    out.extend_from_slice(data);
    proof {
        assert(out@ =~= old(out)@ + data@);
    }
}

/// A copy of `data[from..to]`.
pub(crate) fn copy_range(data: &[u8], from: usize, to: usize) -> (r: Vec<u8>)
    requires
        from <= to <= data@.len(),
    ensures
        r@ == data@.subrange(from as int, to as int),
{
    vstd::slice::slice_to_vec(vstd::slice::slice_subrange(data, from, to))
}

/// The numbers that bytes write, and the bytes that write a number, are the same both
/// ways; in two's complement the upper half stands for the negative numbers.
pub proof fn law_big_endian(b: Seq<u8>, n: int, v: i32)
    ensures
        writes_u32(b, n) ==> be_u32(b) == n,
        writes_u16(b, n) ==> be_u16(b) == n,
        writes_u32(b, n) && n < 0x8000_0000 ==> be_i32(b) == n,
        writes_u32(b, n) && n >= 0x8000_0000 ==> be_i32(b) == n - 0x1_0000_0000,
        writes_u32(
            i32_be(v),
            if v >= 0 {
                v as int
            } else {
                v + 0x1_0000_0000
            },
        ),
{
    lemma_u32_be(
        if v >= 0 {
            v as u32
        } else {
            (v + 0x1_0000_0000) as u32
        },
    );
}

} // verus!
