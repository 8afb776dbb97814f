//! Byte buffers of the `bytes` crate, and checksums and texts that other crates compute from bytes.
use base64::Engine;
use bytes::{Buf, BufMut, Bytes, BytesMut};
use vstd::prelude::*;
use vstd::utf8::*;

verus! {

/// `bytes::BytesMut`, a buffer that grows at its end and is read from its front.
#[verifier::external_type_specification]
#[verifier::external_body]
pub struct ExBytesMut(bytes::BytesMut);

/// `bytes::Bytes`, a run of bytes that does not change.
#[verifier::external_type_specification]
#[verifier::external_body]
pub struct ExBytes(bytes::Bytes);

/// The bytes that a growing buffer holds, from front to end.
pub uninterp spec fn held(buffer: BytesMut) -> Seq<u8>;

/// The bytes of a run.
pub uninterp spec fn payload(bytes: Bytes) -> Seq<u8>;

/// A number of 16 bits in two bytes, the high one first.
pub open spec fn big_endian_16(n: u16) -> Seq<u8> {
    seq![(n / 0x100) as u8, (n % 0x100) as u8]
}

/// A number of 32 bits in four bytes, the high one first.
pub open spec fn big_endian_32(n: u32) -> Seq<u8> {
    seq![
        (n / 0x100_0000) as u8,
        (n / 0x1_0000 % 0x100) as u8,
        (n / 0x100 % 0x100) as u8,
        (n % 0x100) as u8,
    ]
}

/// The number in two bytes, the high one first.
pub open spec fn from_big_endian_16(b: Seq<u8>) -> u16 {
    (b[0] * 0x100 + b[1]) as u16
}

/// The number in four bytes, the highest first.
pub open spec fn from_big_endian_32(b: Seq<u8>) -> u32 {
    (b[0] * 0x100_0000 + b[1] * 0x1_0000 + b[2] * 0x100 + b[3]) as u32
}

/// `BytesMut::new` makes a buffer that holds nothing.
#[verifier::external_body]
pub(crate) fn new_buffer() -> (r: BytesMut)
    ensures
        held(r) == Seq::<u8>::empty(),
{
    BytesMut::new()
}

/// `BytesMut::with_capacity` makes a buffer that holds nothing.
#[verifier::external_body]
pub(crate) fn buffer_with_capacity(capacity: usize) -> (r: BytesMut)
    requires
        capacity <= isize::MAX,
    ensures
        held(r) == Seq::<u8>::empty(),
{
    BytesMut::with_capacity(capacity)
}

/// `BytesMut` dereferences to the bytes that it holds.
#[verifier::external_body]
pub(crate) fn buffer_slice(buffer: &BytesMut) -> (r: &[u8])
    ensures
        r@ == held(*buffer),
{
    &buffer[..]
}

/// `BytesMut::extend_from_slice` appends the bytes.
#[verifier::external_body]
pub(crate) fn buffer_extend(buffer: &mut BytesMut, data: &[u8])
    requires
        held(*old(buffer)).len() + data@.len() <= isize::MAX,
    ensures
        held(*final(buffer)) == held(*old(buffer)) + data@,
{
    buffer.extend_from_slice(data)
}

/// `BufMut::put_slice` on a `BytesMut` appends the bytes.
#[verifier::external_body]
pub(crate) fn buffer_put_slice(buffer: &mut BytesMut, data: &[u8])
    requires
        held(*old(buffer)).len() + data@.len() <= isize::MAX,
    ensures
        held(*final(buffer)) == held(*old(buffer)) + data@,
{
    buffer.put_slice(data)
}

/// `BufMut::put_u8` on a `BytesMut` appends one byte.
#[verifier::external_body]
pub(crate) fn buffer_put_u8(buffer: &mut BytesMut, n: u8)
    requires
        held(*old(buffer)).len() + 1 <= isize::MAX,
    ensures
        held(*final(buffer)) == held(*old(buffer)).push(n),
{
    buffer.put_u8(n)
}

/// `BufMut::put_u16` on a `BytesMut` appends two bytes, the high one first.
#[verifier::external_body]
pub(crate) fn buffer_put_u16(buffer: &mut BytesMut, n: u16)
    requires
        held(*old(buffer)).len() + 2 <= isize::MAX,
    ensures
        held(*final(buffer)) == held(*old(buffer)) + big_endian_16(n),
{
    buffer.put_u16(n)
}

/// `BufMut::put_u32` on a `BytesMut` appends four bytes, the highest first.
#[verifier::external_body]
pub(crate) fn buffer_put_u32(buffer: &mut BytesMut, n: u32)
    requires
        held(*old(buffer)).len() + 4 <= isize::MAX,
    ensures
        held(*final(buffer)) == held(*old(buffer)) + big_endian_32(n),
{
    buffer.put_u32(n)
}

/// `BytesMut::clear` drops all that the buffer holds.
#[verifier::external_body]
pub(crate) fn buffer_clear(buffer: &mut BytesMut)
    ensures
        held(*final(buffer)) == Seq::<u8>::empty(),
{
    buffer.clear()
}

/// `Buf::advance` on a `BytesMut` drops bytes from the front. It panics where there are fewer.
#[verifier::external_body]
pub(crate) fn buffer_advance(buffer: &mut BytesMut, count: usize)
    requires
        count <= held(*old(buffer)).len(),
    ensures
        held(*final(buffer)) == held(*old(buffer)).skip(count as int),
{
    buffer.advance(count)
}

/// `BytesMut::split_to` takes bytes from the front and leaves the rest. It panics where there are
/// fewer.
#[verifier::external_body]
pub(crate) fn buffer_split_to(buffer: &mut BytesMut, at: usize) -> (r: BytesMut)
    requires
        at <= held(*old(buffer)).len(),
    ensures
        held(r) == held(*old(buffer)).take(at as int),
        held(*final(buffer)) == held(*old(buffer)).skip(at as int),
{
    buffer.split_to(at)
}

/// `BytesMut::freeze` keeps the bytes.
#[verifier::external_body]
pub(crate) fn buffer_freeze(buffer: BytesMut) -> (r: Bytes)
    ensures
        payload(r) == held(buffer),
{
    buffer.freeze()
}

/// `Bytes::copy_from_slice` copies the bytes.
#[verifier::external_body]
pub(crate) fn bytes_copy(data: &[u8]) -> (r: Bytes)
    ensures
        payload(r) == data@,
{
    Bytes::copy_from_slice(data)
}

/// `Bytes` dereferences to its bytes.
#[verifier::external_body]
pub(crate) fn bytes_slice(bytes: &Bytes) -> (r: &[u8])
    ensures
        r@ == payload(*bytes),
{
    &bytes[..]
}

/// The CRC-32 checksum of a run of bytes.
pub uninterp spec fn crc32(data: Seq<u8>) -> u32;

/// `crc32fast::hash` computes the checksum, which depends on the bytes alone.
#[verifier::external_body]
pub(crate) fn crc32_of(data: &[u8]) -> (r: u32)
    ensures
        r == crc32(data@),
{
    crc32fast::hash(data)
}

/// The MD5 digest of a run of bytes, in lower-case hexadecimal digits.
pub uninterp spec fn md5_hex(data: Seq<u8>) -> Seq<char>;

/// `md5::compute` digests the bytes, and its result is written in hexadecimal.
#[verifier::external_body]
pub(crate) fn md5_text(data: &[u8]) -> (r: String)
    ensures
        r@ == md5_hex(data@),
{
    format!("{:x}", md5::compute(data))
}

/// The standard base64 text of a run of bytes, with padding.
pub uninterp spec fn base64_text(data: Seq<u8>) -> Seq<char>;

/// What standard base64 decoding makes of the bytes of a text: the bytes that it stands for, or
/// what is wrong with it.
pub uninterp spec fn base64_decoded(text: Seq<u8>) -> Result<Seq<u8>, Seq<char>>;

/// The base64 text of so many bytes fits in memory.
pub open spec fn base64_fits(len: nat) -> bool {
    (len / 3 + 1) * 4 <= isize::MAX
}

/// `base64::engine::general_purpose::STANDARD.encode` writes bytes as a text of the letters,
/// digits and signs of the standard alphabet, all of them ASCII and none a line break, four for
/// every three bytes begun. Decoding the text gives the bytes back. It panics where the text would
/// not fit in memory.
#[verifier::external_body]
pub(crate) fn base64_encode(data: &[u8]) -> (r: String)
    requires
        base64_fits(data@.len()),
    ensures
        r@ == base64_text(data@),
        is_ascii_chars(r@),
        forall|i: int| 0 <= i < r@.len() ==> r@[i] != '\n',
        r@.len() == (data@.len() + 2) / 3 * 4,
        (base64_decoded(encode_utf8(r@)) == Ok::<Seq<u8>, Seq<char>>(data@)),
{
    base64::engine::general_purpose::STANDARD.encode(data)
}

/// `base64::engine::general_purpose::STANDARD.decode` gives the bytes that a text stands for, or
/// says what is wrong with it.
#[verifier::external_body]
pub(crate) fn base64_decode(text: &[u8]) -> (r: Result<Vec<u8>, String>)
    ensures
        match r {
            Ok(data) => base64_decoded(text@) == Ok::<Seq<u8>, Seq<char>>(data@),
            Err(fault) => base64_decoded(text@) == Err::<Seq<u8>, Seq<char>>(fault@),
        },
{
    base64::engine::general_purpose::STANDARD.decode(text).map_err(|e| e.to_string())
}

} // verus!
