//! The wire layout of one frame: a big-endian 32-bit length, the encoded
//! metadata of that length, then the payload and the attachments.

use vstd::prelude::*;
use vstd::slice::slice_subrange;

verus! {

/// What can be wrong with a frame or with the lengths its metadata announces.
#[derive(Debug, Clone, Copy, PartialEq, Eq, Structural)]
pub enum CodecError {
    /// The length prefix is missing, the announced metadata or payload does
    /// not fit into the buffer, or the metadata is too long for the prefix.
    InvalidLength,
    /// The payload is not the text of a structured value.
    PayloadDecodeError,
    /// The payload has no text as a structured value.
    PayloadEncodeError,
    /// The attachments announced by the metadata exceed the remaining bytes.
    TruncatedAttachment,
}

/// Number of bytes of the length prefix.
pub const PREFIX_LEN: usize = 4;

/// The four bytes of `n`, most significant first.
pub open spec fn be32(n: u32) -> Seq<u8> {
    seq![
        (n / 0x100_0000) as u8,
        ((n / 0x1_0000) % 0x100) as u8,
        ((n / 0x100) % 0x100) as u8,
        (n % 0x100) as u8,
    ]
}

/// The number whose big-endian bytes are the first four of `bytes`.
pub open spec fn be32_value(bytes: Seq<u8>) -> int
    recommends
        bytes.len() >= 4,
{
    bytes[0] * 0x100_0000 + bytes[1] * 0x1_0000 + bytes[2] * 0x100 + bytes[3]
}

/// Reading back the bytes of a number gives the number.
pub proof fn lemma_be32_value(n: u32)
    ensures
        be32(n).len() == 4,
        be32_value(be32(n)) == n,
{
}

/// A frame: the length of `meta` as a prefix, `meta`, then `body`.
pub open spec fn frame_of(meta: Seq<u8>, body: Seq<u8>) -> Seq<u8>
    recommends
        meta.len() <= u32::MAX,
{
    be32(meta.len() as u32) + meta + body
}

/// Whether `data` holds a prefix and the metadata that the prefix announces.
pub open spec fn has_meta(data: Seq<u8>) -> bool {
    data.len() >= 4 && 4 + be32_value(data) <= data.len()
}

/// The encoded metadata of a frame.
pub open spec fn meta_of(data: Seq<u8>) -> Seq<u8>
    recommends
        has_meta(data),
{
    data.subrange(4, 4 + be32_value(data))
}

/// What follows the metadata of a frame: payload and attachments.
pub open spec fn body_of(data: Seq<u8>) -> Seq<u8>
    recommends
        has_meta(data),
{
    data.subrange(4 + be32_value(data), data.len() as int)
}

/// `bytes::BufMut::put_u32` on a `Vec<u8>`: appends the four bytes of `n` in
/// big-endian order and leaves what the buffer held before in place.
#[verifier::external_body]
fn put_u32(buf: &mut Vec<u8>, n: u32)
    ensures
        final(buf)@ == old(buf)@ + be32(n),
{
    bytes::BufMut::put_u32(buf, n)
}

/// `bytes::Buf::get_u32` on a cursor at the start of `data`: the number whose
/// big-endian bytes are the first four of `data`. The outside function panics
/// on a shorter buffer.
#[verifier::external_body]
fn get_u32(data: &[u8]) -> (n: u32)
    requires
        data@.len() >= 4,
    ensures
        n == be32_value(data@),
{
    let mut cursor = std::io::Cursor::new(data);
    bytes::Buf::get_u32(&mut cursor)
}

/// The frame of the encoded metadata `meta` and the bytes `body` that follow
/// it. Metadata longer than the prefix can announce has no frame.
pub open spec fn framed(meta: Seq<u8>, body: Seq<u8>) -> Result<Seq<u8>, CodecError> {
    if meta.len() <= u32::MAX {
        Ok(frame_of(meta, body))
    } else {
        Err(CodecError::InvalidLength)
    }
}

/// The model of a frame, or of the error in its place.
pub open spec fn frame_view(r: Result<Vec<u8>, CodecError>) -> Result<Seq<u8>, CodecError> {
    match r {
        Ok(data) => Ok(data@),
        Err(e) => Err(e),
    }
}

/// Builds the frame of the encoded metadata `meta`, the payload and the
/// bytes of the attachments. Metadata longer than the prefix can announce is
/// refused.
pub fn encode_frame(meta: &[u8], payload: &[u8], attachments_data: &[u8]) -> (r: Result<
    Vec<u8>,
    CodecError,
>)
    ensures
        frame_view(r) == framed(meta@, payload@ + attachments_data@),
{
    if meta.len() > u32::MAX as usize {
        return Err(CodecError::InvalidLength);
    }
    let mut buf: Vec<u8> = Vec::new();
    put_u32(&mut buf, meta.len() as u32);
    buf.extend_from_slice(meta);
    buf.extend_from_slice(payload);
    buf.extend_from_slice(attachments_data);
    assert(buf@ == frame_of(meta@, payload@ + attachments_data@));
    Ok(buf)
}

/// The length of the metadata of a frame, as its prefix announces it. The
/// frame's lengths are invalid where it does not hold the prefix and that
/// many bytes after it.
pub open spec fn announced_len(data: Seq<u8>) -> Result<usize, CodecError> {
    if has_meta(data) {
        Ok(be32_value(data) as usize)
    } else {
        Err(CodecError::InvalidLength)
    }
}

/// The encoded metadata of a frame, or the error that the frame's lengths
/// are invalid.
pub open spec fn peeked(data: Seq<u8>) -> Result<Seq<u8>, CodecError> {
    if has_meta(data) {
        Ok(meta_of(data))
    } else {
        Err(CodecError::InvalidLength)
    }
}

/// The model of borrowed bytes, or of the error in their place.
pub open spec fn slice_view(r: Result<&[u8], CodecError>) -> Result<Seq<u8>, CodecError> {
    match r {
        Ok(bytes) => Ok(bytes@),
        Err(e) => Err(e),
    }
}

/// The length that the prefix announces, where the buffer holds the prefix
/// and the metadata of that length.
pub fn meta_len(data: &[u8]) -> (r: Result<usize, CodecError>)
    ensures
        r == announced_len(data@),
{
    if data.len() < PREFIX_LEN {
        return Err(CodecError::InvalidLength);
    }
    let len: u32 = get_u32(data);
    if len as u64 > (data.len() - PREFIX_LEN) as u64 {
        return Err(CodecError::InvalidLength);
    }
    Ok(len as usize)
}

/// The encoded metadata of a frame, read without looking at what follows it.
pub fn get_msg_meta(data: &[u8]) -> (r: Result<&[u8], CodecError>)
    ensures
        slice_view(r) == peeked(data@),
{
    match meta_len(data) {
        Ok(len) => {
            assert(PREFIX_LEN + len <= data.len());
            Ok(slice_subrange(data, PREFIX_LEN, PREFIX_LEN + len))
        },
        Err(e) => Err(e),
    }
}

/// What [`replace_meta`] returns.
pub open spec fn with_meta(data: Seq<u8>, meta: Seq<u8>) -> Result<Seq<u8>, CodecError> {
    if has_meta(data) && meta.len() <= u32::MAX {
        Ok(frame_of(meta, body_of(data)))
    } else {
        Err(CodecError::InvalidLength)
    }
}

/// The frame `data` with `meta` as its encoded metadata. What follows the
/// metadata stays as it is, byte for byte.
pub fn replace_meta(data: &[u8], meta: &[u8]) -> (r: Result<Vec<u8>, CodecError>)
    ensures
        frame_view(r) == with_meta(data@, meta@),
{
    let len = match meta_len(data) {
        Ok(len) => len,
        Err(e) => {
            return Err(e);
        },
    };
    assert(PREFIX_LEN + len <= data.len());
    let body = slice_subrange(data, PREFIX_LEN + len, data.len());
    let empty: Vec<u8> = Vec::new();
    match encode_frame(meta, body, empty.as_slice()) {
        Ok(buf) => {
            Ok(buf)
        },
        Err(e) => Err(e),
    }
}

/// Replacing the metadata of a frame changes the prefix and the metadata
/// and nothing else: the new frame holds the new metadata, and what follows
/// it is what followed the old.
pub proof fn lemma_replace_meta(data: Seq<u8>, meta: Seq<u8>)
    requires
        has_meta(data),
        meta.len() <= u32::MAX,
    ensures
        with_meta(data, meta) is Ok,
        has_meta(with_meta(data, meta)->Ok_0),
        meta_of(with_meta(data, meta)->Ok_0) == meta,
        body_of(with_meta(data, meta)->Ok_0) == body_of(data),
{
    lemma_be32_value(meta.len() as u32);
}

} // verus!
