//! Taking a frame apart, given the metadata it starts with.

use vstd::prelude::*;
use vstd::slice::{slice_subrange, slice_to_vec};
use crate::dto::{inline_data, inline_meta, inline_views};
use crate::frame::{
    be32_value, body_of, frame_of, has_meta, lemma_be32_value, meta_len, meta_of, slice_view,
    CodecError, PREFIX_LEN,
};
use crate::json::{decode_payload, decoded_payload};
use crate::meta::{lemma_total_size_prefix, total_size, AttachmentView, MsgMeta, MsgMetaView};

verus! {

/// The payload of a frame: the bytes that follow the metadata, as many as
/// the metadata announces. The frame's lengths are invalid where it does not
/// hold that many.
pub open spec fn payload_of(meta: MsgMetaView, data: Seq<u8>) -> Result<Seq<u8>, CodecError> {
    if has_meta(data) && meta.payload_size <= body_of(data).len() {
        Ok(body_of(data).take(meta.payload_size as int))
    } else {
        Err(CodecError::InvalidLength)
    }
}

/// Each attachment with its name and its bytes, cut from `bytes` in order,
/// each as long as announced.
pub open spec fn cut(attachments: Seq<AttachmentView>, bytes: Seq<u8>) -> Seq<
    (Seq<char>, Seq<u8>),
> {
    Seq::new(
        attachments.len(),
        |i: int|
            (
                attachments[i].name,
                bytes.subrange(
                    total_size(attachments.take(i)) as int,
                    total_size(attachments.take(i)) + attachments[i].size,
                ),
            ),
    )
}

/// The attachments of a frame: what follows the payload, cut as the
/// metadata announces. They are truncated where the frame holds fewer bytes
/// than announced.
pub open spec fn attachments_of(meta: MsgMetaView, data: Seq<u8>) -> Result<
    Seq<(Seq<char>, Seq<u8>)>,
    CodecError,
> {
    match payload_of(meta, data) {
        Err(e) => Err(e),
        Ok(_) => {
            let rest = body_of(data).skip(meta.payload_size as int);
            if total_size(meta.attachments) <= rest.len() {
                Ok(cut(meta.attachments, rest))
            } else {
                Err(CodecError::TruncatedAttachment)
            }
        },
    }
}

/// The structured payload of a frame.
pub open spec fn structured_payload_of(meta: MsgMetaView, data: Seq<u8>) -> Result<
    serde_json::Value,
    CodecError,
> {
    match payload_of(meta, data) {
        Err(e) => Err(e),
        Ok(text) => decoded_payload(text),
    }
}

/// The structured payload of a frame and its attachments. The payload is
/// looked at first.
pub open spec fn content_of(meta: MsgMetaView, data: Seq<u8>) -> Result<
    (serde_json::Value, Seq<(Seq<char>, Seq<u8>)>),
    CodecError,
> {
    match structured_payload_of(meta, data) {
        Err(e) => Err(e),
        Ok(payload) => match attachments_of(meta, data) {
            Err(e) => Err(e),
            Ok(attachments) => Ok((payload, attachments)),
        },
    }
}

/// The model of a payload with attachments, or of the error in their place.
pub open spec fn content_view(
    r: Result<(serde_json::Value, Vec<(String, Vec<u8>)>), CodecError>,
) -> Result<(serde_json::Value, Seq<(Seq<char>, Seq<u8>)>), CodecError> {
    match r {
        Ok((payload, attachments)) => Ok((payload, inline_views(attachments@))),
        Err(e) => Err(e),
    }
}

/// The model of attachments, or of the error in their place.
pub open spec fn attachments_view(r: Result<Vec<(String, Vec<u8>)>, CodecError>) -> Result<
    Seq<(Seq<char>, Seq<u8>)>,
    CodecError,
> {
    match r {
        Ok(attachments) => Ok(inline_views(attachments@)),
        Err(e) => Err(e),
    }
}

/// The raw payload of a frame, given its metadata.
pub fn payload_bytes<'a>(meta: &MsgMeta, data: &'a [u8]) -> (r: Result<&'a [u8], CodecError>)
    ensures
        slice_view(r) == payload_of(meta@, data@),
{
    let len = match meta_len(data) {
        Ok(len) => len,
        Err(e) => {
            return Err(e);
        },
    };
    assert(PREFIX_LEN + len <= data.len());
    let start = PREFIX_LEN + len;
    if meta.payload_size > (data.len() - start) as u64 {
        return Err(CodecError::InvalidLength);
    }
    let end = start + meta.payload_size as usize;
    let payload = slice_subrange(data, start, end);
    assert(payload@ == body_of(data@).take(meta.payload_size as int));
    Ok(payload)
}

/// The attachments of a frame, each with its name and its bytes, given the
/// frame's metadata.
pub fn attachments_bytes(meta: &MsgMeta, data: &[u8]) -> (r: Result<
    Vec<(String, Vec<u8>)>,
    CodecError,
>)
    ensures
        attachments_view(r) == attachments_of(meta@, data@),
{
    let payload_len = match payload_bytes(meta, data) {
        Ok(payload) => payload.len(),
        Err(e) => {
            return Err(e);
        },
    };
    let len = meta_len_unchecked(data);
    assert(PREFIX_LEN + len + payload_len <= data.len());
    let payload_end = PREFIX_LEN + len + payload_len;
    let ghost all = meta@.attachments;
    let ghost rest = body_of(data@).skip(meta.payload_size as int);
    let mut res: Vec<(String, Vec<u8>)> = Vec::new();
    let mut offset: usize = payload_end;
    let mut i: usize = 0;
    while i < meta.attachments.len()
        invariant
            i <= meta.attachments.len(),
            all == meta@.attachments,
            all.len() == meta.attachments.len(),
            payload_end <= offset <= data.len(),
            payload_of(meta@, data@) is Ok,
            rest == body_of(data@).skip(meta.payload_size as int),
            rest == data@.subrange(payload_end as int, data@.len() as int),
            offset == payload_end + total_size(all.take(i as int)),
            inline_views(res@) == cut(all, rest).take(i as int),
        decreases meta.attachments.len() - i,
    {
        let size = meta.attachments[i].size;
        proof {
            assert(all.take(i + 1).drop_last() == all.take(i as int));
            lemma_total_size_prefix(all, i + 1);
        }
        if size > (data.len() - offset) as u64 {
            return Err(CodecError::TruncatedAttachment);
        }
        let end = offset + size as usize;
        let bytes = slice_to_vec(slice_subrange(data, offset, end));
        let ghost before = res@;
        res.push((meta.attachments[i].name.clone(), bytes));
        proof {
            assert(bytes@ == rest.subrange(
                total_size(all.take(i as int)) as int,
                total_size(all.take(i as int)) + all[i as int].size,
            ));
            assert(inline_views(res@) == inline_views(before).push(cut(all, rest)[i as int]));
        }
        offset = end;
        i = i + 1;
    }
    proof {
        assert(all.take(i as int) == all);
        assert(cut(all, rest).take(i as int) == cut(all, rest));
    }
    Ok(res)
}

/// The length that the prefix of a frame announces, where the frame is known
/// to hold its metadata.
fn meta_len_unchecked(data: &[u8]) -> (len: usize)
    requires
        has_meta(data@),
    ensures
        len == be32_value(data@),
{
    match meta_len(data) {
        Ok(len) => len,
        Err(_) => 0,
    }
}

/// The structured payload of a frame, given its metadata.
pub fn get_payload(meta: &MsgMeta, data: &[u8]) -> (r: Result<serde_json::Value, CodecError>)
    ensures
        r == structured_payload_of(meta@, data@),
{
    match payload_bytes(meta, data) {
        Ok(text) => decode_payload(text),
        Err(e) => Err(e),
    }
}

/// The structured payload of a frame and its attachments, each with its
/// name and its bytes, given the frame's metadata.
pub fn get_payload_with_attachments(meta: &MsgMeta, data: &[u8]) -> (r: Result<
    (serde_json::Value, Vec<(String, Vec<u8>)>),
    CodecError,
>)
    ensures
        content_view(r) == content_of(meta@, data@),
{
    let payload = match get_payload(meta, data) {
        Ok(payload) => payload,
        Err(e) => {
            return Err(e);
        },
    };
    match attachments_bytes(meta, data) {
        Ok(attachments) => Ok((payload, attachments)),
        Err(e) => Err(e),
    }
}

/// The metadata of a frame as the caller read it, with the frame's
/// structured payload.
pub fn get_msg_meta_and_payload(meta: MsgMeta, data: &[u8]) -> (r: Result<
    (MsgMeta, serde_json::Value),
    CodecError,
>)
    ensures
        match structured_payload_of(meta@, data@) {
            Ok(payload) => r is Ok && r->Ok_0.0 == meta && r->Ok_0.1 == payload,
            Err(e) => r is Err && r->Err_0 == e,
        },
{
    match get_payload(&meta, data) {
        Ok(payload) => Ok((meta, payload)),
        Err(e) => Err(e),
    }
}

/// The metadata of a frame as the caller read it, with the frame's
/// structured payload and its attachments.
pub fn get_msg(meta: MsgMeta, data: &[u8]) -> (r: Result<
    (MsgMeta, serde_json::Value, Vec<(String, Vec<u8>)>),
    CodecError,
>)
    ensures
        match content_of(meta@, data@) {
            Ok((payload, attachments)) => r is Ok && r->Ok_0.0 == meta && r->Ok_0.1 == payload
                && inline_views(r->Ok_0.2@) == attachments,
            Err(e) => r is Err && r->Err_0 == e,
        },
{
    match get_payload_with_attachments(&meta, data) {
        Ok((payload, attachments)) => Ok((meta, payload, attachments)),
        Err(e) => Err(e),
    }
}

/// Whether every attachment is short enough for its length to be announced.
pub open spec fn announceable(attachments: Seq<(Seq<char>, Seq<u8>)>) -> bool {
    forall|i: int| 0 <= i < attachments.len() ==> (#[trigger] attachments[i]).1.len() <= u64::MAX
}

/// The bytes of the first `n` attachments are as long as their announced
/// lengths together.
proof fn lemma_inline_len(attachments: Seq<(Seq<char>, Seq<u8>)>, n: int)
    requires
        announceable(attachments),
        0 <= n <= attachments.len(),
    ensures
        inline_data(attachments.take(n)).len() == total_size(inline_meta(attachments).take(n)),
    decreases n,
{
    let metas = inline_meta(attachments);
    if n > 0 {
        lemma_inline_len(attachments, n - 1);
        assert(attachments.take(n).drop_last() == attachments.take(n - 1));
        assert(metas.take(n).drop_last() == metas.take(n - 1));
    }
}

/// The bytes of the first `n` attachments stand at the start of the bytes of
/// all of them, and the bytes of the next attachment follow.
proof fn lemma_inline_prefix(attachments: Seq<(Seq<char>, Seq<u8>)>, n: int)
    requires
        0 <= n <= attachments.len(),
    ensures
        inline_data(attachments.take(n)).len() <= inline_data(attachments).len(),
        inline_data(attachments).take(inline_data(attachments.take(n)).len() as int)
            == inline_data(attachments.take(n)),
        n < attachments.len() ==> inline_data(attachments.take(n)).len() + attachments[n].1.len()
            <= inline_data(attachments).len() && inline_data(attachments).subrange(
            inline_data(attachments.take(n)).len() as int,
            (inline_data(attachments.take(n)).len() + attachments[n].1.len()) as int,
        ) == attachments[n].1,
    decreases attachments.len() - n,
{
    if n < attachments.len() {
        lemma_inline_prefix(attachments, n + 1);
        assert(attachments.take(n + 1).drop_last() == attachments.take(n));
        let whole = inline_data(attachments);
        let here = inline_data(attachments.take(n));
        let next = inline_data(attachments.take(n + 1));
        assert(whole.subrange(here.len() as int, (here.len() + attachments[n].1.len()) as int)
            == next.subrange(here.len() as int, next.len() as int));
    } else {
        assert(attachments.take(n) == attachments);
    }
}

/// Cutting the bytes of all attachments, followed by anything, by their
/// announced lengths gives the attachments back.
proof fn lemma_cut_inline(attachments: Seq<(Seq<char>, Seq<u8>)>, tail: Seq<u8>)
    requires
        announceable(attachments),
    ensures
        total_size(inline_meta(attachments)) == inline_data(attachments).len(),
        cut(inline_meta(attachments), inline_data(attachments) + tail) == attachments,
{
    let metas = inline_meta(attachments);
    let bytes = inline_data(attachments) + tail;
    lemma_inline_len(attachments, attachments.len() as int);
    assert(attachments.take(attachments.len() as int) == attachments);
    assert(metas.take(metas.len() as int) == metas);
    assert forall|i: int| 0 <= i < attachments.len() implies cut(metas, bytes)[i]
        == attachments[i] by {
        lemma_inline_len(attachments, i);
        lemma_inline_prefix(attachments, i);
    }
}

/// A frame holds its metadata, unchanged, whatever follows it: the metadata
/// is read from the prefix and the bytes it announces alone.
pub proof fn lemma_meta_of_frame(meta: Seq<u8>, body: Seq<u8>)
    requires
        meta.len() <= u32::MAX,
    ensures
        has_meta(frame_of(meta, body)),
        meta_of(frame_of(meta, body)) == meta,
        body_of(frame_of(meta, body)) == body,
        meta_of(frame_of(meta, body)) == meta_of(frame_of(meta, Seq::<u8>::empty())),
{
    lemma_be32_value(meta.len() as u32);
}

/// A frame tells its parts: frames of different metadata, or of the same
/// metadata and different bytes after it, differ.
pub proof fn lemma_frame_is_unambiguous(meta: Seq<u8>, body: Seq<u8>, meta2: Seq<u8>, body2: Seq<u8>)
    requires
        meta.len() <= u32::MAX,
        meta2.len() <= u32::MAX,
        frame_of(meta, body) == frame_of(meta2, body2),
    ensures
        meta == meta2,
        body == body2,
{
    lemma_meta_of_frame(meta, body);
    lemma_meta_of_frame(meta2, body2);
}

/// Taking apart the frame of a message gives back, byte for byte, the
/// encoded metadata, the payload and each attachment with its name, where
/// the metadata announces the lengths of that payload and those attachments.
pub proof fn lemma_frame_round_trip(
    encoded_meta: Seq<u8>,
    meta: MsgMetaView,
    payload: Seq<u8>,
    attachments: Seq<(Seq<char>, Seq<u8>)>,
)
    requires
        encoded_meta.len() <= u32::MAX,
        meta.payload_size == payload.len(),
        announceable(attachments),
        meta.attachments == inline_meta(attachments),
    ensures
        meta_of(frame_of(encoded_meta, payload + inline_data(attachments))) == encoded_meta,
        payload_of(meta, frame_of(encoded_meta, payload + inline_data(attachments))) == Ok::<
            Seq<u8>,
            CodecError,
        >(payload),
        attachments_of(meta, frame_of(encoded_meta, payload + inline_data(attachments))) == Ok::<
            Seq<(Seq<char>, Seq<u8>)>,
            CodecError,
        >(attachments),
{
    let body = payload + inline_data(attachments);
    lemma_meta_of_frame(encoded_meta, body);
    assert(body.take(payload.len() as int) == payload);
    assert(body.skip(payload.len() as int) == inline_data(attachments));
    lemma_cut_inline(attachments, Seq::<u8>::empty());
}

/// A frame is taken apart only where the lengths that its metadata
/// announces fit the bytes it holds: the payload then has the announced
/// length, and so has each attachment.
pub proof fn lemma_length_coherence(meta: MsgMetaView, data: Seq<u8>)
    requires
        attachments_of(meta, data) is Ok,
    ensures
        has_meta(data),
        4 + be32_value(data) + meta.payload_size + total_size(meta.attachments) <= data.len(),
        payload_of(meta, data) is Ok,
        payload_of(meta, data)->Ok_0.len() == meta.payload_size,
        attachments_of(meta, data)->Ok_0.len() == meta.attachments.len(),
        forall|i: int|
            0 <= i < meta.attachments.len() ==> {
                &&& (#[trigger] attachments_of(meta, data)->Ok_0[i]).0 == meta.attachments[i].name
                &&& attachments_of(meta, data)->Ok_0[i].1.len() == meta.attachments[i].size
            },
{
    assert forall|i: int| 0 <= i < meta.attachments.len() implies {
        &&& (#[trigger] attachments_of(meta, data)->Ok_0[i]).0 == meta.attachments[i].name
        &&& attachments_of(meta, data)->Ok_0[i].1.len() == meta.attachments[i].size
    } by {
        lemma_total_size_prefix(meta.attachments, i + 1);
        assert(meta.attachments.take(i + 1).drop_last() == meta.attachments.take(i));
    }
}

} // verus!
