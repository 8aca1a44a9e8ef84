//! The stream codec: frames of a four-byte length, most significant byte first, and a payload.

use crate::error::Error;
use crate::error::oversize;
use crate::wire::{copy_range, get_be32};
use bytes::Buf;
use bytes::BufMut;
use vstd::prelude::*;

verus! {

/// The largest payload that a frame may carry.
pub const MAX_FRAME_SIZE: usize = 16777216;

/// `bytes::BytesMut`, a growable byte buffer that is consumed from its front.
#[verifier::external_type_specification]
#[verifier::external_body]
pub struct ExBytesMut(bytes::BytesMut);

/// The bytes that a buffer holds, front first.
pub uninterp spec fn buffered(b: bytes::BytesMut) -> Seq<u8>;

/// `BytesMut::len`: the number of bytes held.
#[verifier::external_body]
fn buffer_len(b: &bytes::BytesMut) -> (n: usize)
    ensures
        n == buffered(*b).len(),
{
    b.len()
}

/// `BytesMut::as_ref`: the bytes held, as a slice.
#[verifier::external_body]
fn buffer_bytes(b: &bytes::BytesMut) -> (s: &[u8])
    ensures
        s@ == buffered(*b),
{
    b.as_ref()
}

/// `BytesMut::reserve`: makes room for `additional` more bytes and leaves what is held as it is.
/// An allocation holds at most `isize::MAX` bytes.
#[verifier::external_body]
fn buffer_reserve(b: &mut bytes::BytesMut, additional: usize)
    requires
        buffered(*old(b)).len() + additional <= isize::MAX,
    ensures
        buffered(*final(b)) == buffered(*old(b)),
{
    b.reserve(additional)
}

/// `BufMut::put_u32`: appends a number, most significant byte first.
#[verifier::external_body]
fn buffer_put_u32(b: &mut bytes::BytesMut, n: u32)
    requires
        buffered(*old(b)).len() + 4 <= isize::MAX,
    ensures
        buffered(*final(b)) == buffered(*old(b)) + crate::wire::be32(n),
{
    b.put_u32(n)
}

/// `BytesMut::extend_from_slice`: appends a slice.
#[verifier::external_body]
fn buffer_extend(b: &mut bytes::BytesMut, data: &[u8])
    requires
        buffered(*old(b)).len() + data@.len() <= isize::MAX,
    ensures
        buffered(*final(b)) == buffered(*old(b)) + data@,
{
    b.extend_from_slice(data)
}

/// `Buf::advance`: drops the first `count` bytes.
#[verifier::external_body]
fn buffer_advance(b: &mut bytes::BytesMut, count: usize)
    requires
        count <= buffered(*old(b)).len(),
    ensures
        buffered(*final(b)) == buffered(*old(b)).skip(count as int),
{
    b.advance(count)
}

/// The frame that carries `payload`.
pub open spec fn frame(payload: Seq<u8>) -> Seq<u8> {
    crate::wire::be32(payload.len() as u32) + payload
}

/// What the front of a buffer holds.
pub enum Front {
    /// Too few bytes to tell, or a frame that is still incomplete.
    Partial,
    /// A frame whose length is over the limit, and that length.
    Oversize(nat),
    /// A whole frame with this payload.
    Whole(Seq<u8>),
}

/// What the front of `held` is. A length alone is never taken for a frame: with four bytes or
/// fewer nothing is decided.
pub open spec fn front(held: Seq<u8>) -> Front {
    let length = crate::wire::be32_value(held.take(4));
    if held.len() <= 4 {
        Front::Partial
    } else if length > MAX_FRAME_SIZE {
        Front::Oversize(length as nat)
    } else if held.len() < 4 + length {
        Front::Partial
    } else {
        Front::Whole(held.subrange(4, 4 + length))
    }
}

/// The length-prefixed codec.
#[derive(Clone, Copy, Debug)]
pub struct Codec;

impl Codec {
    /// Appends the frame that carries `item`; refuses one that is too long.
    pub fn encode(&mut self, item: Vec<u8>, dst: &mut bytes::BytesMut) -> (r: Result<(), Error>)
        requires
            buffered(*old(dst)).len() + 4 + item@.len() <= isize::MAX || item@.len()
                > MAX_FRAME_SIZE,
        ensures
            r is Ok <==> item@.len() <= MAX_FRAME_SIZE,
            r is Ok ==> buffered(*final(dst)) == buffered(*old(dst)) + frame(item@),
            r matches Err(e) ==> {
                &&& buffered(*final(dst)) == buffered(*old(dst))
                &&& e.is_unexpected(
                    crate::error::oversize_text(item@.len(), MAX_FRAME_SIZE as nat),
                )
            },
    {
        self.encode_slice(item.as_slice(), dst)
    }

    /// Appends the frame that carries `item`; refuses one that is too long.
    pub fn encode_slice(&mut self, item: &[u8], dst: &mut bytes::BytesMut) -> (r: Result<
        (),
        Error,
    >)
        requires
            buffered(*old(dst)).len() + 4 + item@.len() <= isize::MAX || item@.len()
                > MAX_FRAME_SIZE,
        ensures
            r is Ok <==> item@.len() <= MAX_FRAME_SIZE,
            r is Ok ==> buffered(*final(dst)) == buffered(*old(dst)) + frame(item@),
            r matches Err(e) ==> {
                &&& buffered(*final(dst)) == buffered(*old(dst))
                &&& e.is_unexpected(
                    crate::error::oversize_text(item@.len(), MAX_FRAME_SIZE as nat),
                )
            },
    {
        if item.len() > MAX_FRAME_SIZE {
            return Err(
                Error::UnexpectedResult(oversize(item.len() as u64, MAX_FRAME_SIZE as u64)),
            );
        }
        buffer_reserve(dst, 4 + item.len());
        buffer_put_u32(dst, item.len() as u32);
        buffer_extend(dst, item);
        assert(buffered(*dst) =~= buffered(*old(dst)) + frame(item@));
        Ok(())
    }

    /// Takes the frame at the front of `src`, if it is whole.
    pub fn decode(&mut self, src: &mut bytes::BytesMut) -> (r: Result<Option<Vec<u8>>, Error>)
        ensures
            match front(buffered(*old(src))) {
                Front::Partial => r matches Ok(None) && buffered(*final(src)) == buffered(*old(src)),
                Front::Oversize(n) => {
                    &&& r matches Err(e)
                    &&& e.is_unexpected(crate::error::oversize_text(n, MAX_FRAME_SIZE as nat))
                    &&& buffered(*final(src)) == buffered(*old(src))
                },
                Front::Whole(payload) => {
                    &&& r matches Ok(Some(v))
                    &&& v@ == payload
                    &&& buffered(*final(src)) == buffered(*old(src)).skip(4 + payload.len() as int)
                },
            },
    {
        let src_len: usize = buffer_len(src);
        if src_len <= 4 {
            return Ok(None);
        }
        let held = buffer_bytes(src);
        let length: u32 = get_be32(held, 0);
        assert(held@.subrange(0, 4) =~= held@.take(4));
        if length as usize > MAX_FRAME_SIZE {
            return Err(Error::UnexpectedResult(oversize(length as u64, MAX_FRAME_SIZE as u64)));
        }
        if src_len < 4 + length as usize {
            buffer_reserve(src, 4 + length as usize - src_len);
            return Ok(None);
        }
        let payload = copy_range(held, 4, 4 + length as usize);
        buffer_advance(src, 4 + length as usize);
        Ok(Some(payload))
    }
}

/// A frame that was encoded is decoded to its payload, and what follows it in the buffer stays
/// there. The one frame that is not yet recognised is the empty one with nothing behind it.
pub proof fn decode_undoes_encode(payload: Seq<u8>, rest: Seq<u8>)
    requires
        payload.len() <= MAX_FRAME_SIZE,
        payload.len() + rest.len() > 0,
    ensures
        front(frame(payload) + rest) == Front::Whole(payload),
        (frame(payload) + rest).skip(4 + payload.len() as int) == rest,
{
    let held = frame(payload) + rest;
    crate::wire::be32_round_trip(payload.len() as u32);
    assert(held.take(4) =~= crate::wire::be32(payload.len() as u32));
    assert(held.subrange(4, 4 + payload.len() as int) =~= payload);
    assert(held.skip(4 + payload.len() as int) =~= rest);
}

/// Until the last byte of a frame has arrived, nothing is decoded and nothing is refused.
pub proof fn partial_frame_waits(payload: Seq<u8>, n: int)
    requires
        payload.len() <= MAX_FRAME_SIZE,
        0 <= n < frame(payload).len(),
    ensures
        front(frame(payload).take(n)) is Partial,
{
    let held = frame(payload).take(n);
    crate::wire::be32_round_trip(payload.len() as u32);
    if n > 4 {
        assert(held.take(4) =~= crate::wire::be32(payload.len() as u32));
    }
}

/// The payloads that a stream of bytes holds, in order, up to where it is partial or refused.
pub open spec fn payloads(held: Seq<u8>) -> Seq<Seq<u8>>
    decreases held.len(),
{
    match front(held) {
        Front::Whole(payload) => seq![payload] + payloads(held.skip(4 + payload.len() as int)),
        _ => seq![],
    }
}

/// The stream of the frames that carry `items`.
pub open spec fn stream(items: Seq<Seq<u8>>) -> Seq<u8>
    decreases items.len(),
{
    if items.len() == 0 {
        seq![]
    } else {
        frame(items[0]) + stream(items.skip(1))
    }
}

/// Decoding a stream of non-empty frames one after the other gives back the payloads in order.
pub proof fn stream_round_trip(items: Seq<Seq<u8>>)
    requires
        forall|i: int| 0 <= i < items.len() ==> 0 < #[trigger] items[i].len() <= MAX_FRAME_SIZE,
    ensures
        payloads(stream(items)) == items,
    decreases items.len(),
{
    if items.len() > 0 {
        let rest = items.skip(1);
        stream_round_trip(rest);
        decode_undoes_encode(items[0], stream(rest));
        assert(seq![items[0]] + rest =~= items);
    } else {
        assert(payloads(stream(items)) =~= items);
    }
}

/// Sixteen mebibytes are the most that a frame may hold, and a frame that claims more is refused as
/// soon as one byte follows its length.
pub proof fn frames_are_limited(held: Seq<u8>)
    requires
        held.len() > 4,
    ensures
        front(held) is Oversize <==> held[0] >= 1 && !(held[0] == 1 && held[1] == 0 && held[2] == 0
            && held[3] == 0),
        front(held) matches Front::Whole(p) ==> p.len() <= 0x100_0000 && held.len() >= 4
            + p.len() && p == held.subrange(4, 4 + p.len() as int),
{
    crate::wire::lengths_are_big_endian(0, held.take(4));
    let h = held.take(4);
    assert(h[0] == held[0] && h[1] == held[1] && h[2] == held[2] && h[3] == held[3]);
}

/// A frame is four bytes longer than its payload, and ends in it.
pub proof fn frames_end_in_their_payload(payload: Seq<u8>)
    requires
        payload.len() <= 0x100_0000,
    ensures
        frame(payload).len() == payload.len() + 4,
        frame(payload).skip(4) == payload,
        frame(payload)[3] == payload.len() % 256,
        frame(payload)[0] == payload.len() / 0x100_0000,
{
    crate::wire::lengths_are_big_endian(payload.len() as u32, frame(payload).take(4));
    assert(frame(payload).skip(4) =~= payload);
    let h = crate::wire::be32(payload.len() as u32);
    assert(frame(payload)[3] == h[3]);
    assert(frame(payload)[0] == h[0]);
}

} // verus!
