//! Frames on a bonded link: a four-byte length, most significant byte first, and a packet.

use crate::codec::MAX_FRAME_SIZE;
use crate::error::{oversize, Error};
use crate::wire::{get_be32, put_be32, put_bytes};
use vstd::prelude::*;

verus! {

/// Whether an error says that a frame of `size` bytes is too long.
pub open spec fn is_oversize(e: Error, size: nat) -> bool {
    e matches Error::IO(s) && s@ == crate::error::oversize_text(size, MAX_FRAME_SIZE as nat)
}

/// Appends the frame that carries `data`; refuses one that is too long.
pub fn write_frame(out: &mut Vec<u8>, data: &[u8]) -> (r: Result<(), Error>)
    ensures
        r is Ok <==> data@.len() <= MAX_FRAME_SIZE,
        r is Ok ==> final(out)@ == old(out)@ + crate::codec::frame(data@),
        r matches Err(e) ==> final(out)@ == old(out)@ && is_oversize(e, data@.len()),
{
    if data.len() > MAX_FRAME_SIZE {
        return Err(Error::IO(oversize(data.len() as u64, MAX_FRAME_SIZE as u64)));
    }
    put_be32(out, data.len() as u32);
    put_bytes(out, data);
    assert(out@ =~= old(out)@ + crate::codec::frame(data@));
    Ok(())
}

/// The length that the head of a frame announces; refuses one that is too long.
pub fn read_length(head: &[u8; 4]) -> (r: Result<usize, Error>)
    ensures
        r is Ok <==> crate::wire::be32_value(head@) <= MAX_FRAME_SIZE,
        r matches Ok(n) ==> n == crate::wire::be32_value(head@),
        r matches Err(e) ==> is_oversize(e, crate::wire::be32_value(head@) as nat),
{
    let n: u32 = get_be32(head.as_slice(), 0);
    assert(head@.subrange(0, 4) =~= head@);
    if n as usize > MAX_FRAME_SIZE {
        return Err(Error::IO(oversize(n as u64, MAX_FRAME_SIZE as u64)));
    }
    Ok(n as usize)
}

/// The head of a frame announces the length of its packet, and the packet follows it.
pub proof fn length_of_frame(data: Seq<u8>)
    requires
        data.len() <= MAX_FRAME_SIZE,
    ensures
        crate::wire::be32_value(crate::codec::frame(data).take(4)) == data.len(),
        crate::codec::frame(data).skip(4) == data,
{
    crate::wire::be32_round_trip(data.len() as u32);
    assert(crate::codec::frame(data).take(4) =~= crate::wire::be32(data.len() as u32));
    assert(crate::codec::frame(data).skip(4) =~= data);
}

/// How many packets at the front of `packets` may be sent: all before the first that is too long.
pub open spec fn sendable(packets: Seq<Vec<u8>>) -> nat
    decreases packets.len(),
{
    if packets.len() == 0 || packets[0]@.len() > MAX_FRAME_SIZE {
        0
    } else {
        1 + sendable(packets.skip(1))
    }
}

/// The frames of the first `n` packets.
pub open spec fn frames(packets: Seq<Vec<u8>>, n: nat) -> Seq<u8>
    decreases n,
{
    if n == 0 {
        seq![]
    } else {
        frames(packets, (n - 1) as nat) + crate::codec::frame(packets[n - 1]@)
    }
}

/// The bytes of the first `n` packets, without their heads.
pub open spec fn packet_bytes(packets: Seq<Vec<u8>>, n: nat) -> nat
    decreases n,
{
    if n == 0 {
        0
    } else {
        packet_bytes(packets, (n - 1) as nat) + packets[n - 1]@.len()
    }
}

/// Packets that are written together and then flushed once.
#[derive(Debug)]
pub struct Batch {
    /// What is written.
    pub bytes: Vec<u8>,
    /// How many packets are written.
    pub sent: usize,
    /// The bytes of those packets, to be counted once they are flushed; the count wraps.
    pub carried: u64,
    /// Whether every packet is written. Where one is too long the link ends.
    pub whole: bool,
}

/// `sendable` counts up to the first packet that is too long.
proof fn sendable_is(packets: Seq<Vec<u8>>, n: nat)
    requires
        n <= packets.len(),
        forall|i: int| 0 <= i < n ==> #[trigger] packets[i]@.len() <= MAX_FRAME_SIZE,
        n < packets.len() ==> packets[n as int]@.len() > MAX_FRAME_SIZE,
    ensures
        sendable(packets) == n,
    decreases n,
{
    if n > 0 {
        let rest = packets.skip(1);
        assert forall|i: int| 0 <= i < n - 1 implies #[trigger] rest[i]@.len()
            <= MAX_FRAME_SIZE by {
            assert(packets[i + 1]@.len() <= MAX_FRAME_SIZE);
        }
        assert(packets[0]@.len() <= MAX_FRAME_SIZE);
        sendable_is(rest, (n - 1) as nat);
    }
}

/// Frames a queue of packets for one write and one flush.
pub fn frame_batch(packets: &Vec<Vec<u8>>) -> (b: Batch)
    ensures
        b.sent == sendable(packets@),
        b.bytes@ == frames(packets@, b.sent as nat),
        b.carried == packet_bytes(packets@, b.sent as nat) % 0x1_0000_0000_0000_0000,
        b.whole == (b.sent == packets@.len()),
{
    let mut bytes: Vec<u8> = Vec::new();
    let mut carried: u64 = 0;
    let mut i: usize = 0;
    while i < packets.len()
        invariant
            i <= packets@.len(),
            bytes@ == frames(packets@, i as nat),
            carried == packet_bytes(packets@, i as nat) % 0x1_0000_0000_0000_0000,
            forall|j: int| 0 <= j < i ==> #[trigger] packets@[j]@.len() <= MAX_FRAME_SIZE,
        decreases packets@.len() - i,
    {
        match write_frame(&mut bytes, packets[i].as_slice()) {
            Ok(_) => {},
            Err(_) => {
                proof {
                    sendable_is(packets@, i as nat);
                }
                return Batch { bytes, sent: i, carried, whole: false };
            },
        }
        carried = carried.wrapping_add(packets[i].len() as u64);
        i += 1;
    }
    proof {
        sendable_is(packets@, i as nat);
    }
    Batch { bytes, sent: i, carried, whole: true }
}

/// A batch holds every packet before the first that is too long, over sixteen mebibytes, and all
/// where none is.
pub proof fn batch_ends_before_the_oversize(packets: Seq<Vec<u8>>)
    ensures
        sendable(packets) <= packets.len(),
        forall|i: int| 0 <= i < sendable(packets) ==> #[trigger] packets[i]@.len() <= 16777216,
        sendable(packets) < packets.len() ==> packets[sendable(packets) as int]@.len() > 16777216,
    decreases packets.len(),
{
    if packets.len() > 0 && packets[0]@.len() <= MAX_FRAME_SIZE {
        let rest = packets.skip(1);
        batch_ends_before_the_oversize(rest);
        assert forall|i: int| 0 <= i < sendable(packets) implies #[trigger] packets[i]@.len()
            <= 16777216 by {
            if i > 0 {
                assert(rest[i - 1]@.len() <= 16777216);
            }
        }
    }
}

/// Every packet of a batch is written with its length before it, after the packets before it, and
/// its bytes are counted.
pub proof fn batch_grows_by_a_frame(packets: Seq<Vec<u8>>, n: nat)
    requires
        n < packets.len(),
    ensures
        frames(packets, n + 1) == frames(packets, n) + (crate::wire::be32(
            packets[n as int]@.len() as u32,
        ) + packets[n as int]@),
        packet_bytes(packets, n + 1) == packet_bytes(packets, n) + packets[n as int]@.len(),
        frames(packets, 0).len() == 0,
        packet_bytes(packets, 0) == 0,
{
}

/// A packet that is too long is told with its length and the limit.
pub proof fn too_long_is_told(e: Error, size: nat)
    requires
        is_oversize(e, size),
    ensures
        e matches Error::IO(s) && s@ == "frame size "@ + crate::text::dec(size)
            + " exceeds maximum "@ + crate::text::dec(MAX_FRAME_SIZE as nat),
{
}

} // verus!
