//! The direct stream between two peers: frames of a four-byte length and a packet, kept alive by
//! empty frames.

use crate::wire::{copy_range, get_be32, put_be32, put_bytes};
use vstd::prelude::*;

verus! {

/// The longest packet that a frame may carry.
pub const MAX_STREAM_FRAME: usize = 65535;

/// After this many ticks without anything received the stream is dead.
pub const MAX_IDLE_TICKS: u32 = 3;

/// What a received run of bytes holds.
pub struct Drained {
    /// The packets, in order.
    pub packets: Seq<Seq<u8>>,
    /// The bytes of a frame that is not complete yet.
    pub rest: Seq<u8>,
    /// Whether a frame announces too long a packet, so that nothing after it can be read.
    pub broken: bool,
}

/// Reads frames until one is incomplete or broken.
pub open spec fn drain(held: Seq<u8>) -> Drained
    decreases held.len(),
{
    if held.len() < 4 {
        Drained { packets: seq![], rest: held, broken: false }
    } else {
        let len = crate::wire::be32_value(held.take(4));
        if len > MAX_STREAM_FRAME {
            Drained { packets: seq![], rest: held, broken: true }
        } else if held.len() < 4 + len {
            Drained { packets: seq![], rest: held, broken: false }
        } else {
            let more = drain(held.skip(4 + len));
            Drained {
                packets: seq![held.subrange(4, 4 + len)] + more.packets,
                rest: more.rest,
                broken: more.broken,
            }
        }
    }
}

/// The reading side of a direct stream.
#[derive(Debug)]
pub struct FramePump {
    pub buf: Vec<u8>,
    pub idle_ticks: u32,
}

/// What a pump does about a tick.
#[derive(Clone, Copy, Debug, PartialEq, Eq, Structural)]
pub enum TickAction {
    /// Sends an empty frame.
    KeepAlive,
    /// Ends: nothing has come in for too long.
    End,
}

/// What came in.
#[derive(Debug)]
pub struct Received {
    /// The packets, in order.
    pub packets: Vec<Vec<u8>>,
    /// Whether the stream ends after them.
    pub ends: bool,
}

/// Some packets as values.
pub open spec fn packets(v: Seq<Vec<u8>>) -> Seq<Seq<u8>> {
    v.map_values(|p: Vec<u8>| p@)
}

/// The frame that carries a packet.
pub fn stream_frame(packet: &[u8]) -> (out: Vec<u8>)
    requires
        packet@.len() <= u32::MAX,
    ensures
        out@ == crate::codec::frame(packet@),
{
    let mut out: Vec<u8> = Vec::new();
    put_be32(&mut out, packet.len() as u32);
    put_bytes(&mut out, packet);
    assert(out@ =~= crate::codec::frame(packet@));
    out
}

impl FramePump {
    /// A fresh stream.
    pub fn new() -> (p: FramePump)
        ensures
            p.buf@ == Seq::<u8>::empty(),
            p.idle_ticks == 0,
    {
        FramePump { buf: Vec::new(), idle_ticks: 0 }
    }

    /// A tick has passed.
    pub fn tick(&mut self) -> (a: TickAction)
        requires
            old(self).idle_ticks < MAX_IDLE_TICKS,
        ensures
            final(self).idle_ticks == old(self).idle_ticks + 1,
            final(self).buf == old(self).buf,
            a == if old(self).idle_ticks + 1 >= MAX_IDLE_TICKS {
                TickAction::End
            } else {
                TickAction::KeepAlive
            },
    {
        self.idle_ticks = self.idle_ticks + 1;
        if self.idle_ticks >= MAX_IDLE_TICKS {
            TickAction::End
        } else {
            TickAction::KeepAlive
        }
    }

    /// Bytes were received: the stream is alive, and every complete frame is taken.
    pub fn receive(&mut self, bytes: &[u8]) -> (r: Received)
        ensures
            ({
                let d = drain(old(self).buf@ + bytes@);
                &&& packets(r.packets@) == d.packets
                &&& r.ends == d.broken
                &&& final(self).buf@ == d.rest
                &&& final(self).idle_ticks == 0
            }),
    {
        self.idle_ticks = 0;
        put_bytes(&mut self.buf, bytes);
        let ghost all = self.buf@;
        let mut out: Vec<Vec<u8>> = Vec::new();
        let mut at: usize = 0;
        assert(all.skip(0) =~= all);
        assert(packets(out@) + drain(all).packets =~= drain(all).packets);
        let mut broken: bool = false;
        let total: usize = self.buf.len();
        while !broken && total - at >= 4
            invariant_except_break
                !broken,
            invariant
                at <= total == all.len(),
                self.buf@ == all,
                self.idle_ticks == 0,
                packets(out@) + drain(all.skip(at as int)).packets == drain(all).packets,
                drain(all.skip(at as int)).rest == drain(all).rest,
                drain(all.skip(at as int)).broken == drain(all).broken,
                broken ==> drain(all.skip(at as int)) == (Drained {
                    packets: seq![],
                    rest: all.skip(at as int),
                    broken: true,
                }),
            ensures
                broken || drain(all.skip(at as int)) == (Drained {
                    packets: seq![],
                    rest: all.skip(at as int),
                    broken: false,
                }),
            decreases total - at,
        {
            let ghost held = all.skip(at as int);
            let n: u32 = get_be32(self.buf.as_slice(), at);
            assert(all.subrange(at as int, at + 4) =~= held.take(4));
            let len: usize = n as usize;
            if len > MAX_STREAM_FRAME {
                broken = true;
                break;
            }
            if total - at < 4 + len {
                break;
            }
            let packet = copy_range(self.buf.as_slice(), at + 4, at + 4 + len);
            let ghost before = out@;
            proof {
                assert(packet@ =~= held.subrange(4, 4 + len as int));
                assert(held.skip(4 + len as int) =~= all.skip(at + 4 + len));
            }
            out.push(packet);
            assert(packets(out@) =~= packets(before).push(packet@));
            assert(packets(out@) + drain(all.skip(at + 4 + len)).packets =~= packets(before)
                + drain(held).packets);
            at = at + 4 + len;
        }
        let rest = copy_range(self.buf.as_slice(), at, total);
        assert(rest@ =~= all.skip(at as int));
        assert(packets(out@) =~= drain(all).packets);
        self.buf = rest;
        Received { packets: out, ends: broken }
    }
}

/// How long a dialer rests before it dials again, in seconds: shorter after a stream that stood.
pub fn redial_secs(connected: bool) -> (s: u64)
    ensures
        s == if connected {
            2u64
        } else {
            5u64
        },
{
    if connected {
        2
    } else {
        5
    }
}

/// What becomes of a dialed address.
#[derive(Clone, Copy, Debug, PartialEq, Eq, Structural)]
pub enum DialEvent {
    /// No connection, or the node's key could not be sent on it.
    Failed,
    /// A connection that carries a stream.
    Up,
    /// The stream ended.
    Ended,
}

/// What a dialer does.
#[derive(Clone, Copy, Debug, PartialEq, Eq, Structural)]
pub enum DialAction {
    /// Dials this address.
    Dial(usize),
    /// Carries the stream.
    Pump,
    /// Rests for so many seconds and begins again.
    Rest(u64),
}

/// The dialer of a peer: where it is in the list of the peer's addresses.
#[derive(Clone, Copy, Debug, PartialEq, Eq, Structural)]
pub struct Dialer {
    pub at: usize,
}

impl Dialer {
    /// Begins with the first of `n` addresses.
    pub fn begin(n: usize) -> (r: (Dialer, DialAction))
        ensures
            r.0.at == 0,
            r.1 == if n == 0 {
                DialAction::Rest(5)
            } else {
                DialAction::Dial(0)
            },
    {
        if n == 0 {
            (Dialer { at: 0 }, DialAction::Rest(redial_secs(false)))
        } else {
            (Dialer { at: 0 }, DialAction::Dial(0))
        }
    }

    /// What a dialer does about an event: after a failure it goes on with the next address, and
    /// rests after the last; after a stream it rests for a shorter time.
    pub open spec fn after(self, event: DialEvent, n: usize) -> (Dialer, DialAction) {
        match event {
            DialEvent::Failed => if self.at + 1 < n {
                (Dialer { at: (self.at + 1) as usize }, DialAction::Dial((self.at + 1) as usize))
            } else {
                (Dialer { at: 0 }, DialAction::Rest(5))
            },
            DialEvent::Up => (self, DialAction::Pump),
            DialEvent::Ended => (Dialer { at: 0 }, DialAction::Rest(2)),
        }
    }

    /// What a dialer does about an event, with `n` addresses.
    pub fn on_event(&mut self, event: DialEvent, n: usize) -> (a: DialAction)
        requires
            old(self).at < n,
        ensures
            (*final(self), a) == old(self).after(event, n),
    {
        match event {
            DialEvent::Failed => {
                if self.at + 1 < n {
                    self.at = self.at + 1;
                    DialAction::Dial(self.at)
                } else {
                    self.at = 0;
                    DialAction::Rest(redial_secs(false))
                }
            },
            DialEvent::Up => DialAction::Pump,
            DialEvent::Ended => {
                self.at = 0;
                DialAction::Rest(redial_secs(true))
            },
        }
    }
}

/// The dialer after `k` failures in a row.
pub open spec fn after_failures(n: usize, k: nat) -> (Dialer, DialAction)
    decreases k,
{
    if k == 0 {
        (Dialer { at: 0 }, DialAction::Dial(0))
    } else {
        after_failures(n, (k - 1) as nat).0.after(DialEvent::Failed, n)
    }
}

/// A dialer that never succeeds tries every address once, in order, before it rests.
pub proof fn every_address_is_tried(n: usize, k: nat)
    requires
        0 < n,
        k <= n,
    ensures
        after_failures(n, k).1 == if k < n {
            DialAction::Dial(k as usize)
        } else {
            DialAction::Rest(5)
        },
        k < n ==> after_failures(n, k).0.at == k,
    decreases k,
{
    if k > 0 {
        every_address_is_tried(n, (k - 1) as nat);
    }
}

/// A whole frame in front is taken first.
proof fn drain_frame(packet: Seq<u8>, rest: Seq<u8>)
    requires
        packet.len() <= MAX_STREAM_FRAME,
    ensures
        drain(crate::codec::frame(packet) + rest).packets == seq![packet] + drain(rest).packets,
        drain(crate::codec::frame(packet) + rest).rest == drain(rest).rest,
        drain(crate::codec::frame(packet) + rest).broken == drain(rest).broken,
{
    let held = crate::codec::frame(packet) + rest;
    crate::wire::be32_round_trip(packet.len() as u32);
    assert(held.take(4) =~= crate::wire::be32(packet.len() as u32));
    assert(held.subrange(4, 4 + packet.len() as int) =~= packet);
    assert(held.skip(4 + packet.len() as int) =~= rest);
}

/// The stream of the frames that carry some packets is read back as those packets, empty ones
/// included, with nothing left over.
pub proof fn stream_reads_back(items: Seq<Seq<u8>>)
    requires
        forall|i: int| 0 <= i < items.len() ==> (#[trigger] items[i]).len() <= MAX_STREAM_FRAME,
    ensures
        drain(crate::codec::stream(items)) == (Drained {
            packets: items,
            rest: seq![],
            broken: false,
        }),
    decreases items.len(),
{
    if items.len() > 0 {
        let rest = items.skip(1);
        stream_reads_back(rest);
        drain_frame(items[0], crate::codec::stream(rest));
        assert(seq![items[0]] + rest =~= items);
    } else {
        assert(items =~= seq![]);
    }
}

/// How the bytes of a stream are cut into reads does not matter: reading `a` and then `b` gives the
/// packets of `a` and `b` read at once, as long as nothing in `a` was broken.
pub proof fn cuts_do_not_matter(a: Seq<u8>, b: Seq<u8>)
    requires
        !drain(a).broken,
    ensures
        drain(a + b).packets == drain(a).packets + drain(drain(a).rest + b).packets,
        drain(a + b).rest == drain(drain(a).rest + b).rest,
        drain(a + b).broken == drain(drain(a).rest + b).broken,
    decreases a.len(),
{
    if a.len() >= 4 {
        let len = crate::wire::be32_value(a.take(4));
        assert((a + b).take(4) =~= a.take(4));
        if a.len() >= 4 + len {
            let next = a.skip(4 + len);
            cuts_do_not_matter(next, b);
            assert((a + b).skip(4 + len) =~= next + b);
            assert((a + b).subrange(4, 4 + len) =~= a.subrange(4, 4 + len));
            let first = a.subrange(4, 4 + len);
            assert(seq![first] + (drain(next).packets + drain(drain(next).rest + b).packets) =~= (
            seq![first] + drain(next).packets) + drain(drain(next).rest + b).packets);
        } else {
            assert(drain(a).packets + drain(a + b).packets =~= drain(a + b).packets);
        }
    } else {
        assert(drain(a).packets + drain(a + b).packets =~= drain(a + b).packets);
    }
}

/// A frame that announces more than a packet can have, 65535 bytes, breaks the stream; one within
/// the limit never does.
pub proof fn only_oversize_breaks(held: Seq<u8>)
    requires
        held.len() >= 4,
    ensures
        ({
            let n = ((held[0] * 256 + held[1]) * 256 + held[2]) * 256 + held[3];
            &&& n > 65535 ==> drain(held).broken && drain(held).packets.len() == 0
            &&& n <= 65535 && held.len() < 4 + n ==> !drain(held).broken && drain(
                held,
            ).packets.len() == 0 && drain(held).rest == held
            &&& n <= 65535 && held.len() >= 4 + n ==> drain(held).packets.len() > 0 && drain(
                held,
            ).packets[0] == held.subrange(4, 4 + n)
        }),
{
    let t = held.take(4);
    assert(t[0] == held[0] && t[1] == held[1] && t[2] == held[2] && t[3] == held[3]);
}

/// What is too short to announce anything waits.
pub proof fn short_input_waits(held: Seq<u8>)
    requires
        held.len() < 4,
    ensures
        drain(held).packets.len() == 0,
        drain(held).rest == held,
        !drain(held).broken,
{
}

/// A connection that came up is used; one that failed makes room for the next address; after a
/// stream ended the first address is dialed again, after a rest that is shorter than the one after a
/// round of failures.
pub proof fn dialing_goes_round(d: Dialer, n: usize)
    requires
        d.at < n,
    ensures
        d.after(DialEvent::Up, n) == (d, DialAction::Pump),
        d.at + 1 < n ==> d.after(DialEvent::Failed, n).1 == DialAction::Dial((d.at + 1) as usize),
        d.at + 1 < n ==> d.after(DialEvent::Failed, n).0.at == d.at + 1,
        d.at + 1 == n ==> d.after(DialEvent::Failed, n).0.at == 0,
        d.at + 1 == n ==> d.after(DialEvent::Failed, n).1 == DialAction::Rest(5),
        d.after(DialEvent::Ended, n).0.at == 0,
        d.after(DialEvent::Ended, n).1 == DialAction::Rest(2),
{
}

/// A stream carries packets of up to 65535 bytes, and three silent intervals end it.
pub proof fn stream_limits()
    ensures
        MAX_STREAM_FRAME == 0xffff,
        MAX_IDLE_TICKS == 3,
{
}

} // verus!
