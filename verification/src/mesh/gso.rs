//! Batches of equal-size datagrams for one destination, which the kernel can split in one call.

use crate::net::SocketAddr;
use crate::wire::{copy_bytes, copy_range, put_bytes};
use vstd::prelude::*;

verus! {

/// The largest batch in bytes.
pub const MAX_BATCH_BYTES: usize = 61440;

/// Datagrams to be sent.
#[derive(Debug)]
pub enum Flush {
    /// One datagram.
    Single { dst: SocketAddr, bytes: Vec<u8> },
    /// One buffer that the kernel splits into datagrams of `seg` bytes.
    Segmented { dst: SocketAddr, bytes: Vec<u8>, seg: usize },
    /// Datagrams to be sent one by one.
    Split { dst: SocketAddr, packets: Vec<Vec<u8>> },
}

/// The pieces of `seg` bytes that a buffer falls into, the last of them possibly shorter.
pub open spec fn pieces(bytes: Seq<u8>, seg: nat) -> Seq<Seq<u8>>
    decreases bytes.len(),
{
    if bytes.len() == 0 || seg == 0 {
        seq![]
    } else if bytes.len() <= seg {
        seq![bytes]
    } else {
        seq![bytes.take(seg as int)] + pieces(bytes.skip(seg as int), seg)
    }
}

/// The datagrams of `seg` bytes that a buffer is cut into, of one byte where `seg` is zero.
pub open spec fn cut(bytes: Seq<u8>, seg: usize) -> Seq<Seq<u8>> {
    pieces(
        bytes,
        if seg == 0 {
            1
        } else {
            seg as nat
        },
    )
}

/// Datagrams with their destination.
pub open spec fn addressed(dst: SocketAddr, packets: Seq<Seq<u8>>) -> Seq<(SocketAddr, Seq<u8>)> {
    packets.map_values(|p: Seq<u8>| (dst, p))
}

impl Flush {
    /// The datagrams that reach the wire.
    pub open spec fn wire(self) -> Seq<(SocketAddr, Seq<u8>)> {
        match self {
            Flush::Single { dst, bytes } => seq![(dst, bytes@)],
            Flush::Segmented { dst, bytes, seg } => addressed(dst, pieces(bytes@, seg as nat)),
            Flush::Split { dst, packets } => addressed(
                dst,
                packets@.map_values(|p: Vec<u8>| p@),
            ),
        }
    }
}

/// What reaches the wire of a flush, if there is one.
pub open spec fn wire_of(f: Option<Flush>) -> Seq<(SocketAddr, Seq<u8>)> {
    match f {
        Some(f) => f.wire(),
        None => seq![],
    }
}

/// A batch.
#[derive(Debug)]
pub struct GsoBatch {
    pub buf: Vec<u8>,
    pub seg: usize,
    pub dst: Option<SocketAddr>,
    pub count: usize,
    /// Whether the kernel splits buffers; cleared once it has refused.
    pub gso_ok: bool,
    /// Whether every datagram is sent at once instead.
    pub disabled: bool,
}

impl GsoBatch {
    /// The buffer holds `count` datagrams of `seg` bytes.
    pub open spec fn wf(self) -> bool {
        &&& self.buf@.len() == self.count * self.seg
        &&& self.count > 0 <==> self.dst is Some
        &&& self.count == 0 ==> self.seg == 0
        &&& self.count > 1 ==> self.buf@.len() <= MAX_BATCH_BYTES
    }

    /// Whether the batch holds no empty datagrams.
    pub open spec fn proper(self) -> bool {
        self.count > 0 ==> self.seg > 0
    }

    /// The datagrams that wait.
    pub open spec fn pending(self) -> Seq<(SocketAddr, Seq<u8>)> {
        match self.dst {
            Some(d) => addressed(d, pieces(self.buf@, self.seg as nat)),
            None => seq![],
        }
    }

    /// Whether a datagram of `len` bytes to `dst` can join what waits.
    pub open spec fn takes(self, dst: SocketAddr, len: nat) -> bool {
        &&& self.dst == Some(dst)
        &&& len == self.seg
        &&& self.buf@.len() + len <= MAX_BATCH_BYTES
    }

    /// Whether `f` is how what waits is sent: a single datagram as it is, several as one buffer
    /// where the kernel splits them and one by one where it does not.
    pub open spec fn gives(self, f: Option<Flush>) -> bool {
        match f {
            None => self.count == 0,
            Some(Flush::Single { dst, bytes }) => {
                &&& self.count == 1
                &&& self.dst == Some(dst)
                &&& bytes@ == self.buf@
            },
            Some(Flush::Segmented { dst, bytes, seg }) => {
                &&& self.count > 1 && self.gso_ok
                &&& self.dst == Some(dst)
                &&& bytes@ == self.buf@
                &&& seg == self.seg
            },
            Some(Flush::Split { dst, packets }) => {
                &&& self.count > 1 && !self.gso_ok
                &&& self.dst == Some(dst)
                &&& packets@.map_values(|p: Vec<u8>| p@) == cut(self.buf@, self.seg)
            },
        }
    }

    /// Whether `after` is this batch with nothing in it.
    pub open spec fn cleared(self, after: GsoBatch) -> bool {
        &&& after.count == 0
        &&& after.seg == 0
        &&& after.dst is None
        &&& after.buf@ == Seq::<u8>::empty()
        &&& after.gso_ok == self.gso_ok
        &&& after.disabled == self.disabled
    }

    /// Whether `after` is the batch, and `f` what is sent, once a datagram was queued.
    pub open spec fn queued(
        self,
        dst: SocketAddr,
        pkt: Seq<u8>,
        after: GsoBatch,
        f: Option<Flush>,
    ) -> bool {
        if self.disabled {
            &&& f matches Some(Flush::Single { dst: to, bytes })
            &&& to == dst
            &&& bytes@ == pkt
            &&& after == self
        } else {
            let joins = self.takes(dst, pkt.len());
            &&& after.dst == Some(dst)
            &&& after.seg == pkt.len()
            &&& after.gso_ok == self.gso_ok
            &&& after.disabled == self.disabled
            &&& joins ==> {
                &&& f is None
                &&& after.buf@ == self.buf@ + pkt
                &&& after.count == self.count + 1
            }
            &&& !joins ==> {
                &&& self.gives(f)
                &&& after.buf@ == pkt
                &&& after.count == 1
            }
        }
    }

    /// The empty batch.
    pub fn new(disabled: bool) -> (b: GsoBatch)
        ensures
            b.wf(),
            b.proper(),
            b.pending() == Seq::<(SocketAddr, Seq<u8>)>::empty(),
            b.gso_ok,
            b.disabled == disabled,
            b.count == 0,
    {
        GsoBatch { buf: Vec::new(), seg: 0, dst: None, count: 0, gso_ok: true, disabled }
    }

    /// Queues a datagram. What waited is sent first where the batch cannot take it: another
    /// destination, another size or a full batch.
    pub fn push(&mut self, dst: SocketAddr, pkt: &[u8]) -> (f: Option<Flush>)
        requires
            old(self).wf(),
            old(self).proper() || old(self).count < usize::MAX,
        ensures
            final(self).wf(),
            old(self).queued(dst, pkt@, *final(self), f),
            !old(self).disabled && old(self).proper() && pkt@.len() > 0 ==> {
                &&& final(self).proper()
                &&& wire_of(f) + final(self).pending() == old(self).pending().push((dst, pkt@))
                &&& final(self).pending().len() > 0
            },
    {
        if self.disabled {
            return Some(Flush::Single { dst, bytes: copy_bytes(pkt) });
        }
        let ghost start = *self;
        let same_dst: bool = match self.dst {
            Some(d) => d == dst,
            None => false,
        };
        let full: bool = self.buf.len() > MAX_BATCH_BYTES || pkt.len() > MAX_BATCH_BYTES
            - self.buf.len();
        let f: Option<Flush> = if !same_dst || (self.count > 0 && pkt.len() != self.seg) || full {
            self.flush()
        } else {
            None
        };
        let ghost mid = *self;
        proof {
            if mid.count > 1 && mid.proper() {
                assert(mid.count <= MAX_BATCH_BYTES) by (nonlinear_arith)
                    requires
                        mid.buf@.len() == mid.count * mid.seg,
                        mid.buf@.len() <= MAX_BATCH_BYTES,
                        mid.seg > 0,
                ;
            }
        }
        if self.count == 0 {
            self.seg = pkt.len();
            self.dst = Some(dst);
        }
        put_bytes(&mut self.buf, pkt);
        self.count += 1;
        proof {
            let seg = self.seg as int;
            let n = mid.count as int;
            assert((n + 1) * seg == n * seg + seg) by (nonlinear_arith);
            if mid.count == 0 {
                assert(self.buf@ =~= pkt@);
            }
            if start.proper() && pkt@.len() > 0 {
                queueing_keeps_order(start, dst, pkt@, *self, f);
            }
        }
        f
    }

    /// Takes out what waits.
    pub fn flush(&mut self) -> (f: Option<Flush>)
        requires
            old(self).wf(),
        ensures
            final(self).wf(),
            final(self).proper(),
            old(self).cleared(*final(self)),
            old(self).gives(f),
            final(self).pending() == Seq::<(SocketAddr, Seq<u8>)>::empty(),
            old(self).proper() ==> wire_of(f) == old(self).pending(),
    {
        let ghost start = *self;
        if self.count == 0 {
            proof {
                assert(self.buf@.len() == 0) by (nonlinear_arith)
                    requires
                        self.buf@.len() == self.count * self.seg,
                        self.count == 0,
                ;
                assert(self.buf@ =~= seq![]);
                assert(self.pending() =~= seq![]);
            }
            return None;
        }
        let bytes = copy_bytes(self.buf.as_slice());
        let seg: usize = self.seg;
        let f: Option<Flush> = match self.dst {
            Some(dst) => {
                if self.count == 1 {
                    Some(Flush::Single { dst, bytes })
                } else if self.gso_ok {
                    Some(Flush::Segmented { dst, bytes, seg })
                } else {
                    let packets = split_segments(bytes.as_slice(), seg);
                    Some(Flush::Split { dst, packets })
                }
            },
            None => None,
        };
        self.buf.clear();
        self.seg = 0;
        self.count = 0;
        self.dst = None;
        proof {
            if start.proper() {
                flushing_sends_all(start, f);
            }
        }
        f
    }

    /// Notes that the kernel refused to split a buffer, and splits it here instead.
    pub fn refused(&mut self, dst: SocketAddr, bytes: &[u8], seg: usize) -> (f: Flush)
        ensures
            *final(self) == (GsoBatch { gso_ok: false, ..*old(self) }),
            f is Split,
            f.wire() == addressed(dst, cut(bytes@, seg)),
    {
        self.gso_ok = false;
        Flush::Split { dst, packets: split_segments(bytes, seg) }
    }
}

/// Splits a buffer into datagrams of `seg` bytes, of one byte where `seg` is zero.
pub fn split_segments(bytes: &[u8], seg: usize) -> (packets: Vec<Vec<u8>>)
    ensures
        packets@.map_values(|p: Vec<u8>| p@) == cut(bytes@, seg),
{
    let step: usize = if seg == 0 {
        1
    } else {
        seg
    };
    let mut packets: Vec<Vec<u8>> = Vec::new();
    let mut at: usize = 0;
    assert(bytes@.skip(0) =~= bytes@);
    assert(packets@.map_values(|p: Vec<u8>| p@) + pieces(bytes@, step as nat) =~= pieces(
        bytes@,
        step as nat,
    ));
    while at < bytes.len()
        invariant
            at <= bytes@.len(),
            step > 0,
            packets@.map_values(|p: Vec<u8>| p@) + pieces(bytes@.skip(at as int), step as nat)
                == pieces(bytes@, step as nat),
        decreases bytes@.len() - at,
    {
        let end: usize = if bytes.len() - at <= step {
            bytes.len()
        } else {
            at + step
        };
        let piece = copy_range(bytes, at, end);
        let ghost rest = bytes@.skip(at as int);
        let ghost before = packets@;
        proof {
            if rest.len() <= step {
                assert(piece@ =~= rest);
                assert(bytes@.skip(end as int) =~= seq![]);
                assert(pieces(bytes@.skip(end as int), step as nat) =~= seq![]);
            } else {
                assert(piece@ =~= rest.take(step as int));
                assert(bytes@.skip(end as int) =~= rest.skip(step as int));
            }
            assert(pieces(rest, step as nat) =~= seq![piece@] + pieces(
                bytes@.skip(end as int),
                step as nat,
            ));
        }
        packets.push(piece);
        assert(packets@.map_values(|p: Vec<u8>| p@) =~= before.map_values(|p: Vec<u8>| p@).push(
            piece@,
        ));
        assert(packets@.map_values(|p: Vec<u8>| p@) + pieces(bytes@.skip(end as int), step as nat)
            =~= before.map_values(|p: Vec<u8>| p@) + pieces(rest, step as nat));
        at = end;
    }
    assert(pieces(bytes@.skip(at as int), step as nat) =~= seq![]);
    assert(packets@.map_values(|p: Vec<u8>| p@) =~= pieces(bytes@, step as nat));
    packets
}

/// What is sent of a batch is what waits in it, in that order, however it is sent. Batches with
/// empty datagrams are left out.
pub proof fn flushing_sends_all(b: GsoBatch, f: Option<Flush>)
    requires
        b.wf(),
        b.proper(),
        b.gives(f),
    ensures
        wire_of(f) == b.pending(),
{
    match f {
        Some(Flush::Single { dst, bytes }) => {
            assert(b.buf@.len() == b.seg) by (nonlinear_arith)
                requires
                    b.buf@.len() == b.count * b.seg,
                    b.count == 1,
            ;
            assert(pieces(b.buf@, b.seg as nat) == seq![b.buf@]);
            assert(b.pending() =~= seq![(dst, b.buf@)]);
        },
        _ => {},
    }
}

/// Queueing loses nothing and keeps the order: what is sent then, followed by what still waits, is
/// what waited before, followed by the new datagram.
pub proof fn queueing_keeps_order(
    b: GsoBatch,
    dst: SocketAddr,
    pkt: Seq<u8>,
    after: GsoBatch,
    f: Option<Flush>,
)
    requires
        b.wf(),
        b.proper(),
        !b.disabled,
        pkt.len() > 0,
        b.queued(dst, pkt, after, f),
    ensures
        after.proper(),
        wire_of(f) + after.pending() == b.pending().push((dst, pkt)),
{
    if b.takes(dst, pkt.len()) {
        vstd::arithmetic::div_mod::lemma_mod_multiples_basic(b.count as int, b.seg as int);
        pieces_push(b.buf@, pkt);
        assert(after.pending() =~= b.pending().push((dst, pkt)));
    } else {
        flushing_sends_all(b, f);
        assert(pieces(after.buf@, after.seg as nat) == seq![pkt]);
        assert(after.pending() =~= seq![(dst, pkt)]);
    }
    assert(wire_of(f) + after.pending() =~= b.pending().push((dst, pkt)));
}

/// One more full piece at the end of full pieces.
proof fn pieces_push(bytes: Seq<u8>, last: Seq<u8>)
    requires
        last.len() > 0,
        bytes.len() % last.len() == 0,
    ensures
        pieces(bytes + last, last.len()) == pieces(bytes, last.len()).push(last),
    decreases bytes.len(),
{
    let seg = last.len() as int;
    let all = bytes + last;
    if bytes.len() == 0 {
        assert(all =~= last);
        assert(pieces(bytes, last.len()) =~= seq![]);
    } else {
        vstd::arithmetic::div_mod::lemma_fundamental_div_mod(bytes.len() as int, seg);
        assert(bytes.len() >= seg) by (nonlinear_arith)
            requires
                bytes.len() == seg * (bytes.len() as int / seg) + bytes.len() as int % seg,
                bytes.len() as int % seg == 0,
                bytes.len() > 0,
                seg > 0,
        ;
        let rest = bytes.skip(seg);
        assert(rest.len() % last.len() == 0) by {
            vstd::arithmetic::div_mod::lemma_mod_sub_multiples_vanish(bytes.len() as int, seg);
        }
        pieces_push(rest, last);
        assert(all.take(seg) =~= bytes.take(seg));
        assert(all.skip(seg) =~= rest + last);
        if bytes.len() == seg {
            assert(rest =~= seq![]);
            assert(bytes.take(seg) =~= bytes);
            assert(pieces(rest, last.len()) =~= seq![]);
        }
        assert(pieces(all, last.len()) =~= pieces(bytes, last.len()).push(last));
    }
}

/// A datagram joins those that wait exactly if it goes to the same address, is as long as they are,
/// and all together stay within 60 KiB; else those that wait go out first.
pub proof fn equal_datagrams_wait_together(
    b: GsoBatch,
    dst: SocketAddr,
    pkt: Seq<u8>,
    after: GsoBatch,
    f: Option<Flush>,
)
    requires
        b.wf(),
        !b.disabled,
        b.queued(dst, pkt, after, f),
    ensures
        b.count > 0 && b.dst == Some(dst) && pkt.len() == b.seg && b.buf@.len() + pkt.len() <= 61440
            ==> f is None && after.count == b.count + 1,
        b.count > 0 && (b.dst != Some(dst) || pkt.len() != b.seg || b.buf@.len() + pkt.len()
            > 61440) ==> f is Some && after.count == 1,
        b.count == 0 ==> f is None && after.count == 1,
        after.dst == Some(dst),
        after.buf@.len() >= pkt.len(),
        after.buf@.skip(after.buf@.len() - pkt.len()) == pkt,
{
    assert(after.buf@.skip(after.buf@.len() - pkt.len()) =~= pkt);
}

/// A switched-off batch hands every datagram on at once and keeps nothing back.
pub proof fn switched_off_sends_at_once(
    b: GsoBatch,
    dst: SocketAddr,
    pkt: Seq<u8>,
    after: GsoBatch,
    f: Option<Flush>,
)
    requires
        b.disabled,
        b.queued(dst, pkt, after, f),
    ensures
        wire_of(f) == seq![(dst, pkt)],
        after.pending() == b.pending(),
{
}

/// Pieces are of the asked length, in order, and the last may be shorter.
pub proof fn pieces_are_in_order(bytes: Seq<u8>, seg: nat)
    requires
        seg > 0,
        bytes.len() > 0,
    ensures
        pieces(bytes, seg).len() > 0,
        bytes.len() > seg ==> pieces(bytes, seg)[0] == bytes.take(seg as int),
        bytes.len() > seg ==> pieces(bytes, seg).skip(1) == pieces(bytes.skip(seg as int), seg),
        bytes.len() <= seg ==> pieces(bytes, seg) == seq![bytes],
{
    if bytes.len() > seg {
        assert(pieces(bytes, seg).skip(1) =~= pieces(bytes.skip(seg as int), seg));
    }
}

/// One datagram goes out by itself. Several go out as one buffer where the kernel splits it, and
/// one by one where it does not; afterwards nothing waits.
pub proof fn several_go_as_one(b: GsoBatch, f: Option<Flush>, after: GsoBatch)
    requires
        b.gives(f),
        b.cleared(after),
    ensures
        b.count == 0 <==> f is None,
        b.count == 1 ==> (f matches Some(x) && x is Single),
        b.count > 1 && b.gso_ok ==> (f matches Some(x) && x is Segmented),
        b.count > 1 && !b.gso_ok ==> (f matches Some(x) && x is Split),
        after.count == 0,
        after.dst is None,
        after.buf@.len() == 0,
        after.seg == 0,
        after.wf(),
        after.pending().len() == 0,
        after.gso_ok == b.gso_ok,
        after.disabled == b.disabled,
{
}

/// Two datagrams are enough to go as one.
pub proof fn two_are_several(b: GsoBatch, f: Flush)
    requires
        b.count > 1,
    ensures
        b.gso_ok && (f matches Flush::Segmented { dst, bytes, seg } && b.dst == Some(dst) && bytes@
            == b.buf@ && seg == b.seg) ==> b.gives(Some(f)),
        !b.gso_ok && (f matches Flush::Split { dst, packets } && b.dst == Some(dst)
            && packets@.map_values(|p: Vec<u8>| p@) == cut(b.buf@, b.seg)) ==> b.gives(Some(f)),
{
}

} // verus!
