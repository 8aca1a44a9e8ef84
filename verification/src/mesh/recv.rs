//! Datagrams that are received many at a time.

use crate::net::{IpAddr, SocketAddr};
use crate::wire::copy_range;
use vstd::prelude::*;

verus! {

/// How many datagrams are received at a time.
pub const RECV_BATCH: usize = 32;

/// The size of the buffer for a datagram.
pub const RECV_BUFSZ: usize = 2048;

/// An address as the kernel gives it: its bytes and those of the port, most significant first.
#[derive(Clone, Copy, Debug, PartialEq, Eq)]
pub enum RawAddr {
    Inet([u8; 4], [u8; 2]),
    Inet6([u8; 16], [u8; 2]),
    /// Of a family that is no family of IP.
    Other,
}

/// The number of some bytes, most significant first.
fn be_number(b: &[u8]) -> (n: u128)
    requires
        b@.len() <= 16,
    ensures
        n == crate::wire::be_value(b@),
{
    let mut n: u128 = 0;
    let mut i: usize = 0;
    assert(crate::wire::be_value(b@.take(0)) == 0);
    proof {
        vstd::arithmetic::power::lemma_pow0(256);
    }
    while i < b.len()
        invariant
            i <= b@.len() <= 16,
            n == crate::wire::be_value(b@.take(i as int)),
            n < vstd::arithmetic::power::pow(256, i as nat),
        decreases b@.len() - i,
    {
        proof {
            assert(b@.take(i + 1).drop_last() =~= b@.take(i as int));
            pow_bound(i as nat);
        }
        n = n * 256 + b[i] as u128;
        i += 1;
    }
    assert(b@.take(b@.len() as int) =~= b@);
    n
}

/// Powers of 256 that fit.
proof fn pow_bound(i: nat)
    requires
        i < 16,
    ensures
        vstd::arithmetic::power::pow(256, (i + 1) as nat) == 256 * vstd::arithmetic::power::pow(
            256,
            i,
        ),
        vstd::arithmetic::power::pow(256, i) <= 0x1_0000_0000_0000_0000_0000_0000_0000_00,
    decreases 16 - i,
{
    vstd::arithmetic::power::lemma_pow_adds(256, 1, i);
    vstd::arithmetic::power::lemma_pow1(256);
    if i < 15 {
        pow_bound(i + 1);
        vstd::arithmetic::power::lemma_pow_positive(256, i);
    } else {
        assert(vstd::arithmetic::power::pow(256, 15)
            == 0x1_0000_0000_0000_0000_0000_0000_0000_00) by {
            pow_15();
        }
    }
}

/// The fifteenth power of 256.
proof fn pow_15()
    ensures
        vstd::arithmetic::power::pow(256, 15) == 0x1_0000_0000_0000_0000_0000_0000_0000_00,
{
    vstd::arithmetic::power::lemma_pow1(256);
    vstd::arithmetic::power::lemma_pow_adds(256, 1, 1);
    let p2 = vstd::arithmetic::power::pow(256, 2);
    assert(p2 == 0x1_0000);
    vstd::arithmetic::power::lemma_pow_adds(256, 2, 2);
    let p4 = vstd::arithmetic::power::pow(256, 4);
    assert(p4 == 0x1_0000_0000);
    vstd::arithmetic::power::lemma_pow_adds(256, 4, 1);
    let p5 = vstd::arithmetic::power::pow(256, 5);
    assert(p5 == 0x100_0000_0000);
    vstd::arithmetic::power::lemma_pow_adds(256, 5, 5);
    let p10 = vstd::arithmetic::power::pow(256, 10);
    assert(p10 == 0x1_0000_0000_0000_0000_0000);
    vstd::arithmetic::power::lemma_pow_adds(256, 5, 10);
}

/// The address that the kernel gives, if it is one of IP.
pub open spec fn address_of(raw: RawAddr) -> Option<SocketAddr> {
    match raw {
        RawAddr::Inet(ip, port) => Some(
            SocketAddr {
                ip: IpAddr::V4(crate::wire::be_value(ip@) as u32),
                port: crate::wire::be_value(port@) as u16,
                flowinfo: 0,
                scope_id: 0,
            },
        ),
        RawAddr::Inet6(ip, port) => Some(
            SocketAddr {
                ip: IpAddr::V6(crate::wire::be_value(ip@) as u128),
                port: crate::wire::be_value(port@) as u16,
                flowinfo: 0,
                scope_id: 0,
            },
        ),
        RawAddr::Other => None,
    }
}

/// The address that the kernel gives.
pub fn sockaddr_to_socket(raw: &RawAddr) -> (r: Option<SocketAddr>)
    ensures
        r == address_of(*raw),
{
    match raw {
        RawAddr::Inet(ip, port) => {
            let a: u128 = be_number(ip.as_slice());
            let p: u128 = be_number(port.as_slice());
            Some(SocketAddr::new(IpAddr::V4(a as u32), p as u16))
        },
        RawAddr::Inet6(ip, port) => {
            let a: u128 = be_number(ip.as_slice());
            let p: u128 = be_number(port.as_slice());
            Some(SocketAddr::new(IpAddr::V6(a), p as u16))
        },
        RawAddr::Other => None,
    }
}

/// Places for datagrams, each with the address that it came from.
#[derive(Debug)]
pub struct RecvBatch {
    pub bufs: Vec<Vec<u8>>,
    pub froms: Vec<SocketAddr>,
}

impl RecvBatch {
    /// Whether every place is there.
    pub open spec fn wf(&self) -> bool {
        self.bufs@.len() == RECV_BATCH && self.froms@.len() == RECV_BATCH
    }

    /// Empty places.
    pub fn new() -> (b: RecvBatch)
        ensures
            b.wf(),
            forall|i: int| 0 <= i < RECV_BATCH ==> (#[trigger] b.bufs@[i])@.len() == 0,
            forall|i: int|
                0 <= i < RECV_BATCH ==> #[trigger] b.froms@[i] == (SocketAddr {
                    ip: IpAddr::V4(0),
                    port: 0,
                    flowinfo: 0,
                    scope_id: 0,
                }),
    {
        let mut bufs: Vec<Vec<u8>> = Vec::new();
        let mut froms: Vec<SocketAddr> = Vec::new();
        let mut i: usize = 0;
        while i < RECV_BATCH
            invariant
                i <= RECV_BATCH,
                bufs@.len() == i,
                froms@.len() == i,
                forall|j: int| 0 <= j < i ==> (#[trigger] bufs@[j])@.len() == 0,
                forall|j: int|
                    0 <= j < i ==> #[trigger] froms@[j] == (SocketAddr {
                        ip: IpAddr::V4(0),
                        port: 0,
                        flowinfo: 0,
                        scope_id: 0,
                    }),
            decreases RECV_BATCH - i,
        {
            bufs.push(Vec::new());
            froms.push(SocketAddr::new(IpAddr::V4(0), 0));
            i += 1;
        }
        RecvBatch { bufs, froms }
    }

    /// Puts a received datagram into a place. Where the kernel gives no address of IP, the place
    /// keeps the one that it had.
    pub fn store(&mut self, i: usize, data: Vec<u8>, from: &RawAddr)
        requires
            old(self).wf(),
            i < RECV_BATCH,
        ensures
            final(self).wf(),
            final(self).bufs@ == old(self).bufs@.update(i as int, data),
            final(self).froms@ == match address_of(*from) {
                Some(a) => old(self).froms@.update(i as int, a),
                None => old(self).froms@,
            },
    {
        self.bufs.set(i, data);
        match sockaddr_to_socket(from) {
            Some(a) => {
                self.froms.set(i, a);
            },
            None => {},
        }
    }

    /// The datagram in a place, and the address that it came from.
    pub fn get(&self, i: usize) -> (r: (Vec<u8>, SocketAddr))
        requires
            self.wf(),
            i < RECV_BATCH,
        ensures
            r.0@ == self.bufs@[i as int]@,
            r.1 == self.froms@[i as int],
    {
        let b = self.bufs[i].as_slice();
        let n: usize = b.len();
        let data = copy_range(b, 0, n);
        assert(data@ =~= b@);
        (data, self.froms[i])
    }
}

/// Whether datagrams are received one at a time: where the environment's `FP_NOGSO` is `1`, and
/// where the system can do no more.
pub fn batch_disabled(value: &Option<String>, linux: bool) -> (r: bool)
    ensures
        r == (!linux || crate::node::dns::opt_text(*value) == Some("1"@)),
{
    if !linux {
        return true;
    }
    match value {
        Some(v) => crate::text::same_text(v.as_str(), "1"),
        None => false,
    }
}

/// An address comes as its bytes in the order of the network, most significant first, and so does
/// its port.
pub proof fn addresses_come_in_network_order(ip: [u8; 4], port: [u8; 2])
    ensures
        address_of(RawAddr::Inet(ip, port)) == Some(
            SocketAddr {
                ip: IpAddr::V4(
                    (0x100_0000 * ip@[0] + 0x1_0000 * ip@[1] + 0x100 * ip@[2] + ip@[3]) as u32,
                ),
                port: (256 * port@[0] + port@[1]) as u16,
                flowinfo: 0,
                scope_id: 0,
            },
        ),
        address_of(RawAddr::Other) is None,
{
    let i0 = Seq::<u8>::empty();
    let i1 = i0.push(ip@[0]);
    let i2 = i1.push(ip@[1]);
    let i3 = i2.push(ip@[2]);
    crate::wire::numbers_are_big_endian(i0, ip@[0]);
    crate::wire::numbers_are_big_endian(i1, ip@[1]);
    crate::wire::numbers_are_big_endian(i2, ip@[2]);
    crate::wire::numbers_are_big_endian(i3, ip@[3]);
    assert(i3.push(ip@[3]) =~= ip@);
    let p1 = i0.push(port@[0]);
    crate::wire::numbers_are_big_endian(i0, port@[0]);
    crate::wire::numbers_are_big_endian(p1, port@[1]);
    assert(p1.push(port@[1]) =~= port@);
}

/// The long form of an address goes the same way: the last byte is the least significant.
pub proof fn long_addresses_too(ip: [u8; 16], port: [u8; 2], short: [u8; 4])
    ensures
        address_of(RawAddr::Inet6(ip, port)) matches Some(a) && {
            &&& a.ip == IpAddr::V6(crate::wire::be_value(ip@) as u128)
            &&& crate::wire::be_value(ip@) == 256 * crate::wire::be_value(ip@.drop_last()) + ip@[15]
            &&& a.port == address_of(RawAddr::Inet(short, port))->Some_0.port
            &&& a.flowinfo == 0
            &&& a.scope_id == 0
        },
{
    crate::wire::numbers_are_big_endian(ip@.drop_last(), ip@[15]);
    assert(ip@.drop_last().push(ip@[15]) =~= ip@);
}

/// Up to 32 datagrams are read at once, of up to 2048 bytes each.
pub proof fn batches_are_so_large()
    ensures
        RECV_BATCH == 32,
        RECV_BUFSZ == 2048,
{
}

} // verus!
