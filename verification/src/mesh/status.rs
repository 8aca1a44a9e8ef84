//! Counters and status of a peer.

use crate::net::SocketAddr;
use vstd::prelude::*;

verus! {

/// No path.
pub const T_NONE: u8 = 0;

/// Datagrams straight to the peer.
pub const T_UDP_DIRECT: u8 = 1;

/// A stream straight to the peer.
pub const T_TCP_DIRECT: u8 = 2;

/// By way of a relay.
pub const T_RELAY: u8 = 3;

/// The name of a path.
pub fn transport_name(t: u8) -> (s: &'static str)
    ensures
        s@ == transport_text(t),
{
    if t == T_UDP_DIRECT {
        "udp-direct"
    } else if t == T_TCP_DIRECT {
        "tcp-direct"
    } else if t == T_RELAY {
        "relay"
    } else {
        "\u{2014}"
    }
}

/// The name of a path, a dash where there is none.
pub open spec fn transport_text(t: u8) -> Seq<char> {
    if t == T_UDP_DIRECT {
        "udp-direct"@
    } else if t == T_TCP_DIRECT {
        "tcp-direct"@
    } else if t == T_RELAY {
        "relay"@
    } else {
        "\u{2014}"@
    }
}

/// A peer's counters and what was last published about it.
#[derive(Debug)]
pub struct PeerStat {
    pub rx_bytes: u64,
    pub tx_bytes: u64,
    /// Seconds since the Unix epoch at the last completed handshake, zero where there was none.
    pub last_handshake_unix: u64,
    /// The smoothed round trip in microseconds, zero where it is unknown.
    pub rtt_us: u64,
    /// The path.
    pub transport: u8,
    pub endpoint: Option<SocketAddr>,
    pub allowed_ips: Vec<String>,
}

impl PeerStat {
    /// The counters of a peer with which nothing has happened yet.
    pub open spec fn unused(allowed_ips: Vec<String>) -> PeerStat {
        PeerStat {
            rx_bytes: 0,
            tx_bytes: 0,
            last_handshake_unix: 0,
            rtt_us: 0,
            transport: T_NONE,
            endpoint: None,
            allowed_ips,
        }
    }

    /// Nothing has happened yet.
    pub fn new(allowed_ips: Vec<String>) -> (s: PeerStat)
        ensures
            s == PeerStat::unused(allowed_ips),
    {
        PeerStat {
            rx_bytes: 0,
            tx_bytes: 0,
            last_handshake_unix: 0,
            rtt_us: 0,
            transport: T_NONE,
            endpoint: None,
            allowed_ips,
        }
    }

    /// The counters once `n` bytes were received; the count wraps.
    pub open spec fn received(self, n: nat) -> PeerStat {
        PeerStat { rx_bytes: ((self.rx_bytes + n) % 0x1_0000_0000_0000_0000) as u64, ..self }
    }

    /// The counters once `n` bytes were sent; the count wraps.
    pub open spec fn sent(self, n: nat) -> PeerStat {
        PeerStat { tx_bytes: ((self.tx_bytes + n) % 0x1_0000_0000_0000_0000) as u64, ..self }
    }

    /// Counts received bytes.
    pub fn add_rx(&mut self, n: usize)
        ensures
            *final(self) == old(self).received(n as nat),
    {
        self.rx_bytes = self.rx_bytes.wrapping_add(n as u64);
    }

    /// Counts sent bytes.
    pub fn add_tx(&mut self, n: usize)
        ensures
            *final(self) == old(self).sent(n as nat),
    {
        self.tx_bytes = self.tx_bytes.wrapping_add(n as u64);
    }

    /// Notes a completed handshake.
    pub fn mark_handshake(&mut self, now_unix: u64)
        ensures
            *final(self) == (PeerStat { last_handshake_unix: now_unix, ..*old(self) }),
    {
        self.last_handshake_unix = now_unix;
    }
}

/// What is received and what is sent is counted apart, and nothing else of a status changes with it.
pub proof fn traffic_is_counted_apart(s: PeerStat, n: nat)
    ensures
        s.rx_bytes + n <= u64::MAX ==> s.received(n).rx_bytes == s.rx_bytes + n,
        s.tx_bytes + n <= u64::MAX ==> s.sent(n).tx_bytes == s.tx_bytes + n,
        s.received(n) == (PeerStat { rx_bytes: s.received(n).rx_bytes, ..s }),
        s.sent(n) == (PeerStat { tx_bytes: s.sent(n).tx_bytes, ..s }),
{
}

/// Each path has a name of its own.
pub proof fn paths_have_names()
    ensures
        transport_text(1) == "udp-direct"@,
        transport_text(2) == "tcp-direct"@,
        transport_text(3) == "relay"@,
        transport_text(0) == "\u{2014}"@,
{
}

/// A peer that was never heard of has a status of nothing, with its networks.
pub proof fn unheard_of(ips: Vec<String>)
    ensures
        ({
            let s = PeerStat::unused(ips);
            &&& s.rx_bytes == 0
            &&& s.tx_bytes == 0
            &&& s.last_handshake_unix == 0
            &&& s.rtt_us == 0
            &&& s.transport == 0
            &&& s.endpoint is None
            &&& s.allowed_ips == ips
        }),
{
}

} // verus!
