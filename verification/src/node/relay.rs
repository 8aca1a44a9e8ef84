//! Which relay the node connects to, how, and what it does when a connection ends.

use crate::anytls::config::AnytlsConfig;
use crate::net::SocketAddr;
use crate::node::control::RelayDir;
use crate::tcp_bond::config::TcpBondConfig;
use crate::wire::{copy_range, get_be32, put_bytes};
use vstd::prelude::*;
use vstd::string::StringExecFns;

verus! {

/// A relay that the node can connect to.
#[derive(Debug)]
pub struct RelayTarget {
    pub addr: SocketAddr,
    pub anytls: bool,
    /// Whether several plain connections are bonded into one.
    pub bond: bool,
    /// How many connections a bond has, where that is set.
    pub bond_links: Option<usize>,
    pub node_id: String,
}

/// How a relay is dialed.
#[derive(Debug)]
pub enum DialPlan {
    /// Over a bond of TLS connections with these settings, which are put in force.
    Anytls(AnytlsConfig),
    /// Over a bond of plain connections; settings are put in force where there are any.
    Bond(Option<TcpBondConfig>),
    /// Over one plain connection.
    Plain,
}

impl RelayTarget {
    /// How many seconds dialing may take. A bond needs several connections and a handshake among
    /// them, so it gets longer than a single connection.
    pub open spec fn timeout_secs(self) -> u64 {
        if self.anytls || self.bond {
            12
        } else {
            5
        }
    }

    /// The name of the transport.
    pub open spec fn transport(self) -> Seq<char> {
        if self.anytls {
            "anytls/443"@
        } else if self.bond {
            "tcp-bond"@
        } else {
            "tcp"@
        }
    }

    /// How many seconds dialing may take.
    pub fn dial_timeout_secs(&self) -> (s: u64)
        ensures
            s == self.timeout_secs(),
    {
        if self.anytls || self.bond {
            12
        } else {
            5
        }
    }

    /// The name of the transport.
    pub fn transport_label(&self) -> (s: &'static str)
        ensures
            s@ == self.transport(),
    {
        if self.anytls {
            "anytls/443"
        } else if self.bond {
            "tcp-bond"
        } else {
            "tcp"
        }
    }

    /// How the relay is dialed. TLS goes before a plain bond. The password of the TLS bond comes
    /// from the relay's node id.
    pub fn dial_plan(&self) -> (p: DialPlan)
        ensures
            self.anytls ==> {
                &&& p matches DialPlan::Anytls(c)
                &&& c.password@ == crate::anytls::config::password_for(self.node_id@)
                &&& c.password@.len() == 64
                &&& c.insecure_skip_verify
                &&& self.bond_links is None ==> c.is_default_but_auth()
                &&& self.bond_links matches Some(n) ==> {
                    &&& c.bond_connections == n
                    &&& (AnytlsConfig { bond_connections: 3, ..c }).is_default_but_auth()
                }
            },
            !self.anytls && self.bond ==> {
                &&& p matches DialPlan::Bond(s)
                &&& self.bond_links is None ==> s is None
                &&& self.bond_links matches Some(n) ==> {
                    &&& s matches Some(c)
                    &&& c.bond_connections == n
                    &&& (TcpBondConfig { bond_connections: 3, ..c }).is_default()
                }
            },
            !self.anytls && !self.bond ==> p is Plain,
    {
        if self.anytls {
            let mut c = AnytlsConfig::with_node_id(self.node_id.as_str());
            if let Some(n) = self.bond_links {
                c.bond_connections = n;
            }
            DialPlan::Anytls(c)
        } else if self.bond {
            match self.bond_links {
                Some(n) => {
                    let mut c = TcpBondConfig::default();
                    c.bond_connections = n;
                    DialPlan::Bond(Some(c))
                },
                None => DialPlan::Bond(None),
            }
        } else {
            DialPlan::Plain
        }
    }
}

/// The settings of the node that concern relays.
#[derive(Debug)]
pub struct RelaySettings {
    /// The address of a relay set by hand, if it is an address.
    pub relay: Option<SocketAddr>,
    pub anytls: bool,
    pub bond: bool,
    pub bond_links: Option<usize>,
    pub node_id: Option<String>,
}

/// A relay as a value.
pub struct Target {
    pub addr: SocketAddr,
    pub anytls: bool,
    pub bond: bool,
    pub bond_links: Option<usize>,
    pub node_id: Seq<char>,
}

impl RelayTarget {
    /// The relay as a value.
    pub open spec fn view(&self) -> Target {
        Target {
            addr: self.addr,
            anytls: self.anytls,
            bond: self.bond,
            bond_links: self.bond_links,
            node_id: self.node_id@,
        }
    }
}

/// Some relays as values.
pub open spec fn targets(v: Seq<RelayTarget>) -> Seq<Target> {
    v.map_values(|t: RelayTarget| t@)
}

/// The relays of a directory whose address could be read.
pub open spec fn from_directory(
    dir: Seq<RelayDir>,
    addrs: Seq<Option<SocketAddr>>,
    s: RelaySettings,
) -> Seq<Target>
    decreases dir.len(),
{
    if dir.len() == 0 {
        seq![]
    } else {
        let before = from_directory(dir.drop_last(), addrs.drop_last(), s);
        match addrs.last() {
            Some(addr) => before.push(
                Target {
                    addr,
                    anytls: dir.last().anytls,
                    bond: s.bond,
                    bond_links: s.bond_links,
                    node_id: dir.last().node_id@,
                },
            ),
            None => before,
        }
    }
}

/// The relays that the node may connect to, in the order in which it dials them: the one set by
/// hand alone, else those of the directory. `addrs` has what each directory entry's address stands
/// for; entries without an address are left out.
pub fn relay_targets(
    s: &RelaySettings,
    dir: &Vec<RelayDir>,
    addrs: &Vec<Option<SocketAddr>>,
) -> (out: Vec<RelayTarget>)
    requires
        dir@.len() == addrs@.len(),
    ensures
        match s.relay {
            Some(addr) => targets(out@) == seq![
                Target {
                    addr,
                    anytls: s.anytls,
                    bond: s.bond,
                    bond_links: s.bond_links,
                    node_id: match s.node_id {
                        Some(id) => id@,
                        None => "fluxpeer-relay"@,
                    },
                },
            ],
            None => targets(out@) == from_directory(dir@, addrs@, *s),
        },
{
    let mut out: Vec<RelayTarget> = Vec::new();
    match s.relay {
        Some(addr) => {
            let node_id = match &s.node_id {
                Some(id) => id.clone(),
                None => String::from_str("fluxpeer-relay"),
            };
            let t = RelayTarget {
                addr,
                anytls: s.anytls,
                bond: s.bond,
                bond_links: s.bond_links,
                node_id,
            };
            out.push(t);
            assert(targets(out@) =~= seq![t@]);
        },
        None => {
            let mut i: usize = 0;
            assert(targets(out@) =~= seq![]);
            assert(dir@.take(0) =~= seq![]);
            while i < dir.len()
                invariant
                    s.relay is None,
                    i <= dir@.len() == addrs@.len(),
                    targets(out@) == from_directory(
                        dir@.take(i as int),
                        addrs@.take(i as int),
                        *s,
                    ),
                decreases dir@.len() - i,
            {
                assert(dir@.take(i + 1).drop_last() =~= dir@.take(i as int));
                assert(addrs@.take(i + 1).drop_last() =~= addrs@.take(i as int));
                match addrs[i] {
                    Some(addr) => {
                        let t = RelayTarget {
                            addr,
                            anytls: dir[i].anytls,
                            bond: s.bond,
                            bond_links: s.bond_links,
                            node_id: dir[i].node_id.clone(),
                        };
                        let ghost before = out@;
                        out.push(t);
                        assert(targets(out@) =~= targets(before).push(t@));
                    },
                    None => {},
                }
                i += 1;
            }
            assert(dir@.take(dir@.len() as int) =~= dir@);
            assert(addrs@.take(addrs@.len() as int) =~= addrs@);
        },
    }
    out
}

/// The STUN server that the node asks: the one set by hand, else that of the first relay of the
/// directory.
pub fn effective_stun(own: Option<SocketAddr>, first_of_dir: Option<SocketAddr>) -> (r: Option<
    SocketAddr,
>)
    ensures
        own is Some ==> r == own,
        own is None ==> r == first_of_dir,
{
    match own {
        Some(a) => Some(a),
        None => first_of_dir,
    }
}

/// The milliseconds that the node rests before it dials the next relay.
pub const FAILOVER_REST_MS: u64 = 500;

/// The relays in turn.
#[derive(Clone, Copy, Debug, PartialEq, Eq, Structural)]
pub struct RelaySupervisor {
    pub idx: usize,
}

/// What happens around the node's one relay connection.
#[derive(Clone, Copy, Debug, PartialEq, Eq, Structural)]
pub enum RelayEvent {
    /// Dialing failed.
    DialFailed,
    /// A packet of the node was handed to the connection.
    PacketOut,
    /// The connection's writer has ended.
    WriterGone,
    /// The node has ended.
    NodeGone,
    /// A packet of the connection was handed to the node.
    PacketIn,
    /// The connection has ended.
    Disconnected,
}

/// What the supervisor does about it.
#[derive(Clone, Copy, Debug, PartialEq, Eq, Structural)]
pub enum RelayNext {
    /// Keeps the connection.
    Keep,
    /// Rests and dials the next relay.
    FailOver,
    /// Ends.
    Stop,
}

impl RelaySupervisor {
    /// The first relay is next.
    pub fn new() -> (s: RelaySupervisor)
        ensures
            s.idx == 0,
    {
        RelaySupervisor { idx: 0 }
    }

    /// The relay to be dialed, out of `n`; the one after it is next.
    pub fn next_target(&mut self, n: usize) -> (i: usize)
        requires
            n > 0,
            old(self).idx < usize::MAX,
        ensures
            i == old(self).idx % n,
            i < n,
            final(self).idx == old(self).idx + 1,
    {
        let i: usize = self.idx % n;
        self.idx += 1;
        i
    }

    /// What to do about an event.
    pub fn on_event(event: RelayEvent) -> (r: RelayNext)
        ensures
            r == reaction(event),
    {
        match event {
            RelayEvent::DialFailed => RelayNext::FailOver,
            RelayEvent::PacketOut => RelayNext::Keep,
            RelayEvent::WriterGone => RelayNext::FailOver,
            RelayEvent::NodeGone => RelayNext::Stop,
            RelayEvent::PacketIn => RelayNext::Keep,
            RelayEvent::Disconnected => RelayNext::FailOver,
        }
    }
}

/// What to do about an event: stop only when the node has ended, and fail over whenever the
/// connection is of no use.
pub open spec fn reaction(event: RelayEvent) -> RelayNext {
    match event {
        RelayEvent::PacketOut | RelayEvent::PacketIn => RelayNext::Keep,
        RelayEvent::NodeGone => RelayNext::Stop,
        _ => RelayNext::FailOver,
    }
}

/// The length of the payload behind the head of a relay frame: a type and a length, most
/// significant byte first.
pub fn relay_payload_len(head: &[u8; 5]) -> (n: usize)
    ensures
        n == crate::wire::be32_value(head@.skip(1)),
{
    let n: u32 = get_be32(head.as_slice(), 1);
    assert(head@.subrange(1, 5) =~= head@.skip(1));
    n as usize
}

/// The first frame in what was received.
#[derive(Debug)]
pub enum RelayFront {
    /// A packet for the node, and how many bytes its frame takes.
    Packet([u8; 32], Vec<u8>, usize),
    /// Another frame, and how many bytes it takes.
    Other(usize),
    /// No complete frame.
    Nothing,
}

/// What a reader does about the first frame.
#[derive(Debug)]
pub enum RelayTake {
    /// Hands a packet with its sender to the node and looks at the next frame.
    Deliver([u8; 32], Vec<u8>),
    /// Looks at the next frame.
    Skip,
    /// Waits for more bytes.
    Wait,
}

/// The reading side of a relay connection: bytes that were received and not taken yet.
#[derive(Debug)]
pub struct RelayReader {
    pub buf: Vec<u8>,
}

impl RelayReader {
    /// Nothing was received yet.
    pub fn new() -> (r: RelayReader)
        ensures
            r.buf@ == Seq::<u8>::empty(),
    {
        RelayReader { buf: Vec::new() }
    }

    /// Bytes were received.
    pub fn receive(&mut self, bytes: &[u8])
        ensures
            final(self).buf@ == old(self).buf@ + bytes@,
    {
        put_bytes(&mut self.buf, bytes);
    }

    /// Takes the first frame out. Only packets are for the node; other frames say nothing to it.
    pub fn take(&mut self, front: RelayFront) -> (t: RelayTake)
        requires
            match front {
                RelayFront::Packet(_, _, used) => used <= old(self).buf@.len(),
                RelayFront::Other(used) => used <= old(self).buf@.len(),
                RelayFront::Nothing => true,
            },
        ensures
            match front {
                RelayFront::Packet(src, payload, used) => {
                    &&& t == RelayTake::Deliver(src, payload)
                    &&& final(self).buf@ == old(self).buf@.skip(used as int)
                },
                RelayFront::Other(used) => {
                    &&& t is Skip
                    &&& final(self).buf@ == old(self).buf@.skip(used as int)
                },
                RelayFront::Nothing => t is Wait && final(self).buf@ == old(self).buf@,
            },
    {
        let total: usize = self.buf.len();
        match front {
            RelayFront::Packet(src, payload, used) => {
                self.buf = copy_range(self.buf.as_slice(), used, total);
                assert(self.buf@ =~= old(self).buf@.skip(used as int));
                RelayTake::Deliver(src, payload)
            },
            RelayFront::Other(used) => {
                self.buf = copy_range(self.buf.as_slice(), used, total);
                assert(self.buf@ =~= old(self).buf@.skip(used as int));
                RelayTake::Skip
            },
            RelayFront::Nothing => RelayTake::Wait,
        }
    }
}

/// What happens on a relay connection.
#[derive(Clone, Copy, Debug, PartialEq, Eq, Structural)]
pub enum RelayIo {
    /// It is time for a sign of life.
    Tick,
    /// The node has a packet for a peer.
    Outgoing,
    /// The node sends no more.
    NodeGone,
    /// Something was written.
    Written,
    /// Nothing can be written.
    WriteFailed,
    /// This many bytes were read.
    Read(usize),
    /// Nothing can be read.
    ReadFailed,
    /// The node took a packet.
    Delivered,
    /// The node takes no more.
    Undelivered,
}

/// What is done on a relay connection.
#[derive(Clone, Copy, Debug, PartialEq, Eq, Structural)]
pub enum RelayDo {
    /// Sends a sign of life.
    Ping,
    /// Sends the packet.
    Send,
    /// Takes frames out of what was read.
    Take,
    /// Waits.
    Wait,
    /// Ends the connection, which tells the supervisor to fail over.
    End,
}

/// What is done about an event: any failure in either direction, and the end of either side, ends
/// the connection.
pub open spec fn relay_io(e: RelayIo) -> RelayDo {
    match e {
        RelayIo::Tick => RelayDo::Ping,
        RelayIo::Outgoing => RelayDo::Send,
        RelayIo::Written | RelayIo::Delivered => RelayDo::Wait,
        RelayIo::Read(n) => if n == 0 {
            RelayDo::End
        } else {
            RelayDo::Take
        },
        _ => RelayDo::End,
    }
}

/// What is done about an event on a relay connection.
pub fn on_relay_io(e: RelayIo) -> (d: RelayDo)
    ensures
        d == relay_io(e),
{
    match e {
        RelayIo::Tick => RelayDo::Ping,
        RelayIo::Outgoing => RelayDo::Send,
        RelayIo::NodeGone => RelayDo::End,
        RelayIo::Written => RelayDo::Wait,
        RelayIo::WriteFailed => RelayDo::End,
        RelayIo::Read(n) => if n == 0 {
            RelayDo::End
        } else {
            RelayDo::Take
        },
        RelayIo::ReadFailed => RelayDo::End,
        RelayIo::Delivered => RelayDo::Wait,
        RelayIo::Undelivered => RelayDo::End,
    }
}

/// While the count does not wrap, failing over `n` times dials each of the `n` relays once.
pub proof fn every_relay_is_dialed(idx: nat, n: nat, relay: int)
    requires
        0 <= relay < n,
    ensures
        exists|i: int| 0 <= i < n && #[trigger] crate::tcp_bond::bond::turn(idx as int, i, n as int)
            == relay,
{
    crate::tcp_bond::bond::every_link_has_its_turn(idx, n, relay);
}

/// The supervisor ends with the node and never before: whatever happens to a connection, the next
/// relay is dialed, and a connection over which packets go is kept.
pub proof fn only_the_node_stops_it(event: RelayEvent)
    ensures
        reaction(event) == RelayNext::Stop <==> event == RelayEvent::NodeGone,
        event == RelayEvent::DialFailed || event == RelayEvent::WriterGone || event
            == RelayEvent::Disconnected ==> reaction(event) == RelayNext::FailOver,
        event == RelayEvent::PacketOut || event == RelayEvent::PacketIn ==> reaction(event)
            == RelayNext::Keep,
{
}

/// A relay connection ends on any failure and on the end of either side; it is kept while bytes and
/// packets go over it, and a sign of life is due at every tick.
pub proof fn failures_end_the_connection(e: RelayIo)
    ensures
        relay_io(e) == RelayDo::End <==> e == RelayIo::NodeGone || e == RelayIo::WriteFailed || e
            == RelayIo::ReadFailed || e == RelayIo::Undelivered || e == RelayIo::Read(0),
        relay_io(e) == RelayDo::Ping <==> e == RelayIo::Tick,
        relay_io(e) == RelayDo::Send <==> e == RelayIo::Outgoing,
        (e matches RelayIo::Read(n) ==> (n > 0 ==> relay_io(e) == RelayDo::Take)),
        e == RelayIo::Written || e == RelayIo::Delivered ==> relay_io(e) == RelayDo::Wait,
{
}

/// A bond is given longer to be dialed than a single connection: twelve seconds, which covers its
/// joining time of ten, where a single connection is given five.
pub proof fn bonds_are_given_longer(bonded: RelayTarget, plain: RelayTarget)
    requires
        bonded.anytls || bonded.bond,
        !plain.anytls,
        !plain.bond,
    ensures
        bonded.timeout_secs() == 12,
        plain.timeout_secs() == 5,
        bonded.anytls ==> bonded.transport() == "anytls/443"@,
        !bonded.anytls ==> bonded.transport() == "tcp-bond"@,
        plain.transport() == "tcp"@,
{
}

/// A relay of the directory is dialed at its own address, with its own kind and identity, exactly
/// if it has an address; the order is that of the directory.
pub proof fn directory_is_followed(
    dir: Seq<RelayDir>,
    addrs: Seq<Option<SocketAddr>>,
    s: RelaySettings,
    i: int,
    addr: SocketAddr,
)
    requires
        dir.len() == addrs.len(),
        0 <= i < dir.len(),
        forall|j: int| 0 <= j < i ==> #[trigger] addrs[j] is Some,
        addrs[i] == Some(addr),
    ensures
        from_directory(dir, addrs, s).len() > i,
        ({
            let t = from_directory(dir, addrs, s)[i];
            &&& t.addr == addr
            &&& t.anytls == dir[i].anytls
            &&& t.node_id == dir[i].node_id@
            &&& t.bond == s.bond
            &&& t.bond_links == s.bond_links
        }),
    decreases dir.len(),
{
    let d = dir.drop_last();
    let a = addrs.drop_last();
    from_directory_at_most(d, a, s);
    if i < d.len() {
        directory_is_followed(d, a, s, i, addr);
    } else {
        from_directory_all(d, a, s);
    }
}

/// At most every relay of the directory is dialed.
pub proof fn from_directory_at_most(
    dir: Seq<RelayDir>,
    addrs: Seq<Option<SocketAddr>>,
    s: RelaySettings,
)
    requires
        dir.len() == addrs.len(),
    ensures
        from_directory(dir, addrs, s).len() <= dir.len(),
    decreases dir.len(),
{
    if dir.len() > 0 {
        from_directory_at_most(dir.drop_last(), addrs.drop_last(), s);
    }
}

/// Where every relay has an address each is dialed.
pub proof fn from_directory_all(
    dir: Seq<RelayDir>,
    addrs: Seq<Option<SocketAddr>>,
    s: RelaySettings,
)
    requires
        dir.len() == addrs.len(),
        forall|j: int| 0 <= j < addrs.len() ==> #[trigger] addrs[j] is Some,
    ensures
        from_directory(dir, addrs, s).len() == dir.len(),
    decreases dir.len(),
{
    if dir.len() > 0 {
        let a = addrs.drop_last();
        assert forall|j: int| 0 <= j < a.len() implies #[trigger] a[j] is Some by {
            assert(addrs[j] is Some);
        }
        assert(addrs[addrs.len() - 1] is Some);
        from_directory_all(dir.drop_last(), a, s);
    }
}

/// A directory without a single address gives nothing to dial.
pub proof fn nothing_without_an_address(
    dir: Seq<RelayDir>,
    addrs: Seq<Option<SocketAddr>>,
    s: RelaySettings,
)
    requires
        dir.len() == addrs.len(),
        forall|j: int| 0 <= j < addrs.len() ==> #[trigger] addrs[j] is None,
    ensures
        from_directory(dir, addrs, s).len() == 0,
    decreases dir.len(),
{
    if dir.len() > 0 {
        let a = addrs.drop_last();
        assert forall|j: int| 0 <= j < a.len() implies #[trigger] a[j] is None by {
            assert(addrs[j] is None);
        }
        assert(addrs[addrs.len() - 1] is None);
        nothing_without_an_address(dir.drop_last(), a, s);
    }
}

/// Half a second passes between two relays.
pub proof fn relays_are_not_hurried()
    ensures
        FAILOVER_REST_MS == 500,
{
}

} // verus!
