use bytes::BufMut;
use fluxpeer::anytls::pool::ConnectionPool;
use fluxpeer::codec::{Codec, MAX_FRAME_SIZE};
use fluxpeer::error::Error;
use fluxpeer::net::{bind_addr_for, IpAddr, SocketAddr};
use fluxpeer::transport::base::{first_packet, Waited};
use fluxpeer::transport::udp::{channel_received, Destination, End, Peers};
use fluxpeer::transport::{base, tcp, udp};

#[test]
fn lib_version() {
    println!("{:#?}", tcp::version());
    println!("{:#?}", udp::version());
}

#[test]
fn version() {
    println!("{:#?}", base::version());
}

#[test]
fn versions_name_their_transport() {
    let pair = |a: &str, b: &str| (a.to_string(), b.to_string());
    assert_eq!(base::version(), vec![pair("fp-transport", "0.1.0")]);
    assert_eq!(
        tcp::version(),
        vec![
            pair("fp-transport-tcp:fp-transport", "0.1.0"),
            pair("fp-transport-tcp", "0.1.0"),
        ]
    );
    assert_eq!(udp::version()[1].0, "fp-transport-udp");
    assert_eq!(fluxpeer::tcp_bond::config::version(), "0.1.0");
}

#[test]
fn codec_decode() {
    let mut src = bytes::BytesMut::new();
    src.put_u32(3);
    src.put_slice(&[9, 8, 7]);
    let dst = vec![9, 8, 7];
    let decode = Codec.decode(&mut src).unwrap().unwrap();

    assert_eq!(dst, decode);
}

#[test]
fn codec_encode() {
    let mut src = bytes::BytesMut::new();
    src.put_u32(3);
    src.put_slice(&[9, 8, 7]);

    let mut encode = bytes::BytesMut::new();

    Codec.encode([9, 8, 7].to_vec(), &mut encode).unwrap();

    assert_eq!(encode, src);
}

#[test]
fn connector_decode() {
    let mut src = bytes::BytesMut::new();
    src.put_u32(3);
    src.put_slice(&[9, 8, 7]);
    let dst = vec![9, 8, 7];
    let decode = Codec.decode(&mut src).unwrap().unwrap();

    assert_eq!(dst, decode);
    assert!(src.is_empty());
}

#[test]
fn connector_encode() {
    let mut src = bytes::BytesMut::new();
    src.put_u32(3);
    src.put_slice(&[9, 8, 7]);

    let mut encode = bytes::BytesMut::new();

    Codec.encode_slice(&[9, 8, 7], &mut encode).unwrap();

    assert_eq!(encode, src);
}

#[test]
fn frames_are_read_in_the_order_in_which_they_were_written() {
    let mut buf = bytes::BytesMut::new();
    Codec.encode(vec![1], &mut buf).unwrap();
    Codec.encode(vec![], &mut buf).unwrap();
    Codec.encode(vec![2, 3], &mut buf).unwrap();
    assert_eq!(Codec.decode(&mut buf).unwrap(), Some(vec![1]));
    assert_eq!(Codec.decode(&mut buf).unwrap(), Some(vec![]));
    assert_eq!(Codec.decode(&mut buf).unwrap(), Some(vec![2, 3]));
    assert_eq!(Codec.decode(&mut buf).unwrap(), None);
    assert!(buf.is_empty());
}

#[test]
fn a_part_of_a_frame_waits() {
    let mut buf = bytes::BytesMut::new();
    buf.put_u32(5);
    buf.put_slice(&[1, 2]);
    assert_eq!(Codec.decode(&mut buf).unwrap(), None);
    assert_eq!(&buf[..], &[0, 0, 0, 5, 1, 2]);
    buf.put_slice(&[3, 4, 5, 6]);
    assert_eq!(Codec.decode(&mut buf).unwrap(), Some(vec![1, 2, 3, 4, 5]));
    assert_eq!(&buf[..], &[6]);
}

#[test]
fn an_empty_frame_waits_for_what_follows_it() {
    let mut buf = bytes::BytesMut::new();
    Codec.encode(vec![], &mut buf).unwrap();
    assert_eq!(Codec.decode(&mut buf).unwrap(), None);
    buf.put_u8(0);
    assert_eq!(Codec.decode(&mut buf).unwrap(), Some(vec![]));
}

#[test]
fn too_long_a_frame_is_an_error() {
    let mut buf = bytes::BytesMut::new();
    let e = Codec.encode(vec![0u8; MAX_FRAME_SIZE + 1], &mut buf).unwrap_err();
    assert_eq!(
        e.message(),
        "unexpected result: `frame size 16777217 exceeds maximum 16777216`"
    );
    assert!(buf.is_empty());
    buf.put_u32(MAX_FRAME_SIZE as u32 + 1);
    buf.put_u8(0);
    let e = Codec.decode(&mut buf).unwrap_err();
    assert_eq!(
        e.message(),
        "unexpected result: `frame size 16777217 exceeds maximum 16777216`"
    );
}

#[test]
fn errors_describe_themselves() {
    assert_eq!(Error::NoWorker.message(), "no worker");
    assert_eq!(
        Error::TimeOut("10.0.0.1".to_string()).message(),
        "process time out: '10.0.0.1'"
    );
    assert_eq!(Error::ListenerHasBeenClosed.message(), "listener has been closed");
    assert_eq!(Error::Unauthorized.message(), "unauthorized");
    assert_eq!(Error::InvalidPacket.message(), "invalid packet");
    assert_eq!(Error::IfaceSendFailed.message(), "iface send failed");
    assert_eq!(Error::unexpected("x").message(), "unexpected result: `x`");
    assert_eq!(Error::IO("gone".to_string()).message(), "io error: `gone`");
    assert_eq!(Error::ChannelNotWork.message(), "channel not work");
}

fn addr(n: u32) -> SocketAddr {
    SocketAddr::new(IpAddr::V4(n), 7)
}

#[test]
fn datagrams_go_to_the_peer_that_they_come_from() {
    let mut peers = Peers::new();
    assert_eq!(peers.dispatch(&addr(1)), Destination::Newcomer);
    peers.accept(addr(1), 10);
    peers.accept(addr(2), 20);
    assert_eq!(peers.dispatch(&addr(1)), Destination::Peer(10));
    assert_eq!(peers.dispatch(&addr(2)), Destination::Peer(20));
    peers.gone(&addr(1));
    assert_eq!(peers.dispatch(&addr(1)), Destination::Newcomer);
    assert_eq!(peers.dispatch(&addr(2)), Destination::Peer(20));
}

#[test]
fn a_closed_end_is_of_no_use() {
    let mut end = End { open: true };
    assert!(end.may_send().is_ok());
    assert!(end.may_receive().is_ok());
    end.close();
    assert_eq!(
        end.may_send().unwrap_err().message(),
        "unexpected result: `sender closed`"
    );
    assert_eq!(
        end.may_receive().unwrap_err().message(),
        "unexpected result: `receiver closed`"
    );
}

#[test]
fn what_ends_is_told_apart() {
    assert_eq!(channel_received(Some(vec![1])).unwrap(), vec![1]);
    assert_eq!(
        channel_received(None).unwrap_err().message(),
        "unexpected result: `receiver channel closed`"
    );
    assert_eq!(tcp::received(Some(Ok(vec![2]))).unwrap(), vec![2]);
    assert_eq!(
        tcp::received(Some(Err(Error::InvalidPacket))).unwrap_err().message(),
        "invalid packet"
    );
    assert_eq!(
        tcp::received(None).unwrap_err().message(),
        "unexpected result: `stream closed`"
    );
}

#[test]
fn the_wait_for_a_first_packet_ends_in_one_of_four_ways() {
    assert_eq!(first_packet(Waited::Packet(vec![5u8]), "::1").unwrap(), vec![5]);
    let failed: Waited<Vec<u8>> = Waited::Failed(Error::InvalidPacket);
    assert_eq!(first_packet(failed, "::1").unwrap_err().message(), "invalid packet");
    let closed: Waited<Vec<u8>> = Waited::Closed;
    assert_eq!(
        first_packet(closed, "::1").unwrap_err().message(),
        "listener has been closed"
    );
    let late: Waited<Vec<u8>> = Waited::TimedOut;
    assert_eq!(
        first_packet(late, "::1").unwrap_err().message(),
        "process time out: '::1'"
    );
}

#[test]
fn a_socket_binds_in_the_family_of_its_endpoint() {
    assert_eq!(bind_addr_for(IpAddr::V4(9)), SocketAddr::new(IpAddr::V4(0), 0));
    assert_eq!(bind_addr_for(IpAddr::V6(9)), SocketAddr::new(IpAddr::V6(0), 0));
}

#[test]
fn a_pool_numbers_its_connections() {
    let mut pool = ConnectionPool::new();
    assert_eq!(
        pool.open_stream().unwrap_err().message(),
        "unexpected result: `no connections`"
    );
    let first = pool.begin();
    pool.add_connection(first);
    let second = pool.begin();
    pool.add_connection(second);
    assert_eq!((first, second), (0, 1));
    assert_eq!(pool.open_stream().unwrap(), 0);
}
