//! The bookkeeping of one connection: opening streams, pings and the end of its driver.

use crate::error::Error;
use crate::health::ConnHealth;
use vstd::prelude::*;
use vstd::string::StringExecFns;

verus! {

/// What came of asking a connection's driver for a stream.
#[derive(Debug)]
pub enum OpenOutcome {
    /// A stream.
    Opened,
    /// The driver has ended.
    DriverClosed,
    /// The driver ended before it answered.
    ReplyDropped,
    /// The multiplexer refused, for this reason.
    Refused(String),
}

/// The error that an unsuccessful outcome becomes.
pub open spec fn open_error(outcome: OpenOutcome) -> Seq<char> {
    match outcome {
        OpenOutcome::Opened => seq![],
        OpenOutcome::DriverClosed => "yamux driver closed"@,
        OpenOutcome::ReplyDropped => "yamux driver dropped reply"@,
        OpenOutcome::Refused(why) => "yamux open_stream: "@ + why@,
    }
}

/// One stream less; the count wraps.
pub open spec fn fewer_streams(h: ConnHealth) -> ConnHealth {
    ConnHealth {
        active_streams: if h.active_streams == 0 {
            u32::MAX
        } else {
            (h.active_streams - 1) as u32
        },
        ..h
    }
}

/// One stream more; the count wraps.
pub open spec fn more_streams(h: ConnHealth) -> ConnHealth {
    ConnHealth {
        active_streams: if h.active_streams == u32::MAX {
            0
        } else {
            (h.active_streams + 1) as u32
        },
        ..h
    }
}

/// Counts a stream before it is asked for.
pub fn open_begins(health: &mut ConnHealth)
    ensures
        *final(health) == more_streams(*old(health)),
{
    health.increment_streams();
}

/// Takes in what came of asking for a stream: without one the count goes back.
pub fn open_ends(health: &mut ConnHealth, outcome: OpenOutcome) -> (r: Result<(), Error>)
    ensures
        r is Ok <==> outcome is Opened,
        r is Ok ==> *final(health) == *old(health),
        r matches Err(e) ==> {
            &&& *final(health) == fewer_streams(*old(health))
            &&& e.is_unexpected(open_error(outcome))
        },
{
    match outcome {
        OpenOutcome::Opened => Ok(()),
        OpenOutcome::DriverClosed => {
            health.decrement_streams();
            Err(Error::unexpected("yamux driver closed"))
        },
        OpenOutcome::ReplyDropped => {
            health.decrement_streams();
            Err(Error::unexpected("yamux driver dropped reply"))
        },
        OpenOutcome::Refused(why) => {
            health.decrement_streams();
            let mut s = String::from_str("yamux open_stream: ");
            s.append(why.as_str());
            Err(Error::UnexpectedResult(s))
        },
    }
}

/// A ping begins: its time is noted and its stream is counted.
pub fn ping_begins(health: &mut ConnHealth, now_us: u64)
    ensures
        *final(health) == more_streams(ConnHealth { ping_sent_at: Some(now_us), ..*old(health) }),
{
    health.mark_ping_sent(now_us);
    open_begins(health);
}

/// What came of a ping.
#[derive(Debug)]
pub enum PingOutcome {
    /// The driver answered in time.
    Answered(OpenOutcome),
    /// No answer in time.
    TimedOut,
}

/// The measurements once a ping has ended.
pub open spec fn after_ping(h: ConnHealth, outcome: PingOutcome, now_us: u64) -> ConnHealth {
    match outcome {
        PingOutcome::Answered(OpenOutcome::Opened) => {
            let done = fewer_streams(h);
            match h.ping_sent_at {
                Some(t) => ConnHealth {
                    ping_sent_at: None,
                    last_ping: now_us,
                    ..done.after_rtt(crate::health::minus(now_us as int, t as int) as u64)
                },
                None => done,
            }
        },
        PingOutcome::Answered(_) => fewer_streams(h).after_failure(),
        PingOutcome::TimedOut => h.after_failure(),
    }
}

/// Takes in what came of a ping. A stream that was opened is given back at once; a ping that timed
/// out leaves its stream counted, since it may still be opened.
pub fn ping_ends(health: &mut ConnHealth, outcome: PingOutcome, now_us: u64) -> (r: Result<
    (),
    Error,
>)
    requires
        outcome == PingOutcome::Answered(OpenOutcome::Opened) || old(health).consecutive_failures
            < u32::MAX,
    ensures
        *final(health) == after_ping(*old(health), outcome, now_us),
        r is Ok <==> outcome == PingOutcome::Answered(OpenOutcome::Opened),
        r matches Err(e) ==> match outcome {
            PingOutcome::Answered(o) => e.is_unexpected(open_error(o)),
            PingOutcome::TimedOut => e.is_unexpected("ping timeout"@),
        },
{
    match outcome {
        PingOutcome::Answered(answer) => match open_ends(health, answer) {
            Ok(_) => {
                health.decrement_streams();
                health.process_pong(now_us);
                Ok(())
            },
            Err(e) => {
                health.record_failure();
                Err(e)
            },
        },
        PingOutcome::TimedOut => {
            health.record_failure();
            Err(Error::unexpected("ping timeout"))
        },
    }
}

/// What a driver sees of its connection.
#[derive(Clone, Copy, Debug, PartialEq, Eq, Structural)]
pub enum DriverEvent {
    /// The other end opened a stream; a client has no use for it.
    Inbound,
    /// The multiplexer failed.
    Failed,
    /// The connection was closed.
    Closed,
}

/// Takes in what a client's driver sees; says whether the driver goes on. Its end is a failure.
pub fn driver_event(health: &mut ConnHealth, event: DriverEvent) -> (goes_on: bool)
    requires
        event == DriverEvent::Inbound || old(health).consecutive_failures < u32::MAX,
    ensures
        goes_on == (event == DriverEvent::Inbound),
        goes_on ==> *final(health) == *old(health),
        !goes_on ==> *final(health) == old(health).after_failure(),
{
    match event {
        DriverEvent::Inbound => true,
        _ => {
            health.record_failure();
            false
        },
    }
}

/// What a link's reader gets.
#[derive(Debug)]
pub enum ReadEvent {
    /// A packet.
    Packet(Vec<u8>),
    /// The link failed.
    Failed,
}

/// What a link's reader does.
#[derive(Debug)]
pub enum ReadAction {
    /// Goes on reading.
    Skip,
    /// Hands the packet to the group.
    Forward(Vec<u8>),
    /// Ends, so that the link is replaced.
    End,
}

/// Takes in what a link's reader got at a reading of the wall clock. Empty packets only keep the
/// link open and are skipped.
pub fn reader_event(health: &mut ConnHealth, event: ReadEvent, now: u64) -> (r: ReadAction)
    requires
        event is Failed ==> old(health).consecutive_failures < u32::MAX,
    ensures
        match event {
            ReadEvent::Packet(p) => if p@.len() == 0 {
                r is Skip && *final(health) == *old(health)
            } else {
                &&& r == ReadAction::Forward(p)
                &&& *final(health) == (ConnHealth {
                    total_bytes: ((old(health).total_bytes + p@.len()) % 0x1_0000_0000_0000_0000) as
                    u64,
                    last_activity: now,
                    ..*old(health)
                })
            },
            ReadEvent::Failed => r is End && *final(health) == old(health).after_failure(),
        },
{
    match event {
        ReadEvent::Packet(p) => {
            if p.len() == 0 {
                return ReadAction::Skip;
            }
            health.add_bytes(p.len() as u64);
            health.touch_activity_at(now);
            ReadAction::Forward(p)
        },
        ReadEvent::Failed => {
            health.record_failure();
            ReadAction::End
        },
    }
}

/// Takes in a batch that was written and flushed, at a reading of the wall clock.
pub fn batch_flushed(health: &mut ConnHealth, carried: u64, now: u64)
    ensures
        *final(health) == (ConnHealth {
            total_bytes: ((old(health).total_bytes + carried) % 0x1_0000_0000_0000_0000) as u64,
            last_activity: now,
            ..*old(health)
        }),
{
    health.add_bytes(carried);
    health.touch_activity_at(now);
}

/// A ping that was answered leaves the number of streams as it was and clears the failures,
/// whether or not there had been any.
pub proof fn ping_gives_its_stream_back(h: ConnHealth, sent: u64, now_us: u64)
    ensures
        ({
            let begun = more_streams(ConnHealth { ping_sent_at: Some(sent), ..h });
            let done = after_ping(begun, PingOutcome::Answered(OpenOutcome::Opened), now_us);
            &&& done.active_streams == h.active_streams
            &&& done.consecutive_failures == 0
            &&& done.ping_sent_at is None
        }),
{
}

/// A ping that the driver refused leaves the number of streams as it was and counts as a failure.
pub proof fn refused_ping_counts(h: ConnHealth, sent: u64, why: OpenOutcome, now_us: u64)
    requires
        h.consecutive_failures < u32::MAX,
        !(why is Opened),
    ensures
        ({
            let begun = more_streams(ConnHealth { ping_sent_at: Some(sent), ..h });
            let done = after_ping(begun, PingOutcome::Answered(why), now_us);
            &&& done.active_streams == h.active_streams
            &&& done.consecutive_failures == h.consecutive_failures + 1
        }),
{
}

/// An answered ping measures the round trip from when it was sent; one that timed out is a failure
/// and leaves its stream counted.
pub proof fn pings_measure_the_round_trip(h: ConnHealth, sent: u64, now_us: u64)
    requires
        h.ping_sent_at == Some(sent),
        sent <= now_us,
        h.consecutive_failures < u32::MAX,
        h.rtt_us == 0,
        h.active_streams > 0,
    ensures
        ({
            let q = after_ping(h, PingOutcome::Answered(OpenOutcome::Opened), now_us);
            &&& q.rtt_us == now_us - sent
            &&& q.last_ping == now_us
            &&& q.ping_sent_at is None
            &&& q.consecutive_failures == 0
            &&& q.active_streams == h.active_streams - 1
        }),
        ({
            let q = after_ping(h, PingOutcome::TimedOut, now_us);
            &&& q.consecutive_failures == h.consecutive_failures + 1
            &&& q.active_streams == h.active_streams
            &&& q.rtt_us == h.rtt_us
        }),
{
}

/// Opening a stream and giving it back changes nothing.
pub proof fn streams_are_given_back(h: ConnHealth)
    ensures
        fewer_streams(more_streams(h)) == h,
        h.active_streams < u32::MAX ==> more_streams(h).active_streams == h.active_streams + 1,
{
}

/// Why a stream could not be opened is told, and nothing is where it was.
pub proof fn failed_streams_are_told(why: String)
    ensures
        open_error(OpenOutcome::Opened).len() == 0,
        open_error(OpenOutcome::Refused(why)) == "yamux open_stream: "@ + why@,
        open_error(OpenOutcome::DriverClosed) == "yamux driver closed"@,
        open_error(OpenOutcome::ReplyDropped) == "yamux driver dropped reply"@,
{
}

} // verus!
