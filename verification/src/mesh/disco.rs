//! Discovery datagrams: how they are told apart from session packets, authenticated and dated.

use crate::clock::unix_now_secs;
use crate::random::random_bytes;
use crate::wire::{copy_range, get_be64, put_bytes};
use vstd::prelude::*;

verus! {

/// The prefix of discovery datagrams; session packets never start with it.
pub const DISCO_MAGIC: [u8; 4] = [0x66, 0x70, 0x64, 0x31];

/// The length of the tag of an authenticated datagram.
pub const DISCO_MAC_LEN: usize = 16;

/// How many seconds a datagram's date may differ from the clock.
pub const DISCO_REPLAY_WINDOW_SECS: u64 = 30;

/// A discovery message, as far as the data plane reads it.
#[derive(Debug)]
pub enum Disco {
    /// Asks the receiver to answer; carries the sender's public key.
    Ping { tx_id: [u8; 12], sender: [u8; 32] },
    /// Answers a ping with the address that it came from.
    Pong { tx_id: [u8; 12], observed: crate::net::SocketAddr },
    /// Any other message.
    Other,
}

/// The prefix as a sequence.
pub open spec fn magic() -> Seq<u8> {
    DISCO_MAGIC@
}

/// Whether a datagram is a discovery datagram.
pub open spec fn is_disco(bytes: Seq<u8>) -> bool {
    bytes.len() >= 4 && bytes.take(4) == magic()
}

/// The datagram that carries an encoded message.
pub fn disco_dgram(encoded: &[u8]) -> (out: Vec<u8>)
    ensures
        out@ == magic() + encoded@,
        is_disco(out@),
{
    let mut out: Vec<u8> = Vec::new();
    put_bytes(&mut out, DISCO_MAGIC.as_slice());
    put_bytes(&mut out, encoded);
    assert(out@ =~= magic() + encoded@);
    assert(out@.take(4) =~= magic());
    out
}

/// What follows the prefix of a discovery datagram.
pub fn strip_magic(bytes: &[u8]) -> (r: Option<Vec<u8>>)
    ensures
        r is Some <==> is_disco(bytes@),
        r matches Some(body) ==> body@ == bytes@.skip(4),
{
    if bytes.len() < 4 || bytes[0] != DISCO_MAGIC[0] || bytes[1] != DISCO_MAGIC[1] || bytes[2]
        != DISCO_MAGIC[2] || bytes[3] != DISCO_MAGIC[3] {
        assert(bytes@.len() >= 4 ==> exists|i: int|
            0 <= i < 4 && #[trigger] bytes@.take(4)[i] != magic()[i]) by {
            if bytes@.len() >= 4 {
                let t = bytes@.take(4);
                assert(t[0] == bytes@[0] && t[1] == bytes@[1] && t[2] == bytes@[2] && t[3]
                    == bytes@[3]);
            }
        }
        return None;
    }
    assert(bytes@.take(4) =~= magic());
    let body = copy_range(bytes, 4, bytes.len());
    assert(body@ =~= bytes@.skip(4));
    Some(body)
}

/// The datagram that carries an encoded message and its tag.
pub open spec fn tagged(encoded: Seq<u8>, tag: Seq<u8>) -> Seq<u8> {
    magic() + encoded + tag
}

/// The authenticated datagram for an encoded message. The tag is the code of the prefix and the
/// message under the key that the two peers share.
pub fn auth_disco_dgram(encoded: &[u8], tag: &[u8; 16]) -> (out: Vec<u8>)
    ensures
        out@ == tagged(encoded@, tag@),
{
    let mut out = disco_dgram(encoded);
    put_bytes(&mut out, tag.as_slice());
    out
}

/// The part of a datagram that its tag covers, if datagram and tag are long enough: the prefix and
/// the `used` bytes of the message.
pub open spec fn covered(dgram: Seq<u8>, body: Seq<u8>, used: nat) -> Option<Seq<u8>> {
    if used + DISCO_MAC_LEN <= body.len() && 4 + used <= dgram.len() {
        Some(dgram.take(4 + used as int))
    } else {
        None
    }
}

/// Whether the tag behind the message is the expected one. A datagram without a tag fails.
pub open spec fn tag_matches(
    dgram: Seq<u8>,
    body: Seq<u8>,
    used: nat,
    expect: Seq<u8>,
) -> bool {
    covered(dgram, body, used) is Some && body.subrange(used as int, used + DISCO_MAC_LEN) == expect
}

/// What the code has to be computed over to check a datagram.
pub fn disco_covered(dgram: &[u8], body: &[u8], used: usize) -> (r: Option<Vec<u8>>)
    ensures
        r is Some <==> covered(dgram@, body@, used as nat) is Some,
        r matches Some(m) ==> Some(m@) == covered(dgram@, body@, used as nat),
{
    if body.len() < DISCO_MAC_LEN || used > body.len() - DISCO_MAC_LEN || dgram.len() < 4 || used
        > dgram.len() - 4 {
        return None;
    }
    let m = copy_range(dgram, 0, 4 + used);
    assert(m@ =~= dgram@.take(4 + used as int));
    Some(m)
}

/// Checks the tag of a datagram against the code that was computed for it.
pub fn disco_authed(dgram: &[u8], body: &[u8], used: usize, expect: &[u8; 16]) -> (r: bool)
    ensures
        r == tag_matches(dgram@, body@, used as nat, expect@),
{
    if disco_covered(dgram, body, used).is_none() {
        return false;
    }
    assert(used + DISCO_MAC_LEN <= body.len());
    let tag = copy_range(body, used, used + DISCO_MAC_LEN);
    ct_eq(tag.as_slice(), expect.as_slice())
}

/// Whether two byte strings are equal. The time does not depend on where they differ.
pub fn ct_eq(a: &[u8], b: &[u8]) -> (r: bool)
    ensures
        r == (a@ == b@),
{
    if a.len() != b.len() {
        return false;
    }
    let mut diff: u8 = 0;
    let mut i: usize = 0;
    while i < a.len()
        invariant
            i <= a@.len() == b@.len(),
            diff == 0 <==> forall|j: int| 0 <= j < i ==> #[trigger] a@[j] == b@[j],
        decreases a@.len() - i,
    {
        let x: u8 = a[i];
        let y: u8 = b[i];
        let before: u8 = diff;
        diff = diff | (x ^ y);
        assert((before | (x ^ y)) == 0 <==> before == 0 && x == y) by (bit_vector);
        i += 1;
    }
    assert(diff == 0 ==> a@ =~= b@);
    diff == 0
}

/// A message id: the seconds since the epoch, most significant byte first, and a nonce.
pub open spec fn tx_id(now: u64, nonce: Seq<u8>) -> Seq<u8> {
    crate::wire::be_bytes(now as nat, 8) + nonce
}

/// The date of a message id.
pub open spec fn tx_date(id: Seq<u8>) -> nat {
    crate::wire::be_value(id.take(8))
}

/// Four random bytes, or zeros where there are none to be had.
fn random_nonce() -> [u8; 4] {
    nonce_from(random_bytes(4))
}

/// The nonce that some random bytes are; zeros where there were none to be had.
pub fn nonce_from(random: Option<Vec<u8>>) -> (nonce: [u8; 4])
    requires
        random matches Some(b) ==> b@.len() == 4,
    ensures
        nonce@ == match random {
            Some(b) => b@,
            None => seq![0u8, 0u8, 0u8, 0u8],
        },
{
    match random {
        Some(v) => {
            let nonce: [u8; 4] = [v[0], v[1], v[2], v[3]];
            assert(nonce@ =~= v@);
            nonce
        },
        None => {
            let nonce: [u8; 4] = [0, 0, 0, 0];
            assert(nonce@ =~= seq![0u8, 0u8, 0u8, 0u8]);
            nonce
        },
    }
}

/// The id of a message that is sent at `now`.
pub fn disco_tx_id_at(now: u64, nonce: [u8; 4]) -> (id: [u8; 12])
    ensures
        id@ == tx_id(now, nonce@),
        tx_date(id@) == now,
{
    let mut id = [0u8;12];
    let mut rest: u64 = now;
    let mut i: usize = 8;
    let ghost full = crate::wire::be_bytes(now as nat, 8);
    proof {
        crate::wire::be_bytes_round_trip(now as nat, 8);
        assert(vstd::arithmetic::power::pow(256, 8) == 0x1_0000_0000_0000_0000) by {
            reveal_with_fuel(vstd::arithmetic::power::pow, 9);
        }
        assert(full.take(8) =~= full);
    }
    while i > 0
        invariant
            i <= 8,
            full.len() == 8,
            crate::wire::be_bytes(rest as nat, i as nat) == full.take(i as int),
            forall|j: int| i <= j < 8 ==> #[trigger] id@[j] == full[j],
        decreases i,
    {
        i -= 1;
        let ghost top = crate::wire::be_bytes(rest as nat, (i + 1) as nat);
        id[i] = (rest % 256) as u8;
        assert(top.last() == (rest % 256) as u8);
        assert(top.drop_last() =~= crate::wire::be_bytes((rest / 256) as nat, i as nat));
        assert(full.take(i + 1).drop_last() =~= full.take(i as int));
        assert(full.take(i + 1).last() == full[i as int]);
        rest = rest / 256;
    }
    id[8] = nonce[0];
    id[9] = nonce[1];
    id[10] = nonce[2];
    id[11] = nonce[3];
    assert(id@ =~= full + nonce@);
    assert(id@.take(8) =~= full);
    id
}

/// The id of a message that is sent now.
pub fn disco_tx_id() -> (id: [u8; 12])
    ensures
        exists|now: u64, nonce: Seq<u8>| nonce.len() == 4 && id@ == #[trigger] tx_id(now, nonce),
{
    let now: u64 = unix_now_secs();
    let nonce = random_nonce();
    let id = disco_tx_id_at(now, nonce);
    assert(id@ == tx_id(now, nonce@));
    id
}

/// Whether a date is near enough to the clock.
pub open spec fn fresh_date(date: nat, now: u64) -> bool {
    date <= now + DISCO_REPLAY_WINDOW_SECS && now <= date + DISCO_REPLAY_WINDOW_SECS
}

/// Whether a message id is dated near enough to `now`.
pub fn disco_replay_ok_at(id: &[u8; 12], now: u64) -> (r: bool)
    ensures
        r == fresh_date(tx_date(id@), now),
{
    let secs: u64 = get_be64(id.as_slice());
    let diff: u64 = if now >= secs {
        now - secs
    } else {
        secs - now
    };
    diff <= DISCO_REPLAY_WINDOW_SECS
}

/// Whether a message id is dated near enough to the wall clock.
pub fn disco_replay_ok(id: &[u8; 12]) -> (r: bool)
    ensures
        exists|now: u64| r == #[trigger] fresh_date(tx_date(id@), now),
{
    let now: u64 = unix_now_secs();
    let r = disco_replay_ok_at(id, now);
    assert(r == fresh_date(tx_date(id@), now));
    r
}

/// An authenticated datagram is accepted by whoever computes the same code, and by no one else.
pub proof fn authenticated_verifies(encoded: Seq<u8>, tag: Seq<u8>, expect: Seq<u8>)
    requires
        tag.len() == DISCO_MAC_LEN,
    ensures
        ({
            let dgram = tagged(encoded, tag);
            let body = dgram.skip(4);
            &&& is_disco(dgram)
            &&& covered(dgram, body, encoded.len()) == Some(magic() + encoded)
            &&& tag_matches(dgram, body, encoded.len(), expect) <==> tag == expect
        }),
{
    let dgram = tagged(encoded, tag);
    let body = dgram.skip(4);
    assert(magic().len() == 4);
    assert(dgram.take(4) =~= magic());
    assert(dgram.take(4 + encoded.len() as int) =~= magic() + encoded);
    assert(body.subrange(encoded.len() as int, encoded.len() + DISCO_MAC_LEN) =~= tag);
}

/// A datagram without a tag is accepted by no one.
pub proof fn untagged_fails(encoded: Seq<u8>, expect: Seq<u8>)
    ensures
        !tag_matches(magic() + encoded, encoded, encoded.len(), expect),
{
}

/// A message that was dated at `sent` is taken until the window has passed and not after it.
pub proof fn replay_is_bounded(sent: u64, nonce: Seq<u8>, now: u64)
    requires
        nonce.len() == 4,
    ensures
        fresh_date(tx_date(tx_id(sent, nonce)), now) <==> sent <= now + DISCO_REPLAY_WINDOW_SECS
            && now <= sent + DISCO_REPLAY_WINDOW_SECS,
{
    crate::wire::be_bytes_round_trip(sent as nat, 8);
    assert(vstd::arithmetic::power::pow(256, 8) == 0x1_0000_0000_0000_0000) by {
        reveal_with_fuel(vstd::arithmetic::power::pow, 9);
    }
    assert(tx_id(sent, nonce).take(8) =~= crate::wire::be_bytes(sent as nat, 8));
}

/// A discovery datagram is told by its four first bytes, `fpd1`, and no session packet begins with
/// them: those begin with one, two or four.
pub proof fn magic_is_no_session_packet(bytes: Seq<u8>)
    requires
        is_disco(bytes),
    ensures
        bytes[0] == 0x66,
        bytes[1] == 0x70,
        bytes[2] == 0x64,
        bytes[3] == 0x31,
{
    let t = bytes.take(4);
    assert(t[0] == magic()[0] && t[1] == magic()[1] && t[2] == magic()[2] && t[3] == magic()[3]);
    assert(t[0] == bytes[0] && t[1] == bytes[1] && t[2] == bytes[2] && t[3] == bytes[3]);
}

/// A message is taken for thirty seconds before and after its date and at no other time.
pub proof fn window_is_thirty_seconds(date: nat, now: u64)
    ensures
        fresh_date(date, now) <==> date <= now + 30 && now <= date + 30,
{
}

/// The tag behind a message is sixteen bytes, and every byte of it counts; so does every byte of
/// the message that it is computed over.
pub proof fn tag_is_compared_whole(
    dgram: Seq<u8>,
    body: Seq<u8>,
    used: nat,
    expect: Seq<u8>,
    i: int,
)
    requires
        expect.len() == 16,
        0 <= i < 16,
    ensures
        tag_matches(dgram, body, used, expect) ==> used + 16 <= body.len() && body[used + i]
            == expect[i],
        covered(dgram, body, used) matches Some(m) ==> m == dgram.subrange(0, 4 + used as int),
        used + 16 > body.len() ==> covered(dgram, body, used) is None,
        used + 16 <= body.len() && 4 + used <= dgram.len() && (forall|k: int|
            0 <= k < 16 ==> #[trigger] expect[k] == body[used + k]) ==> tag_matches(
            dgram,
            body,
            used,
            expect,
        ),
{
    if used + 16 <= body.len() && 4 + used <= dgram.len() {
        let t = body.subrange(used as int, used as int + 16);
        if forall|k: int| 0 <= k < 16 ==> #[trigger] expect[k] == body[used + k] {
            assert(t =~= expect);
        }
        assert(t[i] == body[used + i]);
        assert(dgram.take(4 + used as int) =~= dgram.subrange(0, 4 + used as int));
    }
}

/// Whatever follows the four bytes, and if nothing does, they make a discovery datagram.
pub proof fn four_bytes_make_it_discovery(rest: Seq<u8>)
    ensures
        is_disco(seq![0x66u8, 0x70u8, 0x64u8, 0x31u8] + rest),
{
    let head = seq![0x66u8, 0x70u8, 0x64u8, 0x31u8];
    assert((head + rest).take(4) =~= magic());
}

} // verus!
