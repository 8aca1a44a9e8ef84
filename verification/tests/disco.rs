use fluxpeer::mesh::disco::{
    auth_disco_dgram, ct_eq, disco_authed, disco_covered, disco_dgram, disco_replay_ok,
    disco_replay_ok_at, disco_tx_id, disco_tx_id_at, nonce_from, strip_magic, DISCO_MAC_LEN,
};
use sha2::{Digest, Sha256};

/// A stand-in for the code that both ends compute over the covered bytes.
fn mac(key: &[u8; 32], covered: &[u8]) -> [u8; 16] {
    let mut data = key.to_vec();
    data.extend_from_slice(covered);
    let d = Sha256::digest(&data);
    let mut out = [0u8; 16];
    out.copy_from_slice(&d[..16]);
    out
}

/// An encoded ping: a type, the id and the sender.
fn encoded_ping(tx_id: [u8; 12], sender: [u8; 32]) -> Vec<u8> {
    let mut v = vec![1u8];
    v.extend_from_slice(&tx_id);
    v.extend_from_slice(&sender);
    v
}

fn authed(key: &[u8; 32], encoded: &[u8]) -> Vec<u8> {
    auth_disco_dgram(encoded, &mac(key, &disco_dgram(encoded)))
}

fn verifies(key: &[u8; 32], dgram: &[u8], used: usize) -> bool {
    let body = strip_magic(dgram).expect("magic");
    match disco_covered(dgram, &body, used) {
        Some(covered) => disco_authed(dgram, &body, used, &mac(key, &covered)),
        None => false,
    }
}

#[test]
fn authed_ping_roundtrips_and_verifies() {
    let key = [7u8; 32];
    let msg = encoded_ping(disco_tx_id(), [1; 32]);
    let dgram = authed(&key, &msg);
    let body = strip_magic(&dgram).expect("magic");
    assert_eq!(&body[..msg.len()], &msg[..]);
    assert_eq!(body.len(), msg.len() + DISCO_MAC_LEN);
    // The other end verifies with its own derivation of the same key.
    assert!(verifies(&key, &dgram, msg.len()));
}

#[test]
fn rejects_wrong_key_unauthed_and_tampered() {
    let key = [7u8; 32];
    let msg = encoded_ping(disco_tx_id(), [1; 32]);
    let dgram = authed(&key, &msg);

    // Wrong key (a third party that doesn't share the secret) fails.
    assert!(!verifies(&[9u8; 32], &dgram, msg.len()));

    // A legacy/un-authenticated datagram (no trailing MAC) fails.
    let plain = disco_dgram(&msg);
    assert!(!verifies(&key, &plain, msg.len()));

    // A flipped MAC byte fails.
    let mut tampered = dgram.clone();
    let last = tampered.len() - 1;
    tampered[last] ^= 0xff;
    assert!(!verifies(&key, &tampered, msg.len()));
}

#[test]
fn replay_window_rejects_stale_timestamp() {
    // Fresh tx_id is within the window; an all-zero (epoch) timestamp is not.
    assert!(disco_replay_ok(&disco_tx_id()));
    assert!(!disco_replay_ok(&[0u8; 12]));
}

#[test]
fn the_window_is_thirty_seconds_either_way() {
    let id = disco_tx_id_at(1_000, [1, 2, 3, 4]);
    assert_eq!(id, [0, 0, 0, 0, 0, 0, 3, 232, 1, 2, 3, 4]);
    assert!(disco_replay_ok_at(&id, 1_030));
    assert!(!disco_replay_ok_at(&id, 1_031));
    assert!(disco_replay_ok_at(&id, 970));
    assert!(!disco_replay_ok_at(&id, 969));
}

#[test]
fn ids_carry_random_bytes() {
    let ids: Vec<[u8; 12]> = (0..4).map(|_| disco_tx_id()).collect();
    assert!(ids.iter().any(|id| id[8..] != ids[0][8..]));
    assert_eq!(nonce_from(Some(vec![9, 8, 7, 6])), [9, 8, 7, 6]);
    assert_eq!(nonce_from(None), [0; 4]);
}

#[test]
fn only_the_prefix_makes_a_discovery_datagram() {
    assert_eq!(disco_dgram(&[5]), b"fpd1\x05".to_vec());
    assert_eq!(strip_magic(b"fpd1ab"), Some(b"ab".to_vec()));
    assert_eq!(strip_magic(b"fpd2ab"), None);
    assert_eq!(strip_magic(b"fpd"), None);
}

#[test]
fn tags_are_compared_whole() {
    assert!(ct_eq(&[1, 2], &[1, 2]));
    assert!(!ct_eq(&[1, 2], &[1, 3]));
    assert!(!ct_eq(&[1, 2], &[1, 2, 3]));
}
