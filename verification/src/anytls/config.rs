//! Settings of the bonded TLS transport.

use crate::digest::{hex_encode, sha256_of};
use crate::health::{HealthConfig, Thresholds};
use crate::wire::put_bytes;
use std::time::Duration;
use vstd::prelude::*;
use vstd::string::StringExecFns;

verus! {

/// Settings of the bonded TLS transport.
#[derive(Debug)]
pub struct AnytlsConfig {
    /// The shared password, derived from the node id.
    pub password: String,
    /// The server name that the client asks for.
    pub server_name: String,
    /// The path of the server's certificate.
    pub cert_path: Option<String>,
    /// The path of the server's private key.
    pub key_path: Option<String>,
    /// Whether the server's certificate goes unchecked.
    pub insecure_skip_verify: bool,
    /// The number of bonded connections, in use between 1 and 8.
    pub bond_connections: usize,
    /// How long further connections may join a bond.
    pub bond_join_timeout: Duration,
    /// The time between attempts to replace a dead connection.
    pub bond_reconnect_interval: Duration,
    /// The time between pings of a connection.
    pub health_check_interval: Duration,
    /// How long a ping may take.
    pub health_check_timeout: Duration,
    /// Failures in a row that take a connection out of use.
    pub max_consecutive_failures: u32,
    /// A round trip above this many microseconds costs weight.
    pub degraded_rtt_us: u64,
    /// A round trip below this many microseconds lets weight recover.
    pub recovery_rtt_us: u64,
    /// A loss above this many per mille costs weight.
    pub degraded_loss_permille: u32,
    /// A loss below this many per mille lets weight recover.
    pub recovery_loss_permille: u32,
}

/// `n`, but at least 1 and at most 8.
pub open spec fn clamped(n: usize) -> usize {
    if n < 1 {
        1
    } else if n > 8 {
        8
    } else {
        n
    }
}

/// The bytes whose digest is the password for a node id.
pub open spec fn password_input(node_id: Seq<char>) -> Seq<u8> {
    vstd::utf8::encode_utf8("fp-anytls-v1"@) + vstd::utf8::encode_utf8(node_id)
}

/// The password for a node id.
pub open spec fn password_for(node_id: Seq<char>) -> Seq<char> {
    crate::digest::hex_text(crate::digest::sha256(password_input(node_id)))
}

/// A copy of an optional text.
pub fn copy_option(s: &Option<String>) -> (r: Option<String>)
    ensures
        r == *s,
{
    match s {
        Some(t) => Some(t.clone()),
        None => None,
    }
}

impl Clone for AnytlsConfig {
    fn clone(&self) -> (r: AnytlsConfig)
        ensures
            r == *self,
    {
        AnytlsConfig {
            password: self.password.clone(),
            server_name: self.server_name.clone(),
            cert_path: copy_option(&self.cert_path),
            key_path: copy_option(&self.key_path),
            insecure_skip_verify: self.insecure_skip_verify,
            bond_connections: self.bond_connections,
            bond_join_timeout: self.bond_join_timeout,
            bond_reconnect_interval: self.bond_reconnect_interval,
            health_check_interval: self.health_check_interval,
            health_check_timeout: self.health_check_timeout,
            max_consecutive_failures: self.max_consecutive_failures,
            degraded_rtt_us: self.degraded_rtt_us,
            recovery_rtt_us: self.recovery_rtt_us,
            degraded_loss_permille: self.degraded_loss_permille,
            recovery_loss_permille: self.recovery_loss_permille,
        }
    }
}

impl HealthConfig for AnytlsConfig {
    open spec fn limits(&self) -> Thresholds {
        Thresholds {
            max_failures: self.max_consecutive_failures,
            degraded_rtt_us: self.degraded_rtt_us,
            recovery_rtt_us: self.recovery_rtt_us,
            degraded_loss_permille: self.degraded_loss_permille,
            recovery_loss_permille: self.recovery_loss_permille,
        }
    }

    fn thresholds(&self) -> (t: Thresholds) {
        Thresholds {
            max_failures: self.max_consecutive_failures,
            degraded_rtt_us: self.degraded_rtt_us,
            recovery_rtt_us: self.recovery_rtt_us,
            degraded_loss_permille: self.degraded_loss_permille,
            recovery_loss_permille: self.recovery_loss_permille,
        }
    }
}

impl AnytlsConfig {
    /// Whether all settings but the password and the certificate check are the defaults.
    pub open spec fn is_default_but_auth(self) -> bool {
        &&& self.server_name@ == "localhost"@
        &&& self.cert_path is None
        &&& self.key_path is None
        &&& self.bond_connections == 3
        &&& self.bond_join_timeout == crate::clock::seconds(10)
        &&& self.bond_reconnect_interval == crate::clock::seconds(5)
        &&& self.health_check_interval == crate::clock::seconds(10)
        &&& self.health_check_timeout == crate::clock::seconds(5)
        &&& self.max_consecutive_failures == 2
        &&& self.degraded_rtt_us == 5_000_000
        &&& self.recovery_rtt_us == 2_000_000
        &&& self.degraded_loss_permille == 100
        &&& self.recovery_loss_permille == 30
    }

    /// Whether these are the defaults.
    pub open spec fn is_default(self) -> bool {
        &&& self.is_default_but_auth()
        &&& self.password@.len() == 0
        &&& !self.insecure_skip_verify
    }

    /// The password for a node id: the digest of a fixed salt and the id, in hexadecimal.
    pub fn derive_password(node_id: &str) -> (p: String)
        ensures
            p@ == password_for(node_id@),
            p@.len() == 64,
    {
        let mut data: Vec<u8> = Vec::new();
        put_bytes(&mut data, "fp-anytls-v1".as_bytes());
        put_bytes(&mut data, node_id.as_bytes());
        assert(data@ =~= password_input(node_id@));
        let d = sha256_of(data.as_slice());
        hex_encode(d.as_slice())
    }

    /// The defaults, with the password for a node id and without a certificate check: nodes
    /// commonly sign their own certificates and authenticate each other above TLS.
    pub fn with_node_id(node_id: &str) -> (c: AnytlsConfig)
        ensures
            c.password@ == password_for(node_id@),
            c.password@.len() == 64,
            c.insecure_skip_verify,
            c.is_default_but_auth(),
    {
        let mut c = AnytlsConfig::default();
        c.password = AnytlsConfig::derive_password(node_id);
        c.insecure_skip_verify = true;
        c
    }

    /// The files of the server's certificate and key, where both are set; else the server signs one
    /// of its own.
    pub fn certificate_files(&self) -> (r: Option<(&String, &String)>)
        ensures
            r is Some <==> self.cert_path is Some && self.key_path is Some,
            r matches Some((c, k)) ==> self.cert_path == Some(*c) && self.key_path == Some(*k),
    {
        match (&self.cert_path, &self.key_path) {
            (Some(c), Some(k)) => Some((c, k)),
            _ => None,
        }
    }

    /// The number of bonded connections that is used.
    pub fn effective_bond_connections(&self) -> (n: usize)
        ensures
            n == clamped(self.bond_connections),
            1 <= n <= 8,
    {
        if self.bond_connections < 1 {
            1
        } else if self.bond_connections > 8 {
            8
        } else {
            self.bond_connections
        }
    }
}

impl Default for AnytlsConfig {
    fn default() -> (c: AnytlsConfig)
        ensures
            c.is_default(),
    {
        AnytlsConfig {
            password: String::new(),
            server_name: String::from_str("localhost"),
            cert_path: None,
            key_path: None,
            insecure_skip_verify: false,
            bond_connections: 3,
            bond_join_timeout: Duration::from_secs(10),
            bond_reconnect_interval: Duration::from_secs(5),
            health_check_interval: Duration::from_secs(10),
            health_check_timeout: Duration::from_secs(5),
            max_consecutive_failures: 2,
            degraded_rtt_us: 5_000_000,
            recovery_rtt_us: 2_000_000,
            degraded_loss_permille: 100,
            recovery_loss_permille: 30,
        }
    }
}

/// Makes `config` the one that is in force.
pub fn set_anytls_config(slot: &mut Option<AnytlsConfig>, config: AnytlsConfig)
    ensures
        *final(slot) == Some(config),
{
    *slot = Some(config);
}

/// A copy of the settings in force, the defaults where none were set.
pub fn get_config_cloned(slot: &Option<AnytlsConfig>) -> (c: AnytlsConfig)
    ensures
        *slot matches Some(set) ==> c == set,
        *slot is None ==> c.is_default(),
{
    match slot {
        Some(set) => set.clone(),
        None => AnytlsConfig::default(),
    }
}

/// Between one and eight connections are used, as many as are set where that is possible.
pub proof fn connections_between_one_and_eight(n: usize)
    ensures
        1 <= clamped(n) <= 8,
        1 <= n <= 8 ==> clamped(n) == n,
        n == 0 ==> clamped(n) == 1,
        n > 8 ==> clamped(n) == 8,
{
}

/// What is hashed for a password is a fixed salt and then the node id, so that different ids never
/// hash the same input.
pub proof fn passwords_hash_the_id(a: Seq<char>, b: Seq<char>)
    ensures
        password_input(a) == vstd::utf8::encode_utf8("fp-anytls-v1"@) + vstd::utf8::encode_utf8(a),
        vstd::utf8::encode_utf8(a) != vstd::utf8::encode_utf8(b) ==> password_input(a)
            != password_input(b),
        password_for(a) == crate::digest::hex_text(crate::digest::sha256(password_input(a))),
{
    let salt = vstd::utf8::encode_utf8("fp-anytls-v1"@);
    if password_input(a) == password_input(b) {
        let n = salt.len() as int;
        assert(password_input(a).skip(n) =~= vstd::utf8::encode_utf8(a));
        assert(password_input(b).skip(n) =~= vstd::utf8::encode_utf8(b));
    }
}

/// A bond has three connections unless it is told otherwise, waits ten seconds for all of them and
/// five between attempts, looks after each every ten seconds and gives it up after two failures. A
/// link is bad above five seconds or a tenth lost, and good again below two and three hundredths.
pub proof fn what_a_bond_does_by_default(c: AnytlsConfig)
    requires
        c.is_default(),
    ensures
        c.bond_connections == 3,
        c.bond_join_timeout == crate::clock::seconds(10),
        c.bond_reconnect_interval == crate::clock::seconds(5),
        c.health_check_interval == crate::clock::seconds(10),
        c.health_check_timeout == crate::clock::seconds(5),
        c.max_consecutive_failures == 2,
        c.degraded_rtt_us == 5_000_000,
        c.recovery_rtt_us == 2_000_000,
        c.degraded_loss_permille == 100,
        c.recovery_loss_permille == 30,
        c.server_name@ == "localhost"@,
        c.cert_path is None,
        c.key_path is None,
        c.password@.len() == 0,
        !c.insecure_skip_verify,
{
}

} // verus!
