//! Joining a network: the token that invites a device, and the settings of a membership.

use crate::ipv4::{number_of, parse_number};
use crate::json::{field_agrees, Doc, Json, Num};
use crate::node::host::{join2, Os};
use crate::parse::{json_doc, parse_json};
use crate::random::random_bytes;
use crate::text::{dec, push_dec};
use crate::words::{strip_prefix, trim_end_char, trim_text};
use base64::Engine;
use vstd::prelude::*;
use vstd::string::StringExecFns;

verus! {

/// `base64::DecodeError`: why a text is not base64.
#[verifier::external_type_specification]
#[verifier::external_body]
pub struct ExDecodeError(base64::DecodeError);

/// The value of a digit of base64 in the alphabet for URLs, if it is one.
pub open spec fn sextet(c: char) -> Option<int> {
    if 'A' <= c <= 'Z' {
        Some(c as int - 65)
    } else if 'a' <= c <= 'z' {
        Some(c as int - 71)
    } else if '0' <= c <= '9' {
        Some(c as int + 4)
    } else if c == '-' {
        Some(62)
    } else if c == '_' {
        Some(63)
    } else {
        None
    }
}

/// The value of the digit at `i`.
pub open spec fn six(s: Seq<char>, i: int) -> int {
    match sextet(s[i]) {
        Some(v) => v,
        None => 0,
    }
}

/// Whether a text is base64 without padding: digits, not one alone at the end, and no bits set in
/// the last one that stand for nothing.
pub open spec fn is_base64(s: Seq<char>) -> bool {
    &&& forall|i: int| 0 <= i < s.len() ==> sextet(#[trigger] s[i]) is Some
    &&& s.len() % 4 != 1
    &&& s.len() % 4 == 2 ==> six(s, s.len() - 1) % 16 == 0
    &&& s.len() % 4 == 3 ==> six(s, s.len() - 1) % 4 == 0
}

/// The bytes of base64: each four digits stand for three bytes.
pub open spec fn base64_bytes(s: Seq<char>) -> Seq<u8> {
    Seq::new(
        (s.len() * 6) / 8,
        |i: int|
            {
                let q = i / 3 * 4;
                if i % 3 == 0 {
                    (six(s, q) * 4 + six(s, q + 1) / 16) as u8
                } else if i % 3 == 1 {
                    (six(s, q + 1) % 16 * 16 + six(s, q + 2) / 4) as u8
                } else {
                    (six(s, q + 2) % 4 * 64 + six(s, q + 3)) as u8
                }
            },
    )
}

/// `base64::engine::general_purpose::URL_SAFE_NO_PAD.decode`: the bytes of a text that is base64 in
/// the alphabet for URLs without padding; an error for any other text.
#[verifier::external_body]
fn base64_decode(s: &str) -> (r: Result<Vec<u8>, base64::DecodeError>)
    ensures
        r is Ok <==> is_base64(s@),
        r matches Ok(v) ==> v@ == base64_bytes(s@),
{
    base64::engine::general_purpose::URL_SAFE_NO_PAD.decode(s)
}

/// `base64::DecodeError`'s own text. Nothing is claimed of it.
#[verifier::external_body]
fn decode_error_text(e: &base64::DecodeError) -> String {
    format!("{}", e)
}

/// Why a device could not join.
#[derive(Debug)]
pub enum JoinError {
    /// The token is no base64.
    Base64(String),
    /// The token holds no document.
    Json(String),
    MissingCtrl,
    MissingCode,
    MissingDevice,
}

impl JoinError {
    /// The text that describes the error.
    pub open spec fn text(self) -> Seq<char> {
        match self {
            JoinError::Base64(e) => "invalid join token (base64): "@ + e@,
            JoinError::Json(e) => "invalid join token (json): "@ + e@,
            JoinError::MissingCtrl => "join token missing \"ctrl\""@,
            JoinError::MissingCode => "join token missing \"code\""@,
            JoinError::MissingDevice => "enroll response missing device id"@,
        }
    }

    /// Describes the error.
    pub fn message(&self) -> (s: String)
        ensures
            s@ == self.text(),
    {
        match self {
            JoinError::Base64(e) => join2("invalid join token (base64): ", e.as_str()),
            JoinError::Json(e) => join2("invalid join token (json): ", e.as_str()),
            JoinError::MissingCtrl => String::from_str("join token missing \"ctrl\""),
            JoinError::MissingCode => String::from_str("join token missing \"code\""),
            JoinError::MissingDevice => String::from_str("enroll response missing device id"),
        }
    }
}

/// The part of a token that is base64: without the blanks around it, what it starts with and the
/// padding.
pub open spec fn blob(token: Seq<char>) -> Seq<char> {
    let t = crate::words::trim(token);
    let b = if crate::words::has_prefix(t, "fp://join/"@) {
        t.skip("fp://join/"@.len() as int)
    } else {
        t
    };
    crate::words::trim_end_of(b, '=')
}

/// The bytes that a token holds.
pub fn token_bytes(token: &str) -> (r: Result<Vec<u8>, JoinError>)
    ensures
        r is Ok <==> is_base64(blob(token@)),
        r matches Ok(v) ==> v@ == base64_bytes(blob(token@)),
        r matches Err(e) ==> e is Base64,
{
    let t = trim_text(token);
    let b = match strip_prefix(t.as_str(), "fp://join/") {
        Some(rest) => rest,
        None => t,
    };
    let b = trim_end_char(b.as_str(), '=');
    match base64_decode(b.as_str()) {
        Ok(v) => Ok(v),
        Err(e) => Err(JoinError::Base64(decode_error_text(&e))),
    }
}

/// What a token invites to.
#[derive(Debug)]
pub struct JoinToken {
    /// The control server.
    pub ctrl: String,
    /// The code of the invitation.
    pub code: String,
}

/// The text in a field, if it is not empty.
pub open spec fn filled(d: Doc, name: Seq<char>) -> Option<Seq<char>> {
    match d.text_at(name) {
        Some(s) if s.len() > 0 => Some(s),
        _ => None,
    }
}

/// Whether `r` is what a document invites to: a control server, without the slashes at its end, and
/// a code. The control server is looked for first.
pub open spec fn invites_to(d: Doc, r: Result<JoinToken, JoinError>) -> bool {
    match filled(d, "ctrl"@) {
        None => r matches Err(e) && e is MissingCtrl,
        Some(c) => match filled(d, "code"@) {
            None => r matches Err(e) && e is MissingCode,
            Some(k) => {
                &&& r matches Ok(t)
                &&& t.ctrl@ == crate::words::trim_end_of(c, '/')
                &&& t.code@ == k
            },
        },
    }
}

/// Decodes a token: base64 that holds a document.
pub fn decode_token(token: &str) -> (r: Result<JoinToken, JoinError>)
    ensures
        if is_base64(blob(token@)) {
            match json_doc(base64_bytes(blob(token@))) {
                Some(d) => invites_to(d, r),
                None => r matches Err(e) && e is Json,
            }
        } else {
            r matches Err(e) && e is Base64
        },
{
    let bytes = match token_bytes(token) {
        Ok(b) => b,
        Err(e) => {
            return Err(e);
        },
    };
    match parse_json(bytes.as_slice()) {
        Ok(doc) => token_of(&doc),
        Err(e) => Err(JoinError::Json(e)),
    }
}

/// Reads what a token holds.
pub fn token_of(doc: &Json) -> (r: Result<JoinToken, JoinError>)
    ensures
        invites_to(doc.doc(), r),
{
    proof {
        field_agrees(*doc, "ctrl"@);
        field_agrees(*doc, "code"@);
    }
    let ctrl = match doc.str_at("ctrl") {
        Some(s) => {
            if s.is_empty() {
                return Err(JoinError::MissingCtrl);
            }
            trim_end_char(s, '/')
        },
        None => {
            return Err(JoinError::MissingCtrl);
        },
    };
    match doc.str_at("code") {
        Some(s) => {
            if s.is_empty() {
                Err(JoinError::MissingCode)
            } else {
                Ok(JoinToken { ctrl, code: String::from_str(s) })
            }
        },
        None => Err(JoinError::MissingCode),
    }
}

/// The name that a device gives itself: the host's, blanks aside, if it has one.
pub fn default_name(host: &Option<String>) -> (s: String)
    ensures
        s@ == match *host {
            Some(h) if crate::words::trim(h@).len() > 0 => crate::words::trim(h@),
            _ => "fp-node"@,
        },
{
    match host {
        Some(h) => {
            let t = trim_text(h.as_str());
            if t.as_str().is_empty() {
                String::from_str("fp-node")
            } else {
                t
            }
        },
        None => String::from_str("fp-node"),
    }
}

/// Where the settings of memberships lie. `program_data` is the environment's `PROGRAMDATA`.
pub fn config_dir(os: Os, program_data: &Option<String>) -> (s: String)
    ensures
        s@ == if os != Os::Windows {
            "/etc/fluxpeer"@
        } else {
            match *program_data {
                Some(p) => p@ + "\\fluxpeer"@,
                None => "C:\\ProgramData\\fluxpeer"@,
            }
        },
{
    if os != Os::Windows {
        return String::from_str("/etc/fluxpeer");
    }
    match program_data {
        Some(p) => join2(p.as_str(), "\\fluxpeer"),
        None => String::from_str("C:\\ProgramData\\fluxpeer"),
    }
}

/// The number in an interface's name, if it is one of ours.
pub open spec fn slot_of(tun: Seq<char>) -> Option<u64> {
    if crate::words::has_prefix(tun, "fp"@) {
        number_of(tun.skip("fp"@.len() as int), u32::MAX as u64)
    } else {
        None
    }
}

/// Whether a membership has this number.
pub open spec fn used(confs: Seq<Json>, n: int) -> bool {
    exists|i: int|
        0 <= i < confs.len() && slot_at(#[trigger] confs[i]) is Some && slot_at(confs[i])->Some_0
            == n
}

/// The number of a membership.
pub open spec fn slot_at(conf: Json) -> Option<u64> {
    match conf.text_at("tun_name"@) {
        Some(t) => slot_of(t),
        None => None,
    }
}

/// The number of a membership.
fn read_slot(conf: &Json) -> (r: Option<u64>)
    ensures
        r == slot_at(*conf),
{
    match conf.str_at("tun_name") {
        Some(t) => match strip_prefix(t, "fp") {
            Some(rest) => parse_number(rest.as_str(), 4294967295),
            None => None,
        },
        None => None,
    }
}

/// Whether a membership has this number.
fn is_used(confs: &Vec<Json>, n: u64) -> (r: bool)
    ensures
        r == used(confs@, n as int),
{
    let mut i: usize = 0;
    while i < confs.len()
        invariant
            i <= confs@.len(),
            forall|j: int|
                0 <= j < i ==> slot_at(#[trigger] confs@[j]) is None || slot_at(confs@[j])->Some_0
                    != n,
        decreases confs@.len() - i,
    {
        match read_slot(&confs[i]) {
            Some(m) => {
                if m == n {
                    assert(slot_at(confs@[i as int]) == Some(n));
                    return true;
                }
            },
            None => {},
        }
        i += 1;
    }
    false
}

/// A place for a new membership.
#[derive(Debug)]
pub struct Slot {
    /// The name of the file for its settings.
    pub file: String,
    /// The interface.
    pub tun: String,
    pub port: u16,
}

/// Whether `n` is the least number that no membership has.
pub open spec fn least_free(confs: Seq<Json>, n: int) -> bool {
    &&& 0 <= n
    &&& !used(confs, n)
    &&& forall|m: int| 0 <= m < n ==> used(confs, m)
}

/// Picks a place for a new membership: the least number that none has, and a port that goes with
/// it.
pub fn assign_slot(confs: &Vec<Json>) -> (s: Slot)
    requires
        exists|n: int|
            #[trigger] least_free(confs@, n) && n <= u32::MAX && n % 0x1_0000 <= 23715,
    ensures
        exists|n: int|
            {
                &&& #[trigger] least_free(confs@, n)
                &&& s.tun@ == "fp"@ + dec(n as nat)
                &&& s.file@ == "fp"@ + dec(n as nat) + ".json"@
                &&& s.port == 41820 + n % 0x1_0000
            },
{
    let ghost least = choose|n: int|
        #[trigger] least_free(confs@, n) && n <= u32::MAX && n % 0x1_0000 <= 23715;
    let mut n: u64 = 0;
    while is_used(confs, n)
        invariant
            least_free(confs@, least),
            least <= u32::MAX,
            n <= least,
            forall|m: int| 0 <= m < n ==> used(confs@, m),
        decreases least - n,
    {
        n += 1;
    }
    assert(n == least) by {
        if n < least {
            assert(used(confs@, n as int));
        }
    }
    let mut tun = String::from_str("fp");
    push_dec(&mut tun, n);
    let file = join2(tun.as_str(), ".json");
    assert(least_free(confs@, n as int));
    let port: u16 = 41820 + (n % 0x1_0000) as u16;
    Slot { file, tun, port }
}

/// Some memberships that have the numbers below `k` are at least `k` memberships.
proof fn numbers_take_room(confs: Seq<Json>, k: int)
    requires
        0 <= k,
        forall|m: int| 0 <= m < k ==> used(confs, m),
    ensures
        confs.len() >= k,
    decreases k,
{
    if k > 0 {
        assert(used(confs, k - 1));
        let i = choose|i: int|
            0 <= i < confs.len() && slot_at(#[trigger] confs[i]) is Some && slot_at(
                confs[i],
            )->Some_0 == k - 1;
        let rest = confs.remove(i);
        assert forall|m: int| 0 <= m < k - 1 implies used(rest, m) by {
            assert(used(confs, m));
            let j = choose|j: int|
                0 <= j < confs.len() && slot_at(#[trigger] confs[j]) is Some && slot_at(
                    confs[j],
                )->Some_0 == m;
            if j < i {
                assert(rest[j] == confs[j]);
            } else {
                assert(rest[j - 1] == confs[j]);
            }
        }
        numbers_take_room(rest, k - 1);
    }
}

/// A number that no membership has is or follows the least one.
proof fn least_below(confs: Seq<Json>, m: int) -> (n: int)
    requires
        0 <= m,
        !used(confs, m),
    ensures
        least_free(confs, n),
        n <= m,
    decreases m,
{
    if forall|k: int| 0 <= k < m ==> used(confs, k) {
        m
    } else {
        let k = choose|k: int| 0 <= k < m && !used(confs, k);
        least_below(confs, k)
    }
}

/// There is a place for a new membership as long as there are no more memberships than ports.
pub proof fn some_slot_is_free(confs: Seq<Json>)
    requires
        confs.len() <= 23715,
    ensures
        exists|n: int|
            #[trigger] least_free(confs, n) && n <= u32::MAX && n % 0x1_0000 <= 23715,
{
    if forall|m: int| 0 <= m < confs.len() + 1 ==> used(confs, m) {
        numbers_take_room(confs, confs.len() + 1int);
    }
    let m = choose|m: int| 0 <= m < confs.len() + 1 && !used(confs, m);
    let n = least_below(confs, m);
    assert(least_free(confs, n) && n % 0x1_0000 == n);
}

/// The settings of a membership.
pub open spec fn membership_doc(
    private_key: Seq<char>,
    device_id: Seq<char>,
    ctrl: Seq<char>,
    auth_token: Seq<char>,
    port: u16,
    tun: Seq<char>,
) -> Doc {
    Doc::Object(
        seq![
            ("private_key"@, Doc::Text(private_key)),
            ("device_id"@, Doc::Text(device_id)),
            ("control_server"@, Doc::Text(ctrl)),
            ("auth_token"@, Doc::Text(auth_token)),
            ("listen_port"@, Doc::Number(Num::Unsigned(port as u64))),
            ("tun_name"@, Doc::Text(tun)),
            ("prefix_len"@, Doc::Number(Num::Unsigned(24))),
        ],
    )
}

/// The settings of a membership, as the control server answered `dev` to the enrolment.
pub fn membership(private_key: &str, dev: &Json, ctrl: &str, port: u16, tun: &str) -> (r: Result<
    Json,
    JoinError,
>)
    ensures
        r is Ok <==> dev.text_at("id"@) is Some,
        r matches Ok(j) ==> j.doc() == membership_doc(
            private_key@,
            dev.text_at("id"@)->Some_0,
            ctrl@,
            match dev.text_at("auth_token"@) {
                Some(t) => t,
                None => ""@,
            },
            port,
            tun@,
        ),
        r matches Err(e) ==> e is MissingDevice,
{
    let id = match dev.str_at("id") {
        Some(s) => s,
        None => {
            return Err(JoinError::MissingDevice);
        },
    };
    let auth_token = match dev.str_at("auth_token") {
        Some(t) => t,
        None => "",
    };
    let j = Json::empty().with("private_key", Json::from_text(private_key)).with(
        "device_id",
        Json::from_text(id),
    ).with("control_server", Json::from_text(ctrl)).with(
        "auth_token",
        Json::from_text(auth_token),
    ).with("listen_port", Json::from_u64(port as u64)).with("tun_name", Json::from_text(tun)).with(
        "prefix_len",
        Json::from_u64(24),
    );
    assert(j.doc()->Object_0 =~= membership_doc(
        private_key@,
        id@,
        ctrl@,
        auth_token@,
        port,
        tun@,
    )->Object_0);
    Ok(j)
}

/// The bytes of a fresh private key, if the system has any to give: whichever bytes it gives.
pub fn fresh_key() -> (r: Option<[u8; 32]>) {
    key_from(random_bytes(32))
}

/// The private key that some random bytes are; none where there were none to be had.
pub fn key_from(random: Option<Vec<u8>>) -> (r: Option<[u8; 32]>)
    requires
        random matches Some(b) ==> b@.len() == 32,
    ensures
        match random {
            Some(b) => r matches Some(k) && k@ == b@,
            None => r is None,
        },
{
    match random {
        Some(v) => Some(crate::digest::to_array32(v.as_slice())),
        None => None,
    }
}

/// A digit of base64 in the alphabet for URLs.
pub open spec fn sextet_char(v: int) -> char {
    if v < 26 {
        (v + 65) as char
    } else if v < 52 {
        (v + 71) as char
    } else if v < 62 {
        (v - 4) as char
    } else if v == 62 {
        '-'
    } else {
        '_'
    }
}

/// The six bits at digit `i` of some bytes.
pub open spec fn bits_at(data: Seq<u8>, i: int) -> int {
    let t = i / 4 * 3;
    let a = data[t] as int;
    let b = if t + 1 < data.len() {
        data[t + 1] as int
    } else {
        0
    };
    let c = if t + 2 < data.len() {
        data[t + 2] as int
    } else {
        0
    };
    if i % 4 == 0 {
        a / 4
    } else if i % 4 == 1 {
        a % 4 * 16 + b / 16
    } else if i % 4 == 2 {
        b % 16 * 4 + c / 64
    } else {
        c % 64
    }
}

/// Some bytes as base64 without padding.
pub open spec fn base64_text(data: Seq<u8>) -> Seq<char> {
    Seq::new((data.len() * 8 + 5) / 6, |i: int| sextet_char(bits_at(data, i)))
}

/// A digit has its value.
proof fn sextet_round_trip(v: int)
    requires
        0 <= v < 64,
    ensures
        sextet(sextet_char(v)) == Some(v),
        !crate::words::is_space(sextet_char(v)),
        sextet_char(v) != '=',
{
    if v < 26 {
        assert(sextet_char(v) as int == v + 65);
    } else if v < 52 {
        assert(sextet_char(v) as int == v + 71);
    } else if v < 62 {
        assert(sextet_char(v) as int == v - 4);
    }
}

/// The six bits at a digit.
proof fn bits_bound(data: Seq<u8>, i: int)
    requires
        0 <= i < base64_text(data).len(),
    ensures
        0 <= bits_at(data, i) < 64,
{
}

/// How many digits some bytes take: four for three, two for one more and three for two more.
proof fn base64_len(n: nat)
    ensures
        n % 3 == 0 ==> (n * 8 + 5) / 6 == n / 3 * 4,
        n % 3 == 1 ==> (n * 8 + 5) / 6 == n / 3 * 4 + 2,
        n % 3 == 2 ==> (n * 8 + 5) / 6 == n / 3 * 4 + 3,
{
    let k = n / 3;
    assert(n == 3 * k + n % 3);
}

/// The digits have the values of the bits.
proof fn digits_have_bits(data: Seq<u8>, i: int)
    requires
        0 <= i < base64_text(data).len(),
    ensures
        sextet(base64_text(data)[i]) is Some,
        six(base64_text(data), i) == bits_at(data, i),
{
    bits_bound(data, i);
    sextet_round_trip(bits_at(data, i));
}

/// What bytes are written as is base64.
proof fn text_is_base64(data: Seq<u8>)
    ensures
        is_base64(base64_text(data)),
{
    let s = base64_text(data);
    let n = data.len();
    base64_len(n);
    assert forall|i: int| 0 <= i < s.len() implies sextet(#[trigger] s[i]) is Some by {
        digits_have_bits(data, i);
    }
    if n % 3 == 1 {
        let i = s.len() - 1;
        digits_have_bits(data, i);
        assert(i / 4 * 3 == n - 1);
        assert(i % 4 == 1);
    } else if n % 3 == 2 {
        let i = s.len() - 1;
        digits_have_bits(data, i);
        assert(i / 4 * 3 == n - 2);
        assert(i % 4 == 2);
    }
}

/// What is written as base64 is what is read from it.
pub proof fn base64_round_trip(data: Seq<u8>)
    ensures
        is_base64(base64_text(data)),
        base64_bytes(base64_text(data)) == data,
{
    text_is_base64(data);
    base64_len(data.len());
    let b = base64_bytes(base64_text(data));
    assert(b.len() == data.len());
    assert forall|i: int| 0 <= i < data.len() implies #[trigger] b[i] == data[i] by {
        byte_back(data, i);
    }
    assert(b =~= data);
}

/// A byte of what is read from base64.
proof fn byte_back(data: Seq<u8>, i: int)
    requires
        0 <= i < data.len(),
    ensures
        base64_bytes(base64_text(data))[i] == data[i],
{
    let s = base64_text(data);
    let n = data.len() as int;
    let q = i / 3 * 4;
    let t = i / 3 * 3;
    assert(q + i % 3 + 1 < s.len());
    bits_bound(data, q + i % 3);
    bits_bound(data, q + i % 3 + 1);
    sextet_round_trip(bits_at(data, q + i % 3));
    sextet_round_trip(bits_at(data, q + i % 3 + 1));
    assert(six(s, q + i % 3) == bits_at(data, q + i % 3));
    assert(six(s, q + i % 3 + 1) == bits_at(data, q + i % 3 + 1));
    assert((q + i % 3) / 4 * 3 == t);
    assert((q + i % 3 + 1) / 4 * 3 == t);
    assert((q + i % 3) % 4 == i % 3);
    assert((q + i % 3 + 1) % 4 == i % 3 + 1);
    let x = data[i] as int;
    if i % 3 == 0 {
        assert(i == t);
        assert(bits_at(data, q) == x / 4);
        assert(bits_at(data, q + 1) / 16 == x % 4);
    } else if i % 3 == 1 {
        assert(i == t + 1);
        assert(bits_at(data, q + 1) % 16 == x / 16);
        assert(bits_at(data, q + 2) / 4 == x % 16);
    } else {
        assert(i == t + 2);
        assert(bits_at(data, q + 2) % 4 == x / 64);
        assert(bits_at(data, q + 3) == x % 64);
    }
}

/// A token holds what was put into it: the bytes behind `fp://join/` as base64 are those that are
/// read from it.
pub proof fn token_holds(data: Seq<u8>)
    requires
        data.len() > 0,
    ensures
        is_base64(blob("fp://join/"@ + base64_text(data))),
        base64_bytes(blob("fp://join/"@ + base64_text(data))) == data,
{
    reveal_strlit("fp://join/");
    let p = "fp://join/"@;
    let b = base64_text(data);
    let s = p + b;
    base64_round_trip(data);
    assert(b.len() > 0);
    bits_bound(data, b.len() - 1);
    sextet_round_trip(bits_at(data, b.len() - 1));
    assert(b.last() == sextet_char(bits_at(data, b.len() - 1)));
    assert(s[0] == 'f');
    assert(s.last() == b.last());
    assert(!crate::words::is_space(s[0]));
    assert(crate::words::leading(s) == 0);
    assert(s.skip(0) =~= s);
    assert(crate::words::trim(s) == s);
    assert(s.take(p.len() as int) =~= p);
    assert(s.skip(p.len() as int) =~= b);
    assert(blob(s) == b);
}

/// The interface of a slot shows which slot it is, so a network that was given one counts as using
/// it.
pub proof fn given_slots_are_in_use(confs: Seq<Json>, conf: Json, n: nat, m: int)
    requires
        n <= u32::MAX,
        conf.text_at("tun_name"@) == Some("fp"@ + dec(n)),
    ensures
        slot_of("fp"@ + dec(n)) == Some(n as u64),
        used(confs.push(conf), n as int),
        m != n ==> used(confs.push(conf), m) == used(confs, m),
{
    let t = "fp"@ + dec(n);
    assert(t.take("fp"@.len() as int) =~= "fp"@);
    assert(t.skip("fp"@.len() as int) =~= dec(n));
    crate::ipv4::numbers_read_back(n, u32::MAX as u64);
    let all = confs.push(conf);
    assert(all[confs.len() as int] == conf);
    assert(slot_at(all[confs.len() as int]) == Some(n as u64));
    if m != n {
        if used(confs, m) {
            let i = choose|i: int|
                0 <= i < confs.len() && slot_at(#[trigger] confs[i]) is Some && slot_at(
                    confs[i],
                )->Some_0 == m;
            assert(all[i] == confs[i]);
        }
        if used(all, m) {
            let i = choose|i: int|
                0 <= i < all.len() && slot_at(#[trigger] all[i]) is Some && slot_at(all[i])->Some_0
                    == m;
            assert(confs[i] == all[i]);
        }
    }
}

/// There is one smallest free slot, and on a fresh device it is the first.
pub proof fn smallest_slot_is_one(confs: Seq<Json>, a: int, b: int)
    requires
        least_free(confs, a),
        least_free(confs, b),
    ensures
        a == b,
        confs.len() == 0 ==> a == 0,
{
    if a < b {
        assert(used(confs, a));
    }
    if b < a {
        assert(used(confs, b));
    }
    if confs.len() == 0 && a > 0 {
        assert(used(confs, 0));
    }
}

/// An invitation leads to the server that it names, with its code; one that lacks either is refused
/// for that, the server first.
pub proof fn invitations_are_followed(
    d: Doc,
    ctrl: Seq<char>,
    code: Seq<char>,
    r: Result<JoinToken, JoinError>,
)
    requires
        invites_to(d, r),
        ctrl.len() > 0,
        code.len() > 0,
    ensures
        d.text_at("ctrl"@) == Some(ctrl) && d.text_at("code"@) == Some(code) && ctrl.last() != '/'
            ==> (r matches Ok(t) && t.ctrl@ == ctrl && t.code@ == code),
        d.text_at("ctrl"@) == Some(ctrl.push('/')) && d.text_at("code"@) == Some(code)
            && ctrl.last() != '/' ==> (r matches Ok(t) && t.ctrl@ == ctrl),
        d.text_at("ctrl"@) is None ==> (r matches Err(e) && e is MissingCtrl),
        d.text_at("ctrl"@) == Some(ctrl) && d.text_at("code"@) is None ==> (r matches Err(e)
            && e is MissingCode),
        d.text_at("ctrl"@) == Some(ctrl) && d.text_at("code"@) == Some(Seq::<char>::empty())
            ==> (r matches Err(e) && e is MissingCode),
{
    crate::words::trailing_characters_go(ctrl, '/');
}

/// The settings of a membership hold each thing under its own name.
pub proof fn memberships_hold_what_was_given(
    private_key: Seq<char>,
    device_id: Seq<char>,
    ctrl: Seq<char>,
    auth_token: Seq<char>,
    port: u16,
    tun: Seq<char>,
)
    ensures
        ({
            let d = membership_doc(private_key, device_id, ctrl, auth_token, port, tun);
            &&& d.text_at("private_key"@) == Some(private_key)
            &&& d.text_at("device_id"@) == Some(device_id)
            &&& d.text_at("control_server"@) == Some(ctrl)
            &&& d.text_at("auth_token"@) == Some(auth_token)
            &&& d.u64_at("listen_port"@) == Some(port as u64)
            &&& d.text_at("tun_name"@) == Some(tun)
            &&& d.u64_at("prefix_len"@) == Some(24u64)
        }),
{
    reveal_strlit("private_key");
    reveal_strlit("device_id");
    reveal_strlit("control_server");
    reveal_strlit("auth_token");
    reveal_strlit("listen_port");
    reveal_strlit("tun_name");
    reveal_strlit("prefix_len");
    assert("private_key"@.len() == 11 && "device_id"@.len() == 9 && "control_server"@.len() == 14
        && "auth_token"@.len() == 10 && "listen_port"@.len() == 11 && "tun_name"@.len() == 8
        && "prefix_len"@.len() == 10);
    assert("private_key"@[0] == 'p' && "listen_port"@[0] == 'l');
    assert("auth_token"@[0] == 'a' && "prefix_len"@[0] == 'p');
    let d = membership_doc(private_key, device_id, ctrl, auth_token, port, tun);
    let f = d->Object_0;
    crate::json::fields_are_found(f, "private_key"@, 0);
    crate::json::fields_are_found(f, "device_id"@, 1);
    crate::json::fields_are_found(f, "control_server"@, 2);
    crate::json::fields_are_found(f, "auth_token"@, 3);
    crate::json::fields_are_found(f, "listen_port"@, 4);
    crate::json::fields_are_found(f, "tun_name"@, 5);
    crate::json::fields_are_found(f, "prefix_len"@, 6);
}

} // verus!
