//! The daemon that runs every network of a device: whom it obeys, what it is asked, and what it
//! answers.

use crate::digest::{hex_encode, hex_text};
use crate::json::{docs, field_agrees, with_field_then_field, Doc, Json, Num};
use crate::node::dns::opt_text;
use crate::node::host::{acts, join2, no_steps, push_run, run, strs, Os, Step};
use crate::node::join::Slot;
use crate::node::sorted::{ascending, sorted_texts};
use crate::parse::{parse_text, text_doc};
use crate::random::random_bytes;
use crate::text::{chars_of, same_text, text_of};
use crate::words::{split_lines, trim_text};
use vstd::prelude::*;
use vstd::string::StringExecFns;

verus! {

/// Whether a character is a letter of ASCII.
pub open spec fn is_letter(c: char) -> bool {
    'a' <= c <= 'z' || 'A' <= c <= 'Z'
}

/// How many characters an escape sequence has: up to its first letter, or to the end of the text.
pub open spec fn sequence_len(s: Seq<char>) -> int
    decreases s.len(),
{
    if s.len() == 0 {
        0
    } else if is_letter(s[0]) {
        1
    } else {
        1 + sequence_len(s.skip(1))
    }
}

/// The bounds of `sequence_len`.
pub proof fn sequence_len_bounds(s: Seq<char>)
    ensures
        0 <= sequence_len(s) <= s.len(),
    decreases s.len(),
{
    if s.len() > 0 {
        sequence_len_bounds(s.skip(1));
    }
}

/// A text without escape sequences.
pub open spec fn without_escapes(s: Seq<char>) -> Seq<char>
    decreases s.len(),
{
    if s.len() == 0 {
        seq![]
    } else if s[0] == '\u{1b}' {
        proof {
            sequence_len_bounds(s.skip(1));
        }
        without_escapes(s.skip(1).skip(sequence_len(s.skip(1))))
    } else {
        seq![s[0]] + without_escapes(s.skip(1))
    }
}

/// Takes the escape sequences of a terminal out of a text.
pub fn strip_ansi(s: &str) -> (r: String)
    ensures
        r@ == without_escapes(s@),
{
    let v = chars_of(s);
    let mut r = String::new();
    let mut i: usize = 0;
    assert(v@.skip(0) =~= v@);
    assert(r@ + without_escapes(v@) =~= without_escapes(v@));
    while i < v.len()
        invariant
            i <= v@.len(),
            r@ + without_escapes(v@.skip(i as int)) == without_escapes(s@),
        decreases v@.len() - i,
    {
        let ghost rest = v@.skip(i as int);
        let ghost before = r@;
        assert(rest.skip(1) =~= v@.skip(i + 1));
        if v[i] == '\u{1b}' {
            let start: usize = i + 1;
            let mut k: usize = start;
            let mut done = false;
            assert(v@.skip(k as int) =~= v@.skip(start as int));
            while k < v.len() && !done
                invariant
                    start <= k <= v@.len(),
                    done ==> k - start == sequence_len(v@.skip(start as int)),
                    !done ==> k - start + sequence_len(v@.skip(k as int)) == sequence_len(
                        v@.skip(start as int),
                    ),
                decreases v@.len() - k,
            {
                assert(v@.skip(k as int)[0] == v@[k as int]);
                assert(v@.skip(k as int).skip(1) =~= v@.skip(k + 1));
                let c = v[k];
                if (c >= 'a' && c <= 'z') || (c >= 'A' && c <= 'Z') {
                    done = true;
                }
                k += 1;
            }
            proof {
                if !done {
                    assert(v@.skip(k as int).len() == 0);
                }
                assert(v@.skip(start as int).skip(k - start) =~= v@.skip(k as int));
            }
            i = k;
        } else {
            r.push(v[i]);
            assert(r@ + without_escapes(v@.skip(i + 1)) =~= before + without_escapes(rest));
            i += 1;
        }
    }
    assert(v@.skip(i as int) =~= seq![]);
    assert(r@ =~= without_escapes(s@));
    r
}

/// Some lines with line feeds between them.
pub open spec fn lines_joined(ls: Seq<Seq<char>>) -> Seq<char>
    decreases ls.len(),
{
    if ls.len() == 0 {
        seq![]
    } else if ls.len() == 1 {
        ls[0]
    } else {
        lines_joined(ls.drop_last()) + "\n"@ + ls.last()
    }
}

/// How many lines of a log are shown: as many as asked for, at least one and at most 2000.
pub open spec fn shown_lines(asked: u64) -> int {
    if asked < 1 {
        1
    } else if asked > 2000 {
        2000
    } else {
        asked as int
    }
}

/// The end of a log.
pub open spec fn log_tail(raw: Seq<char>, asked: u64) -> Seq<char> {
    let ls = crate::words::lines(raw);
    let n = shown_lines(asked);
    lines_joined(
        if ls.len() <= n {
            ls
        } else {
            ls.skip(ls.len() - n)
        },
    )
}

/// The end of a log, without escape sequences.
pub fn tail(raw: &str, asked: u64) -> (r: String)
    ensures
        r@ == without_escapes(log_tail(raw@, asked)),
{
    let ls = split_lines(raw);
    let n: usize = if asked < 1 {
        1
    } else if asked > 2000 {
        2000
    } else {
        asked as usize
    };
    let from: usize = if ls.len() <= n {
        0
    } else {
        ls.len() - n
    };
    let ghost all = crate::text::texts(ls@);
    let ghost shown = all.skip(from as int);
    let mut s = String::new();
    let mut i: usize = from;
    assert(s@ =~= lines_joined(shown.take(0)));
    while i < ls.len()
        invariant
            from <= i <= ls@.len(),
            all == crate::text::texts(ls@),
            shown == all.skip(from as int),
            s@ == lines_joined(shown.take(i - from)),
        decreases ls@.len() - i,
    {
        let ghost before = s@;
        if i > from {
            s.append("\n");
        }
        s.append(ls[i].as_str());
        proof {
            let k = i - from;
            assert(shown.take(k + 1).drop_last() =~= shown.take(k));
            assert(shown.take(k + 1).last() == ls@[i as int]@);
            if k == 0 {
                assert(before =~= seq![]);
                assert(s@ =~= ls@[i as int]@);
            }
        }
        i += 1;
    }
    proof {
        assert(shown.take(shown.len() as int) =~= shown);
        if from == 0 {
            assert(shown =~= all);
        }
    }
    strip_ansi(s.as_str())
}

/// An answer that something went wrong.
pub open spec fn error_doc(what: Seq<char>) -> Doc {
    Doc::Object(seq![("error"@, Doc::Text(what))])
}

/// Answers that something went wrong.
pub fn error_reply(what: &str) -> (j: Json)
    ensures
        j.doc() == error_doc(what@),
{
    let j = Json::empty().with("error", Json::from_text(what));
    assert(j.doc()->Object_0 =~= error_doc(what@)->Object_0);
    j
}

/// What the daemon is asked.
#[derive(Debug)]
pub enum Ask {
    /// The status of every network that is up.
    Status,
    /// The networks that the device has joined.
    Networks,
    /// To join the network of a token.
    Join(String),
    /// To bring a network up or down.
    SetIface(String, bool),
    /// To change a network's settings.
    Settings(String),
    /// For a network's settings.
    GetConfig(String),
    /// To replace a network's settings.
    SetConfig(String, Json),
    /// To take settings as those of a new network.
    Import(Json),
    /// To leave a network.
    Leave(String),
    /// To bring every network down and stop.
    Shutdown,
    /// For the last lines of a network's log.
    Logs(String, u64),
    /// Something that it does not do; it answers with this.
    Refused(Json),
}

/// What the daemon is asked, as a value.
pub enum Asked {
    Status,
    Networks,
    Join(Seq<char>),
    SetIface(Seq<char>, bool),
    Settings(Seq<char>),
    GetConfig(Seq<char>),
    SetConfig(Seq<char>, Doc),
    Import(Doc),
    Leave(Seq<char>),
    Shutdown,
    Logs(Seq<char>, u64),
    Refused(Doc),
}

impl Ask {
    /// What is asked, as a value.
    pub open spec fn view(&self) -> Asked {
        match *self {
            Ask::Status => Asked::Status,
            Ask::Networks => Asked::Networks,
            Ask::Join(t) => Asked::Join(t@),
            Ask::SetIface(i, up) => Asked::SetIface(i@, up),
            Ask::Settings(i) => Asked::Settings(i@),
            Ask::GetConfig(i) => Asked::GetConfig(i@),
            Ask::SetConfig(i, c) => Asked::SetConfig(i@, c.doc()),
            Ask::Import(c) => Asked::Import(c.doc()),
            Ask::Leave(i) => Asked::Leave(i@),
            Ask::Shutdown => Asked::Shutdown,
            Ask::Logs(i, n) => Asked::Logs(i@, n),
            Ask::Refused(j) => Asked::Refused(j.doc()),
        }
    }
}

/// A text, or none of it.
pub open spec fn or_empty(s: Option<Seq<char>>) -> Seq<char> {
    match s {
        Some(t) => t,
        None => ""@,
    }
}

/// A text in a field, or none of it.
fn text_or_empty<'a>(j: &'a Json, name: &str) -> (s: &'a str)
    ensures
        s@ == or_empty(j.text_at(name@)),
{
    match j.str_at(name) {
        Some(t) => t,
        None => "",
    }
}

/// A refusal.
pub open spec fn refused(what: Seq<char>) -> Asked {
    Asked::Refused(error_doc(what))
}

/// Refuses.
fn refuse(what: &str) -> (a: Ask)
    ensures
        a@ == refused(what@),
{
    Ask::Refused(error_reply(what))
}

/// Whether a document holds the settings of a network.
pub open spec fn is_config(d: Doc) -> bool {
    d is Object && d.text_at("private_key"@) is Some
}

/// The document in a field, or nothing.
pub open spec fn doc_at(d: Doc, name: Seq<char>) -> Doc {
    match d.field(name) {
        Some(x) => x,
        None => Doc::Null,
    }
}

/// What a request asks for. `admin` is whether the environment lets others change everything.
pub open spec fn asked(req: Doc, admin: bool) -> Asked {
    let cmd = or_empty(req.text_at("cmd"@));
    let iface = or_empty(req.text_at("iface"@));
    let token = or_empty(req.text_at("token"@));
    let config = doc_at(req, "config"@);
    if cmd == "status"@ {
        Asked::Status
    } else if cmd == "networks"@ {
        Asked::Networks
    } else if cmd == "join"@ {
        if token.len() == 0 {
            refused("missing join token"@)
        } else {
            Asked::Join(token)
        }
    } else if cmd == "up"@ || cmd == "down"@ {
        if iface.len() == 0 {
            refused("missing iface"@)
        } else {
            Asked::SetIface(iface, cmd == "up"@)
        }
    } else if cmd == "settings"@ {
        if iface.len() == 0 {
            refused("missing iface"@)
        } else {
            Asked::Settings(iface)
        }
    } else if cmd == "config"@ || cmd == "get_config"@ {
        Asked::GetConfig(iface)
    } else if cmd == "set-config"@ || cmd == "set_config"@ {
        if !admin {
            refused("admin api disabled"@)
        } else if iface.len() == 0 || !is_config(config) {
            refused("invalid config (need an object with private_key, \u{2026})"@)
        } else {
            Asked::SetConfig(iface, config)
        }
    } else if cmd == "import"@ {
        if !admin {
            refused("admin api disabled"@)
        } else if !is_config(config) {
            refused(
                "not a fluxpeer node config (need private_key, device_id, control_server)"@,
            )
        } else {
            Asked::Import(config)
        }
    } else if cmd == "leave"@ {
        if iface.len() == 0 {
            refused("missing iface"@)
        } else {
            Asked::Leave(iface)
        }
    } else if cmd == "shutdown"@ {
        if admin {
            Asked::Shutdown
        } else {
            refused("admin api disabled"@)
        }
    } else if cmd == "logs"@ {
        if iface.len() == 0 {
            refused("missing iface"@)
        } else {
            Asked::Logs(
                iface,
                match req.u64_at("lines"@) {
                    Some(n) => n,
                    None => 200,
                },
            )
        }
    } else {
        refused("unknown cmd: "@ + cmd)
    }
}

/// The document in a field, if it holds the settings of a network.
fn config_at(req: &Json) -> (r: Option<Json>)
    ensures
        r is Some <==> is_config(doc_at(req.doc(), "config"@)),
        r matches Some(c) ==> c.doc() == doc_at(req.doc(), "config"@),
{
    proof {
        field_agrees(*req, "config"@);
    }
    match req.get("config") {
        Some(c) => {
            proof {
                field_agrees(*c, "private_key"@);
            }
            match c {
                Json::Object(_) => {
                    if c.str_at("private_key").is_some() {
                        Some(c.copy())
                    } else {
                        None
                    }
                },
                _ => None,
            }
        },
        None => None,
    }
}

/// What a request asks for.
pub fn dispatch(req: &Json, admin: bool) -> (a: Ask)
    ensures
        a@ == asked(req.doc(), admin),
{
    proof {
        field_agrees(*req, "cmd"@);
        field_agrees(*req, "iface"@);
        field_agrees(*req, "token"@);
        field_agrees(*req, "lines"@);
    }
    let cmd = text_or_empty(req, "cmd");
    let iface = text_or_empty(req, "iface");
    if same_text(cmd, "status") {
        Ask::Status
    } else if same_text(cmd, "networks") {
        Ask::Networks
    } else if same_text(cmd, "join") {
        let token = text_or_empty(req, "token");
        if token.is_empty() {
            refuse("missing join token")
        } else {
            Ask::Join(String::from_str(token))
        }
    } else if same_text(cmd, "up") || same_text(cmd, "down") {
        if iface.is_empty() {
            refuse("missing iface")
        } else {
            Ask::SetIface(String::from_str(iface), same_text(cmd, "up"))
        }
    } else if same_text(cmd, "settings") {
        if iface.is_empty() {
            refuse("missing iface")
        } else {
            Ask::Settings(String::from_str(iface))
        }
    } else if same_text(cmd, "config") || same_text(cmd, "get_config") {
        Ask::GetConfig(String::from_str(iface))
    } else if same_text(cmd, "set-config") || same_text(cmd, "set_config") {
        if !admin {
            return refuse("admin api disabled");
        }
        match config_at(req) {
            Some(c) => if iface.is_empty() {
                refuse("invalid config (need an object with private_key, \u{2026})")
            } else {
                Ask::SetConfig(String::from_str(iface), c)
            },
            None => refuse("invalid config (need an object with private_key, \u{2026})"),
        }
    } else if same_text(cmd, "import") {
        if !admin {
            return refuse("admin api disabled");
        }
        match config_at(req) {
            Some(c) => Ask::Import(c),
            None => refuse(
                "not a fluxpeer node config (need private_key, device_id, control_server)",
            ),
        }
    } else if same_text(cmd, "leave") {
        if iface.is_empty() {
            refuse("missing iface")
        } else {
            Ask::Leave(String::from_str(iface))
        }
    } else if same_text(cmd, "shutdown") {
        if admin {
            Ask::Shutdown
        } else {
            refuse("admin api disabled")
        }
    } else if same_text(cmd, "logs") {
        if iface.is_empty() {
            refuse("missing iface")
        } else {
            let n: u64 = match req.get_u64("lines") {
                Some(n) => n,
                None => 200,
            };
            Ask::Logs(String::from_str(iface), n)
        }
    } else {
        refuse(join2("unknown cmd: ", cmd).as_str())
    }
}

/// What a request gets: a refusal, unless it names the daemon's token.
pub open spec fn handled(req: Doc, token: Seq<char>, admin: bool) -> Asked {
    if req.text_at("auth"@) == Some(token) {
        asked(req, admin)
    } else {
        refused("unauthorized"@)
    }
}

/// Whether the environment lets others change everything: its `FLUXPEER_ALLOW_ADMIN_API` is `1`.
pub fn admin_api_allowed(value: &Option<String>) -> (r: bool)
    ensures
        r == (opt_text(*value) == Some("1"@)),
{
    match value {
        Some(v) => same_text(v.as_str(), "1"),
        None => false,
    }
}

/// What a request gets.
pub fn handle(req: &Json, token: &str, admin: bool) -> (a: Ask)
    ensures
        a@ == handled(req.doc(), token@, admin),
{
    proof {
        field_agrees(*req, "auth"@);
    }
    match req.str_at("auth") {
        Some(t) => if same_text(t, token) {
            dispatch(req, admin)
        } else {
            refuse("unauthorized")
        },
        None => refuse("unauthorized"),
    }
}

/// The request on a line, blanks aside; no document at all asks for nothing.
pub open spec fn request_of(line: Seq<char>) -> Doc {
    match text_doc(crate::words::trim(line)) {
        Some(d) => d,
        None => Doc::Null,
    }
}

/// Reads the request on a line.
pub fn read_request(line: &str) -> (req: Json)
    ensures
        req.doc() == request_of(line@),
{
    match parse_text(trim_text(line).as_str()) {
        Ok(j) => j,
        Err(_) => Json::Null,
    }
}

/// Reads the request on a line; gives it with what it gets.
pub fn handle_line(line: &str, token: &str, admin: bool) -> (r: (Json, Ask))
    ensures
        r.0.doc() == request_of(line@),
        r.1@ == handled(request_of(line@), token@, admin),
{
    let req = read_request(line);
    let ask = handle(&req, token, admin);
    (req, ask)
}

/// Settings without the private key.
pub open spec fn redacted(d: Doc) -> Doc {
    if d is Object {
        d.with_field("private_key"@, Doc::Text("<redacted>"@))
    } else {
        d
    }
}

/// Takes the private key out of settings.
pub fn redact_config(cfg: Json) -> (r: Json)
    ensures
        r.doc() == redacted(cfg.doc()),
{
    match cfg {
        Json::Object(_) => {
            let mut c = cfg;
            c.put("private_key", Json::from_text("<redacted>"));
            c
        },
        other => other,
    }
}

/// Answers with a network's settings.
pub fn config_reply(iface: &str, cfg: Option<Json>) -> (j: Json)
    ensures
        j.doc() == match cfg {
            Some(c) => Doc::Object(
                seq![("iface"@, Doc::Text(iface@)), ("config"@, redacted(c.doc()))],
            ),
            None => error_doc("no config for iface"@),
        },
{
    match cfg {
        Some(c) => {
            let ghost hidden = redacted(c.doc());
            let j = Json::empty().with("iface", Json::from_text(iface)).with(
                "config",
                redact_config(c),
            );
            assert(j.doc()->Object_0 =~= seq![("iface"@, Doc::Text(iface@)), ("config"@, hidden)]);
            j
        },
        None => error_reply("no config for iface"),
    }
}

/// Answers that something was done to a network.
pub fn done_reply(iface: &str) -> (j: Json)
    ensures
        j.doc() == Doc::Object(seq![("ok"@, Doc::Bool(true)), ("iface"@, Doc::Text(iface@))]),
        j is Object,
{
    let j = Json::empty().with("ok", Json::Bool(true)).with("iface", Json::from_text(iface));
    assert(j.doc()->Object_0 =~= seq![("ok"@, Doc::Bool(true)), ("iface"@, Doc::Text(iface@))]);
    j
}

/// Answers that a network was brought up or down.
pub fn iface_reply(iface: &str, up: bool) -> (j: Json)
    ensures
        j.doc() == Doc::Object(
            seq![
                ("ok"@, Doc::Bool(true)),
                ("iface"@, Doc::Text(iface@)),
                ("up"@, Doc::Bool(up)),
            ],
        ),
{
    let j = done_reply(iface).with("up", Json::Bool(up));
    assert(j.doc()->Object_0 =~= seq![
        ("ok"@, Doc::Bool(true)),
        ("iface"@, Doc::Text(iface@)),
        ("up"@, Doc::Bool(up)),
    ]);
    j
}

/// Answers that a network was left.
pub fn leave_reply(iface: &str) -> (j: Json)
    ensures
        j.doc() == Doc::Object(
            seq![
                ("ok"@, Doc::Bool(true)),
                ("iface"@, Doc::Text(iface@)),
                ("left"@, Doc::Bool(true)),
            ],
        ),
{
    let j = done_reply(iface).with("left", Json::Bool(true));
    assert(j.doc()->Object_0 =~= seq![
        ("ok"@, Doc::Bool(true)),
        ("iface"@, Doc::Text(iface@)),
        ("left"@, Doc::Bool(true)),
    ]);
    j
}

/// Answers that the daemon stops.
pub fn shutdown_reply() -> (j: Json)
    ensures
        j.doc() == Doc::Object(seq![("ok"@, Doc::Bool(true)), ("shutdown"@, Doc::Bool(true))]),
{
    let j = Json::empty().with("ok", Json::Bool(true)).with("shutdown", Json::Bool(true));
    assert(j.doc()->Object_0 =~= seq![("ok"@, Doc::Bool(true)), ("shutdown"@, Doc::Bool(true))]);
    j
}

/// Answers that there are no settings of a network.
pub fn unknown_iface_reply(iface: &str) -> (j: Json)
    ensures
        j.doc() == error_doc("no config for "@ + iface@),
{
    error_reply(join2("no config for ", iface).as_str())
}

/// What is shown of a log, where there is one.
pub open spec fn log_text(raw: Option<Seq<char>>, asked: u64) -> Seq<char> {
    match raw {
        Some(s) => without_escapes(log_tail(s, asked)),
        None => ""@,
    }
}

/// Answers with the end of a network's log, where there is one.
pub fn log_reply(iface: &str, raw: &Option<String>, asked: u64) -> (j: Json)
    ensures
        j.doc() == Doc::Object(
            seq![
                ("iface"@, Doc::Text(iface@)),
                ("log"@, Doc::Text(log_text(opt_text(*raw), asked))),
            ],
        ),
{
    let log = match raw {
        Some(s) => tail(s.as_str(), asked),
        None => String::from_str(""),
    };
    let j = Json::empty().with("iface", Json::from_text(iface)).with(
        "log",
        Json::from_text(log.as_str()),
    );
    assert(j.doc()->Object_0 =~= seq![
        ("iface"@, Doc::Text(iface@)),
        ("log"@, Doc::Text(log@)),
    ]);
    j
}

/// A network with its settings, for the list of networks.
pub open spec fn network_doc(conf: Doc, up: bool) -> Doc {
    Doc::Object(
        seq![
            (
                "iface"@,
                Doc::Text(
                    match conf.text_at("tun_name"@) {
                        Some(t) => t,
                        None => "?"@,
                    },
                ),
            ),
            ("control_server"@, Doc::Text(or_empty(conf.text_at("control_server"@)))),
            ("up"@, Doc::Bool(up)),
            ("exit_node"@, Doc::Bool(conf.bool_at("exit_node"@) == Some(true))),
            ("force_relay"@, Doc::Bool(conf.bool_at("force_relay"@) == Some(true))),
            ("relay_anytls"@, Doc::Bool(conf.bool_at("relay_anytls"@) == Some(true))),
            ("relay_bond"@, Doc::Bool(conf.bool_at("relay_bond"@) == Some(true))),
        ],
    )
}

/// Whether a field is true.
fn flag(j: &Json, name: &str) -> (b: bool)
    ensures
        b == (j.bool_at(name@) == Some(true)),
{
    match j.get_bool(name) {
        Some(b) => b,
        None => false,
    }
}

/// The interface that settings are for.
pub fn iface_of(conf: &Json) -> (r: Option<String>)
    ensures
        opt_text(r) == conf.doc().text_at("tun_name"@),
{
    proof {
        field_agrees(*conf, "tun_name"@);
    }
    match conf.str_at("tun_name") {
        Some(t) => Some(String::from_str(t)),
        None => None,
    }
}

/// A network for the list of networks.
pub fn network_entry(conf: &Json, up: bool) -> (j: Json)
    ensures
        j.doc() == network_doc(conf.doc(), up),
{
    proof {
        field_agrees(*conf, "tun_name"@);
        field_agrees(*conf, "control_server"@);
        field_agrees(*conf, "exit_node"@);
        field_agrees(*conf, "force_relay"@);
        field_agrees(*conf, "relay_anytls"@);
        field_agrees(*conf, "relay_bond"@);
    }
    let iface = match conf.str_at("tun_name") {
        Some(t) => t,
        None => "?",
    };
    let j = Json::empty().with("iface", Json::from_text(iface)).with(
        "control_server",
        Json::from_text(text_or_empty(conf, "control_server")),
    ).with("up", Json::Bool(up)).with("exit_node", Json::Bool(flag(conf, "exit_node"))).with(
        "force_relay",
        Json::Bool(flag(conf, "force_relay")),
    ).with("relay_anytls", Json::Bool(flag(conf, "relay_anytls"))).with(
        "relay_bond",
        Json::Bool(flag(conf, "relay_bond")),
    );
    assert(j.doc()->Object_0 =~= network_doc(conf.doc(), up)->Object_0);
    j
}

/// Settings with a field taken over from a request, if it is there.
pub open spec fn take_field(cfg: Doc, req: Doc, name: Seq<char>) -> Doc {
    match req.field(name) {
        Some(v) => cfg.with_field(name, v),
        None => cfg,
    }
}

/// Settings with a truth value taken over from a request, if it is there.
pub open spec fn take_flag(cfg: Doc, req: Doc, name: Seq<char>) -> Doc {
    match req.bool_at(name) {
        Some(b) => cfg.with_field(name, Doc::Bool(b)),
        None => cfg,
    }
}

/// Settings with the address that a request tells others; none where it is empty.
pub open spec fn take_endpoint(cfg: Doc, req: Doc) -> Doc {
    match req.text_at("endpoint"@) {
        Some(ep) => cfg.with_field(
            "advertise"@,
            Doc::Array(
                if ep.len() == 0 {
                    seq![]
                } else {
                    seq![Doc::Text(ep)]
                },
            ),
        ),
        None => cfg,
    }
}

/// The settings that a request changes the size of packets, the name servers, the address and what
/// goes around the tunnel of.
pub open spec fn edited_values(cfg: Doc, req: Doc) -> Doc {
    let a = take_field(cfg, req, "mtu"@);
    let b = take_field(a, req, "dns"@);
    let c = take_endpoint(b, req);
    take_field(c, req, "exclude_routes"@)
}

/// The settings that a request changes.
pub open spec fn edited(cfg: Doc, req: Doc) -> Doc {
    let a = edited_values(cfg, req);
    let b = take_flag(a, req, "exit_node"@);
    let c = take_flag(b, req, "force_relay"@);
    let d = take_flag(c, req, "relay_anytls"@);
    take_flag(d, req, "relay_bond"@)
}

/// Takes a field over from a request.
fn put_from(cfg: &mut Json, req: &Json, name: &str)
    requires
        req.doc().field(name@) is None || *old(cfg) is Object || *old(cfg) is Null,
    ensures
        final(cfg).doc() == take_field(old(cfg).doc(), req.doc(), name@),
        *final(cfg) is Object || *final(cfg) == *old(cfg),
{
    proof {
        field_agrees(*req, name@);
    }
    match req.get(name) {
        Some(v) => {
            cfg.put(name, v.copy());
        },
        None => {},
    }
}

/// Takes a truth value over from a request.
fn put_flag(cfg: &mut Json, req: &Json, name: &str)
    requires
        req.doc().bool_at(name@) is None || *old(cfg) is Object || *old(cfg) is Null,
    ensures
        final(cfg).doc() == take_flag(old(cfg).doc(), req.doc(), name@),
        *final(cfg) is Object || *final(cfg) == *old(cfg),
{
    proof {
        field_agrees(*req, name@);
    }
    match req.get_bool(name) {
        Some(b) => {
            cfg.put(name, Json::Bool(b));
        },
        None => {},
    }
}

/// Takes the address over from a request.
fn put_endpoint(cfg: &mut Json, req: &Json)
    requires
        req.doc().text_at("endpoint"@) is None || *old(cfg) is Object || *old(cfg) is Null,
    ensures
        final(cfg).doc() == take_endpoint(old(cfg).doc(), req.doc()),
        *final(cfg) is Object || *final(cfg) == *old(cfg),
{
    proof {
        field_agrees(*req, "endpoint"@);
    }
    match req.str_at("endpoint") {
        Some(ep) => {
            let mut v: Vec<Json> = Vec::new();
            if !ep.is_empty() {
                let j = Json::from_text(ep);
                v.push(j);
                assert(v@.drop_last() =~= seq![]);
                assert(docs(v@.drop_last()) =~= seq![]);
                assert(v@.last().doc() == Doc::Text(ep@));
                assert(docs(v@) =~= seq![Doc::Text(ep@)]);
            } else {
                assert(docs(v@) =~= seq![]);
            }
            cfg.put("advertise", Json::Array(v));
        },
        None => {},
    }
}

/// Whether a request changes any setting.
pub open spec fn edits(req: Doc) -> bool {
    ||| req.field("mtu"@) is Some
    ||| req.field("dns"@) is Some
    ||| req.text_at("endpoint"@) is Some
    ||| req.field("exclude_routes"@) is Some
    ||| req.bool_at("exit_node"@) is Some
    ||| req.bool_at("force_relay"@) is Some
    ||| req.bool_at("relay_anytls"@) is Some
    ||| req.bool_at("relay_bond"@) is Some
}

/// Whether a request changes any setting, so that there have to be settings to change.
pub fn edits_any(req: &Json) -> (r: bool)
    ensures
        r == edits(req.doc()),
{
    proof {
        field_agrees(*req, "mtu"@);
        field_agrees(*req, "dns"@);
        field_agrees(*req, "endpoint"@);
        field_agrees(*req, "exclude_routes"@);
        field_agrees(*req, "exit_node"@);
        field_agrees(*req, "force_relay"@);
        field_agrees(*req, "relay_anytls"@);
        field_agrees(*req, "relay_bond"@);
    }
    req.get("mtu").is_some() || req.get("dns").is_some() || req.str_at("endpoint").is_some()
        || req.get("exclude_routes").is_some() || req.get_bool("exit_node").is_some()
        || req.get_bool("force_relay").is_some() || req.get_bool("relay_anytls").is_some()
        || req.get_bool("relay_bond").is_some()
}

/// Changes a network's settings as a request asks.
pub fn edit_settings(cfg: &mut Json, req: &Json)
    requires
        edits(req.doc()) ==> *old(cfg) is Object || *old(cfg) is Null,
    ensures
        final(cfg).doc() == edited(old(cfg).doc(), req.doc()),
{
    put_from(cfg, req, "mtu");
    put_from(cfg, req, "dns");
    put_endpoint(cfg, req);
    put_from(cfg, req, "exclude_routes");
    put_flag(cfg, req, "exit_node");
    put_flag(cfg, req, "force_relay");
    put_flag(cfg, req, "relay_anytls");
    put_flag(cfg, req, "relay_bond");
}

/// Gives the settings of a new network a place of their own.
pub fn import_config(cfg: Json, slot: &Slot) -> (r: Json)
    requires
        cfg is Object,
    ensures
        r.doc() == cfg.doc().with_field("tun_name"@, Doc::Text(slot.tun@)).with_field(
            "listen_port"@,
            Doc::Number(Num::Unsigned(slot.port as u64)),
        ),
{
    let mut c = cfg;
    c.put("tun_name", Json::from_text(slot.tun.as_str()));
    c.put("listen_port", Json::from_u64(slot.port as u64));
    c
}

/// Makes a device a gateway for others, or not, in a network's settings: not where they are no
/// object.
pub fn set_exit(cfg: &mut Json, enabled: bool) -> (ok: bool)
    ensures
        ok == (*old(cfg) is Object),
        ok ==> final(cfg).doc() == old(cfg).doc().with_field("exit_node"@, Doc::Bool(enabled)),
        !ok ==> *final(cfg) == *old(cfg),
{
    let object = match cfg {
        Json::Object(_) => true,
        _ => false,
    };
    if object {
        cfg.put("exit_node", Json::Bool(enabled));
    }
    object
}

/// Why the settings of further networks are left as they are.
#[derive(Debug)]
pub enum ExitStop {
    /// The next file holds no document, for this reason.
    NotJson(String),
    /// The next file holds a document that is no object.
    NotObject,
}

/// What becomes of the settings of all networks.
#[derive(Debug)]
pub struct ExitRun {
    /// What the first files hold from then on. As many networks are changed.
    pub written: Vec<Json>,
    /// Why the others are left as they are, where there are others.
    pub stop: Option<ExitStop>,
}

/// The settings in a file with the gateway switched on or off; none where they are no object.
pub open spec fn exit_set_in(raw: Seq<char>, enabled: bool) -> Option<Doc> {
    match text_doc(raw) {
        Some(Doc::Object(fields)) => Some(
            Doc::Object(fields).with_field("exit_node"@, Doc::Bool(enabled)),
        ),
        _ => None,
    }
}

impl ExitRun {
    /// Whether this is what becomes of files that hold these texts: they are changed in order, up
    /// to the first that is no object.
    pub open spec fn follows(self, raws: Seq<Seq<char>>, enabled: bool) -> bool {
        let n = self.written@.len() as int;
        &&& n <= raws.len()
        &&& forall|i: int|
            0 <= i < n ==> exit_set_in(raws[i], enabled) == Some((#[trigger] self.written@[i]).doc())
        &&& match self.stop {
            None => n == raws.len(),
            Some(ExitStop::NotJson(_)) => n < raws.len() && text_doc(raws[n]) is None,
            Some(ExitStop::NotObject) => n < raws.len() && (text_doc(raws[n]) matches Some(d) && !(d
                is Object)),
        }
    }
}

/// Makes a device a gateway for others, or not, in the settings of all its networks. `raws` is what
/// their files hold, in order.
pub fn set_exit_all(raws: &Vec<String>, enabled: bool) -> (run: ExitRun)
    ensures
        run.follows(crate::text::texts(raws@), enabled),
{
    let ghost all = crate::text::texts(raws@);
    let mut written: Vec<Json> = Vec::new();
    let mut i: usize = 0;
    while i < raws.len()
        invariant
            i <= raws@.len(),
            all == crate::text::texts(raws@),
            written@.len() == i,
            forall|j: int|
                0 <= j < i ==> exit_set_in(all[j], enabled) == Some((#[trigger] written@[j]).doc()),
        decreases raws@.len() - i,
    {
        assert(all[i as int] == raws@[i as int]@);
        let mut cfg = match parse_text(raws[i].as_str()) {
            Ok(j) => j,
            Err(e) => {
                return ExitRun { written, stop: Some(ExitStop::NotJson(e)) };
            },
        };
        if !set_exit(&mut cfg, enabled) {
            return ExitRun { written, stop: Some(ExitStop::NotObject) };
        }
        written.push(cfg);
        i += 1;
    }
    ExitRun { written, stop: None }
}

/// Every setting but the one for the gateway stays as it is in a file that is changed.
pub proof fn exit_changes_one_setting(raw: Seq<char>, enabled: bool, other: Seq<char>)
    requires
        exit_set_in(raw, enabled) is Some,
    ensures
        ({
            let d = exit_set_in(raw, enabled)->Some_0;
            &&& d.field("exit_node"@) == Some(Doc::Bool(enabled))
            &&& other != "exit_node"@ ==> d.field(other) == text_doc(raw)->Some_0.field(other)
        }),
{
    let d = text_doc(raw)->Some_0;
    with_field_then_field(d, "exit_node"@, Doc::Bool(enabled), "exit_node"@);
    with_field_then_field(d, "exit_node"@, Doc::Bool(enabled), other);
}

/// The number of bytes that a character takes.
pub open spec fn width(c: char) -> int {
    if (c as u32) < 0x80 {
        1
    } else if (c as u32) < 0x800 {
        2
    } else if (c as u32) < 0x1_0000 {
        3
    } else {
        4
    }
}

/// The number of bytes that a text takes.
pub open spec fn byte_len(s: Seq<char>) -> int
    decreases s.len(),
{
    if s.len() == 0 {
        0
    } else {
        byte_len(s.drop_last()) + width(s.last())
    }
}

/// Whether a text takes sixteen bytes or more.
fn is_long(s: &str) -> (r: bool)
    ensures
        r == (byte_len(s@) >= 16),
{
    let v = chars_of(s);
    let mut n: u64 = 0;
    let mut i: usize = 0;
    while i < v.len()
        invariant
            i <= v@.len(),
            n < 16,
            n == byte_len(v@.take(i as int)),
            v@ == s@,
        decreases v@.len() - i,
    {
        let c = v[i] as u32;
        let w: u64 = if c < 0x80 {
            1
        } else if c < 0x800 {
            2
        } else if c < 0x1_0000 {
            3
        } else {
            4
        };
        proof {
            assert(v@.take(i + 1).drop_last() =~= v@.take(i as int));
            assert(v@.take(i + 1).last() == v@[i as int]);
        }
        n += w;
        i += 1;
        if n >= 16 {
            proof {
                byte_len_grows(v@, i as int);
            }
            return true;
        }
    }
    assert(v@.take(v@.len() as int) =~= v@);
    false
}

/// More characters take no fewer bytes.
proof fn byte_len_grows(s: Seq<char>, i: int)
    requires
        0 <= i <= s.len(),
    ensures
        byte_len(s.take(i)) <= byte_len(s),
    decreases s.len() - i,
{
    if i < s.len() {
        byte_len_grows(s, i + 1);
        assert(s.take(i + 1).drop_last() =~= s.take(i));
    } else {
        assert(s.take(i) =~= s);
    }
}

/// The daemon's token.
#[derive(Debug)]
pub enum Token {
    /// The one in the file.
    Kept(String),
    /// A new one, which has to be written.
    Fresh(String),
    /// None: the system has no random bytes to give.
    Unavailable,
}

/// The token that is kept in a file, if it is long enough.
pub open spec fn kept(file: Option<Seq<char>>) -> Option<Seq<char>> {
    match file {
        Some(s) if byte_len(crate::words::trim(s)) >= 16 => Some(crate::words::trim(s)),
        _ => None,
    }
}

/// Reads the daemon's token from its file, or makes one of 24 random bytes.
pub fn token_from(file: &Option<String>, random: Option<Vec<u8>>) -> (t: Token)
    requires
        random matches Some(b) ==> b@.len() == 24,
    ensures
        match kept(opt_text(*file)) {
            Some(k) => t matches Token::Kept(s) && s@ == k,
            None => match random {
                Some(b) => t matches Token::Fresh(s) && s@ == hex_text(b@),
                None => t is Unavailable,
            },
        },
{
    match file {
        Some(s) => {
            let t = trim_text(s.as_str());
            if is_long(t.as_str()) {
                return Token::Kept(t);
            }
        },
        None => {},
    }
    match random {
        Some(b) => Token::Fresh(hex_encode(b.as_slice())),
        None => Token::Unavailable,
    }
}

/// Reads the daemon's token from its file, or makes one: 24 random bytes.
pub fn ensure_token(file: &Option<String>) -> (t: Token)
    ensures
        match kept(opt_text(*file)) {
            Some(k) => t matches Token::Kept(s) && s@ == k,
            None => match t {
                Token::Fresh(s) => exists|b: Seq<u8>| b.len() == 24 && s@ == #[trigger] hex_text(b),
                Token::Unavailable => true,
                Token::Kept(_) => false,
            },
        },
{
    let random = random_bytes(24);
    token_from(file, random)
}

/// Whether a file's name ends in a dot and `ext`, with something before it.
pub open spec fn has_extension(name: Seq<char>, ext: Seq<char>) -> bool {
    let k = name.len() - ext.len() - 1;
    &&& k > 0
    &&& name[k] == '.'
    &&& name.skip(k + 1) == ext
}

/// Whether a file's name ends in a dot and `ext`.
fn extension_is(name: &str, ext: &str) -> (r: bool)
    ensures
        r == has_extension(name@, ext@),
{
    let v = chars_of(name);
    let n: usize = v.len();
    let m: usize = ext.unicode_len();
    if n < m || n - m < 2 {
        return false;
    }
    let k: usize = n - m - 1;
    if v[k] != '.' {
        return false;
    }
    let rest = text_of(v.as_slice(), k + 1, n);
    assert(rest@ =~= name@.skip(k + 1));
    same_text(rest.as_str(), ext)
}

/// The names with an extension.
pub open spec fn with_extension(names: Seq<Seq<char>>, ext: Seq<char>) -> Seq<Seq<char>> {
    names.filter(|n: Seq<char>| has_extension(n, ext))
}

/// The names of a directory's files with an extension, in order.
pub fn files_with(names: &Vec<String>, ext: &str) -> (out: Vec<String>)
    requires
        forall|i: int| 0 <= i < ext@.len() ==> #[trigger] ext@[i] != '.',
    ensures
        ascending(crate::text::texts(out@)),
        crate::text::texts(out@).to_set() == with_extension(
            crate::text::texts(names@),
            ext@,
        ).to_set(),
{
    let mut some: Vec<String> = Vec::new();
    let ghost all = crate::text::texts(names@);
    let mut i: usize = 0;
    assert(all.take(0) =~= seq![]);
    assert(crate::text::texts(some@) =~= with_extension(all.take(0), ext@)) by {
        reveal(Seq::filter);
    }
    while i < names.len()
        invariant
            i <= names@.len(),
            all == crate::text::texts(names@),
            crate::text::texts(some@) == with_extension(all.take(i as int), ext@),
        decreases names@.len() - i,
    {
        proof {
            reveal(Seq::filter);
            assert(all.take(i + 1).drop_last() =~= all.take(i as int));
            assert(all.take(i + 1).last() == names@[i as int]@);
        }
        if extension_is(names[i].as_str(), ext) {
            let s = names[i].clone();
            proof {
                crate::text::texts_push(some@, s);
            }
            some.push(s);
        }
        i += 1;
    }
    assert(all.take(all.len() as int) =~= all);
    sorted_texts(&some)
}

/// What takes an interface away that a network left behind.
pub fn link_del(os: Os, iface: &str) -> (out: Vec<Step>)
    ensures
        acts(out@) == if os == Os::Linux {
            seq![run("ip"@, seq!["link"@, "del"@, iface@])]
        } else {
            seq![]
        },
{
    let mut out = no_steps();
    if os == Os::Linux {
        let a = ["link", "del", iface];
        push_run(&mut out, "ip", a.as_slice());
        assert(strs(a@) =~= seq!["link"@, "del"@, iface@]);
        assert(acts(out@) =~= seq![run("ip"@, seq!["link"@, "del"@, iface@])]);
    }
    out
}

/// No escape character is left in a text once its escape sequences are taken out.
pub proof fn no_escape_is_left(s: Seq<char>)
    ensures
        !without_escapes(s).contains('\u{1b}'),
    decreases s.len(),
{
    if s.len() > 0 {
        if s[0] == '\u{1b}' {
            sequence_len_bounds(s.skip(1));
            no_escape_is_left(s.skip(1).skip(sequence_len(s.skip(1))));
        } else {
            no_escape_is_left(s.skip(1));
            let rest = without_escapes(s.skip(1));
            let all = seq![s[0]] + rest;
            if all.contains('\u{1b}') {
                let i = choose|i: int| 0 <= i < all.len() && all[i] == '\u{1b}';
                assert(rest[i - 1] == '\u{1b}');
            }
        }
    }
}

/// A request that does not name the daemon's token gets nothing but a refusal, whatever it asks.
pub proof fn strangers_are_refused(req: Doc, token: Seq<char>, admin: bool)
    requires
        req.text_at("auth"@) != Some(token),
    ensures
        handled(req, token, admin) == Asked::Refused(error_doc("unauthorized"@)),
{
}

/// Unless the environment allows it, no request replaces settings, brings them in or stops the
/// daemon.
pub proof fn admin_asks_are_gated(req: Doc, token: Seq<char>)
    ensures
        !(handled(req, token, false) is SetConfig),
        !(handled(req, token, false) is Import),
        !(handled(req, token, false) is Shutdown),
{
}

/// The private key is never handed out: what is answered has a placeholder in its place, and every
/// other field as it was.
pub proof fn key_is_not_handed_out(cfg: Doc, other: Seq<char>)
    requires
        cfg is Object,
    ensures
        redacted(cfg).field("private_key"@) == Some(Doc::Text("<redacted>"@)),
        other != "private_key"@ ==> redacted(cfg).field(other) == cfg.field(other),
{
    with_field_then_field(cfg, "private_key"@, Doc::Text("<redacted>"@), "private_key"@);
    with_field_then_field(cfg, "private_key"@, Doc::Text("<redacted>"@), other);
}

/// A field that is taken over, and one that is not.
proof fn taken_field(cfg: Doc, req: Doc, name: Seq<char>, other: Seq<char>)
    requires
        cfg is Object || cfg is Null,
    ensures
        ({
            let after = take_field(cfg, req, name);
            &&& after is Object || after is Null
            &&& other != name ==> after.field(other) == cfg.field(other)
            &&& req.field(name) is Some ==> after.field(name) == req.field(name)
        }),
        ({
            let after = take_flag(cfg, req, name);
            &&& after is Object || after is Null
            &&& other != name ==> after.field(other) == cfg.field(other)
        }),
{
    match req.field(name) {
        Some(v) => {
            with_field_then_field(cfg, name, v, other);
            with_field_then_field(cfg, name, v, name);
        },
        None => {},
    }
    match req.bool_at(name) {
        Some(b) => {
            with_field_then_field(cfg, name, Doc::Bool(b), other);
        },
        None => {},
    }
}

/// The address that is taken over.
proof fn taken_endpoint(cfg: Doc, req: Doc, other: Seq<char>)
    requires
        cfg is Object || cfg is Null,
    ensures
        ({
            let after = take_endpoint(cfg, req);
            &&& after is Object || after is Null
            &&& other != "advertise"@ ==> after.field(other) == cfg.field(other)
        }),
{
    match req.text_at("endpoint"@) {
        Some(ep) => {
            let v = Doc::Array(
                if ep.len() == 0 {
                    seq![]
                } else {
                    seq![Doc::Text(ep)]
                },
            );
            with_field_then_field(cfg, "advertise"@, v, other);
        },
        None => {},
    }
}

/// Whether a request can change a setting.
pub open spec fn editable(name: Seq<char>) -> bool {
    ||| name == "mtu"@
    ||| name == "dns"@
    ||| name == "advertise"@
    ||| name == "exclude_routes"@
    ||| name == "exit_node"@
    ||| name == "force_relay"@
    ||| name == "relay_anytls"@
    ||| name == "relay_bond"@
}

/// A request leaves every setting alone that it cannot change, the private key and the token of the
/// control server among them.
pub proof fn other_settings_are_kept(cfg: Doc, req: Doc, name: Seq<char>)
    requires
        cfg is Object || cfg is Null,
        !editable(name),
    ensures
        edited(cfg, req).field(name) == cfg.field(name),
{
    let a = take_field(cfg, req, "mtu"@);
    let b = take_field(a, req, "dns"@);
    let c = take_endpoint(b, req);
    let d = take_field(c, req, "exclude_routes"@);
    let e = take_flag(d, req, "exit_node"@);
    let f = take_flag(e, req, "force_relay"@);
    let g = take_flag(f, req, "relay_anytls"@);
    taken_field(cfg, req, "mtu"@, name);
    taken_field(a, req, "dns"@, name);
    taken_endpoint(b, req, name);
    taken_field(c, req, "exclude_routes"@, name);
    taken_field(d, req, "exit_node"@, name);
    taken_field(e, req, "force_relay"@, name);
    taken_field(f, req, "relay_anytls"@, name);
    taken_field(g, req, "relay_bond"@, name);
}

/// What a request gives for the networks around the tunnel is what the settings hold afterwards.
pub proof fn exclusions_are_taken_over(cfg: Doc, req: Doc)
    requires
        cfg is Object || cfg is Null,
        req.field("exclude_routes"@) is Some,
    ensures
        edited(cfg, req).field("exclude_routes"@) == req.field("exclude_routes"@),
{
    reveal_strlit("exclude_routes");
    reveal_strlit("exit_node");
    reveal_strlit("force_relay");
    reveal_strlit("relay_anytls");
    reveal_strlit("relay_bond");
    let name = "exclude_routes"@;
    assert(name.len() == 14 && "exit_node"@.len() == 9 && "force_relay"@.len() == 11
        && "relay_anytls"@.len() == 12 && "relay_bond"@.len() == 10);
    let a = take_field(cfg, req, "mtu"@);
    let b = take_field(a, req, "dns"@);
    let c = take_endpoint(b, req);
    let d = take_field(c, req, name);
    let e = take_flag(d, req, "exit_node"@);
    let f = take_flag(e, req, "force_relay"@);
    let g = take_flag(f, req, "relay_anytls"@);
    taken_field(cfg, req, "mtu"@, name);
    taken_field(a, req, "dns"@, name);
    taken_endpoint(b, req, name);
    taken_field(c, req, name, name);
    taken_field(d, req, "exit_node"@, name);
    taken_field(e, req, "force_relay"@, name);
    taken_field(f, req, "relay_anytls"@, name);
    taken_field(g, req, "relay_bond"@, name);
}

/// No command is another one.
proof fn commands_differ()
    ensures
        "status"@ != "networks"@,
        "status"@ != "join"@,
        "status"@ != "up"@,
        "status"@ != "down"@,
        "status"@ != "settings"@,
        "status"@ != "config"@,
        "status"@ != "get_config"@,
        "status"@ != "set-config"@,
        "status"@ != "set_config"@,
        "status"@ != "import"@,
        "status"@ != "leave"@,
        "status"@ != "shutdown"@,
        "status"@ != "logs"@,
        "networks"@ != "join"@,
        "networks"@ != "up"@,
        "networks"@ != "down"@,
        "networks"@ != "settings"@,
        "networks"@ != "config"@,
        "networks"@ != "get_config"@,
        "networks"@ != "set-config"@,
        "networks"@ != "set_config"@,
        "networks"@ != "import"@,
        "networks"@ != "leave"@,
        "networks"@ != "shutdown"@,
        "networks"@ != "logs"@,
        "join"@ != "up"@,
        "join"@ != "down"@,
        "join"@ != "settings"@,
        "join"@ != "config"@,
        "join"@ != "get_config"@,
        "join"@ != "set-config"@,
        "join"@ != "set_config"@,
        "join"@ != "import"@,
        "join"@ != "leave"@,
        "join"@ != "shutdown"@,
        "join"@ != "logs"@,
        "up"@ != "down"@,
        "up"@ != "settings"@,
        "up"@ != "config"@,
        "up"@ != "get_config"@,
        "up"@ != "set-config"@,
        "up"@ != "set_config"@,
        "up"@ != "import"@,
        "up"@ != "leave"@,
        "up"@ != "shutdown"@,
        "up"@ != "logs"@,
        "down"@ != "settings"@,
        "down"@ != "config"@,
        "down"@ != "get_config"@,
        "down"@ != "set-config"@,
        "down"@ != "set_config"@,
        "down"@ != "import"@,
        "down"@ != "leave"@,
        "down"@ != "shutdown"@,
        "down"@ != "logs"@,
        "settings"@ != "config"@,
        "settings"@ != "get_config"@,
        "settings"@ != "set-config"@,
        "settings"@ != "set_config"@,
        "settings"@ != "import"@,
        "settings"@ != "leave"@,
        "settings"@ != "shutdown"@,
        "settings"@ != "logs"@,
        "config"@ != "get_config"@,
        "config"@ != "set-config"@,
        "config"@ != "set_config"@,
        "config"@ != "import"@,
        "config"@ != "leave"@,
        "config"@ != "shutdown"@,
        "config"@ != "logs"@,
        "get_config"@ != "set-config"@,
        "get_config"@ != "set_config"@,
        "get_config"@ != "import"@,
        "get_config"@ != "leave"@,
        "get_config"@ != "shutdown"@,
        "get_config"@ != "logs"@,
        "set-config"@ != "set_config"@,
        "set-config"@ != "import"@,
        "set-config"@ != "leave"@,
        "set-config"@ != "shutdown"@,
        "set-config"@ != "logs"@,
        "set_config"@ != "import"@,
        "set_config"@ != "leave"@,
        "set_config"@ != "shutdown"@,
        "set_config"@ != "logs"@,
        "import"@ != "leave"@,
        "import"@ != "shutdown"@,
        "import"@ != "logs"@,
        "leave"@ != "shutdown"@,
        "leave"@ != "logs"@,
        "shutdown"@ != "logs"@,
{
    reveal_strlit("status");
    reveal_strlit("networks");
    reveal_strlit("join");
    reveal_strlit("up");
    reveal_strlit("down");
    reveal_strlit("settings");
    reveal_strlit("config");
    reveal_strlit("get_config");
    reveal_strlit("set-config");
    reveal_strlit("set_config");
    reveal_strlit("import");
    reveal_strlit("leave");
    reveal_strlit("shutdown");
    reveal_strlit("logs");
    assert("status"@[0] == 's' && "config"@[0] == 'c');
    assert("status"@[0] == 's' && "import"@[0] == 'i');
    assert("networks"@[0] == 'n' && "settings"@[0] == 's');
    assert("networks"@[0] == 'n' && "shutdown"@[0] == 's');
    assert("join"@[0] == 'j' && "down"@[0] == 'd');
    assert("join"@[0] == 'j' && "logs"@[0] == 'l');
    assert("down"@[0] == 'd' && "logs"@[0] == 'l');
    assert("settings"@[1] == 'e' && "shutdown"@[1] == 'h');
    assert("config"@[0] == 'c' && "import"@[0] == 'i');
    assert("get_config"@[0] == 'g' && "set-config"@[0] == 's');
    assert("get_config"@[0] == 'g' && "set_config"@[0] == 's');
    assert("set-config"@[3] == '-' && "set_config"@[3] == '_');
    assert("status"@.len() == 6);
    assert("networks"@.len() == 8);
    assert("join"@.len() == 4);
    assert("up"@.len() == 2);
    assert("down"@.len() == 4);
    assert("settings"@.len() == 8);
    assert("config"@.len() == 6);
    assert("get_config"@.len() == 10);
    assert("set-config"@.len() == 10);
    assert("set_config"@.len() == 10);
    assert("import"@.len() == 6);
    assert("leave"@.len() == 5);
    assert("shutdown"@.len() == 8);
    assert("logs"@.len() == 4);
}

/// Each command asks for what it is named after: `up` brings the named network up and `down` brings
/// it down, for one.
pub proof fn commands_do_as_named(req: Doc, cmd: Seq<char>, iface: Seq<char>, admin: bool)
    requires
        req.text_at("cmd"@) == Some(cmd),
        req.text_at("iface"@) == Some(iface),
        iface.len() > 0,
    ensures
        cmd == "status"@ ==> asked(req, admin) == Asked::Status,
        cmd == "networks"@ ==> asked(req, admin) == Asked::Networks,
        cmd == "up"@ ==> asked(req, admin) == Asked::SetIface(iface, true),
        cmd == "down"@ ==> asked(req, admin) == Asked::SetIface(iface, false),
        cmd == "settings"@ ==> asked(req, admin) == Asked::Settings(iface),
        cmd == "config"@ || cmd == "get_config"@ ==> asked(req, admin) == Asked::GetConfig(iface),
        cmd == "leave"@ ==> asked(req, admin) == Asked::Leave(iface),
        cmd == "logs"@ ==> (asked(req, admin) matches Asked::Logs(i, n) && i == iface && (
        req.u64_at("lines"@) matches Some(k) ==> n == k) && (req.u64_at("lines"@) is None ==> n
            == 200)),
        cmd == "shutdown"@ ==> asked(req, true) == Asked::Shutdown && asked(req, false) is Refused,
        cmd == "set-config"@ || cmd == "set_config"@ ==> (req.field("config"@) matches Some(c)
            ==> (c is Object && c.text_at("private_key"@) is Some ==> asked(req, true)
            == Asked::SetConfig(iface, c)) && (c.text_at("private_key"@) is None ==> asked(
            req,
            true,
        ) is Refused)),
        cmd == "set-config"@ || cmd == "set_config"@ || cmd == "import"@ ==> asked(req, false)
            is Refused,
        cmd == "import"@ ==> (req.field("config"@) matches Some(c) ==> (c is Object && c.text_at(
            "private_key"@,
        ) is Some ==> asked(req, true) == Asked::Import(c)) && (c.text_at("private_key"@) is None
            ==> asked(req, true) is Refused)),
        cmd == "join"@ ==> (req.text_at("token"@) matches Some(t) ==> (t.len() > 0 ==> asked(
            req,
            admin,
        ) == Asked::Join(t)) && (t.len() == 0 ==> asked(req, admin) is Refused)),
{
    commands_differ();
}

/// A command that concerns one network is refused where none is named.
pub proof fn unnamed_networks_are_refused(req: Doc, cmd: Seq<char>, admin: bool)
    requires
        req.text_at("cmd"@) == Some(cmd),
        req.text_at("iface"@) is None,
        cmd == "up"@ || cmd == "down"@ || cmd == "settings"@ || cmd == "leave"@ || cmd == "logs"@
            || cmd == "set-config"@ || cmd == "set_config"@,
    ensures
        asked(req, admin) is Refused,
{
    reveal_strlit("");
    commands_differ();
}

/// With the right token a request is done as asked.
pub proof fn the_token_lets_in(req: Doc, token: Seq<char>, admin: bool)
    requires
        req.text_at("auth"@) == Some(token),
    ensures
        handled(req, token, admin) == asked(req, admin),
{
}

/// No name of a setting is another one.
proof fn settings_differ()
    ensures
        "mtu"@ != "dns"@,
        "mtu"@.len() == 3,
        "dns"@.len() == 3,
        "advertise"@.len() == 9,
        "exclude_routes"@.len() == 14,
        "exit_node"@.len() == 9,
        "exit_node"@ != "advertise"@,
        "force_relay"@.len() == 11,
        "relay_anytls"@.len() == 12,
        "relay_bond"@.len() == 10,
{
    reveal_strlit("mtu");
    reveal_strlit("dns");
    reveal_strlit("advertise");
    reveal_strlit("exclude_routes");
    reveal_strlit("exit_node");
    reveal_strlit("force_relay");
    reveal_strlit("relay_anytls");
    reveal_strlit("relay_bond");
    assert("mtu"@[0] == 'm' && "dns"@[0] == 'd');
    assert("advertise"@[0] == 'a' && "exit_node"@[0] == 'e');
}

/// What a request gives for a setting is what the setting is afterwards.
pub proof fn given_settings_are_taken_over(cfg: Doc, req: Doc, ep: Seq<char>)
    requires
        cfg is Object || cfg is Null,
    ensures
        req.field("mtu"@) is Some ==> edited(cfg, req).field("mtu"@) == req.field("mtu"@),
        req.field("dns"@) is Some ==> edited(cfg, req).field("dns"@) == req.field("dns"@),
        req.text_at("endpoint"@) == Some(ep) && ep.len() > 0 ==> edited(cfg, req).field(
            "advertise"@,
        ) == Some(Doc::Array(seq![Doc::Text(ep)])),
        req.text_at("endpoint"@) == Some(ep) && ep.len() == 0 ==> edited(cfg, req).field(
            "advertise"@,
        ) == Some(Doc::Array(seq![])),
        req.bool_at("exit_node"@) is Some ==> edited(cfg, req).bool_at("exit_node"@)
            == req.bool_at("exit_node"@),
        req.bool_at("force_relay"@) is Some ==> edited(cfg, req).bool_at("force_relay"@)
            == req.bool_at("force_relay"@),
        req.bool_at("relay_anytls"@) is Some ==> edited(cfg, req).bool_at("relay_anytls"@)
            == req.bool_at("relay_anytls"@),
        req.bool_at("relay_bond"@) is Some ==> edited(cfg, req).bool_at("relay_bond"@)
            == req.bool_at("relay_bond"@),
{
    settings_differ();
    let a = take_field(cfg, req, "mtu"@);
    let b = take_field(a, req, "dns"@);
    let c = take_endpoint(b, req);
    let d = take_field(c, req, "exclude_routes"@);
    let e = take_flag(d, req, "exit_node"@);
    let f = take_flag(e, req, "force_relay"@);
    let g = take_flag(f, req, "relay_anytls"@);
    setting_survives(cfg, req, "mtu"@);
    setting_survives(cfg, req, "dns"@);
    setting_survives(cfg, req, "advertise"@);
    setting_survives(cfg, req, "exit_node"@);
    setting_survives(cfg, req, "force_relay"@);
    setting_survives(cfg, req, "relay_anytls"@);
    taken_field(cfg, req, "mtu"@, "mtu"@);
    taken_field(a, req, "dns"@, "dns"@);
    taken_endpoint(b, req, "mtu"@);
    taken_field(c, req, "exclude_routes"@, "mtu"@);
    taken_field(d, req, "exit_node"@, "mtu"@);
    taken_field(e, req, "force_relay"@, "mtu"@);
    taken_field(f, req, "relay_anytls"@, "mtu"@);
    flag_is_set(d, req, "exit_node"@);
    flag_is_set(e, req, "force_relay"@);
    flag_is_set(f, req, "relay_anytls"@);
    flag_is_set(g, req, "relay_bond"@);
    if req.text_at("endpoint"@) == Some(ep) {
        let v = Doc::Array(
            if ep.len() == 0 {
                seq![]
            } else {
                seq![Doc::Text(ep)]
            },
        );
        with_field_then_field(b, "advertise"@, v, "advertise"@);
    }
}

/// A flag that is given is set.
proof fn flag_is_set(cfg: Doc, req: Doc, name: Seq<char>)
    requires
        cfg is Object || cfg is Null,
    ensures
        req.bool_at(name) is Some ==> take_flag(cfg, req, name).bool_at(name) == req.bool_at(name),
{
    if let Some(b) = req.bool_at(name) {
        with_field_then_field(cfg, name, Doc::Bool(b), name);
    }
}

/// Taking over one setting leaves what the ones before it have set.
proof fn setting_survives(cfg: Doc, req: Doc, name: Seq<char>)
    requires
        cfg is Object || cfg is Null,
    ensures
        ({
            let a = take_field(cfg, req, "mtu"@);
            let b = take_field(a, req, "dns"@);
            let c = take_endpoint(b, req);
            let d = take_field(c, req, "exclude_routes"@);
            let e = take_flag(d, req, "exit_node"@);
            let f = take_flag(e, req, "force_relay"@);
            let g = take_flag(f, req, "relay_anytls"@);
            let h = take_flag(g, req, "relay_bond"@);
            &&& edited(cfg, req) == h
            &&& name != "dns"@ ==> b.field(name) == a.field(name)
            &&& name != "advertise"@ ==> c.field(name) == b.field(name)
            &&& name != "exclude_routes"@ ==> d.field(name) == c.field(name)
            &&& name != "exit_node"@ ==> e.field(name) == d.field(name)
            &&& name != "force_relay"@ ==> f.field(name) == e.field(name)
            &&& name != "relay_anytls"@ ==> g.field(name) == f.field(name)
            &&& name != "relay_bond"@ ==> h.field(name) == g.field(name)
        }),
{
    let a = take_field(cfg, req, "mtu"@);
    let b = take_field(a, req, "dns"@);
    let c = take_endpoint(b, req);
    let d = take_field(c, req, "exclude_routes"@);
    let e = take_flag(d, req, "exit_node"@);
    let f = take_flag(e, req, "force_relay"@);
    let g = take_flag(f, req, "relay_anytls"@);
    taken_field(cfg, req, "mtu"@, name);
    taken_field(a, req, "dns"@, name);
    taken_endpoint(b, req, name);
    taken_field(c, req, "exclude_routes"@, name);
    taken_field(d, req, "exit_node"@, name);
    taken_field(e, req, "force_relay"@, name);
    taken_field(f, req, "relay_anytls"@, name);
    taken_field(g, req, "relay_bond"@, name);
}

/// A request that gives nothing changes nothing, and says so.
pub proof fn nothing_given_nothing_changed(cfg: Doc, req: Doc)
    requires
        !edits(req),
    ensures
        edited(cfg, req) == cfg,
{
}

/// A request that gives any setting is an edit.
pub proof fn any_setting_is_an_edit(req: Doc)
    ensures
        req.field("mtu"@) is Some ==> edits(req),
        req.field("dns"@) is Some ==> edits(req),
        req.text_at("endpoint"@) is Some ==> edits(req),
        req.field("exclude_routes"@) is Some ==> edits(req),
        req.bool_at("exit_node"@) is Some ==> edits(req),
        req.bool_at("force_relay"@) is Some ==> edits(req),
        req.bool_at("relay_anytls"@) is Some ==> edits(req),
        req.bool_at("relay_bond"@) is Some ==> edits(req),
        req is Null ==> !edits(req),
{
}

/// A log is shown from its end: its last line is always there, no line goes missing while they are
/// no more than asked for, and never are more than two thousand or less than one shown.
pub proof fn logs_are_shown_from_the_end(raw: Seq<char>, n: u64)
    requires
        crate::words::lines(raw).len() > 0,
    ensures
        ({
            let ls = crate::words::lines(raw);
            let shown = log_tail(raw, n);
            &&& shown.len() >= ls.last().len()
            &&& shown.skip(shown.len() - ls.last().len()) == ls.last()
            &&& n == 1 || n == 0 ==> shown == ls.last()
            &&& ls.len() <= n && n <= 2000 ==> shown == lines_joined(ls)
            &&& ls.len() > 2000 && n >= 2000 ==> shown == lines_joined(ls.skip(ls.len() - 2000))
            &&& 1 <= n < ls.len() && n <= 2000 ==> shown == lines_joined(ls.skip(ls.len() - n))
        }),
{
    let ls = crate::words::lines(raw);
    let k = shown_lines(n);
    let part = if ls.len() <= k {
        ls
    } else {
        ls.skip(ls.len() - k)
    };
    assert(part.last() == ls.last());
    let shown = lines_joined(part);
    assert(shown.skip(shown.len() - ls.last().len()) =~= ls.last());
    if n == 0 || n == 1 {
        assert(part.len() == 1);
        assert(part[0] == part.last());
    }
    if ls.len() == k {
        assert(ls.skip(0) =~= ls);
    }
}

/// Text without escapes is shown as it is.
pub proof fn plain_text_is_shown_as_it_is(s: Seq<char>)
    requires
        !s.contains('\u{1b}'),
    ensures
        without_escapes(s) == s,
    decreases s.len(),
{
    if s.len() > 0 {
        let t = s.skip(1);
        assert(s[0] != '\u{1b}');
        assert forall|i: int| 0 <= i < t.len() implies #[trigger] t[i] != '\u{1b}' by {
            assert(t[i] == s[i + 1]);
            assert(s.contains(s[i + 1]));
        }
        plain_text_is_shown_as_it_is(t);
        assert(seq![s[0]] + t =~= s);
    }
}

/// An escape is taken out up to the letter that ends it, and what follows is shown.
pub proof fn escapes_end_with_a_letter(params: Seq<char>, end: char, rest: Seq<char>)
    requires
        forall|i: int| 0 <= i < params.len() ==> !is_letter(#[trigger] params[i]),
        is_letter(end),
    ensures
        without_escapes(seq!['\u{1b}'] + params + seq![end] + rest) == without_escapes(rest),
        is_letter('m'),
        is_letter('K'),
        !is_letter('['),
        !is_letter('3'),
        !is_letter(';'),
{
    let s = seq!['\u{1b}'] + params + seq![end] + rest;
    let t = s.skip(1);
    assert(t =~= params + seq![end] + rest);
    sequence_len_is(t, params.len() as int);
    assert(t.skip(params.len() as int + 1) =~= rest);
}

/// How long an escape is.
proof fn sequence_len_is(s: Seq<char>, i: int)
    requires
        0 <= i < s.len(),
        forall|j: int| 0 <= j < i ==> !is_letter(#[trigger] s[j]),
        is_letter(s[i]),
    ensures
        sequence_len(s) == i + 1,
    decreases i,
{
    if i > 0 {
        let t = s.skip(1);
        assert(!is_letter(s[0]));
        assert forall|j: int| 0 <= j < i - 1 implies !is_letter(#[trigger] t[j]) by {
            assert(t[j] == s[j + 1]);
        }
        sequence_len_is(t, i - 1);
    }
}

/// A token is kept if it is at least sixteen characters long, and one of fewer plain characters is
/// not.
pub proof fn short_tokens_are_replaced(s: Seq<char>)
    ensures
        crate::words::trim(s).len() >= 16 ==> kept(Some(s)) == Some(crate::words::trim(s)),
        crate::words::trim(s).len() < 16 && (forall|i: int|
            0 <= i < crate::words::trim(s).len() ==> (#[trigger] crate::words::trim(s)[i] as u32)
                < 0x80) ==> kept(Some(s)) is None,
        kept(None) is None,
{
    widths_add_up(crate::words::trim(s));
}

/// A text has at least as many bytes as characters, and as many where all of them are plain.
proof fn widths_add_up(s: Seq<char>)
    ensures
        byte_len(s) >= s.len(),
        (forall|i: int| 0 <= i < s.len() ==> (#[trigger] s[i] as u32) < 0x80) ==> byte_len(s)
            == s.len(),
    decreases s.len(),
{
    if s.len() > 0 {
        let f = s.drop_last();
        widths_add_up(f);
        if forall|i: int| 0 <= i < s.len() ==> (#[trigger] s[i] as u32) < 0x80 {
            assert forall|i: int| 0 <= i < f.len() implies (#[trigger] f[i] as u32) < 0x80 by {
                assert(f[i] == s[i]);
            }
            assert((s[s.len() - 1] as u32) < 0x80);
        }
    }
}

/// A file has an extension if something stands before the dot in front of it.
pub proof fn files_by_extension(stem: Seq<char>, ext: Seq<char>)
    ensures
        has_extension(stem + seq!['.'] + ext, ext) <==> stem.len() > 0,
        !has_extension(ext, ext),
{
    let s = stem + seq!['.'] + ext;
    assert(s.skip(stem.len() as int + 1) =~= ext);
}

/// A network is shown with its name, whether it is up, and its settings.
pub proof fn networks_are_shown(conf: Doc, up: bool)
    ensures
        ({
            let d = network_doc(conf, up);
            &&& d.bool_at("up"@) == Some(up)
            &&& conf.text_at("tun_name"@) is Some ==> d.text_at("iface"@) == conf.text_at(
                "tun_name"@,
            )
            &&& conf.text_at("control_server"@) is Some ==> d.text_at("control_server"@)
                == conf.text_at("control_server"@)
            &&& d.bool_at("exit_node"@) == Some(conf.bool_at("exit_node"@) == Some(true))
            &&& d.bool_at("force_relay"@) == Some(conf.bool_at("force_relay"@) == Some(true))
            &&& d.bool_at("relay_anytls"@) == Some(conf.bool_at("relay_anytls"@) == Some(true))
            &&& d.bool_at("relay_bond"@) == Some(conf.bool_at("relay_bond"@) == Some(true))
        }),
{
    settings_differ();
    reveal_strlit("iface");
    reveal_strlit("control_server");
    reveal_strlit("up");
    assert("iface"@.len() == 5 && "control_server"@.len() == 14 && "up"@.len() == 2);
    let f = network_doc(conf, up)->Object_0;
    crate::json::fields_are_found(f, "iface"@, 0);
    crate::json::fields_are_found(f, "control_server"@, 1);
    crate::json::fields_are_found(f, "up"@, 2);
    crate::json::fields_are_found(f, "exit_node"@, 3);
    crate::json::fields_are_found(f, "force_relay"@, 4);
    crate::json::fields_are_found(f, "relay_anytls"@, 5);
    crate::json::fields_are_found(f, "relay_bond"@, 6);
}

/// A log that cannot be read is shown as nothing; any other is shown without escapes.
pub proof fn unread_logs_are_empty(raw: Seq<char>, n: u64)
    ensures
        log_text(None, n).len() == 0,
        !log_text(Some(raw), n).contains('\u{1b}'),
        !log_tail(raw, n).contains('\u{1b}') ==> log_text(Some(raw), n) == log_tail(raw, n),
{
    reveal_strlit("");
    no_escape_is_left(log_tail(raw, n));
    if !log_tail(raw, n).contains('\u{1b}') {
        plain_text_is_shown_as_it_is(log_tail(raw, n));
    }
}

/// A line that is no document is refused, whatever the token is.
pub proof fn garbage_is_refused(line: Seq<char>, token: Seq<char>, admin: bool)
    requires
        text_doc(crate::words::trim(line)) is None,
    ensures
        handled(request_of(line), token, admin) is Refused,
{
}

/// Setting the exit changes the networks one after another: each document in front of the first
/// that is none is written with the setting, and no other file is.
pub proof fn networks_are_changed_in_turn(
    run: ExitRun,
    raws: Seq<Seq<char>>,
    enabled: bool,
    i: int,
)
    requires
        run.follows(raws, enabled),
        0 <= i < raws.len(),
    ensures
        i < run.written@.len() ==> run.written@[i].doc().field("exit_node"@) == Some(
            Doc::Bool(enabled),
        ),
        i < run.written@.len() ==> (text_doc(raws[i]) matches Some(d) && d is Object),
        run.stop is None ==> run.written@.len() == raws.len(),
        run.stop is Some ==> run.written@.len() < raws.len(),
        run.stop matches Some(ExitStop::NotJson(_)) ==> text_doc(raws[run.written@.len() as int])
            is None,
        run.stop matches Some(ExitStop::NotObject) ==> (text_doc(raws[run.written@.len() as int])
            matches Some(d) && !(d is Object)),
        (forall|k: int|
            0 <= k < raws.len() ==> (text_doc(#[trigger] raws[k]) matches Some(d) && d is Object))
            ==> run.stop is None,
{
    let n = run.written@.len() as int;
    if i < n {
        assert(exit_set_in(raws[i], enabled) == Some(run.written@[i].doc()));
        exit_changes_one_setting(raws[i], enabled, "exit_node"@);
    }
    if n < raws.len() {
        let r = raws[n];
    }
}

/// Characters count by the bytes that they take: one up to 127, two up to 2047, three up to 65535,
/// and four beyond.
pub proof fn characters_take_bytes(s: Seq<char>, c: char)
    ensures
        byte_len(seq![]) == 0,
        c as u32 <= 127 ==> byte_len(s.push(c)) == byte_len(s) + 1,
        128 <= c as u32 <= 2047 ==> byte_len(s.push(c)) == byte_len(s) + 2,
        2048 <= c as u32 <= 65535 ==> byte_len(s.push(c)) == byte_len(s) + 3,
        65536 <= c as u32 ==> byte_len(s.push(c)) == byte_len(s) + 4,
{
    assert(s.push(c).drop_last() =~= s);
}

} // verus!
