//! Directory-service ("master server") registration client.
//!
//! Registration POSTs a JSON document describing this server instance to
//! `{serverlist_host}/server-list`; a 200 response carrying an integer
//! `verified-level` and a string `challenge` marks the instance registered.
//! The JSON bodies are built here byte by byte with a proved layout; the
//! HTTP transport and the JSON reading of responses go through small
//! trusted wrappers around reqwest and serde_json.

use vstd::prelude::*;
use vstd::string::{StringExecFns, StringSliceAdditionalSpecFns};

use crate::config::Config;
use crate::net::spec_str_bytes;

verus! {

/// One hexadecimal digit, lower case.
pub open spec fn spec_hex_digit(n: u8) -> u8
    recommends
        n < 16,
{
    if n < 10 {
        (0x30 + n) as u8
    } else {
        (0x57 + n) as u8
    }
}

/// How one byte of a string value appears inside a JSON string literal:
/// quote and backslash are escaped, control bytes become `\u00XX`, and
/// everything else stands for itself.
pub open spec fn spec_escape_byte(b: u8) -> Seq<u8> {
    if b == 0x22 {
        seq![0x5cu8, 0x22u8]
    } else if b == 0x5c {
        seq![0x5cu8, 0x5cu8]
    } else if b < 0x20 {
        seq![0x5cu8, 0x75u8, 0x30u8, 0x30u8, spec_hex_digit(b / 16), spec_hex_digit(b % 16)]
    } else {
        seq![b]
    }
}

/// A byte string escaped for use inside a JSON string literal.
pub open spec fn spec_json_escaped(s: Seq<u8>) -> Seq<u8>
    decreases s.len(),
{
    if s.len() == 0 {
        Seq::empty()
    } else {
        spec_json_escaped(s.drop_last()) + spec_escape_byte(s.last())
    }
}

/// Decimal numeral of a natural number, most significant digit first.
pub open spec fn spec_dec(n: nat) -> Seq<u8>
    decreases n,
{
    if n < 10 {
        seq![(0x30 + n) as u8]
    } else {
        spec_dec(n / 10).push((0x30 + n % 10) as u8)
    }
}

fn hex_digit(n: u8) -> (r: u8)
    requires
        n < 16,
    ensures
        r == spec_hex_digit(n),
{
    if n < 10 {
        0x30 + n
    } else {
        0x57 + n
    }
}

/// Appends a byte slice unchanged.
fn push_bytes(out: &mut Vec<u8>, s: &[u8])
    ensures
        final(out)@ == old(out)@ + s@,
{
    let mut i: usize = 0;
    while i < s.len()
        invariant
            i <= s@.len(),
            out@ == old(out)@ + s@.subrange(0, i as int),
        decreases s@.len() - i,
    {
        out.push(s[i]);
        proof {
            assert(out@ =~= old(out)@ + s@.subrange(0, i + 1));
        }
        i += 1;
    }
    proof {
        assert(s@.subrange(0, s@.len() as int) =~= s@);
    }
}

/// Appends a byte string escaped for a JSON string literal.
fn push_json_escaped(out: &mut Vec<u8>, s: &[u8])
    ensures
        final(out)@ == old(out)@ + spec_json_escaped(s@),
{
    let mut i: usize = 0;
    while i < s.len()
        invariant
            i <= s@.len(),
            out@ == old(out)@ + spec_json_escaped(s@.subrange(0, i as int)),
        decreases s@.len() - i,
    {
        let b = s[i];
        if b == 0x22 {
            out.push(0x5c);
            out.push(0x22);
        } else if b == 0x5c {
            out.push(0x5c);
            out.push(0x5c);
        } else if b < 0x20 {
            out.push(0x5c);
            out.push(0x75);
            out.push(0x30);
            out.push(0x30);
            out.push(hex_digit(b / 16));
            out.push(hex_digit(b % 16));
        } else {
            out.push(b);
        }
        proof {
            let pre = s@.subrange(0, i as int);
            let cur = s@.subrange(0, i + 1);
            assert(cur.drop_last() =~= pre);
            assert(cur.last() == s@[i as int]);
            assert(spec_json_escaped(cur) == spec_json_escaped(pre) + spec_escape_byte(
                s@[i as int],
            ));
            assert(out@ =~= old(out)@ + spec_json_escaped(cur));
        }
        i += 1;
    }
    proof {
        assert(s@.subrange(0, s@.len() as int) =~= s@);
    }
}

/// Reversing after a push puts the new element in front.
proof fn lemma_reverse_push(s: Seq<u8>, d: u8)
    ensures
        s.push(d).reverse() =~= seq![d] + s.reverse(),
{
    let t = s.push(d);
    assert forall|i: int| 0 <= i < t.len() implies t.reverse()[i] == (seq![d] + s.reverse())[i] by {
        if i == 0 {
            assert(t[t.len() - 1] == d);
        } else {
            assert(t.reverse()[i] == t[t.len() - 1 - i]);
            assert(t[t.len() - 1 - i] == s[s.len() - i]);
            assert((seq![d] + s.reverse())[i] == s.reverse()[i - 1]);
        }
    }
}

/// Appends the decimal numeral of `n`.
fn push_u32_decimal(out: &mut Vec<u8>, n: u32)
    ensures
        final(out)@ == old(out)@ + spec_dec(n as nat),
{
    let mut digits: Vec<u8> = Vec::new();
    let mut x: u32 = n;
    while x >= 10
        invariant
            spec_dec(n as nat) == spec_dec(x as nat) + digits@.reverse(),
        decreases x,
    {
        let ghost x0 = x as nat;
        let ghost rev0 = digits@.reverse();
        let d: u8 = (x % 10) as u8 + 0x30;
        digits.push(d);
        x = x / 10;
        proof {
            assert(spec_dec(x0) == spec_dec(x as nat).push(d));
            lemma_reverse_push(digits@.drop_last(), d);
            assert(digits@.drop_last().push(d) =~= digits@);
            assert(digits@.reverse() =~= seq![d] + rev0);
            assert(spec_dec(x as nat).push(d) + rev0 =~= spec_dec(x as nat) + (seq![d] + rev0));
        }
    }
    out.push(0x30 + x as u8);
    proof {
        assert(spec_dec(x as nat) =~= seq![(0x30 + x as nat) as u8]);
        assert(out@ =~= old(out)@ + spec_dec(x as nat));
    }
    let ghost base = out@;
    let ghost rev = digits@.reverse();
    let len = digits.len();
    let mut i: usize = 0;
    while i < len
        invariant
            i <= len,
            len == digits@.len(),
            rev == digits@.reverse(),
            base == old(out)@ + spec_dec(x as nat),
            x < 10,
            spec_dec(n as nat) == spec_dec(x as nat) + rev,
            out@ == base + rev.subrange(0, i as int),
        decreases len - i,
    {
        out.push(digits[len - 1 - i]);
        proof {
            assert(rev[i as int] == digits@[len - 1 - i]);
            assert(rev.subrange(0, i + 1) =~= rev.subrange(0, i as int).push(rev[i as int]));
            assert(out@ =~= base + rev.subrange(0, i + 1));
        }
        i += 1;
    }
    proof {
        assert(rev.subrange(0, rev.len() as int) =~= rev);
        assert(out@ =~= old(out)@ + spec_dec(n as nat));
    }
}

/// The registration document for a configuration snapshot: ip, port, name,
/// terrain name, client limit, protocol version and password flag, with
/// port, limit and flag carried as strings.
pub open spec fn spec_registration_json(c: Config) -> Seq<u8> {
    "{\"ip\":\"".spec_bytes() + spec_json_escaped(spec_str_bytes(c.s_ip_addr@))
        + "\",\"port\":\"".spec_bytes() + spec_dec(c.s_listen_port as nat)
        + "\",\"name\":\"".spec_bytes() + spec_json_escaped(spec_str_bytes(c.s_server_name@))
        + "\",\"terrain-name\":\"".spec_bytes() + spec_json_escaped(
        spec_str_bytes(c.s_terrain_name@),
    ) + "\",\"max-clients\":\"".spec_bytes() + spec_dec(c.s_max_clients as nat)
        + "\",\"version\":\"RoRnet_2.44\",\"use-password\":\"".spec_bytes() + (
    if c.s_public_password@.len() != 0 {
        "1".spec_bytes()
    } else {
        "0".spec_bytes()
    }) + "\"}".spec_bytes()
}

/// Builds the JSON body `register` sends, exactly as
/// [`spec_registration_json`] lays it out.
pub fn build_registration_body(conf: &Config) -> (r: Vec<u8>)
    ensures
        r@ == spec_registration_json(*conf),
{
    let mut out: Vec<u8> = Vec::new();
    push_bytes(&mut out, "{\"ip\":\"".as_bytes());
    push_json_escaped(&mut out, conf.get_ip_addr().as_bytes());
    push_bytes(&mut out, "\",\"port\":\"".as_bytes());
    push_u32_decimal(&mut out, *conf.get_listen_port());
    push_bytes(&mut out, "\",\"name\":\"".as_bytes());
    push_json_escaped(&mut out, conf.get_server_name().as_bytes());
    push_bytes(&mut out, "\",\"terrain-name\":\"".as_bytes());
    push_json_escaped(&mut out, conf.get_terrain_name().as_bytes());
    push_bytes(&mut out, "\",\"max-clients\":\"".as_bytes());
    push_u32_decimal(&mut out, *conf.get_max_clients());
    push_bytes(&mut out, "\",\"version\":\"RoRnet_2.44\",\"use-password\":\"".as_bytes());
    if conf.is_public() {
        push_bytes(&mut out, "1".as_bytes());
    } else {
        push_bytes(&mut out, "0".as_bytes());
    }
    push_bytes(&mut out, "\"}".as_bytes());
    proof {
        assert(out@ =~= spec_registration_json(*conf));
    }
    out
}

/// The heartbeat document: the registration challenge and the user list.
pub open spec fn spec_heartbeat_json(token: Seq<char>, users: Seq<char>) -> Seq<u8> {
    "{\"challenge\":\"".spec_bytes() + spec_json_escaped(spec_str_bytes(token))
        + "\",\"users\":\"".spec_bytes() + spec_json_escaped(spec_str_bytes(users))
        + "\"}".spec_bytes()
}

/// The unregistration document: just the registration challenge.
pub open spec fn spec_unregister_json(token: Seq<char>) -> Seq<u8> {
    "{\"challenge\":\"".spec_bytes() + spec_json_escaped(spec_str_bytes(token))
        + "\"}".spec_bytes()
}

fn build_challenge_body(token: &str) -> (r: Vec<u8>)
    ensures
        r@ == spec_unregister_json(token@),
{
    let mut out: Vec<u8> = Vec::new();
    push_bytes(&mut out, "{\"challenge\":\"".as_bytes());
    push_json_escaped(&mut out, token.as_bytes());
    push_bytes(&mut out, "\"}".as_bytes());
    proof {
        assert(out@ =~= spec_unregister_json(token@));
    }
    out
}

/// Relies on reqwest's blocking client: one POST of `body` to `url` with a
/// JSON content type, returning the response's status code and body text.
/// The outcome depends on the network, so nothing is promised of it; `None`
/// covers a failed request as well as an unreadable response body. A
/// 30-second timeout bounds how long a call can stay in flight.
#[verifier::external_body]
fn http_post(url: &str, body: Vec<u8>) -> (r: Option<(u16, String)>) {
    let client = reqwest::blocking::Client::builder()
        .timeout(std::time::Duration::from_secs(30))
        .build()
        .ok()?;
    let req = client.post(url).header("Content-Type", "application/json").body(body);
    let resp = req.send().ok()?;
    let status = resp.status().as_u16();
    let text = resp.text().ok()?;
    Some((status, text))
}

/// Relies on reqwest's blocking client: one GET of `url`, returning the
/// response body text. The outcome depends on the network, so nothing is
/// promised of it. A 30-second timeout bounds how long a call can stay in
/// flight.
#[verifier::external_body]
fn http_get_text(url: &str) -> (r: Option<String>) {
    let client = reqwest::blocking::Client::builder()
        .timeout(std::time::Duration::from_secs(30))
        .build()
        .ok()?;
    let resp = client.get(url).send().ok()?;
    resp.text().ok()
}

/// The integer at a key of a JSON document: `Some` exactly when the text
/// is a JSON object whose value at the key is an integer representable in
/// a signed 64-bit value. A function of the two strings alone.
pub uninterp spec fn spec_json_i64_field(body: Seq<char>, key: Seq<char>) -> Option<i64>;

/// The string at a key of a JSON document: `Some` exactly when the text is
/// a JSON object whose value at the key is a JSON string. A function of
/// the two strings alone.
pub uninterp spec fn spec_json_string_field(body: Seq<char>, key: Seq<char>) -> Option<Seq<char>>;

/// Relies on serde_json: `from_str::<Value>` to parse the document, then
/// `Value::get` and `Value::as_i64` to read one integer field. All three
/// are deterministic in the text, so the result is named
/// [`spec_json_i64_field`] of the two arguments.
#[verifier::external_body]
fn json_i64_field(body: &str, key: &str) -> (r: Option<i64>)
    ensures
        r == spec_json_i64_field(body@, key@),
{
    let v: serde_json::Value = serde_json::from_str(body).ok()?;
    v.get(key)?.as_i64()
}

/// Relies on serde_json: `from_str::<Value>` to parse the document, then
/// `Value::get` and `Value::as_str` to read one string field. All three
/// are deterministic in the text, so the result is named
/// [`spec_json_string_field`] of the two arguments.
#[verifier::external_body]
fn json_string_field(body: &str, key: &str) -> (r: Option<String>)
    ensures
        r is Some <==> spec_json_string_field(body@, key@) is Some,
        r matches Some(s) ==> spec_json_string_field(body@, key@) == Some(s@),
{
    let v: serde_json::Value = serde_json::from_str(body).ok()?;
    Some(v.get(key)?.as_str()?.to_string())
}

/// Registration state against the directory service: the issued challenge
/// token, the assigned trust level (-1 until registered), whether the
/// instance is currently listed, the resolved service URL, and the
/// diagnostic message of the last rejected registration, kept for the log.
pub struct Client {
    pub m_token: Option<String>,
    pub m_trust_level: i32,
    pub m_is_registered: bool,
    pub m_server_path: Option<String>,
    pub m_last_message: Option<String>,
}

/// View of an optional string as an optional character sequence.
pub open spec fn spec_opt_str_view(o: Option<String>) -> Option<Seq<char>> {
    match o {
        Some(s) => Some(s@),
        None => None,
    }
}

/// A directory response body carries a successful registration exactly
/// when its `verified-level` is an integer that fits a signed 32-bit value
/// and its `challenge` is a string; the status must be 200 besides.
pub open spec fn spec_response_accepted(status: u16, body: Seq<char>) -> bool {
    &&& status == 200
    &&& spec_json_i64_field(body, "verified-level"@) matches Some(t) && -0x80000000 <= t
        <= 0x7fffffff
    &&& spec_json_string_field(body, "challenge"@) is Some
}

/// A directory response counts as a successful registration exactly when
/// the status is 200 and the body carried an integer `verified-level` that
/// fits a signed 32-bit value and a string `challenge`.
pub open spec fn spec_registration_accepted(
    status: u16,
    trust: Option<i64>,
    challenge: Option<String>,
) -> bool {
    &&& status == 200
    &&& trust matches Some(t) && -0x80000000 <= t <= 0x7fffffff
    &&& challenge is Some
}

/// What a directory response means: `Some((trust, challenge))` exactly for
/// a 200 status carrying an integer `verified-level` that fits a signed
/// 32-bit value and a string `challenge`; anything else is a failure.
pub fn interpret_registration_response(status: u16, trust: Option<i64>, challenge: Option<String>) -> (r:
    Option<(i32, String)>)
    ensures
        r is Some <==> spec_registration_accepted(status, trust, challenge),
        r matches Some(p) ==> trust matches Some(t) && p.0 == t as i32,
        r matches Some(p) ==> challenge matches Some(ch) && p.1 == ch,
{
    if status != 200 {
        return None;
    }
    match (trust, challenge) {
        (Some(t), Some(ch)) => {
            if -0x80000000i64 <= t && t <= 0x7fffffffi64 {
                Some((t as i32, ch))
            } else {
                None
            }
        },
        _ => None,
    }
}

impl Client {
    pub fn new() -> (c: Client)
        ensures
            c.m_token is None,
            c.m_trust_level == -1,
            !c.m_is_registered,
            c.m_server_path is None,
            c.m_last_message is None,
    {
        Client {
            m_token: None,
            m_trust_level: -1,
            m_is_registered: false,
            m_server_path: None,
            m_last_message: None,
        }
    }

    pub fn is_registered(&self) -> (r: bool)
        ensures
            r == self.m_is_registered,
    {
        self.m_is_registered
    }

    pub fn get_trust_level(&self) -> (r: i32)
        ensures
            r == self.m_trust_level,
    {
        self.m_trust_level
    }

    /// Digests one directory response: succeeds exactly on a 200 whose body
    /// carries an integer `verified-level` that fits a signed 32-bit value
    /// and a string `challenge`, and then stores that level and challenge
    /// and marks the instance registered. On anything else the registration
    /// state is untouched and failure is reported; the diagnostic `message`
    /// of a non-200 body is kept for the caller to log.
    pub fn apply_response(&mut self, status: u16, body: &str) -> (ok: bool)
        ensures
            ok == spec_response_accepted(status, body@),
            ok ==> final(self).m_is_registered && final(self).m_token is Some,
            ok ==> (spec_json_i64_field(body@, "verified-level"@) matches Some(t)
                && final(self).m_trust_level == t as i32),
            ok ==> spec_opt_str_view(final(self).m_token) == spec_json_string_field(
                body@,
                "challenge"@,
            ),
            ok ==> final(self).m_last_message is None,
            !ok ==> final(self).m_is_registered == old(self).m_is_registered,
            !ok ==> final(self).m_token == old(self).m_token,
            !ok ==> final(self).m_trust_level == old(self).m_trust_level,
            final(self).m_server_path == old(self).m_server_path,
            status != 200 ==> !ok && spec_opt_str_view(final(self).m_last_message)
                == spec_json_string_field(body@, "message"@),
            status == 200 && !ok ==> final(self).m_last_message == old(self).m_last_message,
    {
        if status != 200 {
            // an error response carries at most a diagnostic `message`;
            // nothing of the registration state changes
            self.m_last_message = json_string_field(body, "message");
            return false;
        }
        let trust = json_i64_field(body, "verified-level");
        let challenge = json_string_field(body, "challenge");
        match interpret_registration_response(status, trust, challenge) {
            Some((t, ch)) => {
                self.m_trust_level = t;
                self.m_token = Some(ch);
                self.m_is_registered = true;
                self.m_last_message = None;
                true
            },
            None => false,
        }
    }

    /// Registers this server instance on the directory's server list, under
    /// the configured host. On failure the registration state is unchanged
    /// (only the resolved URL is remembered, and a server-provided message
    /// is kept for the log) and the server goes on running unlisted.
    /// Runs the blocking HTTP client: call it from outside an async
    /// executor.
    pub fn register(&mut self, conf: &Config) -> (ok: bool)
        ensures
            final(self).m_server_path matches Some(p) && p@ == conf.s_serverlist_host@
                + "/server-list"@,
            ok ==> final(self).m_is_registered && final(self).m_token is Some,
            !ok ==> final(self).m_is_registered == old(self).m_is_registered,
            !ok ==> final(self).m_token == old(self).m_token,
            !ok ==> final(self).m_trust_level == old(self).m_trust_level,
    {
        let body = build_registration_body(conf);
        let url = String::from_str(conf.get_serverlist_host()).concat("/server-list");
        self.m_server_path = Some(url.clone());
        match http_post(url.as_str(), body) {
            Some((status, text)) => self.apply_response(status, text.as_str()),
            None => {
                self.m_last_message = None;
                false
            },
        }
    }

    /// The body one heartbeat sends: present exactly when the instance is
    /// registered and so holds a challenge token.
    pub fn heartbeat_body(&self, user_list: &str) -> (r: Option<Vec<u8>>)
        ensures
            r is Some <==> (self.m_is_registered && self.m_token is Some),
            r matches Some(v) ==> self.m_token matches Some(t) && v@ == spec_heartbeat_json(
                t@,
                user_list@,
            ),
    {
        if !self.m_is_registered {
            return None;
        }
        match &self.m_token {
            Some(t) => {
                let mut out: Vec<u8> = Vec::new();
                push_bytes(&mut out, "{\"challenge\":\"".as_bytes());
                push_json_escaped(&mut out, t.as_str().as_bytes());
                push_bytes(&mut out, "\",\"users\":\"".as_bytes());
                push_json_escaped(&mut out, user_list.as_bytes());
                push_bytes(&mut out, "\"}".as_bytes());
                proof {
                    assert(out@ =~= spec_heartbeat_json(self.m_token->0@, user_list@));
                }
                Some(out)
            },
            None => None,
        }
    }

    /// One heartbeat attempt: POSTs the challenge and user list to keep
    /// the listing alive, reporting whether the directory answered 200.
    /// Fails without network traffic when the instance is not registered.
    /// The configured retry cadence (count and delay between attempts) is
    /// driven by the caller's timer loop. Runs the blocking HTTP client:
    /// call it from outside an async executor.
    pub fn send_heartbeat(&self, user_list: &str) -> (ok: bool)
        ensures
            !self.m_is_registered ==> !ok,
            self.m_server_path is None ==> !ok,
    {
        let body = match self.heartbeat_body(user_list) {
            Some(b) => b,
            None => {
                return false;
            },
        };
        match &self.m_server_path {
            Some(p) => {
                match http_post(p.as_str(), body) {
                    Some((status, _)) => status == 200,
                    None => false,
                }
            },
            None => false,
        }
    }

    /// Asks the directory to drop this listing; on a 200 the instance is
    /// marked unregistered, on anything else the state is unchanged. Runs
    /// the blocking HTTP client: call it from outside an async executor.
    pub fn unregister(&mut self) -> (ok: bool)
        ensures
            ok ==> !final(self).m_is_registered,
            !ok ==> *final(self) == *old(self),
            !old(self).m_is_registered ==> !ok,
    {
        if !self.m_is_registered {
            return false;
        }
        let body = match &self.m_token {
            Some(t) => build_challenge_body(t.as_str()),
            None => {
                return false;
            },
        };
        let posted = match &self.m_server_path {
            Some(p) => http_post(p.as_str(), body),
            None => {
                return false;
            },
        };
        match posted {
            Some((status, _)) => {
                if status == 200 {
                    self.m_is_registered = false;
                    true
                } else {
                    false
                }
            },
            None => false,
        }
    }

    /// Whether another heartbeat attempt is allowed under the configured
    /// retry budget.
    pub fn heartbeat_should_retry(attempts_made: u32, conf: &Config) -> (r: bool)
        ensures
            r == (attempts_made < conf.s_heartbeat_retry_count),
    {
        attempts_made < conf.get_heartbeat_retry_count()
    }
}

/// Asks the directory, under the configured host, for this machine's
/// public address and fills it into the configuration; on failure the
/// configuration is unchanged. Meant to run before the snapshot is shared.
/// Runs the blocking HTTP client: call it from outside an async executor.
pub fn retrieve_public_ip(conf: &mut Config) -> (ok: bool)
    ensures
        !ok ==> *final(conf) == *old(conf),
        ok ==> *final(conf) == (Config { s_ip_addr: final(conf).s_ip_addr, ..*old(conf) }),
{
    let url = String::from_str(conf.get_serverlist_host()).concat("/get-public-ip");
    match http_get_text(url.as_str()) {
        Some(ip) => {
            conf.set_ip_addr(ip.as_str());
            true
        },
        None => false,
    }
}

} // verus!
