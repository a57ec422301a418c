use vstd::prelude::*;
use base64::Engine;
use crate::models::BastionSku;
use crate::text::{concat, find_from, index_of_char, chars_of, find_sub, push_char, str_eq};

verus! {

/// What the tunnel reports when it cannot go on.
#[derive(Debug)]
pub enum TunnelError {
    /// The WebSocket URL does not parse.
    InvalidUrl,
    /// The WebSocket URL names no host.
    MissingHost,
    /// The upgrade answer grew past 8192 bytes without ending.
    UpgradeTooLarge,
    /// The upgrade answer's status line does not hold `101`; the answer, trimmed.
    UpgradeRejected(String),
}

/// The WebSocket URL of a tunnel session: the `omni` endpoint for the
/// QuickConnect and Developer SKUs, `webtunnelv2` with the node id otherwise.
pub open spec fn ws_url_spec(endpoint: Seq<char>, sku: BastionSku, token: Seq<char>, node_id: Seq<char>) -> Seq<char> {
    match sku {
        BastionSku::QuickConnect | BastionSku::Developer => "wss://"@ + endpoint + "/omni/webtunnel/"@ + token,
        _ => "wss://"@ + endpoint + "/webtunnelv2/"@ + token + "?X-Node-Id="@ + node_id,
    }
}

/// Builds the WebSocket URL for a tunnel token.
pub fn websocket_url(endpoint: &str, sku: BastionSku, websocket_token: &str, node_id: &str) -> (r: String)
    ensures
        r@ == ws_url_spec(endpoint@, sku, websocket_token@, node_id@),
{
    let a = concat("wss://", endpoint);
    match sku {
        BastionSku::QuickConnect | BastionSku::Developer => {
            let b = concat(a.as_str(), "/omni/webtunnel/");
            concat(b.as_str(), websocket_token)
        },
        _ => {
            let b = concat(a.as_str(), "/webtunnelv2/");
            let c = concat(b.as_str(), websocket_token);
            let d = concat(c.as_str(), "?X-Node-Id=");
            concat(d.as_str(), node_id)
        },
    }
}

/// What a tunnel keeps from one connection to the next: the last auth
/// token and the node id handed out with it.
pub struct TunnelSession {
    pub last_token: Option<String>,
    pub node_id: Option<String>,
}

impl TunnelSession {
    /// A session before its first connection: no token, no node.
    pub fn new() -> (r: TunnelSession)
        ensures
            r.last_token is None,
            r.node_id is None,
    {
        TunnelSession { last_token: None, node_id: None }
    }
}

fn copy_opt(o: &Option<String>) -> (r: Option<String>)
    ensures
        opt_str_view(r) == opt_str_view(*o),
{
    match o {
        Some(t) => Some(t.clone()),
        None => None,
    }
}

/// The last token and node id that a new token request passes on.
pub fn token_request_args(s: &TunnelSession) -> (r: (Option<String>, Option<String>))
    ensures
        opt_str_view(r.0) == opt_str_view(s.last_token),
        opt_str_view(r.1) == opt_str_view(s.node_id),
{
    (copy_opt(&s.last_token), copy_opt(&s.node_id))
}

/// Keeps the auth token and node id of a fresh token for the next
/// connection.
pub fn record_token(s: &mut TunnelSession, auth_token: &str, node_id: &str)
    ensures
        opt_str_view(final(s).last_token) == Some(auth_token@),
        opt_str_view(final(s).node_id) == Some(node_id@),
{
    s.last_token = Some(auth_token.to_owned());
    s.node_id = Some(node_id.to_owned());
}

/// What closing the session deletes: the last token with its node id, when
/// a token was ever handed out.
pub fn cleanup_args(s: &TunnelSession) -> (r: Option<(String, Option<String>)>)
    ensures
        match s.last_token {
            Some(t) => r is Some && r.unwrap().0@ == t@ && opt_str_view(r.unwrap().1) == opt_str_view(s.node_id),
            None => r is None,
        },
{
    match &s.last_token {
        Some(t) => Some((t.clone(), copy_opt(&s.node_id))),
        None => None,
    }
}

/// The parts of a URL the tunnel reads.
pub struct UrlParts {
    pub host: Option<String>,
    pub port: Option<u16>,
    pub path: String,
    pub query: Option<String>,
}

/// The mathematical value of [`UrlParts`].
pub struct UrlPartsV {
    pub host: Option<Seq<char>>,
    pub port: Option<u16>,
    pub path: Seq<char>,
    pub query: Option<Seq<char>>,
}

pub open spec fn opt_str_view(o: Option<String>) -> Option<Seq<char>> {
    match o {
        Some(s) => Some(s@),
        None => None,
    }
}

impl UrlParts {
    pub open spec fn view_parts(&self) -> UrlPartsV {
        UrlPartsV {
            host: opt_str_view(self.host),
            port: self.port,
            path: self.path@,
            query: opt_str_view(self.query),
        }
    }
}

/// What `url::Url::parse` makes of a text: its host, explicit non-default
/// port, path and query; `None` when it does not parse.
pub uninterp spec fn url_parts(s: Seq<char>) -> Option<UrlPartsV>;

/// `url::Url::parse`, then `host_str`, `port`, `path` and `query`. The
/// result is named [`url_parts`]; nothing more is claimed of it.
#[verifier::external_body]
fn parse_url(s: &str) -> (r: Option<UrlParts>)
    ensures
        match r {
            Some(p) => url_parts(s@) == Some(p.view_parts()),
            None => url_parts(s@) is None,
        },
{
    match url::Url::parse(s) {
        Ok(u) => Some(UrlParts {
            host: match u.host_str() { Some(h) => Some(h.to_string()), None => None },
            port: u.port(),
            path: u.path().to_string(),
            query: match u.query() { Some(q) => Some(q.to_string()), None => None },
        }),
        Err(_) => None,
    }
}

/// Where to connect for a WebSocket URL.
pub struct WsTarget {
    pub host: String,
    pub port: u16,
    pub path_and_query: String,
}

/// The host, the port (443 when the URL gives none) and the path with
/// `?query` appended when there is a query.
pub open spec fn target_of(p: UrlPartsV) -> Option<(Seq<char>, u16, Seq<char>)> {
    match p.host {
        None => None,
        Some(h) => Some(
            (
                h,
                match p.port {
                    Some(n) => n,
                    None => 443u16,
                },
                match p.query {
                    Some(q) => p.path + "?"@ + q,
                    None => p.path,
                },
            ),
        ),
    }
}

/// The connection target for the parsed parts of a WebSocket URL.
pub fn ws_target(parts: &UrlParts) -> (r: Result<WsTarget, TunnelError>)
    ensures
        match r {
            Ok(t) => target_of(parts.view_parts()) == Some((t.host@, t.port, t.path_and_query@)),
            Err(e) => target_of(parts.view_parts()) is None && e is MissingHost,
        },
{
    let host = match &parts.host {
        Some(h) => h.clone(),
        None => return Err(TunnelError::MissingHost),
    };
    let port = match parts.port {
        Some(n) => n,
        None => 443,
    };
    let path_and_query = match &parts.query {
        Some(q) => {
            let a = concat(parts.path.as_str(), "?");
            concat(a.as_str(), q.as_str())
        },
        None => parts.path.clone(),
    };
    Ok(WsTarget { host, port, path_and_query })
}

/// Parses a WebSocket URL into the target to connect to.
pub fn connect_target(ws_url: &str) -> (r: Result<WsTarget, TunnelError>)
    ensures
        match url_parts(ws_url@) {
            None => r matches Err(TunnelError::InvalidUrl),
            Some(p) => match r {
                Ok(t) => target_of(p) == Some((t.host@, t.port, t.path_and_query@)),
                Err(e) => target_of(p) is None && e is MissingHost,
            },
        },
{
    match parse_url(ws_url) {
        None => Err(TunnelError::InvalidUrl),
        Some(parts) => ws_target(&parts),
    }
}

/// The character of a six-bit value in the standard base64 alphabet
/// (RFC 4648: `A`-`Z`, `a`-`z`, `0`-`9`, `+`, `/`).
pub open spec fn b64_char(v: int) -> char {
    if v < 26 {
        (65 + v) as char
    } else if v < 52 {
        (97 + v - 26) as char
    } else if v < 62 {
        (48 + v - 52) as char
    } else if v == 62 {
        '+'
    } else {
        '/'
    }
}

/// Standard base64 of some bytes (RFC 4648, with `=` padding): each group
/// of three bytes gives four characters of six bits each; a last group of
/// one or two bytes is padded with zero bits and `=`.
pub open spec fn base64_spec(b: Seq<u8>) -> Seq<char>
    decreases b.len(),
{
    if b.len() == 0 {
        seq![]
    } else if b.len() == 1 {
        let x = b[0] as int;
        seq![b64_char(x / 4), b64_char((x % 4) * 16), '=', '=']
    } else if b.len() == 2 {
        let x = b[0] as int;
        let y = b[1] as int;
        seq![b64_char(x / 4), b64_char((x % 4) * 16 + y / 16), b64_char((y % 16) * 4), '=']
    } else {
        let x = b[0] as int;
        let y = b[1] as int;
        let z = b[2] as int;
        seq![
            b64_char(x / 4),
            b64_char((x % 4) * 16 + y / 16),
            b64_char((y % 16) * 4 + z / 64),
            b64_char(z % 64),
        ] + base64_spec(b.skip(3))
    }
}

/// Base64 gives four characters per started group of three bytes.
pub proof fn lemma_base64_len(b: Seq<u8>)
    ensures
        base64_spec(b).len() == 4 * ((b.len() + 2) / 3),
    decreases b.len(),
{
    if b.len() >= 3 {
        lemma_base64_len(b.skip(3));
    }
}

/// `base64::engine::general_purpose::STANDARD.encode`: standard base64 with
/// padding, as [`base64_spec`] states it. Inputs are kept small, where the
/// crate's length computation cannot overflow.
#[verifier::external_body]
fn base64_encode(bytes: &[u8]) -> (r: String)
    requires
        bytes@.len() <= 1048576,
    ensures
        r@ == base64_spec(bytes@),
{
    base64::engine::general_purpose::STANDARD.encode(bytes)
}

/// A fresh `Sec-WebSocket-Key`: the base64 of the sixteen bytes of a random
/// version-4 UUID.
pub fn new_websocket_key() -> (r: String)
    ensures
        exists|b: Seq<u8>|
            b.len() == 16 && b[6] / 16 == 4 && b[8] / 64 == 2 && r@ == base64_spec(b),
        r@.len() == 24,
{
    let bytes = crate::ws::random_uuid_bytes();
    let r = base64_encode(&bytes);
    proof {
        lemma_base64_len(bytes@);
        assert(bytes@[6] == bytes[6] && bytes@[8] == bytes[8]);
    }
    r
}

/// The HTTP request that asks the server to switch to WebSocket.
pub open spec fn upgrade_request_spec(path_and_query: Seq<char>, host: Seq<char>, key: Seq<char>) -> Seq<char> {
    "GET "@ + path_and_query + " HTTP/1.1\r\nHost: "@ + host
        + "\r\nUpgrade: websocket\r\nConnection: Upgrade\r\nSec-WebSocket-Key: "@ + key
        + "\r\nSec-WebSocket-Version: 13\r\nOrigin: https://"@ + host + "\r\n\r\n"@
}

/// Builds the upgrade request.
pub fn upgrade_request(path_and_query: &str, host: &str, ws_key: &str) -> (r: String)
    ensures
        r@ == upgrade_request_spec(path_and_query@, host@, ws_key@),
{
    let a = concat("GET ", path_and_query);
    let b = concat(a.as_str(), " HTTP/1.1\r\nHost: ");
    let c = concat(b.as_str(), host);
    let d = concat(c.as_str(), "\r\nUpgrade: websocket\r\nConnection: Upgrade\r\nSec-WebSocket-Key: ");
    let e = concat(d.as_str(), ws_key);
    let f = concat(e.as_str(), "\r\nSec-WebSocket-Version: 13\r\nOrigin: https://");
    let g = concat(f.as_str(), host);
    concat(g.as_str(), "\r\n\r\n")
}


/// Where reading the upgrade answer stands after one more byte.
#[derive(Debug, PartialEq, Eq, Structural)]
pub enum UpgradeStep {
    /// Keep reading.
    More,
    /// The answer ended with an empty line.
    Complete,
    /// The answer is longer than 8192 bytes.
    TooLarge,
}

/// The received bytes end with `\r\n\r\n`.
pub open spec fn ends_headers(b: Seq<u8>) -> bool {
    b.len() >= 4 && b.subrange(b.len() - 4, b.len() as int) == seq![13u8, 10u8, 13u8, 10u8]
}

pub open spec fn step_of(b: Seq<u8>) -> UpgradeStep {
    if ends_headers(b) {
        UpgradeStep::Complete
    } else if b.len() > 8192 {
        UpgradeStep::TooLarge
    } else {
        UpgradeStep::More
    }
}

/// Collects the server's answer to the upgrade request, byte by byte.
pub struct UpgradeReader {
    buf: Vec<u8>,
}

impl UpgradeReader {
    pub closed spec fn received(&self) -> Seq<u8> {
        self.buf@
    }

    pub fn new() -> (r: UpgradeReader)
        ensures
            r.received() == Seq::<u8>::empty(),
    {
        UpgradeReader { buf: Vec::new() }
    }

    /// Takes one more byte of the answer.
    pub fn push_byte(&mut self, b: u8) -> (r: UpgradeStep)
        requires
            old(self).received().len() < 1000000,
        ensures
            final(self).received() == old(self).received().push(b),
            r == step_of(final(self).received()),
    {
        self.buf.push(b);
        let len = self.buf.len();
        if len >= 4 && self.buf[len - 4] == 13 && self.buf[len - 3] == 10 && self.buf[len - 2] == 13
            && self.buf[len - 1] == 10 {
            assert(self.buf@.subrange(len - 4, len as int) =~= seq![13u8, 10u8, 13u8, 10u8]);
            return UpgradeStep::Complete;
        }
        if len >= 4 {
            assert(self.buf@.subrange(len - 4, len as int)[0] == self.buf@[len - 4]);
            assert(self.buf@.subrange(len - 4, len as int)[1] == self.buf@[len - 3]);
            assert(self.buf@.subrange(len - 4, len as int)[2] == self.buf@[len - 2]);
            assert(self.buf@.subrange(len - 4, len as int)[3] == self.buf@[len - 1]);
        }
        if len > 8192 {
            return UpgradeStep::TooLarge;
        }
        UpgradeStep::More
    }

    /// The bytes received so far.
    pub fn bytes(&self) -> (r: &Vec<u8>)
        ensures
            r@ == self.received(),
    {
        &self.buf
    }
}

/// A reader that is asked for bytes only while it answered `More` never
/// holds more than 8193 bytes.
pub proof fn lemma_upgrade_bounded(b: Seq<u8>, x: u8)
    requires
        step_of(b) == UpgradeStep::More || b.len() == 0,
    ensures
        b.push(x).len() <= 8193,
{
}

/// What `String::from_utf8_lossy` makes of some bytes.
pub uninterp spec fn utf8_lossy(b: Seq<u8>) -> Seq<char>;

/// `String::from_utf8_lossy`: the result is named [`utf8_lossy`]; on valid
/// UTF-8 it is the decoded text.
#[verifier::external_body]
fn lossy_text(b: &[u8]) -> (r: String)
    ensures
        r@ == utf8_lossy(b@),
        vstd::utf8::valid_utf8(b@) ==> r@ == vstd::utf8::decode_utf8(b@),
{
    String::from_utf8_lossy(b).into_owned()
}

/// The first line of a text (`s.lines().next().unwrap_or("")`): up to the
/// first `\n`, without a `\r` right before it; the whole text when it
/// holds no `\n`.
pub open spec fn first_line(s: Seq<char>) -> Seq<char> {
    match index_of_char(s, '\n') {
        Some(i) => {
            let l = s.take(i);
            if l.len() > 0 && l.last() == '\r' {
                l.drop_last()
            } else {
                l
            }
        },
        None => s,
    }
}

/// The server accepted the upgrade: the status line holds `101`.
pub open spec fn upgrade_accepted(text: Seq<char>) -> bool {
    find_from(first_line(text), "101"@, 0) is Some
}

/// Checks the server's answer to the upgrade request.
pub fn check_upgrade_response(text: &str) -> (r: Result<(), TunnelError>)
    ensures
        match r {
            Ok(_) => upgrade_accepted(text@),
            Err(TunnelError::UpgradeRejected(msg)) => !upgrade_accepted(text@) && msg@
                == crate::text::trim_spec(text@),
            Err(_) => false,
        },
{
    let v = chars_of(text);
    proof {
        crate::text::lemma_index_of_char(v@, '\n');
    }
    let line: Vec<char> = match crate::text::find_char(&v, '\n') {
        Some(i) => {
            let l = crate::text::chars_range(&v, 0, i);
            assert(l@ =~= v@.take(i as int));
            if l.len() > 0 && l[l.len() - 1] == '\r' {
                let d = crate::text::chars_range(&l, 0, l.len() - 1);
                assert(d@ =~= l@.drop_last());
                d
            } else {
                l
            }
        },
        None => v,
    };
    let needle = chars_of("101");
    match find_sub(&line, &needle) {
        Some(_) => Ok(()),
        None => Err(TunnelError::UpgradeRejected(crate::text::trim(text))),
    }
}

/// Checks the raw bytes of the server's answer to the upgrade request,
/// read as UTF-8 with invalid sequences replaced.
pub fn check_upgrade_bytes(bytes: &[u8]) -> (r: Result<(), TunnelError>)
    ensures
        match r {
            Ok(_) => upgrade_accepted(utf8_lossy(bytes@)),
            Err(TunnelError::UpgradeRejected(msg)) => !upgrade_accepted(utf8_lossy(bytes@)) && msg@
                == crate::text::trim_spec(utf8_lossy(bytes@)),
            Err(_) => false,
        },
{
    let text = lossy_text(bytes);
    check_upgrade_response(text.as_str())
}

} // verus!

verus! {

/// What the relay does with a frame from the bastion.
#[derive(Debug)]
pub enum RelayAction {
    /// Write these bytes to the local client.
    Forward(Vec<u8>),
    /// Ignore the frame and read the next one.
    Skip,
    /// The bastion closed the tunnel.
    Stop,
}

/// Binary data goes to the client, a close frame ends the relay, pings
/// and other frames are ignored.
pub fn relay_frame(frame: crate::ws::WsFrame) -> (r: RelayAction)
    ensures
        match frame.view_frame() {
            crate::ws::FrameV::Binary(d) => r matches RelayAction::Forward(b) && b@ == d,
            crate::ws::FrameV::Close => r is Stop,
            _ => r is Skip,
        },
{
    match frame {
        crate::ws::WsFrame::Binary(data) => RelayAction::Forward(data),
        crate::ws::WsFrame::Close => RelayAction::Stop,
        _ => RelayAction::Skip,
    }
}

/// The frame for a chunk read from the local client: binary data, or a
/// close frame when the client closed (an empty read), which also ends
/// that direction of the relay.
pub fn client_chunk_frame(writer: &crate::ws::WsWriter, chunk: &[u8]) -> (r: (Vec<u8>, bool))
    ensures
        r.1 == (chunk@.len() == 0),
        chunk@.len() == 0 ==> exists|key: Seq<u8>|
            key.len() == 4 && r.0@ == crate::ws::frame_bytes(crate::ws::WS_OPCODE_CLOSE, seq![], key),
        chunk@.len() > 0 ==> exists|key: Seq<u8>|
            key.len() == 4 && r.0@ == crate::ws::frame_bytes(crate::ws::WS_OPCODE_BINARY, chunk@, key),
{
    if chunk.len() == 0 {
        (writer.write_close(), true)
    } else {
        (writer.write_binary(chunk), false)
    }
}

} // verus!
