use vstd::prelude::*;
use vstd::string::StrSliceExecFns;
use crate::codec::{hex_encode, hex_lower};
use crate::text::{decimal, push_decimal, push_str, replace_all, replaced_all};

verus! {

/// A request to create a transaction.
#[derive(Debug)]
pub struct CreateTransactionRequest {
    pub from: String,
    pub to: String,
    pub amount: u64,
}

/// What the web interface answers about a transaction.
#[derive(Debug)]
pub struct TransactionResponse {
    pub id: String,
    pub status: String,
    /// Seconds since the Unix epoch.
    pub timestamp: i64,
}

/// Where the web interface listens.
#[derive(Debug, Clone)]
pub struct WebConfig {
    pub host: String,
    pub port: u16,
}

impl Default for WebConfig {
    fn default() -> (r: Self)
        ensures
            r.host@ == "127.0.0.1"@,
            r.port == 53036,
    {
        WebConfig { host: String::from_str("127.0.0.1"), port: 53036 }
    }
}

/// The state shared by the web handlers: the state manager `S` and the ports of the other
/// interfaces.
#[derive(Debug, Clone)]
pub struct AppState<S> {
    pub state_manager: S,
    pub api_port: u16,
    pub ws_port: u16,
    pub graphql_port: u16,
}

/// The web interface.
#[derive(Debug)]
pub struct WebServer<S> {
    pub config: WebConfig,
    pub state: AppState<S>,
}

impl<S> WebServer<S> {
    /// A web interface listening where `config` says, over `state_manager`.
    pub fn new(config: WebConfig, state_manager: S, api_port: u16, ws_port: u16, graphql_port: u16) -> (r:
        Self)
        ensures
            r.config == config,
            r.state == (AppState { state_manager, api_port, ws_port, graphql_port }),
    {
        WebServer { config, state: AppState { state_manager, api_port, ws_port, graphql_port } }
    }

    /// The address to listen on: "host:port".
    pub fn listen_address(&self) -> (r: String)
        ensures
            r@ == self.config.host@ + ":"@ + decimal(self.config.port as nat),
    {
        let mut out = self.config.host.clone();
        push_str(&mut out, ":");
        push_decimal(&mut out, self.config.port as u64);
        out
    }
}

/// The answer about a transaction just created: its id in hex, "pending", its time.
pub fn pending_response(id: &[u8], timestamp: i64) -> (r: TransactionResponse)
    ensures
        r.id@ == hex_lower(id@),
        r.status@ == "pending"@,
        r.timestamp == timestamp,
{
    TransactionResponse { id: hex_encode(id), status: String::from_str("pending"), timestamp }
}

/// The answer about a stored transaction: its id in hex, "confirmed", its time.
pub fn confirmed_response(id: &[u8], timestamp: i64) -> (r: TransactionResponse)
    ensures
        r.id@ == hex_lower(id@),
        r.status@ == "confirmed"@,
        r.timestamp == timestamp,
{
    TransactionResponse { id: hex_encode(id), status: String::from_str("confirmed"), timestamp }
}

/// The characters left once every leading '/' has been taken off.
pub open spec fn trim_slashes(s: Seq<char>) -> Seq<char>
    decreases s.len(),
{
    if s.len() > 0 && s[0] == '/' {
        trim_slashes(s.drop_first())
    } else {
        s
    }
}

/// The file a request path names: the path without its leading slashes, or "index.html"
/// where nothing is left.
pub open spec fn static_file(path: Seq<char>) -> Seq<char> {
    if trim_slashes(path).len() == 0 {
        "index.html"@
    } else {
        trim_slashes(path)
    }
}

/// How a request for a static file is answered.
#[derive(Debug, Clone, Copy, PartialEq, Eq)]
pub enum StaticAnswer {
    /// Serve the file asked for; an HTML file gets its placeholders filled.
    File { html: bool },
    /// No such file, and the path names a file (it holds a '.').
    FileNotFound,
    /// No such file: serve the application's index page.
    Index,
    /// The index page is missing too.
    IndexMissing,
}

/// Whether a text holds `c`.
pub open spec fn holds_char(s: Seq<char>, c: char) -> bool {
    exists|i: int| 0 <= i < s.len() && s[i] == c
}

/// Whether a text ends with ".html".
pub open spec fn is_html(s: Seq<char>) -> bool {
    s.len() >= 5 && s.subrange(s.len() - 5, s.len() as int) == ".html"@
}

/// How a request for `file` (as `static_file` gives it) is answered, given whether the file
/// and the index page exist.
pub open spec fn static_answer(file: Seq<char>, file_exists: bool, index_exists: bool) -> StaticAnswer {
    if file_exists {
        StaticAnswer::File { html: is_html(file) }
    } else if holds_char(file, '.') {
        StaticAnswer::FileNotFound
    } else if index_exists {
        StaticAnswer::Index
    } else {
        StaticAnswer::IndexMissing
    }
}

/// "<scheme>://localhost:<port>".
pub open spec fn local_url(scheme: Seq<char>, port: u16) -> Seq<char> {
    scheme + "://localhost:"@ + decimal(port as nat)
}

fn local_url_of(scheme: &str, port: u16) -> (r: String)
    ensures
        r@ == local_url(scheme@, port),
{
    let mut out = String::from_str(scheme);
    push_str(&mut out, "://localhost:");
    push_decimal(&mut out, port as u64);
    out
}

/// An HTML page with its placeholders filled: the API, WebSocket and GraphQL base URLs on
/// localhost at the given ports, in that order.
pub fn fill_placeholders(contents: &str, api_port: u16, ws_port: u16, graphql_port: u16) -> (r: String)
    ensures
        r@ == replaced_all(
            replaced_all(
                replaced_all(contents@, "{{API_BASE_URL}}"@, local_url("http"@, api_port)),
                "{{WS_BASE_URL}}"@,
                local_url("ws"@, ws_port),
            ),
            "{{GRAPHQL_BASE_URL}}"@,
            local_url("http"@, graphql_port),
        ),
{
    let api = local_url_of("http", api_port);
    let ws = local_url_of("ws", ws_port);
    let gql = local_url_of("http", graphql_port);
    let a = replace_all(contents, "{{API_BASE_URL}}", api.as_str());
    let b = replace_all(a.as_str(), "{{WS_BASE_URL}}", ws.as_str());
    replace_all(b.as_str(), "{{GRAPHQL_BASE_URL}}", gql.as_str())
}

/// The file a request path names.
pub fn static_path(path: &str) -> (r: String)
    ensures
        r@ == static_file(path@),
{
    let n = path.unicode_len();
    let mut k: usize = 0;
    assert(path@.subrange(0, n as int) =~= path@);
    while k < n && path.get_char(k) == '/'
        invariant
            k <= n,
            n == path@.len(),
            trim_slashes(path@) == trim_slashes(path@.subrange(k as int, n as int)),
        decreases n - k,
    {
        assert(path@.subrange(k as int, n as int).drop_first() =~= path@.subrange(k + 1, n as int));
        k = k + 1;
    }
    if k == n {
        assert(path@.subrange(k as int, n as int) =~= Seq::<char>::empty());
        return String::from_str("index.html");
    }
    let rest = path.substring_char(k, n);
    String::from_str(rest)
}

/// Whether a text holds a '.'.
fn has_dot(s: &str) -> (r: bool)
    ensures
        r == holds_char(s@, '.'),
{
    let n = s.unicode_len();
    let mut i: usize = 0;
    while i < n
        invariant
            i <= n,
            n == s@.len(),
            forall|j: int| 0 <= j < i ==> s@[j] != '.',
        decreases n - i,
    {
        if s.get_char(i) == '.' {
            return true;
        }
        i = i + 1;
    }
    false
}

/// Whether a text ends with ".html".
fn ends_with_html(s: &str) -> (r: bool)
    ensures
        r == is_html(s@),
{
    let n = s.unicode_len();
    if n < 5 {
        return false;
    }
    let tail = s.substring_char(n - 5, n);
    let r = tail.get_char(0) == '.' && tail.get_char(1) == 'h' && tail.get_char(2) == 't'
        && tail.get_char(3) == 'm' && tail.get_char(4) == 'l';
    proof {
        reveal_strlit(".html");
        if r {
            assert(tail@ =~= ".html"@);
        } else {
            assert(tail@ != ".html"@) by {
                if tail@ == ".html"@ {
                    assert(tail@[0] == '.');
                    assert(tail@[4] == 'l');
                }
            }
        }
    }
    r
}

/// How a request for `file` is answered, given whether the file and the index page exist.
pub fn answer_static(file: &str, file_exists: bool, index_exists: bool) -> (r: StaticAnswer)
    ensures
        r == static_answer(file@, file_exists, index_exists),
{
    if file_exists {
        StaticAnswer::File { html: ends_with_html(file) }
    } else if has_dot(file) {
        StaticAnswer::FileNotFound
    } else if index_exists {
        StaticAnswer::Index
    } else {
        StaticAnswer::IndexMissing
    }
}

} // verus!
