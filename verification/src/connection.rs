//! One client connection: what to do next, given what has happened.
//!
//! The connection itself reads no socket. It is told what a read, a lookup or
//! an attempt to connect gave (`Event`) and answers with what is to be done
//! next (`Action`).

use vstd::prelude::*;
use vstd::slice::slice_to_vec;
use vstd::utf8::encode_utf8;
use crate::addr::IpAddress;
use crate::error::{Error, IoKind};
use crate::protocol::reply::{error_bytes, success_bytes, Reply};
use crate::protocol::{
    kept_bytes, received, recv_and_parse_req, FrameView, Input, InputView, ReqCmd, ReqFrame,
    Received, ReceivedView, Request, RequestView, Ver,
};
use crate::rule::{country_verdict, domain_verdict, geo, ip_verdict, Routing, RuleStore, StoreView};
use crate::text::{host_port, join_host_port};

verus! {

/// How long a read on the client's socket may stay idle, in seconds.
pub const READ_TIMEOUT_SECS: u64 = 120;

/// How long an outbound connection may take, in seconds.
pub const CONNECT_TIMEOUT_SECS: u64 = 120;

/// How long a TLS handshake may take, in seconds.
pub const TLS_TIMEOUT_SECS: u64 = 10;

/// The remote proxy of a client: its address, and the certificate bundle to
/// trust when the way to it is encrypted. An empty path means plain TCP.
#[derive(Clone, Debug)]
pub struct ProxyCfg {
    pub proxy_srv_host: String,
    pub proxy_srv_port: u16,
    pub cert_path: String,
}

/// What a `ProxyCfg` holds, as mathematical values.
pub struct ProxyView {
    pub host: Seq<char>,
    pub port: u16,
    pub cert: Seq<char>,
}

impl View for ProxyCfg {
    type V = ProxyView;

    open spec fn view(&self) -> ProxyView {
        ProxyView { host: self.proxy_srv_host@, port: self.proxy_srv_port, cert: self.cert_path@ }
    }
}

impl ProxyCfg {
    pub fn new(h: &str, p: u16, cert: &str) -> (r: ProxyCfg)
        ensures
            r@ == (ProxyView { host: h@, port: p, cert: cert@ }),
    {
        ProxyCfg { proxy_srv_host: h.to_owned(), proxy_srv_port: p, cert_path: cert.to_owned() }
    }

    /// The host of the remote proxy, which is also the name its certificate must bear.
    pub fn host(&self) -> (r: &str)
        ensures
            r@ == self@.host,
    {
        self.proxy_srv_host.as_str()
    }

    /// The remote proxy as `host:port`.
    pub fn addr(&self) -> (r: String)
        ensures
            r@ == host_port(self@.host, self@.port),
    {
        join_host_port(self.proxy_srv_host.as_str(), self.proxy_srv_port)
    }

    /// The path of the certificate bundle; empty for plain TCP.
    pub fn cert(&self) -> (r: &str)
        ensures
            r@ == self@.cert,
    {
        self.cert_path.as_str()
    }
}

/// What has happened on a connection.
#[derive(Debug)]
pub enum Event {
    /// A read on the client's socket gave bytes.
    Data(Vec<u8>),
    /// The client's stream ended.
    Eof,
    /// The client sent nothing within `READ_TIMEOUT_SECS`.
    ReadTimeout,
    /// The client's socket failed.
    Failed(IoKind),
    /// The first address of the domain name asked for, or none.
    Resolved(Option<IpAddress>),
    /// The lookup of the domain name failed: it yields no address, and
    /// the connection goes on as after `Resolved(None)`.
    ResolveFailed(IoKind),
    /// The ISO code of the country of the address asked for, if the GeoIP
    /// database gives one.
    Country(Option<String>),
    /// The outbound connection stands; towards a remote proxy with TLS, the
    /// handshake is done.
    Connected,
    /// The outbound connection could not be made.
    ConnectFailed(Error),
    /// The TLS handshake with the remote proxy failed or took too long.
    TlsFailed(Error),
}

/// What an `Event` holds, as mathematical values.
pub enum EventView {
    Data(Seq<u8>),
    Eof,
    ReadTimeout,
    Failed(IoKind),
    Resolved(Option<IpAddress>),
    ResolveFailed(IoKind),
    Country(Option<Seq<u8>>),
    Connected,
    ConnectFailed(Error),
    TlsFailed(Error),
}

impl View for Event {
    type V = EventView;

    open spec fn view(&self) -> EventView {
        match self {
            Event::Data(d) => EventView::Data(d@),
            Event::Eof => EventView::Eof,
            Event::ReadTimeout => EventView::ReadTimeout,
            Event::Failed(k) => EventView::Failed(*k),
            Event::Resolved(a) => EventView::Resolved(*a),
            Event::ResolveFailed(k) => EventView::ResolveFailed(*k),
            Event::Country(c) => EventView::Country(
                match c {
                    Some(code) => Some(encode_utf8(code@)),
                    None => None,
                },
            ),
            Event::Connected => EventView::Connected,
            Event::ConnectFailed(e) => EventView::ConnectFailed(*e),
            Event::TlsFailed(e) => EventView::TlsFailed(*e),
        }
    }
}

/// What is to be done next on a connection.
#[derive(Debug)]
pub enum Action {
    /// Write `reply` to the client, if it is not empty, and read from the
    /// client; report `Data`, `Eof`, `ReadTimeout` or `Failed`.
    Read { reply: Vec<u8> },
    /// Look the domain name up; report `Resolved` with its first address,
    /// `Resolved` with none where it has none, or `ResolveFailed` where the
    /// lookup itself fails.
    Resolve { domain: String },
    /// Ask the GeoIP database for the country of the address; report `Country`.
    Locate { ip: IpAddress },
    /// Connect to the destination, by its address or else by its name;
    /// report `Connected` or `ConnectFailed`.
    DialDirect { domain: Option<String>, ip: Option<IpAddress>, port: u16 },
    /// Connect to the remote proxy at `addr`; where `cert` is not empty,
    /// wrap the connection in TLS, trusting the certificates at that path
    /// and expecting the name `host`. Report `Connected`, `ConnectFailed`
    /// or `TlsFailed`.
    DialProxy { addr: String, host: String, cert: String },
    /// Write `reply` to the client and copy bytes both ways between the
    /// client and the destination until both directions have ended.
    Splice { reply: Vec<u8> },
    /// Write `raw` to the remote proxy and copy bytes both ways between
    /// the client and the remote proxy until both directions have ended.
    /// Nothing is written to the client: the remote proxy answers it.
    Forward { raw: Vec<u8> },
    /// Write `reply` to the client, if it is not empty, and close. `error`
    /// is what ended the connection, if anything did.
    Close { reply: Vec<u8>, error: Option<Error> },
}

/// What an `Action` holds, as mathematical values.
pub enum ActionView {
    Read { reply: Seq<u8> },
    Resolve { domain: Seq<char> },
    Locate { ip: IpAddress },
    DialDirect { domain: Option<Seq<char>>, ip: Option<IpAddress>, port: u16 },
    DialProxy { addr: Seq<char>, host: Seq<char>, cert: Seq<char> },
    Splice { reply: Seq<u8> },
    Forward { raw: Seq<u8> },
    Close { reply: Seq<u8>, error: Option<Error> },
}

/// The characters of an optional text.
pub open spec fn chars_of(text: Option<String>) -> Option<Seq<char>> {
    match text {
        Some(t) => Some(t@),
        None => None,
    }
}

/// The UTF-8 bytes of optional characters.
pub open spec fn bytes_of(text: Option<Seq<char>>) -> Option<Seq<u8>> {
    match text {
        Some(t) => Some(encode_utf8(t)),
        None => None,
    }
}

impl View for Action {
    type V = ActionView;

    open spec fn view(&self) -> ActionView {
        match self {
            Action::Read { reply } => ActionView::Read { reply: reply@ },
            Action::Resolve { domain } => ActionView::Resolve { domain: domain@ },
            Action::Locate { ip } => ActionView::Locate { ip: *ip },
            Action::DialDirect { domain, ip, port } => ActionView::DialDirect {
                domain: chars_of(*domain),
                ip: *ip,
                port: *port,
            },
            Action::DialProxy { addr, host, cert } => ActionView::DialProxy {
                addr: addr@,
                host: host@,
                cert: cert@,
            },
            Action::Splice { reply } => ActionView::Splice { reply: reply@ },
            Action::Forward { raw } => ActionView::Forward { raw: raw@ },
            Action::Close { reply, error } => ActionView::Close { reply: reply@, error: *error },
        }
    }
}

/// Where a connection stands.
#[derive(Debug, Copy, Clone, PartialEq, Eq, Structural)]
pub enum Stage {
    /// Not started.
    Idle,
    /// A frame is being read from the client.
    Reading,
    /// The domain name asked for is being looked up.
    Resolving,
    /// The country of the address is being asked for.
    Locating,
    /// The destination is being connected to.
    DialingDirect,
    /// The remote proxy is being connected to.
    DialingProxy,
    /// Nothing is left to decide.
    Done,
}

/// What a `Connection` holds, as mathematical values.
pub struct ConnView {
    pub proxy: Option<ProxyView>,
    pub stage: Stage,
    pub authorized: bool,
    pub buffer: Seq<u8>,
    pub request: Option<RequestView>,
}

impl ConnView {
    /// The connection ends: `reply` goes to the client.
    pub open spec fn close(self, reply: Seq<u8>, error: Option<Error>) -> (ConnView, ActionView) {
        (ConnView { stage: Stage::Done, ..self }, ActionView::Close { reply, error })
    }

    /// The dialect of the failure reply for `e`: that of the request; while
    /// none has been read, HTTP for a failure that only an HTTP CONNECT
    /// can give, and SOCKS5 for any other.
    pub open spec fn ver_for(self, e: Error) -> Ver {
        match self.request {
            Some(r) => r.ver,
            None => match e {
                Error::BadRequest => Ver::Http,
                Error::BrokenLine => Ver::Http,
                _ => Ver::V5,
            },
        }
    }

    /// The connection ends with the failure reply for `e`.
    pub open spec fn fail(self, e: Error) -> (ConnView, ActionView) {
        self.close(error_bytes(self.ver_for(e), e), Some(e))
    }

    /// The destination is connected to.
    pub open spec fn dial_direct(self, req: RequestView) -> (ConnView, ActionView) {
        (
            ConnView { stage: Stage::DialingDirect, ..self },
            ActionView::DialDirect { domain: req.dst_domain, ip: req.dst_addr, port: req.dst_port },
        )
    }

    /// A verdict is carried out: the destination is connected to, or the
    /// remote proxy, or the connection ends.
    pub open spec fn route(self, verdict: Routing) -> (ConnView, ActionView) {
        match self.request {
            None => self.fail(Error::Unexpected),
            Some(req) => match verdict {
                Routing::Direct => self.dial_direct(req),
                Routing::Proxy => match self.proxy {
                    Some(p) => (
                        ConnView { stage: Stage::DialingProxy, ..self },
                        ActionView::DialProxy {
                            addr: host_port(p.host, p.port),
                            host: p.host,
                            cert: p.cert,
                        },
                    ),
                    None => self.fail(Error::ProxyNotConfigured),
                },
                Routing::Reject => self.fail(Error::Rejected),
            },
        }
    }

    /// The rules are asked about an address whose country is not known yet.
    pub open spec fn route_ip(self, store: StoreView, ip: IpAddress) -> (ConnView, ActionView) {
        match store.ip(ip) {
            Some(v) => self.route(v),
            None => (ConnView { stage: Stage::Locating, ..self }, ActionView::Locate { ip }),
        }
    }

    /// A request has been read. Only CONNECT is served. Without a remote
    /// proxy every destination is connected to; with one, the rules decide.
    pub open spec fn process(self, store: StoreView) -> (ConnView, ActionView) {
        match self.request {
            None => self.fail(Error::Unexpected),
            Some(req) => if req.cmd != ReqCmd::Connect {
                self.fail(Error::NotImplemented)
            } else if req.dst_addr is None && req.dst_domain is None {
                self.fail(Error::AddrTypeUnsupported)
            } else if self.proxy is None {
                self.dial_direct(req)
            } else {
                match req.dst_addr {
                    Some(ip) => self.route_ip(store, ip),
                    None => match store.domain(encode_utf8(req.dst_domain->0)) {
                        Some(v) => self.route(v),
                        None => (
                            ConnView { stage: Stage::Resolving, ..self },
                            ActionView::Resolve { domain: req.dst_domain->0 },
                        ),
                    },
                }
            },
        }
    }

    /// What a read gave while a frame was being read.
    pub open spec fn read(self, store: StoreView, input: InputView) -> (ConnView, ActionView) {
        let kept = ConnView { buffer: kept_bytes(self.buffer, self.authorized, input), ..self };
        match received(self.buffer, self.authorized, input) {
            ReceivedView::More => (kept, ActionView::Read { reply: Seq::empty() }),
            ReceivedView::Frame(FrameView::Auth(_)) => (
                ConnView { authorized: true, ..kept },
                ActionView::Read { reply: seq![5u8, 0u8] },
            ),
            ReceivedView::Frame(FrameView::Req(req)) => (ConnView {
                request: Some(req),
                ..kept
            }).process(store),
            ReceivedView::Closed => kept.close(Seq::empty(), None),
            ReceivedView::Failed(e) => kept.fail(e),
        }
    }

    /// The outbound connection stands: towards the destination the client
    /// gets its success reply, towards the remote proxy the remote proxy
    /// gets the client's own request.
    pub open spec fn connected(self) -> (ConnView, ActionView) {
        match self.request {
            None => self.fail(Error::Unexpected),
            Some(req) => if self.stage == Stage::DialingDirect {
                match success_bytes(
                    req.ver,
                    req.a_type,
                    req.dst_addr,
                    bytes_of(req.dst_domain),
                    req.dst_port,
                ) {
                    Ok(reply) => (
                        ConnView { stage: Stage::Done, ..self },
                        ActionView::Splice { reply },
                    ),
                    Err(e) => self.close(Seq::empty(), Some(e)),
                }
            } else {
                (ConnView { stage: Stage::Done, ..self }, ActionView::Forward { raw: req.raw })
            },
        }
    }

    /// The next state and what is to be done, given what has happened. An
    /// event that the connection is not waiting for ends it.
    pub open spec fn next(self, store: StoreView, event: EventView) -> (ConnView, ActionView) {
        match (self.stage, event) {
            (Stage::Reading, EventView::Data(d)) => self.read(store, InputView::Data(d)),
            (Stage::Reading, EventView::Eof) => self.read(store, InputView::Eof),
            (Stage::Reading, EventView::ReadTimeout) => self.read(store, InputView::Timeout),
            (Stage::Reading, EventView::Failed(k)) => self.read(store, InputView::Failed(k)),
            (Stage::Resolving, EventView::Resolved(Some(ip))) => self.route_ip(store, ip),
            (Stage::Resolving, EventView::Resolved(None)) => self.route(Routing::Proxy),
            (Stage::Resolving, EventView::ResolveFailed(_)) => self.route(Routing::Proxy),
            (Stage::Locating, EventView::Country(code)) => self.route(country_verdict(code)),
            (Stage::DialingDirect, EventView::Connected) => self.connected(),
            (Stage::DialingProxy, EventView::Connected) => self.connected(),
            (Stage::DialingDirect, EventView::ConnectFailed(e)) => self.fail(e),
            (Stage::DialingProxy, EventView::ConnectFailed(e)) => self.fail(e),
            (Stage::DialingProxy, EventView::TlsFailed(e)) => self.close(Seq::empty(), Some(e)),
            _ => self.fail(Error::Unexpected),
        }
    }
}

/// A process without a remote proxy ends tunnels: it connects to the
/// destination of every CONNECT, whatever the rules hold.
pub proof fn lemma_server_connects(c: ConnView, store: StoreView)
    requires
        c.proxy is None,
        c.request is Some,
        c.request->0.cmd == ReqCmd::Connect,
        c.request->0.dst_addr is Some || c.request->0.dst_domain is Some,
    ensures
        c.process(store).1 == (ActionView::DialDirect {
            domain: c.request->0.dst_domain,
            ip: c.request->0.dst_addr,
            port: c.request->0.dst_port,
        }),
        c.process(store).0.stage == Stage::DialingDirect,
{
}

/// BIND and UDP are read and refused: the client gets the failure reply
/// for a server error in its dialect, and the connection ends.
pub proof fn lemma_only_connect_is_served(c: ConnView, store: StoreView)
    requires
        c.request is Some,
        c.request->0.cmd != ReqCmd::Connect,
    ensures
        c.process(store) == c.fail(Error::NotImplemented),
        c.process(store).0.stage == Stage::Done,
        c.process(store).1 == (ActionView::Close {
            reply: error_bytes(c.request->0.ver, Error::NotImplemented),
            error: Some(Error::NotImplemented),
        }),
{
}

/// What the rules decide is carried out: direct means the destination,
/// proxy means the remote proxy of the configuration, reject ends the
/// connection with a failure reply.
pub proof fn lemma_verdicts(c: ConnView, verdict: Routing)
    requires
        c.request is Some,
        c.proxy is Some,
    ensures
        verdict == Routing::Direct ==> c.route(verdict).1 is DialDirect,
        verdict == Routing::Proxy ==> c.route(verdict).1 == (ActionView::DialProxy {
            addr: host_port(c.proxy->0.host, c.proxy->0.port),
            host: c.proxy->0.host,
            cert: c.proxy->0.cert,
        }),
        verdict == Routing::Reject ==> c.route(verdict).1 == (ActionView::Close {
            reply: error_bytes(c.request->0.ver, Error::Rejected),
            error: Some(Error::Rejected),
        }),
{
}

/// The remote proxy gets the client's own bytes. Where a client sends
/// `data` to a fresh connection, `data` starts with a request, and the
/// rules send the destination through the remote proxy, the bytes to write
/// to the remote proxy once it is reached are the bytes of that request as
/// the client sent them, and the client is written nothing.
pub proof fn lemma_replay(c: ConnView, store: StoreView, data: Seq<u8>)
    requires
        c.stage == Stage::Reading,
        c.buffer.len() == 0,
        c.proxy is Some,
        c.next(store, EventView::Data(data)).1 is DialProxy,
    ensures
        crate::protocol::frame_of(data, c.authorized) is Ok,
        crate::protocol::frame_of(data, c.authorized)->Ok_0 matches FrameView::Req(req)
            && c.next(store, EventView::Data(data)).0.next(store, EventView::Connected).1 == (
        ActionView::Forward { raw: data.subrange(0, req.raw.len() as int) }),
{
    assert(c.buffer + data =~= data);
    crate::protocol::theorems::lemma_raw_is_prefix(data, c.authorized);
}

/// After a successful direct connection the client gets the success
/// reply of the dialect it spoke.
pub proof fn lemma_direct_reply(c: ConnView, store: StoreView)
    requires
        c.stage == Stage::DialingDirect,
        c.request is Some,
        c.request->0.wf(),
    ensures
        c.next(store, EventView::Connected).1 matches ActionView::Splice { reply }
            && success_bytes(
            c.request->0.ver,
            c.request->0.a_type,
            c.request->0.dst_addr,
            bytes_of(c.request->0.dst_domain),
            c.request->0.dst_port,
        ) == Ok::<Seq<u8>, Error>(reply) && reply.len() > 0 && reply[0] == (match c.request->0.ver {
            Ver::V4 => 0u8,
            Ver::V5 => 5u8,
            Ver::Http => 72u8,
        }),
{
}

/// Where a request that has just been read ends up once every lookup
/// that is asked for has been answered: `resolved` is the answer to a
/// lookup of the name, `code` the answer to a lookup of the country.
pub open spec fn settled(
    c: ConnView,
    store: StoreView,
    resolved: Option<IpAddress>,
    code: Option<Seq<u8>>,
) -> (ConnView, ActionView) {
    let first = c.process(store);
    let second = if first.1 is Resolve {
        first.0.next(store, EventView::Resolved(resolved))
    } else {
        first
    };
    if second.1 is Locate {
        second.0.next(store, EventView::Country(code))
    } else {
        second
    }
}

/// A client carries out the verdict of the rules. For a CONNECT to a
/// domain name that is the verdict on the name, on the first address it
/// resolves to and on the country of that address; for a CONNECT to an
/// address, the verdict on the address and its country.
pub proof fn lemma_client_follows_the_rules(
    c: ConnView,
    store: StoreView,
    resolved: Option<IpAddress>,
    code: Option<Seq<u8>>,
)
    requires
        c.proxy is Some,
        c.request is Some,
        c.request->0.cmd == ReqCmd::Connect,
        c.request->0.dst_addr is Some || c.request->0.dst_domain is Some,
    ensures
        c.request->0.dst_addr matches Some(ip) ==> settled(c, store, resolved, code) == c.route(
            ip_verdict(store, ip, code),
        ),
        c.request->0.dst_addr is None ==> settled(c, store, resolved, code) == c.route(
            domain_verdict(store, encode_utf8(c.request->0.dst_domain->0), resolved, code),
        ),
{
}

/// A name that no rule decides and that resolves to no address goes
/// through the remote proxy, whether the lookup answers with no address or
/// fails: no lookup of a name ends a connection.
pub proof fn lemma_no_address_means_proxy(c: ConnView, store: StoreView, kind: IoKind)
    requires
        c.stage == Stage::Resolving,
    ensures
        c.next(store, EventView::ResolveFailed(kind)) == c.route(Routing::Proxy),
        c.next(store, EventView::Resolved(None)) == c.route(Routing::Proxy),
        c.proxy is Some && c.request is Some ==> c.next(
            store,
            EventView::ResolveFailed(kind),
        ).1 is DialProxy,
{
}

/// What the rules on names decide needs no lookup: where a rule holds of
/// the name of a CONNECT, a client carries its verdict out at once,
/// without resolving the name and without asking for a country.
pub proof fn lemma_rules_on_names_need_no_lookup(c: ConnView, store: StoreView)
    requires
        c.proxy is Some,
        c.request is Some,
        c.request->0.cmd == ReqCmd::Connect,
        c.request->0.dst_addr is None,
        c.request->0.dst_domain is Some,
        store.domain(encode_utf8(c.request->0.dst_domain->0)) is Some,
    ensures
        c.process(store) == c.route(store.domain(encode_utf8(c.request->0.dst_domain->0))->0),
        !(c.process(store).1 is Resolve),
        !(c.process(store).1 is Locate),
{
}

/// A connection that has ended stays ended.
pub proof fn lemma_done_stays_done(c: ConnView, store: StoreView, event: EventView)
    requires
        c.stage == Stage::Done,
    ensures
        c.next(store, event).0.stage == Stage::Done,
        c.next(store, event).1 is Close,
{
}

/// `uuid::Uuid::new_v4`, as text: a random identifier. Which one is not
/// known; its text has the 36 characters of the hyphenated form.
#[verifier::external_body]
fn fresh_id() -> (r: String)
    ensures
        r@.len() == 36,
{
    uuid::Uuid::new_v4().to_string()
}

/// One client connection.
pub struct Connection {
    id: String,
    proxy_cfg: Option<ProxyCfg>,
    stage: Stage,
    authorized: bool,
    buffer: Vec<u8>,
    request: Option<Request>,
}

impl View for Connection {
    type V = ConnView;

    closed spec fn view(&self) -> ConnView {
        ConnView {
            proxy: match self.proxy_cfg {
                Some(p) => Some(p@),
                None => None,
            },
            stage: self.stage,
            authorized: self.authorized,
            buffer: self.buffer@,
            request: match self.request {
                Some(r) => Some(r@),
                None => None,
            },
        }
    }
}

impl Connection {
    /// The identifier of the connection.
    pub closed spec fn ident(&self) -> Seq<char> {
        self.id@
    }

    /// A connection that has not started, with a fresh identifier. A
    /// client has a remote proxy, a server has none.
    pub fn new(proxy_cfg: Option<ProxyCfg>) -> (r: Connection)
        ensures
            r@ == (ConnView {
                proxy: match proxy_cfg {
                    Some(p) => Some(p@),
                    None => None,
                },
                stage: Stage::Idle,
                authorized: false,
                buffer: Seq::empty(),
                request: None,
            }),
            r.ident().len() == 36,
    {
        Connection {
            id: fresh_id(),
            proxy_cfg,
            stage: Stage::Idle,
            authorized: false,
            buffer: Vec::new(),
            request: None,
        }
    }

    /// The identifier of the connection, for the log.
    pub fn id(&self) -> (r: &str)
        ensures
            r@ == self.ident(),
    {
        self.id.as_str()
    }

    /// Where the connection stands.
    pub fn stage(&self) -> (r: Stage)
        ensures
            r == self@.stage,
    {
        self.stage
    }

    /// Starts a connection of a client: a SOCKS5 client negotiates its
    /// method before its request.
    pub fn run(&mut self) -> (r: Action)
        ensures
            final(self)@ == (ConnView {
                stage: Stage::Reading,
                authorized: false,
                buffer: Seq::empty(),
                request: None,
                ..old(self)@
            }),
            final(self).ident() == old(self).ident(),
            r@ == (ActionView::Read { reply: Seq::empty() }),
    {
        self.stage = Stage::Reading;
        self.authorized = false;
        self.buffer = Vec::new();
        self.request = None;
        Action::Read { reply: Vec::new() }
    }

    /// Starts a connection of a server: the first frame is a request.
    pub fn run_on_server(&mut self) -> (r: Action)
        ensures
            final(self)@ == (ConnView {
                stage: Stage::Reading,
                authorized: true,
                buffer: Seq::empty(),
                request: None,
                ..old(self)@
            }),
            final(self).ident() == old(self).ident(),
            r@ == (ActionView::Read { reply: Seq::empty() }),
    {
        self.stage = Stage::Reading;
        self.authorized = true;
        self.buffer = Vec::new();
        self.request = None;
        Action::Read { reply: Vec::new() }
    }

    /// Ends the connection.
    fn close(&mut self, reply: Vec<u8>, error: Option<Error>) -> (r: Action)
        ensures
            (final(self)@, r@) == old(self)@.close(reply@, error),
            final(self).ident() == old(self).ident(),
    {
        self.stage = Stage::Done;
        Action::Close { reply, error }
    }

    /// Ends the connection with the failure reply for `e`.
    fn fail(&mut self, e: Error) -> (r: Action)
        ensures
            (final(self)@, r@) == old(self)@.fail(e),
            final(self).ident() == old(self).ident(),
    {
        let ver: Ver = match &self.request {
            Some(r) => r.ver,
            None => match e {
                Error::BadRequest => Ver::Http,
                Error::BrokenLine => Ver::Http,
                _ => Ver::V5,
            },
        };
        let reply: Vec<u8> = (Reply { ver }).error(&e);
        self.close(reply, Some(e))
    }

    /// Carries a verdict out.
    fn route(&mut self, verdict: Routing) -> (r: Action)
        ensures
            (final(self)@, r@) == old(self)@.route(verdict),
            final(self).ident() == old(self).ident(),
    {
        if self.request.is_none() {
            return self.fail(Error::Unexpected);
        }
        match verdict {
            Routing::Direct => self.dial_direct(),
            Routing::Proxy => {
                let action: Option<Action> = match &self.proxy_cfg {
                    Some(p) => Some(
                        Action::DialProxy {
                            addr: p.addr(),
                            host: p.proxy_srv_host.clone(),
                            cert: p.cert_path.clone(),
                        },
                    ),
                    None => None,
                };
                match action {
                    Some(a) => {
                        self.stage = Stage::DialingProxy;
                        a
                    },
                    None => self.fail(Error::ProxyNotConfigured),
                }
            },
            Routing::Reject => self.fail(Error::Rejected),
        }
    }

    /// Connects to the destination of the request.
    fn dial_direct(&mut self) -> (r: Action)
        requires
            old(self)@.request is Some,
        ensures
            (final(self)@, r@) == old(self)@.dial_direct(old(self)@.request->0),
            final(self).ident() == old(self).ident(),
    {
        let action: Action = match &self.request {
            Some(req) => Action::DialDirect {
                domain: match &req.dst_domain {
                    Some(d) => Some(d.clone()),
                    None => None,
                },
                ip: req.dst_addr,
                port: req.dst_port,
            },
            None => Action::Close { reply: Vec::new(), error: None },
        };
        self.stage = Stage::DialingDirect;
        action
    }

    /// Asks the rules about an address whose country is not known yet.
    fn route_ip(&mut self, store: &RuleStore, ip: IpAddress) -> (r: Action)
        ensures
            (final(self)@, r@) == old(self)@.route_ip(store@, ip),
            final(self).ident() == old(self).ident(),
    {
        match crate::rule::ip(store, ip) {
            Some(v) => self.route(v),
            None => {
                self.stage = Stage::Locating;
                Action::Locate { ip }
            },
        }
    }

    /// Decides on the request that has been read.
    fn process(&mut self, store: &RuleStore) -> (r: Action)
        ensures
            (final(self)@, r@) == old(self)@.process(store@),
            final(self).ident() == old(self).ident(),
    {
        let (connect, ip, domain): (bool, Option<IpAddress>, Option<String>) = match &self.request {
            Some(req) => (
                match req.cmd {
                    ReqCmd::Connect => true,
                    _ => false,
                },
                req.dst_addr,
                match &req.dst_domain {
                    Some(d) => Some(d.clone()),
                    None => None,
                },
            ),
            None => {
                return self.fail(Error::Unexpected);
            },
        };
        if !connect {
            return self.fail(Error::NotImplemented);
        }
        if ip.is_none() && domain.is_none() {
            return self.fail(Error::AddrTypeUnsupported);
        }
        if self.proxy_cfg.is_none() {
            return self.dial_direct();
        }
        match ip {
            Some(a) => self.route_ip(store, a),
            None => match domain {
                Some(d) => match crate::rule::domain(store, d.as_str()) {
                    Some(v) => self.route(v),
                    None => {
                        self.stage = Stage::Resolving;
                        Action::Resolve { domain: d }
                    },
                },
                None => self.fail(Error::AddrTypeUnsupported),
            },
        }
    }

    /// Takes what a read gave while a frame was being read.
    fn read(&mut self, store: &RuleStore, input: Input) -> (r: Action)
        ensures
            (final(self)@, r@) == old(self)@.read(store@, input@),
            final(self).ident() == old(self).ident(),
    {
        match recv_and_parse_req(&mut self.buffer, self.authorized, input) {
            Received::More => Action::Read { reply: Vec::new() },
            Received::Frame(ReqFrame::Auth(_)) => {
                self.authorized = true;
                Action::Read { reply: (Reply { ver: Ver::V5 }).auth(0) }
            },
            Received::Frame(ReqFrame::Req(req)) => {
                self.request = Some(req);
                self.process(store)
            },
            Received::Closed => self.close(Vec::new(), None),
            Received::Failed(e) => self.fail(e),
        }
    }

    /// Takes the news that the outbound connection stands.
    fn connected(&mut self) -> (r: Action)
        ensures
            (final(self)@, r@) == old(self)@.connected(),
            final(self).ident() == old(self).ident(),
    {
        let direct: bool = match self.stage {
            Stage::DialingDirect => true,
            _ => false,
        };
        let outcome: Option<Result<Vec<u8>, Error>> = match &self.request {
            Some(req) => if direct {
                let domain: Option<String> = match &req.dst_domain {
                    Some(d) => Some(d.clone()),
                    None => None,
                };
                Some((Reply { ver: req.ver }).successful((req.a_type, req.dst_addr, domain), req.dst_port))
            } else {
                Some(Ok(slice_to_vec(req.raw())))
            },
            None => None,
        };
        match outcome {
            None => self.fail(Error::Unexpected),
            Some(Err(e)) => self.close(Vec::new(), Some(e)),
            Some(Ok(bytes)) => {
                self.stage = Stage::Done;
                if direct {
                    Action::Splice { reply: bytes }
                } else {
                    Action::Forward { raw: bytes }
                }
            },
        }
    }

    /// Takes what has happened and says what is to be done next. `store`
    /// holds the routing rules.
    pub fn step(&mut self, store: &RuleStore, event: Event) -> (r: Action)
        ensures
            (final(self)@, r@) == old(self)@.next(store@, event@),
            final(self).ident() == old(self).ident(),
    {
        match (self.stage, event) {
            (Stage::Reading, Event::Data(d)) => self.read(store, Input::Data(d)),
            (Stage::Reading, Event::Eof) => self.read(store, Input::Eof),
            (Stage::Reading, Event::ReadTimeout) => self.read(store, Input::Timeout),
            (Stage::Reading, Event::Failed(k)) => self.read(store, Input::Failed(k)),
            (Stage::Resolving, Event::Resolved(Some(ip))) => self.route_ip(store, ip),
            (Stage::Resolving, Event::Resolved(None)) => self.route(Routing::Proxy),
            (Stage::Resolving, Event::ResolveFailed(_)) => self.route(Routing::Proxy),
            (Stage::Locating, Event::Country(code)) => {
                let verdict: Routing = match &code {
                    Some(c) => geo(Some(c.as_str())),
                    None => geo(None),
                };
                self.route(verdict)
            },
            (Stage::DialingDirect, Event::Connected) => self.connected(),
            (Stage::DialingProxy, Event::Connected) => self.connected(),
            (Stage::DialingDirect, Event::ConnectFailed(e)) => self.fail(e),
            (Stage::DialingProxy, Event::ConnectFailed(e)) => self.fail(e),
            (Stage::DialingProxy, Event::TlsFailed(e)) => self.close(Vec::new(), Some(e)),
            _ => self.fail(Error::Unexpected),
        }
    }
}

} // verus!
