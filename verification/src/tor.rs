//! Where the Tor SOCKS proxy listens.
use vstd::prelude::*;

use crate::error::OnionError;
use crate::text::{chars_of, starts_with, strip_prefix_all, strip_prefix_all_from, string_from_chars};
use reqwest::{Client, ClientBuilder, Proxy};

verus! {

/// The scheme of a SOCKS5 proxy that resolves host names itself.
pub const SOCKS5H_SCHEME: &'static str = "socks5h://";

/// The scheme of a plain SOCKS5 proxy.
pub const SOCKS5_SCHEME: &'static str = "socks5://";

/// The `host:port` part of a proxy URL: every leading `socks5h://` removed,
/// then every leading `socks5://`.
pub open spec fn proxy_socket_addr_spec(proxy_addr: Seq<char>) -> Seq<char> {
    strip_prefix_all(strip_prefix_all(proxy_addr, SOCKS5H_SCHEME@), SOCKS5_SCHEME@)
}

/// The address to open a TCP connection to when checking that the proxy
/// `proxy_addr` is reachable (see `proxy_socket_addr_spec`).
pub fn proxy_socket_addr(proxy_addr: &str) -> (addr: String)
    ensures
        addr@ == proxy_socket_addr_spec(proxy_addr@),
{
    let v = chars_of(proxy_addr);
    let n = v.len();
    assert(v@.subrange(0, n as int) =~= v@);
    let h = chars_of(SOCKS5H_SCHEME);
    let k1 = strip_prefix_all_from(&v, 0, &h);
    let p = chars_of(SOCKS5_SCHEME);
    let k2 = strip_prefix_all_from(&v, k1, &p);
    string_from_chars(&v, k2, n)
}

/// Stripping every leading copy of a non-empty `p` leaves a text that does
/// not begin with `p`, and only ever removes a prefix.
pub proof fn lemma_strip_prefix_all(s: Seq<char>, p: Seq<char>)
    requires
        p.len() > 0,
    ensures
        !starts_with(strip_prefix_all(s, p), p),
        exists|k: int|
            0 <= k <= s.len() && #[trigger] s.subrange(k, s.len() as int) == strip_prefix_all(s, p),
    decreases s.len(),
{
    if starts_with(s, p) {
        let rest = s.subrange(p.len() as int, s.len() as int);
        lemma_strip_prefix_all(rest, p);
        let k = choose|k: int|
            0 <= k <= rest.len() && #[trigger] rest.subrange(k, rest.len() as int)
                == strip_prefix_all(rest, p);
        assert(s.subrange(p.len() + k, s.len() as int) =~= rest.subrange(k, rest.len() as int));
    } else {
        assert(s.subrange(0, s.len() as int) =~= s);
    }
}

/// The address checked for a proxy never keeps a `socks5://` scheme in front.
pub proof fn lemma_proxy_addr_has_no_scheme(proxy_addr: Seq<char>)
    ensures
        !starts_with(proxy_socket_addr_spec(proxy_addr), SOCKS5_SCHEME@),
{
    reveal_strlit("socks5://");
    lemma_strip_prefix_all(strip_prefix_all(proxy_addr, SOCKS5H_SCHEME@), SOCKS5_SCHEME@);
}

} // verus!

verus! {

#[verifier::external_type_specification]
#[verifier::external_body]
pub struct ExClient(Client);

#[verifier::external_type_specification]
#[verifier::external_body]
pub struct ExClientBuilder(ClientBuilder);

#[verifier::external_type_specification]
#[verifier::external_body]
pub struct ExProxy(Proxy);

/// Whether `reqwest::Proxy::all` accepts `proxy_addr` as the URL of a proxy
/// for all traffic: it parses as a URL with a host, or does once `http://`
/// is put in front of a text that lacks a scheme.
pub uninterp spec fn proxy_url_accepted(proxy_addr: Seq<char>) -> bool;

/// How an HTTP client, or a builder of one, is configured, as far as this
/// library configures it: the proxies added, each named by the address it
/// was parsed from, whether the system's proxy settings are still consulted,
/// and the whole-request and connection timeouts in seconds.
pub struct ClientConfig {
    pub proxies: Seq<Seq<char>>,
    pub system_proxies: bool,
    pub request_timeout_secs: Option<u64>,
    pub connect_timeout_secs: Option<u64>,
}

/// The configuration of a fresh builder: no proxy added, the system's proxy
/// settings consulted, no timeouts.
pub open spec fn default_client_config() -> ClientConfig {
    ClientConfig {
        proxies: Seq::empty(),
        system_proxies: true,
        request_timeout_secs: None,
        connect_timeout_secs: None,
    }
}

/// A proxy, with the address it was parsed from.
pub struct ParsedProxy {
    proxy: Proxy,
    addr: Ghost<Seq<char>>,
}

impl ParsedProxy {
    /// The address the proxy was parsed from.
    pub closed spec fn addr(&self) -> Seq<char> {
        self.addr@
    }
}

/// A client builder, with the configuration given to it so far.
pub struct HttpClientBuilder {
    builder: ClientBuilder,
    config: Ghost<ClientConfig>,
}

impl HttpClientBuilder {
    /// The configuration given to the builder so far.
    pub closed spec fn config(&self) -> ClientConfig {
        self.config@
    }
}

/// An HTTP client, with the configuration it was built with.
pub struct HttpClient {
    client: Client,
    config: Ghost<ClientConfig>,
}

impl HttpClient {
    /// The configuration the client was built with.
    pub closed spec fn config(&self) -> ClientConfig {
        self.config@
    }

    /// The reqwest client itself.
    pub fn client(&self) -> &Client {
        &self.client
    }

    /// The reqwest client itself, taken out.
    pub fn into_client(self) -> Client {
        self.client
    }
}

/// Trusted: `reqwest::Proxy::all` parses `proxy_addr` into a proxy for all
/// traffic. Its success depends on the text alone (it parses a URL), which
/// `proxy_url_accepted` names; the proxy is recorded as made from `proxy_addr`.
#[verifier::external_body]
fn proxy_all(proxy_addr: &str) -> (r: Result<ParsedProxy, reqwest::Error>)
    ensures
        r is Ok <==> proxy_url_accepted(proxy_addr@),
        r matches Ok(p) ==> p.addr() == proxy_addr@,
{
    match Proxy::all(proxy_addr) {
        Ok(proxy) => Ok(ParsedProxy { proxy, addr: Ghost(proxy_addr@) }),
        Err(e) => Err(e),
    }
}

/// Trusted: `reqwest::Client::builder` (`ClientBuilder::new`), a builder
/// with no proxy added, the system's proxy settings consulted and no
/// timeouts.
#[verifier::external_body]
fn client_builder() -> (b: HttpClientBuilder)
    ensures
        b.config() == default_client_config(),
{
    HttpClientBuilder { builder: Client::builder(), config: Ghost(default_client_config()) }
}

/// Trusted: `ClientBuilder::proxy` adds `proxy` to the builder's proxies and
/// stops it consulting the system's proxy settings.
#[verifier::external_body]
fn builder_proxy(b: HttpClientBuilder, proxy: ParsedProxy) -> (r: HttpClientBuilder)
    ensures
        r.config() == (ClientConfig {
            proxies: b.config().proxies.push(proxy.addr()),
            system_proxies: false,
            ..b.config()
        }),
{
    HttpClientBuilder {
        builder: b.builder.proxy(proxy.proxy),
        config: Ghost(
            ClientConfig {
                proxies: b.config@.proxies.push(proxy.addr@),
                system_proxies: false,
                ..b.config@
            },
        ),
    }
}

/// Trusted: `ClientBuilder::timeout` sets the whole-request timeout to
/// `secs` seconds.
#[verifier::external_body]
fn builder_timeout(b: HttpClientBuilder, secs: u64) -> (r: HttpClientBuilder)
    ensures
        r.config() == (ClientConfig { request_timeout_secs: Some(secs), ..b.config() }),
{
    HttpClientBuilder {
        builder: b.builder.timeout(std::time::Duration::from_secs(secs)),
        config: Ghost(ClientConfig { request_timeout_secs: Some(secs), ..b.config@ }),
    }
}

/// Trusted: `ClientBuilder::connect_timeout` sets the connection timeout to
/// `secs` seconds.
#[verifier::external_body]
fn builder_connect_timeout(b: HttpClientBuilder, secs: u64) -> (r: HttpClientBuilder)
    ensures
        r.config() == (ClientConfig { connect_timeout_secs: Some(secs), ..b.config() }),
{
    HttpClientBuilder {
        builder: b.builder.connect_timeout(std::time::Duration::from_secs(secs)),
        config: Ghost(ClientConfig { connect_timeout_secs: Some(secs), ..b.config@ }),
    }
}

/// Trusted: `ClientBuilder::build`, the client built with the builder's
/// configuration, or an error when it cannot be realised (the TLS back end
/// or the resolver fails to start). Which of the two is not stated: that
/// depends on the system.
#[verifier::external_body]
fn builder_build(b: HttpClientBuilder) -> (r: Result<HttpClient, reqwest::Error>)
    ensures
        r matches Ok(c) ==> c.config() == b.config(),
{
    match b.builder.build() {
        Ok(client) => Ok(HttpClient { client, config: b.config }),
        Err(e) => Err(e),
    }
}

/// Seconds a whole request may take.
pub const REQUEST_TIMEOUT_SECS: u64 = 600;

/// Seconds a connection may take to open.
pub const CONNECT_TIMEOUT_SECS: u64 = 120;

/// What an HTTP client is built with: the proxy all traffic goes through
/// (none for a direct client) and the two timeouts.
pub struct ClientSettings {
    pub proxy: Option<String>,
    pub request_timeout_secs: u64,
    pub connect_timeout_secs: u64,
}

/// The settings of a client that sends everything through the Tor proxy at
/// `proxy_addr`: that proxy, 600 s per request, 120 s to connect.
pub fn tor_client_settings(proxy_addr: &str) -> (s: ClientSettings)
    ensures
        s.proxy matches Some(p) && p@ == proxy_addr@,
        s.request_timeout_secs == REQUEST_TIMEOUT_SECS,
        s.connect_timeout_secs == CONNECT_TIMEOUT_SECS,
{
    ClientSettings {
        proxy: Some(String::from_str(proxy_addr)),
        request_timeout_secs: REQUEST_TIMEOUT_SECS,
        connect_timeout_secs: CONNECT_TIMEOUT_SECS,
    }
}

/// The settings of a client for the normal network: no proxy, 600 s per
/// request, 120 s to connect.
pub fn normal_client_settings() -> (s: ClientSettings)
    ensures
        s.proxy is None,
        s.request_timeout_secs == REQUEST_TIMEOUT_SECS,
        s.connect_timeout_secs == CONNECT_TIMEOUT_SECS,
{
    ClientSettings {
        proxy: None,
        request_timeout_secs: REQUEST_TIMEOUT_SECS,
        connect_timeout_secs: CONNECT_TIMEOUT_SECS,
    }
}

/// Why a client could not be built from its settings.
#[derive(Debug)]
pub enum ClientBuildError {
    /// reqwest did not accept the proxy address.
    ProxyRejected(reqwest::Error),
    /// reqwest could not build the client.
    BuildFailed(reqwest::Error),
}

/// The configuration a client built from `s` has: the settings' proxy as
/// its only proxy (and then no system proxies), or no proxy and the system's
/// settings, and the settings' two timeouts.
pub open spec fn config_of_settings(s: &ClientSettings) -> ClientConfig {
    ClientConfig {
        proxies: match &s.proxy {
            Some(p) => seq![p@],
            None => Seq::empty(),
        },
        system_proxies: s.proxy is None,
        request_timeout_secs: Some(s.request_timeout_secs),
        connect_timeout_secs: Some(s.connect_timeout_secs),
    }
}

/// Builds a client from `settings`: the proxy, if there is one, is parsed
/// by `Proxy::all` and added to a default builder, then the request and
/// connection timeouts are set, then the client is built. The proxy is
/// rejected exactly when reqwest does not accept its address; a client that
/// is built has the configuration of the settings.
pub fn client_from_settings(settings: &ClientSettings) -> (r: Result<HttpClient, ClientBuildError>)
    ensures
        (r matches Err(ClientBuildError::ProxyRejected(_))) <==> (settings.proxy matches Some(p)
            && !proxy_url_accepted(p@)),
        r matches Ok(c) ==> c.config() == config_of_settings(settings),
{
    let mut b = client_builder();
    match &settings.proxy {
        Some(addr) => match proxy_all(addr.as_str()) {
            Ok(p) => {
                b = builder_proxy(b, p);
            },
            Err(e) => {
                return Err(ClientBuildError::ProxyRejected(e));
            },
        },
        None => {},
    }
    let b = builder_timeout(b, settings.request_timeout_secs);
    let b = builder_connect_timeout(b, settings.connect_timeout_secs);
    let r = match builder_build(b) {
        Ok(c) => Ok(c),
        Err(e) => Err(ClientBuildError::BuildFailed(e)),
    };
    proof {
        if let Ok(c) = &r {
            assert(c.config().proxies =~= config_of_settings(settings).proxies);
        }
    }
    r
}

/// An HTTP client that sends all traffic through the Tor SOCKS proxy at
/// `proxy_addr` (with `socks5h://` the proxy resolves host names too): the
/// client of `tor_client_settings(proxy_addr)`. A proxy address that reqwest
/// does not accept gives `TorUnavailable` with the address, `: ` and
/// reqwest's error text; a client that cannot be built gives
/// `TorUnavailable` with reqwest's error text.
pub fn build_client(proxy_addr: &str) -> (r: Result<HttpClient, OnionError>)
    ensures
        r is Ok ==> proxy_url_accepted(proxy_addr@),
        r matches Ok(c) ==> c.config() == (ClientConfig {
            proxies: seq![proxy_addr@],
            system_proxies: false,
            request_timeout_secs: Some(REQUEST_TIMEOUT_SECS),
            connect_timeout_secs: Some(CONNECT_TIMEOUT_SECS),
        }),
        r matches Err(e) ==> e is TorUnavailable,
        !proxy_url_accepted(proxy_addr@) ==> (r matches Err(OnionError::TorUnavailable(t))
            && starts_with(t@, proxy_addr@ + ": "@)),
{
    let settings = tor_client_settings(proxy_addr);
    match client_from_settings(&settings) {
        Ok(c) => Ok(c),
        Err(ClientBuildError::ProxyRejected(e)) => {
            let mut t = String::from_str(proxy_addr);
            t.append(": ");
            let m = crate::error::reqwest_error_text(&e);
            t.append(m.as_str());
            assert(t@.subrange(0, (proxy_addr@ + ": "@).len() as int) =~= proxy_addr@ + ": "@);
            Err(OnionError::TorUnavailable(t))
        },
        Err(ClientBuildError::BuildFailed(e)) => Err(
            OnionError::TorUnavailable(crate::error::reqwest_error_text(&e)),
        ),
    }
}

/// An HTTP client for the normal network: the client of
/// `normal_client_settings()`. A client that cannot be built gives `Http`.
pub fn build_normal_client() -> (r: Result<HttpClient, OnionError>)
    ensures
        r matches Err(e) ==> e is Http,
        r matches Ok(c) ==> c.config() == (ClientConfig {
            proxies: Seq::empty(),
            system_proxies: true,
            request_timeout_secs: Some(REQUEST_TIMEOUT_SECS),
            connect_timeout_secs: Some(CONNECT_TIMEOUT_SECS),
        }),
{
    let settings = normal_client_settings();
    match client_from_settings(&settings) {
        Ok(c) => Ok(c),
        Err(ClientBuildError::ProxyRejected(e)) => Err(OnionError::Http(e)),
        Err(ClientBuildError::BuildFailed(e)) => Err(OnionError::Http(e)),
    }
}

} // verus!
