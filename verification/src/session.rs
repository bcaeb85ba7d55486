//! The session with the DoH server: one connection slot, a generation that
//! counts the connections made, and the HTTP request that carries a DNS
//! query.

use crate::error::Error;
use crate::host::Host;
use crate::message::dns_encoded;
use crate::message::DnsMessage;
use crate::text::decimal_string;
use crate::text::decimal_text;
use base64::engine::general_purpose::URL_SAFE_NO_PAD;
use base64::Engine;
use vstd::prelude::*;
use vstd::string::*;

verus! {

/// The base64 text of `data` in the URL-safe alphabet, without padding.
pub uninterp spec fn base64url_nopad(data: Seq<u8>) -> Seq<char>;

/// `Engine::encode` of `URL_SAFE_NO_PAD`.
#[verifier::external_body]
fn encode_base64url(data: &[u8]) -> (text: String)
    ensures
        text@ == base64url_nopad(data@),
{
    URL_SAFE_NO_PAD.encode(data)
}

/// The HTTP method of a DoH request.
#[derive(Debug, Clone, Copy, PartialEq, Eq, Structural)]
pub enum Method {
    Post,
    Get,
}

/// An HTTP request, ready to be handed to the HTTP/2 connection.
#[derive(Debug, Clone, PartialEq, Eq)]
pub struct HttpRequest {
    pub method: Method,
    pub uri: String,
    /// The header fields, name and value, in their order.
    pub headers: Vec<(String, String)>,
    /// The body; where there is none, the request ends with its header.
    pub body: Option<Vec<u8>>,
}

/// An HTTP request as a value.
pub struct HttpRequestView {
    pub method: Method,
    pub uri: Seq<char>,
    pub headers: Seq<(Seq<char>, Seq<char>)>,
    pub body: Option<Seq<u8>>,
}

impl View for HttpRequest {
    type V = HttpRequestView;

    open spec fn view(&self) -> HttpRequestView {
        HttpRequestView {
            method: self.method,
            uri: self.uri@,
            headers: Seq::new(
                self.headers@.len(),
                |i: int| (self.headers@[i].0@, self.headers@[i].1@),
            ),
            body: match self.body {
                Some(body) => Some(body@),
                None => None,
            },
        }
    }
}

/// The request that carries the DNS query `data` to the endpoint `uri`.
/// POST sends the query as the body, with its type and length announced.
/// GET sends it in the URI, as base64url without padding, and has no body.
pub open spec fn spec_request(uri: Seq<char>, post: bool, data: Seq<u8>) -> HttpRequestView {
    if post {
        HttpRequestView {
            method: Method::Post,
            uri: uri,
            headers: seq![
                ("accept"@, "application/dns-message"@),
                ("content-type"@, "application/dns-message"@),
                ("content-length"@, decimal_text(data.len())),
            ],
            body: Some(data),
        }
    } else {
        HttpRequestView {
            method: Method::Get,
            uri: uri + "?dns="@ + base64url_nopad(data),
            headers: seq![("accept"@, "application/dns-message"@)],
            body: None,
        }
    }
}

/// Builds the request that carries the DNS query `data` to `uri`.
pub fn build_request(uri: &String, post: bool, data: Vec<u8>) -> (request: HttpRequest)
    ensures
        request@ == spec_request(uri@, post, data@),
{
    let mut headers: Vec<(String, String)> = Vec::new();
    headers.push((String::from_str("accept"), String::from_str("application/dns-message")));
    if post {
        headers.push(
            (String::from_str("content-type"), String::from_str("application/dns-message")),
        );
        headers.push((String::from_str("content-length"), decimal_string(data.len())));
        let request = HttpRequest {
            method: Method::Post,
            uri: uri.clone(),
            headers,
            body: Some(data),
        };
        assert(request@.headers =~= spec_request(uri@, post, data@).headers);
        request
    } else {
        let mut target = uri.clone();
        target.append("?dns=");
        let query = encode_base64url(data.as_slice());
        target.append(query.as_str());
        let request = HttpRequest { method: Method::Get, uri: target, headers, body: None };
        assert(request@.headers =~= spec_request(uri@, post, data@).headers);
        request
    }
}

/// The settings of a session.
#[derive(Debug, Clone, PartialEq, Eq)]
pub struct RemoteConfig {
    /// The name that the server's certificate is checked against.
    pub domain: String,
    /// The URI of the DoH endpoint.
    pub uri: String,
    /// How often a connection is tried before the session gives up.
    pub retries: u32,
    /// POST where true, GET where false.
    pub post: bool,
}

/// What a session does next to get connected.
#[derive(Debug, Clone, Copy, PartialEq, Eq, Structural)]
pub enum ConnectStep {
    /// There is a connection: nothing to do.
    Connected,
    /// Try to connect; this is the attempt of this number, counted from one.
    Attempt(u32),
}

/// The generation after one more connection: the counter wraps.
pub open spec fn next_generation(generation: u32) -> u32 {
    if generation == u32::MAX {
        0
    } else {
        (generation + 1) as u32
    }
}

/// The session with the DoH server. `C` is the handle of an HTTP/2
/// connection on which requests are sent.
pub struct Session<C> {
    config: RemoteConfig,
    host: Host,
    connection_id: u32,
    send_request: Option<C>,
}

/// A session as a value.
pub struct SessionView<C> {
    pub config: RemoteConfig,
    pub host: Host,
    /// The number of connections made so far, wrapping.
    pub generation: u32,
    /// The connection, while there is one.
    pub connection: Option<C>,
}

impl<C> View for Session<C> {
    type V = SessionView<C>;

    closed spec fn view(&self) -> SessionView<C> {
        SessionView {
            config: self.config,
            host: self.host,
            generation: self.connection_id,
            connection: self.send_request,
        }
    }
}

impl<C> Session<C> {
    /// A session without a connection, at generation zero.
    pub fn new(host: Host, domain: String, uri: String, retries: u32, post: bool) -> (session:
        Session<C>)
        ensures
            session@.host == host,
            session@.config == (RemoteConfig { domain, uri, retries, post }),
            session@.generation == 0,
            session@.connection is None,
    {
        let config = RemoteConfig { domain, uri, retries, post };
        Session { config, host, connection_id: 0, send_request: None }
    }

    /// The settings.
    pub fn config(&self) -> (config: &RemoteConfig)
        ensures
            *config == self@.config,
    {
        &self.config
    }

    /// The route to the server.
    pub fn host(&self) -> (host: &Host)
        ensures
            *host == self@.host,
    {
        &self.host
    }

    /// The generation of the present or last connection.
    pub fn generation(&self) -> (generation: u32)
        ensures
            generation == self@.generation,
    {
        self.connection_id
    }

    /// Whether there is a connection.
    pub fn is_connected(&self) -> (connected: bool)
        ensures
            connected == (self@.connection is Some),
    {
        self.send_request.is_some()
    }

    /// The connection, while there is one.
    pub fn connection(&self) -> (connection: Option<&C>)
        ensures
            match connection {
                Some(c) => self@.connection == Some(*c),
                None => self@.connection is None,
            },
    {
        self.send_request.as_ref()
    }

    /// What to do next to get connected, after `failures` attempts have
    /// failed in a row: nothing while there is a connection, else another
    /// attempt as long as fewer than `retries` have failed, else give up.
    pub fn connect_step(&self, failures: u32) -> (r: Result<ConnectStep, Error>)
        ensures
            match r {
                Ok(ConnectStep::Connected) => self@.connection is Some,
                Ok(ConnectStep::Attempt(n)) => {
                    &&& self@.connection is None
                    &&& failures < self@.config.retries
                    &&& n == failures + 1
                },
                Err(e) => {
                    &&& self@.connection is None
                    &&& failures >= self@.config.retries
                    &&& e is CouldNotConnectServer
                },
            },
    {
        if self.send_request.is_some() {
            Ok(ConnectStep::Connected)
        } else if failures < self.config.retries {
            Ok(ConnectStep::Attempt(failures + 1))
        } else {
            Err(Error::CouldNotConnectServer)
        }
    }

    /// Takes a connection that was just made: it fills the slot, and the
    /// generation goes up by one.
    pub fn established(&mut self, connection: C)
        ensures
            final(self)@.connection == Some(connection),
            final(self)@.generation == next_generation(old(self)@.generation),
            final(self)@.config == old(self)@.config,
            final(self)@.host == old(self)@.host,
    {
        self.send_request = Some(connection);
        self.connection_id = self.connection_id.wrapping_add(1);
    }

    /// Drops the connection of generation `connection_id`. Where the
    /// session is at another generation by now, nothing changes: a request
    /// of an earlier connection cannot tear down a later one.
    pub fn disconnect(&mut self, connection_id: u32)
        ensures
            old(self)@.generation != connection_id ==> final(self)@ == old(self)@,
            old(self)@.generation == connection_id ==> final(self)@ == (SessionView {
                connection: None,
                ..old(self)@
            }),
    {
        if self.connection_id == connection_id {
            self.send_request = None;
        }
    }

    /// Drops the connection after a request could not be sent on it.
    pub fn send_failed(&mut self)
        ensures
            final(self)@ == (SessionView { connection: None, ..old(self)@ }),
    {
        self.send_request = None;
    }

    /// Prepares the request that carries the DNS query `data` to the server,
    /// and tells the generation of the connection that it is to be sent on.
    /// Without a connection there is nothing to send on.
    pub fn send_request(&self, data: Vec<u8>) -> (r: Result<(HttpRequest, u32), Error>)
        ensures
            match r {
                Ok((request, generation)) => {
                    &&& self@.connection is Some
                    &&& generation == self@.generation
                    &&& request@ == spec_request(self@.config.uri@, self@.config.post, data@)
                },
                Err(e) => self@.connection is None && e is IsNotConnected,
            },
    {
        if self.send_request.is_none() {
            return Err(Error::IsNotConnected);
        }
        Ok((build_request(&self.config.uri, self.config.post, data), self.connection_id))
    }

    /// Prepares the request that carries `dns_request` to the server, and
    /// tells the generation of the connection that it is to be sent on. The
    /// query goes out with the id zero, whatever id the client chose, so
    /// that equal queries give equal requests.
    pub fn start_request(&self, dns_request: &DnsMessage) -> (r: Result<(HttpRequest, u32), Error>)
        ensures
            match r {
                Ok((request, generation)) => {
                    &&& self@.connection is Some
                    &&& generation == self@.generation
                    &&& dns_encoded(dns_request@.wire, 0) matches Some(data)
                    &&& request@ == spec_request(self@.config.uri@, self@.config.post, data)
                },
                Err(Error::IsNotConnected) => self@.connection is None,
                Err(Error::Encode(_)) => {
                    &&& self@.connection is Some
                    &&& dns_encoded(dns_request@.wire, 0) is None
                },
                Err(_) => false,
            },
    {
        if self.send_request.is_none() {
            return Err(Error::IsNotConnected);
        }
        let data = dns_request.encode(0)?;
        self.send_request(data)
    }
}

} // verus!
