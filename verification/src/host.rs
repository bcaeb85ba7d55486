//! The route to the DoH server, direct or through a proxy, and the layers of
//! transport that a connection along it is made of.

use crate::error::Error;
use crate::text::decimal_string;
use crate::text::decimal_text;
use vstd::prelude::*;
use vstd::string::*;

verus! {

/// Where the DoH server is reached, and through what.
#[derive(Debug, Clone, PartialEq, Eq)]
pub enum Host {
    /// Straight to the server: its host and port.
    Direct(String, u16),
    /// Through a SOCKS5 proxy: the proxy's host and port, the credentials,
    /// and the server's resolved addresses, each as host and port.
    Socks5(String, u16, Option<(String, String)>, Vec<(String, u16)>),
    /// Through a SOCKS5 proxy that resolves the server's name itself: the
    /// proxy's host and port, the credentials, the server's host and port.
    Socks5h(String, u16, Option<(String, String)>, String, u16),
    /// Through an HTTP proxy: the proxy's host and port, the credentials,
    /// the server's host and port.
    HttpProxy(String, u16, Option<(String, String)>, String, u16),
    /// Through an HTTPS proxy: as for an HTTP proxy, and the name that the
    /// proxy's certificate is checked against.
    HttpsProxy(String, u16, Option<(String, String)>, String, u16, String),
}

/// One layer of transport of a connection, with what it is set up with.
#[derive(Debug, Clone, Copy, PartialEq, Eq)]
pub enum Layer<'a> {
    /// A TCP connection to this host and port, without delay of small
    /// packets.
    Tcp { host: &'a String, port: u16 },
    /// A SOCKS5 tunnel through the proxy to one of the server's resolved
    /// addresses, which are tried in their order.
    Socks5 {
        proxy_host: &'a String,
        proxy_port: u16,
        credentials: &'a Option<(String, String)>,
        remote_addrs: &'a Vec<(String, u16)>,
    },
    /// A SOCKS5 tunnel through the proxy to the server by its name.
    Socks5h {
        proxy_host: &'a String,
        proxy_port: u16,
        credentials: &'a Option<(String, String)>,
        remote_host: &'a String,
        remote_port: u16,
    },
    /// TLS with the proxy, under the proxy's own name and trust.
    ProxyTls { domain: &'a String },
    /// An HTTP `CONNECT` to the server over what is there so far.
    HttpConnect {
        remote_host: &'a String,
        remote_port: u16,
        credentials: &'a Option<(String, String)>,
    },
    /// TLS with the server under this name, with the protocol `h2` offered.
    Tls { domain: &'a str },
    /// The HTTP/2 handshake.
    Http2,
}

/// The layers of a connection along a route to a server whose certificate
/// names `domain`, innermost first. Every route ends in TLS with the server
/// and the HTTP/2 handshake on top of it; a proxy comes before that, and an
/// HTTPS proxy is itself spoken to over TLS.
pub open spec fn spec_layers<'a>(host: &'a Host, domain: &'a str) -> Seq<Layer<'a>> {
    match host {
        Host::Direct(remote_host, remote_port) => seq![
            Layer::Tcp { host: remote_host, port: *remote_port },
            Layer::Tls { domain },
            Layer::Http2,
        ],
        Host::Socks5(proxy_host, proxy_port, credentials, remote_addrs) => seq![
            Layer::Socks5 { proxy_host, proxy_port: *proxy_port, credentials, remote_addrs },
            Layer::Tls { domain },
            Layer::Http2,
        ],
        Host::Socks5h(proxy_host, proxy_port, credentials, remote_host, remote_port) => seq![
            Layer::Socks5h {
                proxy_host,
                proxy_port: *proxy_port,
                credentials,
                remote_host,
                remote_port: *remote_port,
            },
            Layer::Tls { domain },
            Layer::Http2,
        ],
        Host::HttpProxy(proxy_host, proxy_port, credentials, remote_host, remote_port) => seq![
            Layer::Tcp { host: proxy_host, port: *proxy_port },
            Layer::HttpConnect { remote_host, remote_port: *remote_port, credentials },
            Layer::Tls { domain },
            Layer::Http2,
        ],
        Host::HttpsProxy(
            proxy_host,
            proxy_port,
            credentials,
            remote_host,
            remote_port,
            https_domain,
        ) => seq![
            Layer::Tcp { host: proxy_host, port: *proxy_port },
            Layer::ProxyTls { domain: https_domain },
            Layer::HttpConnect { remote_host, remote_port: *remote_port, credentials },
            Layer::Tls { domain },
            Layer::Http2,
        ],
    }
}

/// What to do next while a SOCKS5 tunnel is tried to one address after the
/// other.
#[derive(Debug)]
pub enum Socks5Step {
    /// Try the address at this place in the list.
    Try(usize),
    /// No address is left: the connection has failed.
    GiveUp(Error),
}

impl Host {
    /// The layers of a connection along this route to a server whose
    /// certificate names `domain`, in the order in which they are set up,
    /// each with what it is set up with.
    pub fn layers<'a>(&'a self, domain: &'a str) -> (layers: Vec<Layer<'a>>)
        ensures
            layers@ == spec_layers(self, domain),
            layers@.len() >= 3,
            layers@[layers@.len() - 2] == (Layer::Tls { domain }),
            layers@[layers@.len() - 1] == Layer::Http2,
    {
        let mut layers: Vec<Layer<'a>> = Vec::new();
        match self {
            Host::Direct(remote_host, remote_port) => {
                layers.push(Layer::Tcp { host: remote_host, port: *remote_port });
            },
            Host::Socks5(proxy_host, proxy_port, credentials, remote_addrs) => {
                layers.push(
                    Layer::Socks5 {
                        proxy_host,
                        proxy_port: *proxy_port,
                        credentials,
                        remote_addrs,
                    },
                );
            },
            Host::Socks5h(proxy_host, proxy_port, credentials, remote_host, remote_port) => {
                layers.push(
                    Layer::Socks5h {
                        proxy_host,
                        proxy_port: *proxy_port,
                        credentials,
                        remote_host,
                        remote_port: *remote_port,
                    },
                );
            },
            Host::HttpProxy(proxy_host, proxy_port, credentials, remote_host, remote_port) => {
                layers.push(Layer::Tcp { host: proxy_host, port: *proxy_port });
                layers.push(
                    Layer::HttpConnect { remote_host, remote_port: *remote_port, credentials },
                );
            },
            Host::HttpsProxy(
                proxy_host,
                proxy_port,
                credentials,
                remote_host,
                remote_port,
                https_domain,
            ) => {
                layers.push(Layer::Tcp { host: proxy_host, port: *proxy_port });
                layers.push(Layer::ProxyTls { domain: https_domain });
                layers.push(
                    Layer::HttpConnect { remote_host, remote_port: *remote_port, credentials },
                );
            },
        }
        layers.push(Layer::Tls { domain });
        layers.push(Layer::Http2);
        assert(layers@ =~= spec_layers(self, domain));
        layers
    }

    /// The next step of a SOCKS5 connection after `failed` addresses have
    /// failed: the addresses are tried in their order, and when none is
    /// left the failure names the proxy.
    pub fn socks5_step(
        proxy_host: &String,
        proxy_port: u16,
        remote_addrs: &Vec<(String, u16)>,
        failed: usize,
    ) -> (step: Socks5Step)
        ensures
            match step {
                Socks5Step::Try(i) => failed < remote_addrs@.len() && i == failed,
                Socks5Step::GiveUp(Error::CouldNotConnect(host, port)) => {
                    &&& failed >= remote_addrs@.len()
                    &&& host@ == proxy_host@
                    &&& port == proxy_port
                },
                Socks5Step::GiveUp(_) => false,
            },
    {
        if failed < remote_addrs.len() {
            Socks5Step::Try(failed)
        } else {
            Socks5Step::GiveUp(Error::CouldNotConnect(proxy_host.clone(), proxy_port))
        }
    }
}


/// `host:port` as text.
pub open spec fn spec_endpoint(host: Seq<char>, port: u16) -> Seq<char> {
    host + ":"@ + decimal_text(port as nat)
}

/// The first `upto` addresses of a list as text, with `, ` between them.
pub open spec fn spec_endpoint_list(addrs: Seq<(String, u16)>, upto: int) -> Seq<char>
    decreases upto,
{
    if upto <= 0 {
        Seq::<char>::empty()
    } else if upto == 1 {
        spec_endpoint(addrs[0].0@, addrs[0].1)
    } else {
        spec_endpoint_list(addrs, upto - 1) + ", "@ + spec_endpoint(
            addrs[upto - 1].0@,
            addrs[upto - 1].1,
        )
    }
}

/// A route in words, as it is named in the log.
pub open spec fn spec_display(host: Host) -> Seq<char> {
    match host {
        Host::Direct(remote_host, remote_port) => spec_endpoint(remote_host@, remote_port),
        Host::Socks5(proxy_host, proxy_port, _, remote_addrs) => spec_endpoint(
            proxy_host@,
            proxy_port,
        ) + " via socks5 ["@ + spec_endpoint_list(remote_addrs@, remote_addrs@.len() as int)
            + "]"@,
        Host::Socks5h(proxy_host, proxy_port, _, remote_host, remote_port) => spec_endpoint(
            proxy_host@,
            proxy_port,
        ) + " via socks5h "@ + spec_endpoint(remote_host@, remote_port),
        Host::HttpProxy(proxy_host, proxy_port, _, remote_host, remote_port) => spec_endpoint(
            proxy_host@,
            proxy_port,
        ) + " via http "@ + spec_endpoint(remote_host@, remote_port),
        Host::HttpsProxy(proxy_host, proxy_port, _, remote_host, remote_port, _) => spec_endpoint(
            proxy_host@,
            proxy_port,
        ) + " via https "@ + spec_endpoint(remote_host@, remote_port),
    }
}

fn endpoint(host: &String, port: u16) -> (text: String)
    ensures
        text@ == spec_endpoint(host@, port),
{
    let mut text = host.clone();
    text.append(":");
    let number = decimal_string(port as usize);
    text.append(number.as_str());
    text
}

impl Host {
    /// The route in words, as it is named in the log; credentials are left
    /// out.
    pub fn display(&self) -> (text: String)
        ensures
            text@ == spec_display(*self),
    {
        match self {
            Host::Direct(remote_host, remote_port) => endpoint(remote_host, *remote_port),
            Host::Socks5(proxy_host, proxy_port, _, remote_addrs) => {
                let mut text = endpoint(proxy_host, *proxy_port);
                text.append(" via socks5 [");
                let ghost head = text@;
                let mut i: usize = 0;
                while i < remote_addrs.len()
                    invariant
                        i <= remote_addrs.len(),
                        text@ == head + spec_endpoint_list(remote_addrs@, i as int),
                    decreases remote_addrs.len() - i,
                {
                    if i > 0 {
                        text.append(", ");
                    }
                    let one = endpoint(&remote_addrs[i].0, remote_addrs[i].1);
                    text.append(one.as_str());
                    assert(text@ =~= head + spec_endpoint_list(remote_addrs@, i + 1));
                    i += 1;
                }
                text.append("]");
                text
            },
            Host::Socks5h(proxy_host, proxy_port, _, remote_host, remote_port) => {
                let mut text = endpoint(proxy_host, *proxy_port);
                text.append(" via socks5h ");
                let remote = endpoint(remote_host, *remote_port);
                text.append(remote.as_str());
                text
            },
            Host::HttpProxy(proxy_host, proxy_port, _, remote_host, remote_port) => {
                let mut text = endpoint(proxy_host, *proxy_port);
                text.append(" via http ");
                let remote = endpoint(remote_host, *remote_port);
                text.append(remote.as_str());
                text
            },
            Host::HttpsProxy(proxy_host, proxy_port, _, remote_host, remote_port, _) => {
                let mut text = endpoint(proxy_host, *proxy_port);
                text.append(" via https ");
                let remote = endpoint(remote_host, *remote_port);
                text.append(remote.as_str());
                text
            },
        }
    }
}

} // verus!
