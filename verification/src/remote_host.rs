//! Reading the upstream and proxy settings: `host:port` pairs, proxy
//! credentials, and the choice of the connection route.

use crate::host::Host;
use vstd::prelude::*;
use vstd::string::*;

verus! {

/// Why the remote host settings could not be read.
#[derive(Debug, Clone, PartialEq, Eq)]
pub enum RemoteHostError {
    /// The proxy scheme is none of the known ones.
    ProxyScheme(String),
    /// The proxy credentials are not of the form `username:password`.
    ProxyCredentials(String),
    /// An I/O failure, described in words.
    Io(String),
    /// What follows the last colon is no port number; holds what stands
    /// before it.
    UnknownPort(String),
    /// The text holds no colon; holds the text.
    UnknownHostPort(String),
}


/// `i` is the place of the last colon of `s`.
pub open spec fn is_last_colon(s: Seq<char>, i: int) -> bool {
    &&& 0 <= i < s.len()
    &&& s[i] == ':'
    &&& forall|j: int| i < j < s.len() ==> s[j] != ':'
}

/// `i` is the place of the first colon of `s`.
pub open spec fn is_first_colon(s: Seq<char>, i: int) -> bool {
    &&& 0 <= i < s.len()
    &&& s[i] == ':'
    &&& forall|j: int| 0 <= j < i ==> s[j] != ':'
}

/// Whether `s` holds a colon.
pub open spec fn has_colon(s: Seq<char>) -> bool {
    exists|i: int| 0 <= i < s.len() && s[i] == ':'
}

/// The place of the last colon of `s`, where it has one.
pub open spec fn last_colon(s: Seq<char>) -> int {
    choose|i: int| is_last_colon(s, i)
}

/// The place of the first colon of `s`, where it has one.
pub open spec fn first_colon(s: Seq<char>) -> int {
    choose|i: int| is_first_colon(s, i)
}

/// There is one last colon only.
pub proof fn lemma_last_colon(s: Seq<char>, i: int)
    requires
        is_last_colon(s, i),
    ensures
        has_colon(s),
        last_colon(s) == i,
{
    let k = last_colon(s);
    assert(is_last_colon(s, k));
    if k < i {
        assert(s[i] != ':');
    } else if i < k {
        assert(s[k] != ':');
    }
}

/// There is one first colon only.
pub proof fn lemma_first_colon(s: Seq<char>, i: int)
    requires
        is_first_colon(s, i),
    ensures
        has_colon(s),
        first_colon(s) == i,
{
    let k = first_colon(s);
    assert(is_first_colon(s, k));
    if k < i {
        assert(s[k] != ':');
    } else if i < k {
        assert(s[i] != ':');
    }
}

/// A decimal digit.
pub open spec fn is_digit_char(c: char) -> bool {
    '0' <= c <= '9'
}

/// Every character is a decimal digit.
pub open spec fn all_digit_chars(s: Seq<char>) -> bool {
    forall|i: int| 0 <= i < s.len() ==> is_digit_char(#[trigger] s[i])
}

/// The number that a string of digits writes in base ten.
pub open spec fn chars_value(s: Seq<char>) -> nat
    decreases s.len(),
{
    if s.len() == 0 {
        0
    } else {
        chars_value(s.drop_last()) * 10 + (s.last() as u32 - '0' as u32) as nat
    }
}

/// `s` without the plus sign that may stand at its start.
pub open spec fn after_plus(s: Seq<char>) -> Seq<char> {
    if s.len() > 0 && s[0] == '+' {
        s.drop_first()
    } else {
        s
    }
}

/// The port that `s` writes: an optional plus sign, then at least one digit
/// and nothing else, for a number of at most 65535.
pub open spec fn spec_parse_port(s: Seq<char>) -> Option<u16> {
    let digits = after_plus(s);
    if digits.len() > 0 && all_digit_chars(digits) && chars_value(digits) <= u16::MAX {
        Some(chars_value(digits) as u16)
    } else {
        None
    }
}

/// A longer string of digits writes no smaller a number.
pub proof fn lemma_chars_value_grows(s: Seq<char>, n: int)
    requires
        0 <= n <= s.len(),
        all_digit_chars(s),
    ensures
        chars_value(s.subrange(0, n)) <= chars_value(s),
    decreases s.len() - n,
{
    if n == s.len() {
        assert(s.subrange(0, n) =~= s);
    } else {
        assert(is_digit_char(s[s.len() - 1]));
        assert forall|i: int| 0 <= i < s.drop_last().len() implies is_digit_char(
            #[trigger] s.drop_last()[i],
        ) by {
            assert(s.drop_last()[i] == s[i]);
        }
        lemma_chars_value_grows(s.drop_last(), n);
        assert(s.drop_last().subrange(0, n) =~= s.subrange(0, n));
    }
}

/// Reads a port number as `str::parse::<u16>` does.
pub fn parse_port(text: &str) -> (r: Option<u16>)
    ensures
        r == spec_parse_port(text@),
{
    let len = text.unicode_len();
    let start: usize = if len > 0 && text.get_char(0) == '+' {
        1
    } else {
        0
    };
    let ghost digits = text@.subrange(start as int, len as int);
    assert(digits =~= after_plus(text@));
    if start == len {
        return None;
    }
    let mut value: u32 = 0;
    let mut i: usize = start;
    while i < len
        invariant
            start <= i <= len,
            len == text@.len(),
            digits == text@.subrange(start as int, len as int),
            digits == after_plus(text@),
            digits.len() > 0,
            all_digit_chars(digits.subrange(0, i - start)),
            value == chars_value(digits.subrange(0, i - start)),
            value <= u16::MAX,
        decreases len - i,
    {
        let c = text.get_char(i);
        let ghost next = digits.subrange(0, i - start + 1);
        proof {
            assert(next.drop_last() =~= digits.subrange(0, i - start));
            assert(next.last() == c);
            assert(digits[i - start] == c);
        }
        if !('0' <= c && c <= '9') {
            assert(!is_digit_char(digits[i - start]));
            return None;
        }
        let d: u32 = c as u32 - '0' as u32;
        value = value * 10 + d;
        proof {
            assert forall|j: int| 0 <= j < next.len() implies is_digit_char(#[trigger] next[j]) by {
                if j < i - start {
                    assert(digits.subrange(0, i - start)[j] == next[j]);
                }
            }
        }
        if value > 65535 {
            proof {
                if all_digit_chars(digits) {
                    lemma_chars_value_grows(digits, i - start + 1);
                }
            }
            return None;
        }
        i += 1;
    }
    assert(digits.subrange(0, i - start) =~= digits);
    Some(value as u16)
}

/// Splits `host:port` at its last colon and reads the port.
pub fn parse_host_port(host_port: &str) -> (r: Result<(&str, u16), RemoteHostError>)
    ensures
        match r {
            Ok((host, port)) => {
                let colon = last_colon(host_port@);
                &&& has_colon(host_port@)
                &&& host@ == host_port@.subrange(0, colon)
                &&& spec_parse_port(host_port@.subrange(colon + 1, host_port@.len() as int))
                    == Some(port)
            },
            Err(RemoteHostError::UnknownHostPort(text)) => {
                &&& !has_colon(host_port@)
                &&& text@ == host_port@
            },
            Err(RemoteHostError::UnknownPort(host)) => {
                let colon = last_colon(host_port@);
                &&& has_colon(host_port@)
                &&& host@ == host_port@.subrange(0, colon)
                &&& spec_parse_port(host_port@.subrange(colon + 1, host_port@.len() as int))
                    is None
            },
            Err(_) => false,
        },
{
    let len = host_port.unicode_len();
    let mut i: usize = len;
    while i > 0 && host_port.get_char(i - 1) != ':'
        invariant
            i <= len,
            len == host_port@.len(),
            forall|j: int| i <= j < len ==> host_port@[j] != ':',
        decreases i,
    {
        i -= 1;
    }
    if i == 0 {
        return Err(RemoteHostError::UnknownHostPort(host_port.to_owned()));
    }
    let colon = i - 1;
    proof {
        lemma_last_colon(host_port@, colon as int);
    }
    let host = host_port.substring_char(0, colon);
    let port_text = host_port.substring_char(colon + 1, len);
    match parse_port(port_text) {
        Some(port) => Ok((host, port)),
        None => Err(RemoteHostError::UnknownPort(host.to_owned())),
    }
}

/// Reads the credentials of a proxy: `username:password`, split at the
/// first colon. No setting means no credentials.
pub fn get_proxy_credentials(proxy_credentials: Option<&str>) -> (r: Result<
    Option<(String, String)>,
    RemoteHostError,
>)
    ensures
        match proxy_credentials {
            None => r matches Ok(None),
            Some(text) => if has_colon(text@) {
                let colon = first_colon(text@);
                &&& r matches Ok(Some(pair))
                &&& pair.0@ == text@.subrange(0, colon)
                &&& pair.1@ == text@.subrange(colon + 1, text@.len() as int)
            } else {
                r matches Err(RemoteHostError::ProxyCredentials(got)) && got@ == text@
            },
        },
{
    match proxy_credentials {
        Some(text) => {
            let len = text.unicode_len();
            let mut i: usize = 0;
            while i < len && text.get_char(i) != ':'
                invariant
                    i <= len,
                    len == text@.len(),
                    forall|j: int| 0 <= j < i ==> text@[j] != ':',
                decreases len - i,
            {
                i += 1;
            }
            if i < len {
                proof {
                    lemma_first_colon(text@, i as int);
                }
                let username = text.substring_char(0, i).to_owned();
                let password = text.substring_char(i + 1, len).to_owned();
                Ok(Some((username, password)))
            } else {
                Err(RemoteHostError::ProxyCredentials(text.to_owned()))
            }
        },
        None => Ok(None),
    }
}

/// The route straight to the server named by `remote_host`, a `host:port`
/// pair.
pub fn get_direct(remote_host: &str) -> (r: Result<Host, RemoteHostError>)
    ensures
        match r {
            Ok(Host::Direct(host, port)) => {
                let colon = last_colon(remote_host@);
                &&& has_colon(remote_host@)
                &&& host@ == remote_host@.subrange(0, colon)
                &&& spec_parse_port(remote_host@.subrange(colon + 1, remote_host@.len() as int))
                    == Some(port)
            },
            Ok(_) => false,
            Err(RemoteHostError::UnknownHostPort(text)) => !has_colon(remote_host@) && text@
                == remote_host@,
            Err(RemoteHostError::UnknownPort(_)) => {
                &&& has_colon(remote_host@)
                &&& spec_parse_port(
                    remote_host@.subrange(
                        last_colon(remote_host@) + 1,
                        remote_host@.len() as int,
                    ),
                ) is None
            },
            Err(_) => false,
        },
{
    let (remote_host, remote_port) = parse_host_port(remote_host)?;
    Ok(Host::Direct(remote_host.to_owned(), remote_port))
}


/// What stands before the last colon of a `host:port` pair.
pub open spec fn host_of(s: Seq<char>) -> Seq<char> {
    s.subrange(0, last_colon(s))
}

/// The port that stands after the last colon of a `host:port` pair.
pub open spec fn port_of(s: Seq<char>) -> Option<u16> {
    spec_parse_port(s.subrange(last_colon(s) + 1, s.len() as int))
}

/// Whether two texts are the same.
pub fn same_text(a: &str, b: &str) -> (same: bool)
    ensures
        same == (a@ == b@),
{
    let len = a.unicode_len();
    if len != b.unicode_len() {
        return false;
    }
    let mut i: usize = 0;
    while i < len
        invariant
            i <= len,
            len == a@.len(),
            len == b@.len(),
            forall|j: int| 0 <= j < i ==> a@[j] == b@[j],
        decreases len - i,
    {
        if a.get_char(i) != b.get_char(i) {
            return false;
        }
        i += 1;
    }
    assert(a@ =~= b@);
    true
}

/// The kind of a proxy.
#[derive(Debug, Clone, Copy, PartialEq, Eq, Structural)]
pub enum Scheme {
    Socks5,
    Socks5h,
    Http,
    Https,
}

/// The kind of proxy that a scheme names, if it names one.
pub open spec fn spec_scheme(scheme: Seq<char>) -> Option<Scheme> {
    if scheme == "socks5"@ {
        Some(Scheme::Socks5)
    } else if scheme == "socks5h"@ {
        Some(Scheme::Socks5h)
    } else if scheme == "http"@ {
        Some(Scheme::Http)
    } else if scheme == "https"@ {
        Some(Scheme::Https)
    } else {
        None
    }
}

/// Reads the scheme of a proxy: `socks5`, `socks5h`, `http` or `https`.
pub fn parse_scheme(scheme: &str) -> (r: Result<Scheme, RemoteHostError>)
    ensures
        match r {
            Ok(kind) => spec_scheme(scheme@) == Some(kind),
            Err(RemoteHostError::ProxyScheme(got)) => spec_scheme(scheme@) is None && got@
                == scheme@,
            Err(_) => false,
        },
{
    if same_text(scheme, "socks5") {
        Ok(Scheme::Socks5)
    } else if same_text(scheme, "socks5h") {
        Ok(Scheme::Socks5h)
    } else if same_text(scheme, "http") {
        Ok(Scheme::Http)
    } else if same_text(scheme, "https") {
        Ok(Scheme::Https)
    } else {
        Err(RemoteHostError::ProxyScheme(scheme.to_owned()))
    }
}

/// A proxy as the settings name it.
#[derive(Debug, Clone, PartialEq, Eq)]
pub struct Proxy {
    pub scheme: Scheme,
    pub host: String,
    pub port: u16,
    pub credentials: Option<(String, String)>,
}

/// Reads the settings of a proxy. The first of these that is wrong is
/// reported: the proxy's `host:port`, the credentials, the scheme.
pub fn get_proxy(proxy_scheme: &str, proxy_host: &str, proxy_credentials: Option<&str>) -> (r:
    Result<Proxy, RemoteHostError>)
    ensures
        match r {
            Ok(proxy) => {
                &&& has_colon(proxy_host@)
                &&& proxy.host@ == host_of(proxy_host@)
                &&& port_of(proxy_host@) == Some(proxy.port)
                &&& spec_scheme(proxy_scheme@) == Some(proxy.scheme)
                &&& match proxy_credentials {
                    None => proxy.credentials is None,
                    Some(text) => {
                        &&& has_colon(text@)
                        &&& proxy.credentials matches Some(pair)
                        &&& pair.0@ == text@.subrange(0, first_colon(text@))
                        &&& pair.1@ == text@.subrange(first_colon(text@) + 1, text@.len() as int)
                    },
                }
            },
            Err(RemoteHostError::UnknownHostPort(_)) => !has_colon(proxy_host@),
            Err(RemoteHostError::UnknownPort(_)) => has_colon(proxy_host@) && port_of(
                proxy_host@,
            ) is None,
            Err(RemoteHostError::ProxyCredentials(_)) => {
                &&& has_colon(proxy_host@)
                &&& port_of(proxy_host@) is Some
                &&& proxy_credentials matches Some(text)
                &&& !has_colon(text@)
            },
            Err(RemoteHostError::ProxyScheme(got)) => {
                &&& has_colon(proxy_host@)
                &&& port_of(proxy_host@) is Some
                &&& proxy_credentials matches Some(text) ==> has_colon(text@)
                &&& spec_scheme(proxy_scheme@) is None
                &&& got@ == proxy_scheme@
            },
            Err(_) => false,
        },
{
    let (host, port) = parse_host_port(proxy_host)?;
    let credentials = get_proxy_credentials(proxy_credentials)?;
    let scheme = parse_scheme(proxy_scheme)?;
    Ok(Proxy { scheme, host: host.to_owned(), port, credentials })
}

/// The route to the server named by `remote_host`, a `host:port` pair:
/// direct without a proxy, else through the proxy in the way of its scheme.
/// `remote_addrs` are the server's resolved addresses, which only a SOCKS5
/// proxy is handed; `https_domain` is the name of an HTTPS proxy.
pub fn get_remote_host(
    proxy: Option<Proxy>,
    remote_host: &str,
    remote_addrs: Vec<(String, u16)>,
    https_domain: &str,
) -> (r: Result<Host, RemoteHostError>)
    ensures
        match r {
            Ok(route) => {
                &&& has_colon(remote_host@)
                &&& port_of(remote_host@) matches Some(remote_port)
                &&& match proxy {
                    None => route matches Host::Direct(host, port) && host@ == host_of(
                        remote_host@,
                    ) && port == remote_port,
                    Some(p) => match p.scheme {
                        Scheme::Socks5 => route == Host::Socks5(
                            p.host,
                            p.port,
                            p.credentials,
                            remote_addrs,
                        ),
                        Scheme::Socks5h => {
                            &&& route matches Host::Socks5h(ph, pp, pc, host, port)
                            &&& ph == p.host && pp == p.port && pc == p.credentials
                            &&& host@ == host_of(remote_host@) && port == remote_port
                        },
                        Scheme::Http => {
                            &&& route matches Host::HttpProxy(ph, pp, pc, host, port)
                            &&& ph == p.host && pp == p.port && pc == p.credentials
                            &&& host@ == host_of(remote_host@) && port == remote_port
                        },
                        Scheme::Https => {
                            &&& route matches Host::HttpsProxy(ph, pp, pc, host, port, name)
                            &&& ph == p.host && pp == p.port && pc == p.credentials
                            &&& host@ == host_of(remote_host@) && port == remote_port
                            &&& name@ == https_domain@
                        },
                    },
                }
            },
            Err(RemoteHostError::UnknownHostPort(text)) => !has_colon(remote_host@) && text@
                == remote_host@,
            Err(RemoteHostError::UnknownPort(_)) => has_colon(remote_host@) && port_of(
                remote_host@,
            ) is None,
            Err(_) => false,
        },
{
    let (host, port) = parse_host_port(remote_host)?;
    match proxy {
        None => Ok(Host::Direct(host.to_owned(), port)),
        Some(p) => match p.scheme {
            Scheme::Socks5 => Ok(Host::Socks5(p.host, p.port, p.credentials, remote_addrs)),
            Scheme::Socks5h => Ok(
                Host::Socks5h(p.host, p.port, p.credentials, host.to_owned(), port),
            ),
            Scheme::Http => Ok(
                Host::HttpProxy(p.host, p.port, p.credentials, host.to_owned(), port),
            ),
            Scheme::Https => Ok(
                Host::HttpsProxy(
                    p.host,
                    p.port,
                    p.credentials,
                    host.to_owned(),
                    port,
                    https_domain.to_owned(),
                ),
            ),
        },
    }
}


/// An error in words.
pub open spec fn spec_error_text(error: RemoteHostError) -> Seq<char> {
    match error {
        RemoteHostError::ProxyScheme(scheme) => "Could not parse proxy scheme: "@ + scheme@,
        RemoteHostError::ProxyCredentials(credentials) => "Could not parse proxy credentials: "@
            + credentials@,
        RemoteHostError::Io(cause) => "IO Error: "@ + cause@,
        RemoteHostError::UnknownPort(host) => "Unknown port: "@ + host@,
        RemoteHostError::UnknownHostPort(text) => "Unknown hostm and port: "@ + text@,
    }
}

impl RemoteHostError {
    /// The error in words, as it is written in the log.
    pub fn display(&self) -> (text: String)
        ensures
            text@ == spec_error_text(*self),
    {
        match self {
            RemoteHostError::ProxyScheme(scheme) => String::from_str(
                "Could not parse proxy scheme: ",
            ).concat(scheme.as_str()),
            RemoteHostError::ProxyCredentials(credentials) => String::from_str(
                "Could not parse proxy credentials: ",
            ).concat(credentials.as_str()),
            RemoteHostError::Io(cause) => String::from_str("IO Error: ").concat(cause.as_str()),
            RemoteHostError::UnknownPort(host) => String::from_str("Unknown port: ").concat(
                host.as_str(),
            ),
            RemoteHostError::UnknownHostPort(text) => String::from_str(
                "Unknown hostm and port: ",
            ).concat(text.as_str()),
        }
    }
}

} // verus!
