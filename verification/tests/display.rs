use doh_client::dns::DnsParserError;
use doh_client::get_listen_config;
use doh_client::handler::get_response_from_remote;
use doh_client::handler::RemoteOutcome;
use doh_client::listen::Config as ListenConfig;
use doh_client::message::DnsMessage;
use doh_client::session::Session;
use doh_client::Error;
use doh_client::Host;
use doh_client::RemoteHostError;

fn answer() -> Vec<u8> {
    let mut bytes = vec![0, 0, 0x81, 0x80, 0, 1, 0, 1, 0, 0, 0, 0];
    bytes.push(7);
    bytes.extend_from_slice(b"example");
    bytes.push(3);
    bytes.extend_from_slice(b"com");
    bytes.extend_from_slice(&[0, 0, 1, 0, 1]);
    bytes.extend_from_slice(&[0xc0, 0x0c, 0, 1, 0, 1, 0, 0, 0, 60, 0, 4, 93, 184, 216, 34]);
    bytes
}

fn connected() -> Session<u8> {
    let mut session = Session::new(
        Host::Direct("1.1.1.1".to_string(), 443),
        "cloudflare-dns.com".to_string(),
        "https://cloudflare-dns.com/dns-query".to_string(),
        3,
        true,
    );
    session.established(1);
    session
}

#[test]
fn parser_error_is_named() {
    assert_eq!(DnsParserError::TooLittleData.display(), "TooLittleData");
    assert_eq!(DnsParserError::TooMuchData.display(), "TooMuchData");
}

#[test]
fn remote_host_error_in_words() {
    assert_eq!(
        RemoteHostError::ProxyScheme("ftp".to_string()).display(),
        "Could not parse proxy scheme: ftp"
    );
    assert_eq!(
        RemoteHostError::ProxyCredentials("user".to_string()).display(),
        "Could not parse proxy credentials: user"
    );
    assert_eq!(RemoteHostError::Io("broken".to_string()).display(), "IO Error: broken");
    assert_eq!(RemoteHostError::UnknownPort("host".to_string()).display(), "Unknown port: host");
    assert_eq!(
        RemoteHostError::UnknownHostPort("host".to_string()).display(),
        "Unknown hostm and port: host"
    );
}

#[test]
fn route_in_words() {
    let credentials = Some(("user".to_string(), "secret".to_string()));
    assert_eq!(Host::Direct("1.1.1.1".to_string(), 443).display(), "1.1.1.1:443");
    assert_eq!(Host::Direct("h".to_string(), 0).display(), "h:0");
    assert_eq!(Host::Direct("h".to_string(), 65535).display(), "h:65535");
    assert_eq!(
        Host::Socks5(
            "proxy".to_string(),
            1080,
            credentials.clone(),
            vec![("1.1.1.1".to_string(), 443), ("1.0.0.1".to_string(), 853)]
        )
        .display(),
        "proxy:1080 via socks5 [1.1.1.1:443, 1.0.0.1:853]"
    );
    assert_eq!(
        Host::Socks5("proxy".to_string(), 1080, None, Vec::new()).display(),
        "proxy:1080 via socks5 []"
    );
    assert_eq!(
        Host::Socks5h("proxy".to_string(), 1080, None, "dns.example".to_string(), 443).display(),
        "proxy:1080 via socks5h dns.example:443"
    );
    assert_eq!(
        Host::HttpProxy("proxy".to_string(), 8080, credentials.clone(), "dns.example".to_string(), 443)
            .display(),
        "proxy:8080 via http dns.example:443"
    );
    assert_eq!(
        Host::HttpsProxy(
            "proxy".to_string(),
            8443,
            credentials,
            "dns.example".to_string(),
            443,
            "proxy.example".to_string()
        )
        .display(),
        "proxy:8443 via https dns.example:443"
    );
}

#[test]
fn listen_config_prefers_activation() {
    assert_eq!(get_listen_config(true, None), ListenConfig::Activation);
    assert_eq!(get_listen_config(true, Some("0.0.0.0:53")), ListenConfig::Activation);
}

#[test]
fn listen_config_takes_the_address_set() {
    assert_eq!(
        get_listen_config(false, Some("0.0.0.0:5353")),
        ListenConfig::Addr("0.0.0.0:5353".to_string())
    );
}

#[test]
fn listen_config_has_a_default_address() {
    assert_eq!(get_listen_config(false, None), ListenConfig::Addr("127.0.0.1:53".to_string()));
}

#[test]
fn answered_attempt_leaves_the_session_alone() {
    let mut session = connected();
    let dns = DnsMessage::decode(&answer()).unwrap();
    let remote = get_response_from_remote(&mut session, RemoteOutcome::Answered(dns, Some(60)));
    let (dns, duration) = remote.unwrap();
    assert_eq!(dns.wire(), &answer());
    assert_eq!(duration, Some(60));
    assert!(session.is_connected());
    assert_eq!(session.generation(), 1);
}

#[test]
fn unsent_attempt_leaves_the_session_alone() {
    let mut session = connected();
    assert!(get_response_from_remote(&mut session, RemoteOutcome::NotSent).is_none());
    assert!(session.is_connected());
}

#[test]
fn failed_attempt_takes_its_connection_down() {
    let mut session = connected();
    assert!(get_response_from_remote(&mut session, RemoteOutcome::Failed(1)).is_none());
    assert!(!session.is_connected());
    assert_eq!(session.generation(), 1);
}

#[test]
fn failed_attempt_of_an_earlier_connection_changes_nothing() {
    let mut session = connected();
    session.disconnect(1);
    session.established(2);
    assert!(get_response_from_remote(&mut session, RemoteOutcome::Failed(1)).is_none());
    assert_eq!(session.connection(), Some(&2));
    assert_eq!(session.generation(), 2);
}

#[test]
fn remote_host_error_becomes_an_error() {
    match Error::from(RemoteHostError::UnknownPort("host".to_string())) {
        Error::RemoteHost(e) => assert_eq!(e, RemoteHostError::UnknownPort("host".to_string())),
        other => panic!("{:?}", other),
    }
}
