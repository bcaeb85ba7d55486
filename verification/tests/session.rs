use data_encoding::BASE64URL_NOPAD;
use doh_client::message::DnsMessage;
use doh_client::session::build_request;
use doh_client::session::ConnectStep;
use doh_client::session::HttpRequest;
use doh_client::session::Method;
use doh_client::session::Session;
use doh_client::Error;
use doh_client::Host;

fn query(id: u16) -> Vec<u8> {
    let mut bytes = Vec::new();
    bytes.extend_from_slice(&id.to_be_bytes());
    bytes.extend_from_slice(&[0x01, 0x00, 0x00, 0x01, 0x00, 0x00, 0x00, 0x00, 0x00, 0x00]);
    bytes.push(7);
    bytes.extend_from_slice(b"example");
    bytes.push(3);
    bytes.extend_from_slice(b"com");
    bytes.extend_from_slice(&[0, 0, 1, 0, 1]);
    bytes
}

fn session(retries: u32, post: bool) -> Session<&'static str> {
    Session::new(
        Host::Direct("1.1.1.1".to_string(), 443),
        "cloudflare-dns.com".to_string(),
        "https://cloudflare-dns.com/dns-query".to_string(),
        retries,
        post,
    )
}

fn pair(name: &str, value: &str) -> (String, String) {
    (name.to_string(), value.to_string())
}

#[test]
fn session_starts_without_a_connection() {
    let session = session(3, true);
    assert!(!session.is_connected());
    assert_eq!(session.connection(), None);
    assert_eq!(session.generation(), 0);
    assert_eq!(session.host(), &Host::Direct("1.1.1.1".to_string(), 443));
    assert_eq!(session.config().domain, "cloudflare-dns.com");
    assert_eq!(session.config().uri, "https://cloudflare-dns.com/dns-query");
    assert_eq!(session.config().retries, 3);
    assert!(session.config().post);
}

#[test]
fn session_tries_to_connect_as_often_as_set() {
    let session = session(3, true);
    assert_eq!(session.connect_step(0).unwrap(), ConnectStep::Attempt(1));
    assert_eq!(session.connect_step(1).unwrap(), ConnectStep::Attempt(2));
    assert_eq!(session.connect_step(2).unwrap(), ConnectStep::Attempt(3));
    assert!(matches!(session.connect_step(3), Err(Error::CouldNotConnectServer)));
    assert!(matches!(session.connect_step(u32::MAX), Err(Error::CouldNotConnectServer)));
}

#[test]
fn session_without_retries_gives_up_at_once() {
    let session = session(0, true);
    assert!(matches!(session.connect_step(0), Err(Error::CouldNotConnectServer)));
}

#[test]
fn session_with_a_connection_does_not_connect() {
    let mut session = session(3, true);
    session.established("first");
    assert!(session.is_connected());
    assert_eq!(session.connection(), Some(&"first"));
    assert_eq!(session.generation(), 1);
    assert_eq!(session.connect_step(0).unwrap(), ConnectStep::Connected);
    assert_eq!(session.connect_step(7).unwrap(), ConnectStep::Connected);
}

#[test]
fn session_disconnect_of_the_present_generation_clears_the_connection() {
    let mut session = session(3, true);
    session.established("first");
    session.disconnect(1);
    assert!(!session.is_connected());
    assert_eq!(session.generation(), 1);
    assert_eq!(session.connect_step(0).unwrap(), ConnectStep::Attempt(1));
}

#[test]
fn session_disconnect_of_another_generation_does_nothing() {
    let mut session = session(3, true);
    session.established("first");
    session.disconnect(1);
    session.established("second");
    // a request of the first connection fails late
    session.disconnect(1);
    assert_eq!(session.connection(), Some(&"second"));
    assert_eq!(session.generation(), 2);
    session.disconnect(0);
    session.disconnect(3);
    assert_eq!(session.connection(), Some(&"second"));
}

#[test]
fn session_generation_wraps() {
    let mut session = session(1, true);
    for _ in 0..3 {
        session.established("again");
    }
    assert_eq!(session.generation(), 3);
}

#[test]
fn session_send_failed_clears_the_connection() {
    let mut session = session(3, true);
    session.established("first");
    session.send_failed();
    assert!(!session.is_connected());
    assert_eq!(session.generation(), 1);
}

#[test]
fn session_cannot_send_without_a_connection() {
    let session = session(3, true);
    let dns = DnsMessage::decode(&query(0xbeef)).unwrap();
    assert!(matches!(session.start_request(&dns), Err(Error::IsNotConnected)));
}

#[test]
fn session_send_request_needs_a_connection() {
    let mut session = session(3, true);
    assert!(matches!(session.send_request(vec![1, 2, 3]), Err(Error::IsNotConnected)));
    session.established("first");
    let (request, generation) = session.send_request(vec![1, 2, 3]).unwrap();
    assert_eq!(generation, 1);
    assert_eq!(request.body, Some(vec![1, 2, 3]));
    assert_eq!(request.headers[2], pair("content-length", "3"));
}

#[test]
fn session_post_request() {
    let mut session = session(3, true);
    session.established("first");
    let dns = DnsMessage::decode(&query(0xbeef)).unwrap();
    let (request, generation) = session.start_request(&dns).unwrap();
    assert_eq!(generation, 1);
    assert_eq!(
        request,
        HttpRequest {
            method: Method::Post,
            uri: "https://cloudflare-dns.com/dns-query".to_string(),
            headers: vec![
                pair("accept", "application/dns-message"),
                pair("content-type", "application/dns-message"),
                pair("content-length", "29"),
            ],
            body: Some(query(0)),
        }
    );
    // the request of the client keeps its id
    assert_eq!(dns.id(), 0xbeef);
}

#[test]
fn session_get_request() {
    let mut session = session(3, false);
    session.established("first");
    let dns = DnsMessage::decode(&query(0xbeef)).unwrap();
    let (request, generation) = session.start_request(&dns).unwrap();
    assert_eq!(generation, 1);
    assert_eq!(request.method, Method::Get);
    assert_eq!(
        request.uri,
        "https://cloudflare-dns.com/dns-query?dns=AAABAAABAAAAAAAAB2V4YW1wbGUDY29tAAABAAE"
    );
    assert_eq!(request.headers, vec![pair("accept", "application/dns-message")]);
    assert_eq!(request.body, None);
    assert!(request.headers.iter().all(|(name, _)| name != "content-length"));
}

#[test]
fn get_request_carries_base64url_without_padding() {
    for len in 0..70usize {
        let data: Vec<u8> = (0..len).map(|i| (i * 37 + 250) as u8).collect();
        let request = build_request(&"https://h/p".to_string(), false, data.clone());
        let expected = format!("https://h/p?dns={}", BASE64URL_NOPAD.encode(&data));
        assert_eq!(request.uri, expected);
        let text = &request.uri["https://h/p?dns=".len()..];
        assert_eq!(text.len(), (len * 4 + 2) / 3);
        assert!(text.chars().all(|c| c.is_ascii_alphanumeric() || c == '-' || c == '_'));
    }
}

#[test]
fn post_request_announces_the_length() {
    let request = build_request(&"https://h/p".to_string(), true, vec![0; 4096]);
    assert_eq!(request.headers[2], pair("content-length", "4096"));
    assert_eq!(request.body, Some(vec![0; 4096]));
    let request = build_request(&"https://h/p".to_string(), true, Vec::new());
    assert_eq!(request.headers[2], pair("content-length", "0"));
}

#[test]
fn queries_share_one_connection() {
    let mut session = session(3, true);
    assert_eq!(session.connect_step(0).unwrap(), ConnectStep::Attempt(1));
    session.established("only");
    for id in 0..100u16 {
        // no query asks for another connection, and each goes out on the same one
        assert_eq!(session.connect_step(0).unwrap(), ConnectStep::Connected);
        let dns = DnsMessage::decode(&query(id)).unwrap();
        let (request, generation) = session.start_request(&dns).unwrap();
        assert_eq!(generation, 1);
        assert_eq!(request.body, Some(query(0)));
        assert_eq!(session.connection(), Some(&"only"));
    }
    assert_eq!(session.generation(), 1);
}
