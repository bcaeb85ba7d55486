use doh_client::response::check_header_content_type;
use doh_client::response::check_header_status;
use doh_client::response::get_dns_response;
use doh_client::response::get_duration;
use doh_client::response::get_min_ttl;
use doh_client::response::min;
use doh_client::response::response_handler;
use doh_client::response::BodyReader;
use doh_client::response::ResponseHead;
use doh_client::message::DnsMessage;
use doh_client::Error;
use http::response::Builder;
use http::response::Parts;

fn head_of(parts: &Parts) -> ResponseHead {
    ResponseHead {
        status: parts.status.as_u16(),
        content_type: parts.headers.get("content-type").map(|v| v.as_bytes().to_vec()),
        cache_control: parts.headers.get("cache-control").map(|v| v.as_bytes().to_vec()),
    }
}

fn head(status: u16, content_type: Option<&str>, cache_control: Option<&str>) -> ResponseHead {
    ResponseHead {
        status,
        content_type: content_type.map(|v| v.as_bytes().to_vec()),
        cache_control: cache_control.map(|v| v.as_bytes().to_vec()),
    }
}

fn good_head(cache_control: Option<&str>) -> ResponseHead {
    head(200, Some("application/dns-message"), cache_control)
}

fn name(bytes: &mut Vec<u8>) {
    bytes.push(7);
    bytes.extend_from_slice(b"example");
    bytes.push(3);
    bytes.extend_from_slice(b"com");
    bytes.push(0);
}

fn record(bytes: &mut Vec<u8>, ttl: u32) {
    bytes.extend_from_slice(&[0xc0, 0x0c, 0, 1, 0, 1]);
    bytes.extend_from_slice(&ttl.to_be_bytes());
    bytes.extend_from_slice(&[0, 4, 93, 184, 216, 34]);
}

fn message(flags: [u8; 2], answers: &[u32], authorities: &[u32], additionals: &[u32]) -> Vec<u8> {
    let mut bytes = vec![0x00, 0x00, flags[0], flags[1], 0x00, 0x01];
    bytes.extend_from_slice(&(answers.len() as u16).to_be_bytes());
    bytes.extend_from_slice(&(authorities.len() as u16).to_be_bytes());
    bytes.extend_from_slice(&(additionals.len() as u16).to_be_bytes());
    name(&mut bytes);
    bytes.extend_from_slice(&[0, 1, 0, 1]);
    for ttl in answers.iter().chain(authorities).chain(additionals) {
        record(&mut bytes, *ttl);
    }
    bytes
}

fn answer(answers: &[u32]) -> Vec<u8> {
    message([0x81, 0x80], answers, &[], &[])
}

#[test]
fn test_check_header_status_200() {
    let response = Builder::new().status(200).body(()).unwrap();

    let (parts, _) = response.into_parts();

    let result = check_header_status(&head_of(&parts));
    assert!(result.is_ok());
}

#[test]
fn test_check_header_status_400() {
    let response = Builder::new().status(400).body(()).unwrap();

    let (parts, _) = response.into_parts();

    let result = check_header_status(&head_of(&parts));
    assert!(result.is_err());
}

#[test]
fn status_is_accepted_from_200_to_299() {
    for status in [200u16, 204, 299] {
        assert!(check_header_status(&head(status, None, None)).is_ok());
    }
    for status in [0u16, 100, 199, 300, 301, 404, 500, 65535] {
        match check_header_status(&head(status, None, None)) {
            Err(Error::HeaderStatus(got)) => assert_eq!(got, status),
            other => panic!("{:?}", other),
        }
    }
}

#[test]
fn status_check_agrees_with_http() {
    for status in 100u16..1000 {
        let response = Builder::new().status(status).body(()).unwrap();
        let (parts, _) = response.into_parts();
        assert_eq!(check_header_status(&head_of(&parts)).is_ok(), parts.status.is_success());
    }
}

#[test]
fn content_type_must_be_dns_message() {
    assert!(check_header_content_type(&good_head(None)).is_ok());
}

#[test]
fn content_type_is_compared_byte_for_byte() {
    for value in [
        "application/dns-json",
        "Application/dns-message",
        "application/dns-message ",
        "application/dns-message; charset=utf-8",
        "",
    ] {
        match check_header_content_type(&head(200, Some(value), None)) {
            Err(Error::HeaderContentType(got)) => assert_eq!(got, value.as_bytes()),
            other => panic!("{:?}", other),
        }
    }
}

#[test]
fn content_type_must_be_there() {
    assert!(matches!(
        check_header_content_type(&head(200, None, None)),
        Err(Error::HeaderNoContentType)
    ));
}

#[test]
fn duration_is_read_from_max_age() {
    assert_eq!(get_duration(&good_head(Some("max-age=120"))), Some(120));
    assert_eq!(get_duration(&good_head(Some("max-age=0"))), Some(0));
    assert_eq!(get_duration(&good_head(Some("public, max-age=60"))), Some(60));
    assert_eq!(get_duration(&good_head(Some("  max-age = 5 , private"))), Some(5));
    assert_eq!(get_duration(&good_head(Some("max-age=+7"))), Some(7));
    assert_eq!(
        get_duration(&good_head(Some("max-age=18446744073709551615"))),
        Some(u64::MAX)
    );
}

#[test]
fn duration_is_that_of_the_first_valid_max_age() {
    assert_eq!(get_duration(&good_head(Some("max-age=1, max-age=2"))), Some(1));
    assert_eq!(get_duration(&good_head(Some("max-age=abc, max-age=7"))), Some(7));
    assert_eq!(get_duration(&good_head(Some("max-age, max-age=9"))), Some(9));
    assert_eq!(get_duration(&good_head(Some("max-age=18446744073709551616,max-age=3"))), Some(3));
}

#[test]
fn duration_is_missing_without_a_valid_max_age() {
    assert_eq!(get_duration(&good_head(None)), None);
    assert_eq!(get_duration(&good_head(Some(""))), None);
    assert_eq!(get_duration(&good_head(Some("no-store"))), None);
    assert_eq!(get_duration(&good_head(Some("max-age"))), None);
    assert_eq!(get_duration(&good_head(Some("max-age="))), None);
    assert_eq!(get_duration(&good_head(Some("max-age=-1"))), None);
    assert_eq!(get_duration(&good_head(Some("max-age=1=2"))), None);
    assert_eq!(get_duration(&good_head(Some("Max-Age=10"))), None);
    assert_eq!(get_duration(&good_head(Some("s-maxage=10"))), None);
    assert_eq!(get_duration(&good_head(Some("max-age=1 0"))), None);
    assert_eq!(get_duration(&good_head(Some(",,,"))), None);
}

#[test]
fn min_keeps_the_smaller_value() {
    let mut min_ttl = None;
    min(&mut min_ttl, None);
    assert_eq!(min_ttl, None);
    min(&mut min_ttl, Some(30));
    assert_eq!(min_ttl, Some(30));
    min(&mut min_ttl, Some(40));
    assert_eq!(min_ttl, Some(30));
    min(&mut min_ttl, None);
    assert_eq!(min_ttl, Some(30));
    min(&mut min_ttl, Some(30));
    assert_eq!(min_ttl, Some(30));
    min(&mut min_ttl, Some(0));
    assert_eq!(min_ttl, Some(0));
}

#[test]
fn min_ttl_is_the_least_of_all_records() {
    let dns = DnsMessage::decode(&message([0x81, 0x80], &[300, 60], &[90], &[120])).unwrap();
    assert_eq!(get_min_ttl(&dns), Some(60));
    let dns = DnsMessage::decode(&message([0x81, 0x80], &[300], &[20], &[120])).unwrap();
    assert_eq!(get_min_ttl(&dns), Some(20));
    let dns = DnsMessage::decode(&message([0x81, 0x80], &[300], &[90], &[10])).unwrap();
    assert_eq!(get_min_ttl(&dns), Some(10));
    let dns = DnsMessage::decode(&message([0x81, 0x80], &[], &[], &[4000000000])).unwrap();
    assert_eq!(get_min_ttl(&dns), Some(4000000000));
}

#[test]
fn min_ttl_is_missing_without_records() {
    let dns = DnsMessage::decode(&answer(&[])).unwrap();
    assert_eq!(get_min_ttl(&dns), None);
}

#[test]
fn min_ttl_of_zero_means_no_caching() {
    let dns = DnsMessage::decode(&answer(&[300, 0, 60])).unwrap();
    assert_eq!(get_min_ttl(&dns), None);
}

#[test]
fn min_ttl_passes_over_records_without_ttl() {
    // an OPT record has no time to live
    let mut bytes = message([0x81, 0x80], &[50], &[], &[]);
    bytes[11] = 1;
    bytes.extend_from_slice(&[0, 0, 41, 0x10, 0, 0, 0, 0, 0, 0, 0]);
    let dns = DnsMessage::decode(&bytes).unwrap();
    assert_eq!(dns.additionals(), &vec![None]);
    assert_eq!(get_min_ttl(&dns), Some(50));
}

fn feed(reader: BodyReader, frame: &[u8]) -> BodyReader {
    let (reader, release) = reader.on_data(frame);
    assert_eq!(release, frame.len());
    reader
}

#[test]
fn body_reader_accumulates_frames() {
    let reader = BodyReader::new();
    assert_eq!(reader.len(), 0);
    let reader = feed(reader, b"abc");
    let reader = feed(reader, b"");
    let reader = feed(reader, b"de");
    assert_eq!(reader.len(), 5);
    assert_eq!(reader.into_body(), b"abcde");
}

#[test]
fn body_reader_caps_the_body_and_reads_on() {
    let frame: Vec<u8> = (0..3000u32).map(|i| (i % 251) as u8).collect();
    let reader = feed(BodyReader::new(), &frame);
    assert_eq!(reader.len(), 3000);
    // the second frame is cut at the cap, and yet released in full
    let reader = feed(reader, &frame);
    assert_eq!(reader.len(), 4096);
    // further frames are taken and dropped
    let reader = feed(reader, &frame);
    let reader = feed(reader, b"x");
    assert_eq!(reader.len(), 4096);
    let mut expected = frame.clone();
    expected.extend_from_slice(&frame[..1096]);
    assert_eq!(reader.into_body(), expected);
}

#[test]
fn body_reader_takes_exactly_the_cap() {
    let reader = feed(BodyReader::new(), &[7; 4096]);
    assert_eq!(reader.len(), 4096);
    let reader = feed(reader, &[8; 1]);
    assert_eq!(reader.into_body(), vec![7; 4096]);
}

#[test]
fn body_reader_holds_the_start_of_the_body_however_it_is_framed() {
    let body: Vec<u8> = (0..10000u32).map(|i| (i % 253) as u8).collect();
    for size in [1usize, 7, 100, 4095, 4096, 4097, 10000] {
        let mut reader = BodyReader::new();
        for frame in body.chunks(size) {
            reader = feed(reader, frame);
        }
        assert_eq!(reader.into_body(), body[..4096].to_vec());
    }
}

#[test]
fn body_reader_uses_what_came_before_a_reset() {
    let reader = BodyReader::new();
    assert!(matches!(reader.on_error(true), Err(Error::H2)));
    assert!(matches!(reader.on_error(false), Err(Error::H2)));
    let reader = feed(reader, b"abc");
    assert!(reader.on_error(true).is_ok());
    assert!(matches!(reader.on_error(false), Err(Error::H2)));
}

#[test]
fn dns_response_must_be_a_response() {
    let dns = get_dns_response(&answer(&[60])).unwrap();
    assert!(dns.is_response());
    match get_dns_response(&message([0x01, 0x00], &[], &[], &[])) {
        Err(Error::DnsNotResponse(dns)) => assert!(!dns.is_response()),
        other => panic!("{:?}", other),
    }
    assert!(matches!(get_dns_response(b"no dns"), Err(Error::Decode(_))));
}

#[test]
fn response_handler_prefers_the_http_lifetime() {
    let (dns, duration) =
        response_handler(&good_head(Some("max-age=120")), &answer(&[300, 60])).unwrap();
    assert_eq!(dns.wire(), &answer(&[300, 60]));
    assert_eq!(duration, Some(120));
}

#[test]
fn response_handler_falls_back_to_the_record_ttls() {
    let (_, duration) = response_handler(&good_head(None), &answer(&[300, 60])).unwrap();
    assert_eq!(duration, Some(60));
    let (_, duration) = response_handler(&good_head(Some("no-cache")), &answer(&[30])).unwrap();
    assert_eq!(duration, Some(30));
    let (_, duration) = response_handler(&good_head(None), &answer(&[])).unwrap();
    assert_eq!(duration, None);
    let (_, duration) = response_handler(&good_head(None), &answer(&[0])).unwrap();
    assert_eq!(duration, None);
    let (_, duration) = response_handler(&good_head(Some("max-age=0")), &answer(&[9])).unwrap();
    assert_eq!(duration, Some(0));
}

#[test]
fn response_handler_checks_in_order() {
    // a bad status comes before everything else
    assert!(matches!(
        response_handler(&head(500, None, None), b"junk"),
        Err(Error::HeaderStatus(500))
    ));
    // then the content type
    assert!(matches!(
        response_handler(&head(200, None, None), b"junk"),
        Err(Error::HeaderNoContentType)
    ));
    assert!(matches!(
        response_handler(&head(200, Some("text/html"), None), b"junk"),
        Err(Error::HeaderContentType(_))
    ));
    // then the body
    assert!(matches!(response_handler(&good_head(None), b"junk"), Err(Error::Decode(_))));
    assert!(matches!(
        response_handler(&good_head(None), &message([0x01, 0x00], &[], &[], &[])),
        Err(Error::DnsNotResponse(_))
    ));
}
