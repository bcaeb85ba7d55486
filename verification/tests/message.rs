use doh_client::message::DnsMessage;
use doh_client::message::Question;
use doh_client::Error;

fn name(bytes: &mut Vec<u8>, labels: &[&str]) {
    for label in labels {
        bytes.push(label.len() as u8);
        bytes.extend_from_slice(label.as_bytes());
    }
    bytes.push(0);
}

fn query_for(id: u16, labels: &[&str], qtype: u16) -> Vec<u8> {
    let mut bytes = Vec::new();
    bytes.extend_from_slice(&id.to_be_bytes());
    bytes.extend_from_slice(&[0x01, 0x00, 0x00, 0x01, 0x00, 0x00, 0x00, 0x00, 0x00, 0x00]);
    name(&mut bytes, labels);
    bytes.extend_from_slice(&qtype.to_be_bytes());
    bytes.extend_from_slice(&[0, 1]);
    bytes
}

fn query(id: u16) -> Vec<u8> {
    query_for(id, &["example", "com"], 1)
}

fn response(id: u16, ttls: &[u32]) -> Vec<u8> {
    let mut bytes = Vec::new();
    bytes.extend_from_slice(&id.to_be_bytes());
    bytes.extend_from_slice(&[0x81, 0x80, 0x00, 0x01]);
    bytes.extend_from_slice(&(ttls.len() as u16).to_be_bytes());
    bytes.extend_from_slice(&[0x00, 0x00, 0x00, 0x00]);
    name(&mut bytes, &["example", "com"]);
    bytes.extend_from_slice(&[0, 1, 0, 1]);
    for (i, ttl) in ttls.iter().enumerate() {
        bytes.extend_from_slice(&[0xc0, 0x0c, 0, 1, 0, 1]);
        bytes.extend_from_slice(&ttl.to_be_bytes());
        bytes.extend_from_slice(&[0, 4, 93, 184, 216, 34 + i as u8]);
    }
    bytes
}

#[test]
fn decode_reads_a_query() {
    let dns = DnsMessage::decode(&query(0xbeef)).unwrap();
    assert_eq!(dns.id(), 0xbeef);
    assert!(!dns.is_response());
    assert_eq!(dns.wire(), &query(0xbeef));
    assert_eq!(
        dns.questions(),
        &vec![Question { name: b"example.com.".to_vec(), qtype: 1, qclass: 1 }]
    );
    assert!(dns.answers().is_empty());
    assert!(dns.authorities().is_empty());
    assert!(dns.additionals().is_empty());
}

#[test]
fn decode_reads_a_response() {
    let dns = DnsMessage::decode(&response(7, &[300, 60])).unwrap();
    assert_eq!(dns.id(), 7);
    assert!(dns.is_response());
    assert_eq!(dns.questions().len(), 1);
    assert_eq!(dns.answers(), &vec![Some(300), Some(60)]);
}

#[test]
fn decode_rejects_bad_wire_data() {
    assert!(matches!(DnsMessage::decode(&[]), Err(Error::Decode(_))));
    assert!(matches!(DnsMessage::decode(&[0; 11]), Err(Error::Decode(_))));
    let mut cut = query(1);
    cut.truncate(20);
    assert!(matches!(DnsMessage::decode(&cut), Err(Error::Decode(_))));
    let mut extra = query(1);
    extra.push(0);
    assert!(matches!(DnsMessage::decode(&extra), Err(Error::Decode(_))));
}

#[test]
fn encode_replaces_the_id() {
    let dns = DnsMessage::decode(&query(0xbeef)).unwrap();
    assert_eq!(dns.encode(0).unwrap(), query(0));
    assert_eq!(dns.encode(0x1234).unwrap(), query(0x1234));
    assert_eq!(dns.encode(0xbeef).unwrap(), query(0xbeef));
    // the message itself keeps its id
    assert_eq!(dns.id(), 0xbeef);
}

#[test]
fn equal_queries_with_different_ids_give_equal_bytes() {
    let a = DnsMessage::decode(&query(1)).unwrap();
    let b = DnsMessage::decode(&query(2)).unwrap();
    assert_eq!(a.encode(0).unwrap(), b.encode(0).unwrap());
}

#[test]
fn encode_then_decode_gives_an_equivalent_message() {
    let dns = DnsMessage::decode(&response(0x0102, &[300, 60, 5])).unwrap();
    let again = DnsMessage::decode(&dns.encode(0x0102).unwrap()).unwrap();
    assert_eq!(again.id(), dns.id());
    assert_eq!(again.is_response(), dns.is_response());
    assert_eq!(again.questions(), dns.questions());
    assert_eq!(again.answers(), dns.answers());
    assert_eq!(again.authorities(), dns.authorities());
    assert_eq!(again.additionals(), dns.additionals());
    // and writing it once more changes nothing
    assert_eq!(again.encode(0x0102).unwrap(), dns.encode(0x0102).unwrap());
}

#[test]
fn cache_key_is_the_lowered_name_with_type_and_class() {
    let dns = DnsMessage::decode(&query(5)).unwrap();
    let mut expected = b"example.com.".to_vec();
    expected.extend_from_slice(&[0, 1, 0, 1]);
    assert_eq!(dns.cache_key(), Some(expected));
}

#[test]
fn cache_key_ignores_the_case_of_the_name() {
    let lower = DnsMessage::decode(&query_for(1, &["example", "com"], 1)).unwrap();
    let mixed = DnsMessage::decode(&query_for(2, &["ExAmPlE", "COM"], 1)).unwrap();
    assert_eq!(lower.cache_key(), mixed.cache_key());
}

#[test]
fn cache_key_tells_types_and_names_apart() {
    let a = DnsMessage::decode(&query_for(1, &["example", "com"], 1)).unwrap();
    let aaaa = DnsMessage::decode(&query_for(1, &["example", "com"], 28)).unwrap();
    let other = DnsMessage::decode(&query_for(1, &["example", "org"], 1)).unwrap();
    assert_ne!(a.cache_key(), aaaa.cache_key());
    assert_ne!(a.cache_key(), other.cache_key());
}

#[test]
fn cache_key_needs_exactly_one_question() {
    let mut none = query(1);
    none.truncate(12);
    none[5] = 0;
    let dns = DnsMessage::decode(&none).unwrap();
    assert_eq!(dns.questions().len(), 0);
    assert_eq!(dns.cache_key(), None);

    let mut two = query(1);
    two[5] = 2;
    name(&mut two, &["example", "org"]);
    two.extend_from_slice(&[0, 1, 0, 1]);
    let dns = DnsMessage::decode(&two).unwrap();
    assert_eq!(dns.questions().len(), 2);
    assert_eq!(dns.cache_key(), None);
}

#[test]
fn question_cache_key_writes_type_and_class_big_endian() {
    let question = Question { name: b"A.b.".to_vec(), qtype: 0x0102, qclass: 0x0304 };
    assert_eq!(question.cache_key(), vec![b'a', b'.', b'b', b'.', 1, 2, 3, 4]);
}

#[test]
fn question_cache_key_lowers_ascii_letters_only() {
    let question = Question { name: vec![b'A', b'Z', b'@', b'[', 0xc3, 0x84], qtype: 1, qclass: 1 };
    assert_eq!(question.cache_key(), vec![b'a', b'z', b'@', b'[', 0xc3, 0x84, 0, 1, 0, 1]);
}
