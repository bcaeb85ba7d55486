use doh_client::dns::DnsCodec;
use doh_client::dns::DnsPacket;
use doh_client::dns::DnsParserError;
use doh_client::dns::MAXIMUM_DNS_PACKET_SIZE;

fn query(id: [u8; 2]) -> Vec<u8> {
    let mut bytes = vec![id[0], id[1], 0x01, 0x00, 0x00, 0x01, 0x00, 0x00, 0x00, 0x00, 0x00, 0x00];
    bytes.extend_from_slice(&[7]);
    bytes.extend_from_slice(b"example");
    bytes.extend_from_slice(&[3]);
    bytes.extend_from_slice(b"com");
    bytes.extend_from_slice(&[0, 0, 1, 0, 1]);
    bytes
}

#[test]
fn packet_needs_a_full_header() {
    assert_eq!(DnsPacket::from(Vec::new()).err(), Some(DnsParserError::TooLittleData));
    assert_eq!(DnsPacket::from(vec![0; 11]).err(), Some(DnsParserError::TooLittleData));
    assert!(DnsPacket::from(vec![0; 12]).is_ok());
}

#[test]
fn packet_has_a_largest_size() {
    assert!(DnsPacket::from(vec![0; MAXIMUM_DNS_PACKET_SIZE]).is_ok());
    assert_eq!(
        DnsPacket::from(vec![0; MAXIMUM_DNS_PACKET_SIZE + 1]).err(),
        Some(DnsParserError::TooMuchData)
    );
    assert_eq!(MAXIMUM_DNS_PACKET_SIZE, 4096);
}

#[test]
fn packet_reads_the_header() {
    let packet = DnsPacket::from(query([0xbe, 0xef])).unwrap();
    assert_eq!(packet.get_tid(), [0xbe, 0xef]);
    assert!(!packet.is_response());
    assert_eq!(packet.get_questions(), 1);
    assert_eq!(packet.len(), 29);
    assert_eq!(packet.get(), query([0xbe, 0xef]));
}

#[test]
fn packet_reads_the_response_bit() {
    let mut bytes = query([0, 1]);
    bytes[2] = 0x81;
    assert!(DnsPacket::from(bytes.clone()).unwrap().is_response());
    bytes[2] = 0x7f;
    assert!(!DnsPacket::from(bytes).unwrap().is_response());
}

#[test]
fn packet_reads_the_question_count_big_endian() {
    let mut bytes = query([0, 1]);
    bytes[4] = 0x12;
    bytes[5] = 0x34;
    assert_eq!(DnsPacket::from(bytes).unwrap().get_questions(), 0x1234);
}

#[test]
fn packet_without_tid_has_a_zero_id() {
    let packet = DnsPacket::from(query([0xbe, 0xef])).unwrap();
    assert_eq!(packet.get_without_tid(), query([0, 0]));
    assert_eq!(packet.get(), query([0xbe, 0xef]));
}

#[test]
fn packet_from_tid_overwrites_the_id() {
    let packet = DnsPacket::from_tid(query([0, 0]), [0x12, 0x34]).unwrap();
    assert_eq!(packet.get_tid(), [0x12, 0x34]);
    assert_eq!(packet.get(), query([0x12, 0x34]));
}

#[test]
fn packet_from_tid_rejects_short_buffers() {
    assert_eq!(
        DnsPacket::from_tid(Vec::new(), [1, 2]).err(),
        Some(DnsParserError::TooLittleData)
    );
    assert_eq!(
        DnsPacket::from_tid(vec![0; 5], [1, 2]).err(),
        Some(DnsParserError::TooLittleData)
    );
    assert_eq!(
        DnsPacket::from_tid(vec![0; 5000], [1, 2]).err(),
        Some(DnsParserError::TooMuchData)
    );
}

#[test]
fn packet_clone_keeps_the_bytes() {
    let packet = DnsPacket::from(query([9, 9])).unwrap();
    let copy = packet.clone();
    assert_eq!(copy.get(), packet.get());
    assert_eq!(copy.get_tid(), [9, 9]);
}

#[test]
fn codec_hands_on_a_query() {
    let mut codec = DnsCodec;
    let mut buf = query([1, 2]);
    let packet = codec.decode(&mut buf).unwrap();
    assert_eq!(packet.get(), query([1, 2]));
    assert_eq!(buf, query([1, 2]));
}

#[test]
fn codec_drops_a_response() {
    let mut codec = DnsCodec;
    let mut buf = query([1, 2]);
    buf[2] |= 0x80;
    assert!(codec.decode(&mut buf).is_none());
    assert!(buf.is_empty());
}

#[test]
fn codec_drops_a_query_without_question() {
    let mut codec = DnsCodec;
    let mut buf = query([1, 2]);
    buf[5] = 0;
    assert!(codec.decode(&mut buf).is_none());
    assert!(buf.is_empty());
}

#[test]
fn codec_drops_a_short_datagram() {
    let mut codec = DnsCodec;
    let mut buf = vec![1, 2, 3];
    assert!(codec.decode(&mut buf).is_none());
    assert!(buf.is_empty());
}

#[test]
fn codec_writes_the_packet() {
    let mut codec = DnsCodec;
    let mut buf = vec![7, 7, 7];
    codec.encode(DnsPacket::from(query([3, 4])).unwrap(), &mut buf);
    assert_eq!(buf, query([3, 4]));
}
