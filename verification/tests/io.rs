use ms_mqtt_client::buffer_pool::Owned;
use ms_mqtt_client::fuzz;
use ms_mqtt_client::io::reader::{RawPacket, ReadStep, Reader};
use ms_mqtt_client::io::writer::Writer;
use ms_mqtt_client::mqtt_proto::disconnect::Disconnect;
use ms_mqtt_client::mqtt_proto::codes::DisconnectReasonCode;
use ms_mqtt_client::mqtt_proto::packet::Packet;
use ms_mqtt_client::mqtt_proto::pingreq::PingReq;
use ms_mqtt_client::mqtt_proto::{DecodeError, ProtocolVersion};

/// Feeds the reads to a reader the way a stream would, and collects the packets it yields.
fn read_all(reads: &[&[u8]]) -> (Vec<RawPacket>, Vec<u8>) {
    let mut reader = Reader::new(Owned::with_capacity(0));
    let mut packets = Vec::new();
    for read in reads {
        reader.fill(read);
        loop {
            match reader.poll_packet().unwrap() {
                ReadStep::Packet(p) => packets.push(p),
                ReadStep::NeedMore(_) => break,
            }
        }
    }
    let rest = reader.filled().to_vec();
    (packets, rest)
}

#[test]
fn reader_it_works() {
    let (packets, rest) = read_all(&[
        // Start of CONNECT
        &b"\x10\x12\x00\x04"[..],
        // Rest of CONNECT and start of SUBSCRIBE
        &b"\x4d\x51\x54\x54\x05\x02\x00\x00\x05\x11\xff\xff\xff\xff\x00\x00\x82"[..],
        // Rest of SUBSCRIBE and start of PUBLISH
        &b"\x09\x00\x01\x00\x00\x03\x66\x6f\x6f\x09\x32"[..],
    ]);
    assert_eq!(packets.len(), 2);
    assert_eq!(packets[0].first_byte, 0x10);
    assert_eq!(
        packets[0].rest.as_slice(),
        &b"\x00\x04\x4d\x51\x54\x54\x05\x02\x00\x00\x05\x11\xff\xff\xff\xff\x00\x00"[..]
    );
    assert_eq!(packets[1].first_byte, 0x82);
    assert_eq!(packets[1].rest.as_slice(), &b"\x00\x01\x00\x00\x03\x66\x6f\x6f\x09"[..]);
    // The start of the PUBLISH stays buffered: the stream ends before the rest of it.
    assert_eq!(rest, vec![0x32]);
}

#[test]
fn reader_needs_more_for_header_and_body() {
    let mut reader = Reader::new(Owned::with_capacity(0));
    assert!(matches!(reader.poll_packet(), Ok(ReadStep::NeedMore(5))));
    reader.fill(&[0x30, 0x80]);
    // The remaining length itself is incomplete.
    assert!(matches!(reader.poll_packet(), Ok(ReadStep::NeedMore(5))));
    reader.fill(&[0x01]);
    // 128 bytes of body are announced, none has arrived: 3 + 128 - 3 missing.
    assert!(matches!(reader.poll_packet(), Ok(ReadStep::NeedMore(128))));
}

#[test]
fn reader_rejects_malformed_remaining_length() {
    let mut reader = Reader::new(Owned::with_capacity(0));
    reader.fill(&[0x30, 0xFF, 0xFF, 0xFF, 0xFF]);
    assert!(matches!(reader.poll_packet(), Err(DecodeError::VarintTooHigh)));
    assert_eq!(reader.filled().len(), 5);
}

#[test]
fn writer_it_works() {
    let mut writer = Writer::new();
    writer.write(&Packet::PingReq(PingReq), ProtocolVersion::V5).unwrap();
    let disconnect = Disconnect::new(DisconnectReasonCode::DisconnectWithWillMessage);
    writer.write(&Packet::Disconnect(disconnect), ProtocolVersion::V5).unwrap();
    assert_eq!(writer.pending_bytes(), &[0xC0, 0x00, 0xE0, 0x01, 0x04]);
    writer.consume(2);
    assert_eq!(writer.pending_bytes(), &[0xE0, 0x01, 0x04]);
}

#[test]
fn fuzz_entry_points_accept_anything() {
    fuzz::decode(&[]);
    fuzz::decode(&[0xC0, 0x00]);
    fuzz::decode(&[0xFF, 0xFF, 0xFF, 0xFF, 0xFF, 0xFF]);
    fuzz::topic_filter("sport/+", "sport/tennis");
    fuzz::topic_filter("sport/#/x", "sport");
    fuzz::topic_filter("#", "a/+");
}
