use ms_mqtt_client::buffer_pool::{BytesAccumulator, BytesAccumulatorImpl, Owned, Shared};
use ms_mqtt_client::mqtt_proto::byte_str::ByteStr;
use ms_mqtt_client::mqtt_proto::codes::{QoS, RetainHandling};
use ms_mqtt_client::mqtt_proto::filter::Filter;
use ms_mqtt_client::mqtt_proto::properties::Property;
use ms_mqtt_client::mqtt_proto::property::{CorrelationData, NonZeroU16};
use ms_mqtt_client::mqtt_proto::subscribe::{SubscribeOptions, SubscribeOptionsOtherProperties, SubscribeOtherProperties};
use ms_mqtt_client::mqtt_proto::topic::{topic, Topic};
use ms_mqtt_client::mqtt_proto::{encode_varint, DecodeError, EncodeError, ProtocolVersion};

fn accumulator(capacity: usize) -> BytesAccumulatorImpl {
    BytesAccumulatorImpl::new(Owned::with_capacity(capacity))
}

fn written(acc: &mut BytesAccumulatorImpl) -> Vec<u8> {
    acc.put_done();
    let mut out = Vec::new();
    for i in 0..acc.num_chunks() {
        out.extend_from_slice(acc.chunk(i));
    }
    out
}

#[test]
fn varint_too_high_without_room_is_insufficient_buffer() {
    let mut acc = accumulator(0);
    assert!(matches!(encode_varint(0xFFFF_FFFF, &mut acc), Err(EncodeError::InsufficientBuffer)));
    assert!(written(&mut acc).is_empty());
}

#[test]
fn varint_keeps_the_bytes_written_before_running_out() {
    let mut acc = accumulator(2);
    assert!(matches!(encode_varint(0x0020_0000, &mut acc), Err(EncodeError::InsufficientBuffer)));
    assert_eq!(written(&mut acc), vec![0x80, 0x80]);
}

#[test]
fn varint_too_high_writes_four_bytes_first() {
    let mut acc = accumulator(8);
    assert!(matches!(encode_varint(0xFFFF_FFFF, &mut acc), Err(EncodeError::VarintTooHigh(0xFFFF_FFFF))));
    assert_eq!(written(&mut acc), vec![0xFF, 0xFF, 0xFF, 0xFF]);
}

#[test]
fn property_fixed_value_without_room_keeps_identifier() {
    let mut acc = accumulator(2);
    assert!(matches!(Property::TopicAlias(NonZeroU16::new(5).unwrap()).encode(&mut acc), Err(EncodeError::InsufficientBuffer)));
    assert_eq!(written(&mut acc), vec![0x23]);

    let mut acc = accumulator(0);
    assert!(matches!(Property::TopicAlias(NonZeroU16::new(5).unwrap()).encode(&mut acc), Err(EncodeError::InsufficientBuffer)));
    assert!(written(&mut acc).is_empty());

    let mut acc = accumulator(3);
    Property::TopicAlias(NonZeroU16::new(5).unwrap()).encode(&mut acc).unwrap();
    assert_eq!(written(&mut acc), vec![0x23, 0x00, 0x05]);
}

#[test]
fn property_string_needs_room_only_for_identifier() {
    let mut acc = accumulator(1);
    Property::ContentType(ByteStr::from_str("text").unwrap()).encode(&mut acc).unwrap();
    assert_eq!(written(&mut acc), vec![0x03, 0x00, 0x04, b't', b'e', b'x', b't']);

    let mut acc = accumulator(0);
    let r = Property::ContentType(ByteStr::from_str("text").unwrap()).encode(&mut acc);
    assert!(matches!(r, Err(EncodeError::InsufficientBuffer)));
    assert!(written(&mut acc).is_empty());

    let mut acc = accumulator(1);
    let p = Property::UserProperty(ByteStr::from_str("k").unwrap(), ByteStr::from_str("v").unwrap());
    p.encode(&mut acc).unwrap();
    assert_eq!(written(&mut acc), vec![0x26, 0x00, 0x01, b'k', 0x00, 0x01, b'v']);
}

#[test]
fn property_subscription_identifier_too_high() {
    let mut acc = accumulator(8);
    let r = Property::SubscriptionIdentifier(0xFFFF_FFFF).encode(&mut acc);
    assert!(matches!(r, Err(EncodeError::VarintTooHigh(0xFFFF_FFFF))));
    assert_eq!(written(&mut acc), vec![0x0B, 0xFF, 0xFF, 0xFF, 0xFF]);

    let mut acc = accumulator(3);
    let r = Property::SubscriptionIdentifier(0xFFFF_FFFF).encode(&mut acc);
    assert!(matches!(r, Err(EncodeError::InsufficientBuffer)));
    assert_eq!(written(&mut acc), vec![0x0B, 0xFF, 0xFF]);
}

#[test]
fn fixed_correlation_data_is_copied() {
    let c = CorrelationData::Fixed8([1, 2, 3, 4, 5, 6, 7, 8]);
    let mut acc = accumulator(3);
    assert!(matches!(c.encode(&mut acc), Err(EncodeError::InsufficientBuffer)));
    assert_eq!(written(&mut acc), vec![0x00, 0x08]);

    let mut acc = accumulator(4);
    let r = Property::CorrelationData(CorrelationData::Fixed8([1, 2, 3, 4, 5, 6, 7, 8])).encode(&mut acc);
    assert!(matches!(r, Err(EncodeError::InsufficientBuffer)));
    assert_eq!(written(&mut acc), vec![0x09, 0x00, 0x08]);

    let mut acc = accumulator(11);
    c.encode(&mut acc).unwrap();
    assert_eq!(written(&mut acc), vec![0x00, 0x08, 1, 2, 3, 4, 5, 6, 7, 8]);
}

#[test]
fn subscribe_options_without_room() {
    let options = SubscribeOptions {
        maximum_qos: QoS::AtLeastOnce,
        other_properties: SubscribeOptionsOtherProperties {
            no_local: false,
            retain_as_published: false,
            retain_handling: RetainHandling::Send,
        },
    };
    let mut acc = accumulator(0);
    assert!(matches!(options.encode(&mut acc, ProtocolVersion::V5), Err(EncodeError::InsufficientBuffer)));
    assert!(written(&mut acc).is_empty());

    let mut acc = accumulator(1);
    options.encode(&mut acc, ProtocolVersion::V5).unwrap();
    assert_eq!(written(&mut acc), vec![0x01]);
}

#[test]
fn combine_concatenates() {
    assert_eq!(Topic::combine("a/", &topic("b/c")).unwrap(), "a/b/c");
    assert_eq!(Topic::combine("", &topic("b")).unwrap(), "b");
    assert!(matches!(Topic::combine("a/+/", &topic("b")), Err(DecodeError::InvalidTopic(s)) if s == "a/+/"));
    assert!(matches!(Topic::combine("#", &topic("b")), Err(DecodeError::InvalidTopic(s)) if s == "#"));
}

#[test]
fn combine_beyond_wire_length() {
    let first = "x".repeat(70_000);
    let combined = Topic::combine(&first, &topic("/y")).unwrap();
    assert_eq!(combined.len(), 70_002);
    assert!(combined.ends_with("x/y"));
}

#[test]
fn decode_error_consumes_the_string() {
    let mut src = Shared::copy_from_slice(b"\x00\x03a/#xy");
    assert!(matches!(Topic::decode(&mut src), Err(DecodeError::InvalidTopic(s)) if s == "a/#"));
    assert_eq!(src.as_slice(), b"xy");

    let mut src = Shared::copy_from_slice(b"\x00\x03a+brest");
    assert!(matches!(Filter::decode(&mut src), Err(DecodeError::InvalidFilter(_))));
    assert_eq!(src.as_slice(), b"rest");

    let mut src = Shared::copy_from_slice(b"\x00\x02\xff\xfeok");
    assert!(matches!(ByteStr::decode(&mut src), Err(DecodeError::InvalidByteStr(_))));
    assert_eq!(src.as_slice(), b"ok");
}

#[test]
fn subscribe_other_properties_encode() {
    let props = SubscribeOtherProperties {
        subscription_identifier: Some(5),
        user_properties: vec![(ByteStr::from_str("a").unwrap(), ByteStr::from_str("b").unwrap())],
    };
    let mut acc = accumulator(16);
    props.encode(&mut acc, ProtocolVersion::V5).unwrap();
    assert_eq!(
        written(&mut acc),
        vec![0x09, 0x0B, 0x05, 0x26, 0x00, 0x01, b'a', 0x00, 0x01, b'b'],
    );

    let mut acc = accumulator(16);
    props.encode(&mut acc, ProtocolVersion::V3).unwrap();
    assert!(written(&mut acc).is_empty());

    let too_high = SubscribeOtherProperties { subscription_identifier: Some(0x1000_0000), user_properties: Vec::new() };
    let mut acc = accumulator(16);
    assert!(matches!(too_high.encode(&mut acc, ProtocolVersion::V5), Err(EncodeError::VarintTooHigh(0x1000_0000))));
    assert!(written(&mut acc).is_empty());
}

#[test]
fn filter_levels_decide_validity() {
    let ok = |s: &str| Filter::new(ByteStr::from_str(s).unwrap()).is_ok();
    assert!(ok("a/+/b"));
    assert!(ok("+"));
    assert!(ok("a/#"));
    assert!(ok("a//b"));
    assert!(!ok("a/#/b"));
    assert!(!ok("a+/b"));
    assert!(!ok("a/b#"));
    assert!(ok("$share/g/a/#"));
    assert!(!ok("$share/g+/a"));
    assert!(!ok("$share//a"));
    assert!(!ok("$share/g/a/#/b"));
}
