//! Entry points for fuzzing the decoders with arbitrary input.
use vstd::prelude::*;

use crate::buffer_pool::{Shared, SingleAccumulator};
use crate::mqtt_proto::codec_laws::lemma_decode_encode_decode;
use crate::mqtt_proto::packet::spec_decode_full;
use crate::mqtt_proto::byte_str::ByteStr;
use crate::mqtt_proto::filter::Filter;
use crate::mqtt_proto::packet::Packet;
use crate::mqtt_proto::topic::Topic;
use crate::mqtt_proto::ProtocolVersion;

verus! {

/// Decodes arbitrary bytes as a full MQTT packet under both protocol versions. For any input
/// this only ever produces a packet or an error.
pub fn decode(data: &[u8]) {
    let versions = [ProtocolVersion::V3, ProtocolVersion::V5];
    for i in 0..2usize {
        let mut src = Shared::copy_from_slice(data);
        let _ = Packet::decode_full(&mut src, versions[i]);
    }
}

/// Decodes arbitrary bytes under both protocol versions and, where they decode to a packet,
/// encodes it again and decodes the encoding: that gives back an equal packet.
pub fn roundtrip(data: &[u8]) {
    roundtrip_version(data, ProtocolVersion::V3);
    roundtrip_version(data, ProtocolVersion::V5);
}

/// The decode, encode and decode round trip of `data` under one protocol version. Where `data`
/// decodes to a packet, the packet encodes again, and decoding its encoding gives a packet equal
/// to it.
fn roundtrip_version(data: &[u8], version: ProtocolVersion) -> (r: Option<(Packet, Packet)>)
    ensures
        r is Some <==> spec_decode_full(data@, version) is Ok,
        r matches Some((first, second)) ==> second@ == first@ && first@ == spec_decode_full(
            data@,
            version,
        )->Ok_0,
{
    let mut src = Shared::copy_from_slice(data);
    let packet = match Packet::decode_full(&mut src, version) {
        Ok(p) => p,
        Err(_) => {
            return None;
        },
    };
    proof {
        lemma_decode_encode_decode(data@, version);
        let body = crate::mqtt_proto::packet::spec_encode_body(packet@, version)->Ok_0;
        crate::mqtt_proto::lemma_encode_varint(body.len());
    }
    let mut encoded = SingleAccumulator::new();
    proof {
        encoded.lemma_spare();
    }
    let r = packet.encode(&mut encoded, version);
    assert(r is Ok);
    let mut reencoded = encoded.freeze();
    match Packet::decode_full(&mut reencoded, version) {
        Ok(redecoded) => Some((packet, redecoded)),
        Err(_) => {
            proof {
                assert(false);
            }
            None
        },
    }
}

/// Validates a topic filter and a topic name, and matches the one against the other when both
/// are valid.
pub fn topic_filter(filter: &str, topic: &str) {
    let filter = match ByteStr::from_str(filter) {
        Ok(b) => match Filter::new(b) {
            Ok(f) => f,
            Err(_) => return,
        },
        Err(_) => return,
    };
    let _ = filter.as_str();
    if let Ok(b) = ByteStr::from_str(topic) {
        if let Ok(topic) = Topic::new(b) {
            let _ = filter.matches_topic(&topic);
        }
    }
}

} // verus!
