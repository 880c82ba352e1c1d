//! What the library's types keep of packets: every packet built from them is well formed, but for
//! the values that decoding does not give back.
use vstd::prelude::*;

use crate::mqtt_proto::byte_str::is_byte_str;
use crate::mqtt_proto::codec_laws::{filter_wf, packet_wf, topic_wf};
use crate::mqtt_proto::filter::Filter;
use crate::mqtt_proto::packet::{Packet, PacketView};
use crate::mqtt_proto::packet_fields::{opt_str_is_wf, user_properties_are_wf};
use crate::mqtt_proto::property::{opt_view, Authentication, CorrelationData, KeepAlive, SessionExpiryInterval};
use crate::mqtt_proto::subscribe::{subscribe_to_view, SubscribeTo};
use crate::mqtt_proto::topic::Topic;
use crate::mqtt_proto::unsubscribe::filters_view;
use crate::mqtt_proto::{PacketIdentifierDupQoS, VARINT_MAX};

verus! {

/// Whether a session expiry interval is one that decoding gives back: 0xFFFFFFFF seconds is read
/// back as one that never expires.
pub open spec fn expiry_decodable(i: Option<SessionExpiryInterval>) -> bool {
    !(i matches Some(SessionExpiryInterval::Duration(d)) && d == u32::MAX)
}

/// Whether the values a packet holds are ones decoding gives back: a session expiry interval is
/// not 0xFFFFFFFF seconds, which is read back as one that never expires; a SUBACK has a reason
/// code and no subscription asks for no-local on a shared filter, as decoding requires; a
/// SUBSCRIBE or UNSUBSCRIBE has a topic filter and its subscription identifiers fit a variable
/// byte integer, without which it is not encoded at all.
pub open spec fn packet_decodable(p: PacketView) -> bool {
    match p {
        PacketView::ConnAck(v) => expiry_decodable(v.other_properties.session_expiry_interval),
        PacketView::Disconnect(v) => expiry_decodable(v.session_expiry_interval),
        PacketView::Publish(v) => forall|i: int|
            0 <= i < v.other_properties.subscription_identifiers.len()
                ==> #[trigger] v.other_properties.subscription_identifiers[i] <= VARINT_MAX,
        PacketView::SubAck(v) => v.reason_codes.len() > 0,
        PacketView::Subscribe(v) => {
            &&& v.subscribe_to.len() > 0
            &&& forall|i: int|
                0 <= i < v.subscribe_to.len() ==> !(#[trigger] v.subscribe_to[i].0.1 is Shared
                    && v.subscribe_to[i].1.other_properties.no_local)
            &&& v.other_properties.subscription_identifier matches Some(id) ==> id <= VARINT_MAX
        },
        PacketView::Unsubscribe(v) => v.unsubscribe_from.len() > 0,
        _ => true,
    }
}

/// Authentication data built by the library is well formed.
fn authentication_is_wf(a: &Option<Authentication>)
    ensures
        crate::mqtt_proto::auth::authentication_wf(opt_view(*a)),
{
    if let Some(a) = a {
        proof {
            use_type_invariant(&a.method);
        }
        if let Some(d) = &a.data {
            proof {
                use_type_invariant(d);
            }
        }
    }
}

/// Topic filters built by the library are well formed.
fn filters_are_wf(fs: &Vec<Filter>)
    ensures
        forall|i: int| 0 <= i < fs@.len() ==> filter_wf(#[trigger] filters_view(fs@)[i]),
{
    let mut i: usize = 0;
    while i < fs.len()
        invariant
            i <= fs@.len(),
            forall|j: int| 0 <= j < i ==> filter_wf(#[trigger] filters_view(fs@)[j]),
        decreases fs@.len() - i,
    {
        let f = &fs[i];
        proof {
            use_type_invariant(f);
            assert(filters_view(fs@)[i as int] == f@);
        }
        i = i + 1;
    }
}

/// The topic filters of subscriptions built by the library are well formed.
fn subscriptions_are_wf(ts: &Vec<SubscribeTo>)
    ensures
        forall|i: int| 0 <= i < ts@.len() ==> filter_wf(#[trigger] subscribe_to_view(ts@)[i].0),
{
    let mut i: usize = 0;
    while i < ts.len()
        invariant
            i <= ts@.len(),
            forall|j: int| 0 <= j < i ==> filter_wf(#[trigger] subscribe_to_view(ts@)[j].0),
        decreases ts@.len() - i,
    {
        let t = &ts[i];
        proof {
            use_type_invariant(&t.topic_filter);
            assert(subscribe_to_view(ts@)[i as int] == t@);
        }
        i = i + 1;
    }
}

/// A topic name built by the library is valid.
fn topic_is_wf(t: &Topic)
    ensures
        topic_wf(t@),
{
    proof {
        use_type_invariant(t);
    }
}

/// Every packet built from the library's types is well formed, when the values it holds are ones
/// that decoding gives back.
pub fn packet_is_wf(p: &Packet)
    ensures
        packet_decodable(p@) ==> packet_wf(p@),
{
    match p {
        Packet::Auth(a) => {
            authentication_is_wf(&a.authentication);
            opt_str_is_wf(&a.reason_string);
            user_properties_are_wf(&a.user_properties);
        },
        Packet::ConnAck(c) => {
            let o = &c.other_properties;
            proof {
                use_type_invariant(&o.receive_maximum);
                use_type_invariant(&o.maximum_packet_size);
            }
            if let Some(KeepAlive::Duration(d)) = &o.server_keep_alive {
                proof {
                    use_type_invariant(d);
                }
            }
            opt_str_is_wf(&o.assigned_client_id);
            opt_str_is_wf(&o.reason_string);
            opt_str_is_wf(&o.response_information);
            opt_str_is_wf(&o.server_reference);
            user_properties_are_wf(&o.user_properties);
            authentication_is_wf(&o.authentication);
        },
        Packet::Disconnect(d) => {
            opt_str_is_wf(&d.other_properties.reason_string);
            opt_str_is_wf(&d.other_properties.server_reference);
            user_properties_are_wf(&d.other_properties.user_properties);
        },
        Packet::PingReq(_) | Packet::PingResp(_) => {},
        Packet::PubAck(a) => {
            proof {
                use_type_invariant(&a.packet_identifier);
            }
            opt_str_is_wf(&a.other_properties.reason_string);
            user_properties_are_wf(&a.other_properties.user_properties);
        },
        Packet::PubComp(a) => {
            proof {
                use_type_invariant(&a.packet_identifier);
            }
            opt_str_is_wf(&a.other_properties.reason_string);
            user_properties_are_wf(&a.other_properties.user_properties);
        },
        Packet::PubRec(a) => {
            proof {
                use_type_invariant(&a.packet_identifier);
            }
            opt_str_is_wf(&a.other_properties.reason_string);
            user_properties_are_wf(&a.other_properties.user_properties);
        },
        Packet::PubRel(a) => {
            proof {
                use_type_invariant(&a.packet_identifier);
            }
            opt_str_is_wf(&a.other_properties.reason_string);
            user_properties_are_wf(&a.other_properties.user_properties);
        },
        Packet::UnsubAck(a) => {
            proof {
                use_type_invariant(&a.packet_identifier);
            }
            opt_str_is_wf(&a.other_properties.reason_string);
            user_properties_are_wf(&a.other_properties.user_properties);
        },
        Packet::Publish(pb) => {
            topic_is_wf(&pb.topic_name);
            match pb.packet_identifier_dup_qos {
                PacketIdentifierDupQoS::AtLeastOnce(id, _) | PacketIdentifierDupQoS::ExactlyOnce(id, _) => {
                    proof {
                        use_type_invariant(&id);
                    }
                },
                PacketIdentifierDupQoS::AtMostOnce => {},
            }
            let o = &pb.other_properties;
            if let Some(a) = &o.topic_alias {
                proof {
                    use_type_invariant(a);
                }
            }
            if let Some(t) = &o.response_topic {
                topic_is_wf(t);
            }
            if let Some(CorrelationData::Variable(b)) = &o.correlation_data {
                proof {
                    use_type_invariant(b);
                }
            }
            opt_str_is_wf(&o.content_type);
            user_properties_are_wf(&o.user_properties);
        },
        Packet::SubAck(s) => {
            proof {
                use_type_invariant(&s.packet_identifier);
            }
            opt_str_is_wf(&s.other_properties.reason_string);
            user_properties_are_wf(&s.other_properties.user_properties);
        },
        Packet::Subscribe(s) => {
            proof {
                use_type_invariant(&s.packet_identifier);
            }
            subscriptions_are_wf(&s.subscribe_to);
            user_properties_are_wf(&s.other_properties.user_properties);
        },
        Packet::Unsubscribe(u) => {
            proof {
                use_type_invariant(&u.packet_identifier);
            }
            filters_are_wf(&u.unsubscribe_from);
            user_properties_are_wf(&u.other_properties.user_properties);
        },
    }
}

} // verus!
