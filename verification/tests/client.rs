use ms_mqtt_client::client::pkid::PkidPool;
use ms_mqtt_client::client::session_old::{CompletedOperation, SessionOptions, SessionState};
use ms_mqtt_client::client::{ClientOptions, KeepAliveConfig};
use ms_mqtt_client::error::{OperationFailure, ProtocolError, ProtocolErrorRepr};
use ms_mqtt_client::mqtt_proto::codes::PubAckReasonCode;
use ms_mqtt_client::mqtt_proto::packet_fields::no_user_properties;
use ms_mqtt_client::mqtt_proto::property::KeepAlive;
use ms_mqtt_client::mqtt_proto::puback::{PubAck, PubAckOtherProperties};
use ms_mqtt_client::mqtt_proto::{DecodeError, PacketIdentifier};

fn pkid(raw: u16) -> PacketIdentifier {
    PacketIdentifier::new(raw).unwrap()
}

#[test]
fn pkid_lease_order() {
    let mut pool = PkidPool::new(PacketIdentifier::new(5).unwrap());
    // Pkids are leased in sequential order
    assert_eq!(pool.lease_next_pkid(), Some(PacketIdentifier::new(1).unwrap()));
    assert_eq!(pool.lease_next_pkid(), Some(PacketIdentifier::new(2).unwrap()));
    assert_eq!(pool.lease_next_pkid(), Some(PacketIdentifier::new(3).unwrap()));
    assert_eq!(pool.lease_next_pkid(), Some(PacketIdentifier::new(4).unwrap()));
    assert_eq!(pool.lease_next_pkid(), Some(PacketIdentifier::new(5).unwrap()));
    assert_eq!(pool.lease_next_pkid(), None); // All leased

    // Release the first pkid, and it will be leasable again
    assert!(pool.release_pkid(PacketIdentifier::new(1).unwrap()));
    assert_eq!(pool.lease_next_pkid(), Some(PacketIdentifier::new(1).unwrap()));

    // Still, no other pkids are available for lease
    assert_eq!(pool.lease_next_pkid(), None);

    // Release a non-sequential pkid, and it will be leasable again
    assert!(pool.release_pkid(PacketIdentifier::new(3).unwrap()));
    assert_eq!(pool.lease_next_pkid(), Some(PacketIdentifier::new(3).unwrap()));

    // Release a pkid both higher and lower than the previous lease.
    // The higher one will be leased first due to the circular nature of the pool.
    assert!(pool.release_pkid(PacketIdentifier::new(2).unwrap()));
    assert!(pool.release_pkid(PacketIdentifier::new(5).unwrap()));
    assert_eq!(pool.lease_next_pkid(), Some(PacketIdentifier::new(5).unwrap()));
    assert_eq!(pool.lease_next_pkid(), Some(PacketIdentifier::new(2).unwrap()));
    assert_eq!(pool.lease_next_pkid(), None); // All leased
}

#[test]
fn pkid_release_nonexistent() {
    let mut pool = PkidPool::new(PacketIdentifier::new(5).unwrap());
    // Releasing a pkid that was never leased returns false
    assert!(!pool.release_pkid(PacketIdentifier::new(1).unwrap()));
    // Releasing a pkid that is out of bounds for the max PKID in pool returns false
    assert!(!pool.release_pkid(PacketIdentifier::new(6).unwrap()));
}

fn pkid_pool_size(max_pkid: PacketIdentifier) {
    let mut pool = PkidPool::new(max_pkid);
    for i in 1..=max_pkid.get() {
        assert_eq!(pool.lease_next_pkid(), Some(PacketIdentifier::new(i).unwrap()));
    }
    assert_eq!(pool.lease_next_pkid(), None); // All leased
}

#[test]
fn pkid_pool_size_1() {
    pkid_pool_size(PacketIdentifier::new(1).unwrap());
}

#[test]
fn pkid_pool_size_100() {
    pkid_pool_size(PacketIdentifier::new(100).unwrap());
}

#[test]
fn pkid_pool_size_max() {
    pkid_pool_size(PacketIdentifier::max_value());
}

#[test]
fn pkid_release_twice_only_first_counts() {
    let mut pool = PkidPool::new(pkid(3));
    assert_eq!(pool.lease_next_pkid(), Some(pkid(1)));
    assert!(pool.release_pkid(pkid(1)));
    assert!(!pool.release_pkid(pkid(1)));
    // The cursor moved past 1, so 2 comes next, then 3, then 1 again.
    assert_eq!(pool.lease_next_pkid(), Some(pkid(2)));
    assert_eq!(pool.lease_next_pkid(), Some(pkid(3)));
    assert_eq!(pool.lease_next_pkid(), Some(pkid(1)));
    assert_eq!(pool.lease_next_pkid(), None);
}

#[test]
fn pkid_lease_skips_leased_and_wraps() {
    let mut pool = PkidPool::new(pkid(4));
    for i in 1..=4 {
        assert_eq!(pool.lease_next_pkid(), Some(pkid(i)));
    }
    assert!(pool.release_pkid(pkid(2)));
    // The search starts again at 1, which is leased, so it finds 2.
    assert_eq!(pool.lease_next_pkid(), Some(pkid(2)));
    assert!(pool.release_pkid(pkid(1)));
    // It starts at 3; 3 and 4 are leased, so it wraps to 1.
    assert_eq!(pool.lease_next_pkid(), Some(pkid(1)));
}

fn puback(raw: u16) -> PubAck {
    PubAck {
        packet_identifier: pkid(raw),
        reason_code: PubAckReasonCode::Success,
        other_properties: PubAckOtherProperties { reason_string: None, user_properties: no_user_properties() },
    }
}

#[test]
fn session_completes_publish() {
    let session = SessionState::new(SessionOptions { max_inflight: 2 });
    let mut session = session;
    // Nothing is leased, so completing an operation changes nothing visible but is accepted.
    session.complete_inflight(CompletedOperation::PublishQoS1(puback(1)));
}

#[test]
fn session_completes_unsubscribe() {
    let mut session = SessionState::new(SessionOptions { max_inflight: 4 });
    session.complete_inflight(CompletedOperation::Unsubscribe(pkid(3)));
}

#[test]
fn client_options_default() {
    let options = ClientOptions::default();
    assert!(options.client_id.is_none());
    assert_eq!(options.max_packet_identifier.get(), 65535);
    assert_eq!(options.publish_qos0_queue_size, 100);
    assert_eq!(options.publish_qos1_qos2_queue_size, 100);
}

#[test]
fn keep_alive_config_into_keep_alive() {
    assert_eq!(KeepAlive::from(KeepAliveConfig::Infinite), KeepAlive::Infinite);
    let config = KeepAliveConfig::Duration {
        ping_after: 30,
        response_timeout: std::time::Duration::from_secs(5),
    };
    assert_eq!(KeepAlive::from(config), KeepAlive::from_u16(30));
}

#[test]
fn operation_failure_from_string() {
    let failure = OperationFailure::from(String::from("no"));
    assert_eq!(failure.reason, "no");
}

#[test]
fn protocol_error_from_decode_error() {
    let repr = ProtocolErrorRepr::from(DecodeError::TrailingGarbage);
    let err = ProtocolError::from(repr);
    assert!(matches!(err.0, ProtocolErrorRepr::MalformedPacket(DecodeError::TrailingGarbage)));
}
