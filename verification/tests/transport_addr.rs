//! Tests of the transport decision core — the collect-first and collect-all
//! reply policies — and of local address selection.

use rbroadlink::addr::{local_ip_or, select_local_ip, InterfaceAddr};
use rbroadlink::error::Error;
use rbroadlink::transport::{
    bind_port, collect_first, CollectAll, CollectEnd, CollectEvent, COMMAND_PORT,
    DEFAULT_RECEIVE_TIMEOUT_SECS,
};

#[test]
fn collect_all_gathers_replies_in_receipt_order_until_timeout() {
    // Three datagrams arrive before the timeout; collection returns all
    // three, in receipt order, and the timeout ends it normally.
    let mut collection: CollectAll<u32> = CollectAll::new();
    assert!(!collection.is_done());
    collection.on_event(CollectEvent::Reply(10));
    collection.on_event(CollectEvent::Reply(20));
    collection.on_event(CollectEvent::Reply(30));
    assert!(!collection.is_done());
    collection.on_event(CollectEvent::TimedOut);
    assert!(collection.is_done());
    let (results, end) = collection.into_results();
    assert_eq!(results, vec![10, 20, 30]);
    assert_eq!(end, CollectEnd::TimedOut);
}

#[test]
fn collect_all_with_no_replies_returns_empty_normally() {
    let mut collection: CollectAll<u32> = CollectAll::new();
    collection.on_event(CollectEvent::TimedOut);
    let (results, end) = collection.into_results();
    assert_eq!(results, Vec::<u32>::new());
    assert_eq!(end, CollectEnd::TimedOut);
}

#[test]
fn collect_all_judges_each_reply_independently() {
    let mut collection: CollectAll<u32> = CollectAll::new();
    collection.on_event(CollectEvent::Reply(1));
    collection.on_event(CollectEvent::Invalid(Error::TruncatedMessageError));
    collection.on_event(CollectEvent::Reply(2));
    collection.on_event(CollectEvent::TimedOut);
    let (results, end) = collection.into_results();
    assert_eq!(results, vec![1, 2]);
    assert_eq!(end, CollectEnd::TimedOut);
}

#[test]
fn collect_all_keeps_partial_results_on_socket_failure() {
    let mut collection: CollectAll<u32> = CollectAll::new();
    collection.on_event(CollectEvent::Reply(7));
    collection.on_event(CollectEvent::SocketFailed);
    assert!(collection.is_done());
    let (results, end) = collection.into_results();
    assert_eq!(results, vec![7]);
    assert_eq!(end, CollectEnd::SocketFailed);
}

#[test]
fn collect_first_returns_the_reply() {
    let result: Result<u32, Error> = collect_first(CollectEvent::Reply(42));
    assert_eq!(result, Ok(42));
}

#[test]
fn collect_first_absence_is_no_response() {
    let result: Result<u32, Error> = collect_first(CollectEvent::TimedOut);
    assert_eq!(result, Err(Error::NoResponseError));
}

#[test]
fn collect_first_propagates_an_invalid_reply() {
    let result: Result<u32, Error> = collect_first(CollectEvent::Invalid(
        Error::DeviceLockedError,
    ));
    assert_eq!(result, Err(Error::DeviceLockedError));
}

#[test]
fn transport_constants_match_the_protocol() {
    assert_eq!(COMMAND_PORT, 80);
    assert_eq!(DEFAULT_RECEIVE_TIMEOUT_SECS, 10);
    assert_eq!(bind_port(None), 0);
    assert_eq!(bind_port(Some(53000)), 53000);
}

#[test]
fn select_local_ip_picks_first_non_loopback_v4() {
    let interfaces = vec![
        InterfaceAddr::V6,
        InterfaceAddr::V4([127, 0, 0, 1]),
        InterfaceAddr::V4([192, 168, 1, 2]),
        InterfaceAddr::V4([10, 0, 0, 1]),
    ];
    assert_eq!(select_local_ip(&interfaces), Ok([192, 168, 1, 2]));
}

#[test]
fn select_local_ip_fails_when_none_qualifies() {
    let interfaces = vec![InterfaceAddr::V6, InterfaceAddr::V4([127, 0, 0, 1])];
    assert_eq!(select_local_ip(&interfaces), Err(Error::NoLocalAddressError));
    assert_eq!(select_local_ip(&Vec::new()), Err(Error::NoLocalAddressError));
}

#[test]
fn local_ip_or_returns_the_explicit_address() {
    assert_eq!(local_ip_or(Some([10, 1, 2, 3])), Ok([10, 1, 2, 3]));
}

#[test]
fn local_ip_or_without_override_never_picks_loopback() {
    // The machine's interface list decides the outcome; whatever it is, a
    // found address is IPv4 outside the loopback block.
    match local_ip_or(None) {
        Ok(octets) => assert_ne!(octets[0], 127),
        Err(e) => assert_eq!(e, Error::NoLocalAddressError),
    }
}
