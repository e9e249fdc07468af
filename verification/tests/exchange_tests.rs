use dns_transaction::codec::{decode, encode, DnsMessage, DnsQuery};
use dns_transaction::error::ClientError;
use dns_transaction::exchange::{Exchange, ExchangeState, SubmitOutcome};
use dns_transaction::mux::DispatchOutcome;

fn a_query() -> DnsQuery {
    DnsQuery { name: b"example.com.".to_vec(), qtype: 1, qclass: 1 }
}

fn echo_response(request_payload: &Vec<u8>) -> Vec<u8> {
    let mut request = decode(request_payload).expect("request payload must decode");
    request.response = true;
    encode(&request)
}

#[test]
fn requests_queue_until_ready() {
    let mut exchange = Exchange::new(None);
    assert_eq!(exchange.state, ExchangeState::Connecting);
    assert_eq!(exchange.submit(a_query()), SubmitOutcome::Queued);
    assert_eq!(exchange.submit(a_query()), SubmitOutcome::Queued);
    // nothing goes out before the transport is ready
    assert_eq!(exchange.pump_queued(), None);
    exchange.on_ready();
    assert_eq!(exchange.state, ExchangeState::Running);
    let (id0, _) = exchange.pump_queued().expect("first queued request must go out");
    let (id1, _) = exchange.pump_queued().expect("second queued request must go out");
    assert_ne!(id0, id1);
    assert_eq!(exchange.pump_queued(), None);
}

#[test]
fn io_error_fails_all_pending_with_connection_lost() {
    let mut exchange = Exchange::new(None);
    exchange.on_ready();
    let mut sent = Vec::new();
    for _ in 0..3 {
        match exchange.submit(a_query()) {
            SubmitOutcome::Sent { id, .. } => sent.push(id),
            other => panic!("expected the request to go out, got {:?}", other),
        }
    }
    let (error, failed) = exchange.on_io_error();
    assert_eq!(error, ClientError::ConnectionLost);
    assert_eq!(failed, sent);
    assert_eq!(exchange.state, ExchangeState::Closed);
    // later submissions fail at once with the same classification
    assert_eq!(
        exchange.submit(a_query()),
        SubmitOutcome::Rejected { error: ClientError::ConnectionLost },
    );
}

#[test]
fn inbound_resolves_only_while_running() {
    let mut exchange = Exchange::new(None);
    assert_eq!(exchange.on_inbound(&vec![0, 0, 0]), DispatchOutcome::DroppedUnmatched);
    exchange.on_ready();
    let (id, payload) = match exchange.submit(a_query()) {
        SubmitOutcome::Sent { id, payload } => (id, payload),
        other => panic!("expected the request to go out, got {:?}", other),
    };
    let response = echo_response(&payload);
    match exchange.on_inbound(&response) {
        DispatchOutcome::Resolved { id: resolved, message } => {
            assert_eq!(resolved, id);
            assert_eq!(message.id, id);
        },
        other => panic!("expected a resolution, got {:?}", other),
    }
}

#[test]
fn malformed_inbound_does_not_close_the_exchange() {
    let mut exchange = Exchange::new(None);
    exchange.on_ready();
    let (id, _payload) = match exchange.submit(a_query()) {
        SubmitOutcome::Sent { id, payload } => (id, payload),
        other => panic!("expected the request to go out, got {:?}", other),
    };
    assert_eq!(exchange.on_inbound(&vec![]), DispatchOutcome::DroppedMalformed);
    assert_eq!(exchange.state, ExchangeState::Running);
    assert!(exchange.mux.is_pending(id));
    // an unmatched but well-formed identifier is also absorbed
    let other_id_payload = vec![0xAB, 0xCD];
    assert_eq!(exchange.on_inbound(&other_id_payload), DispatchOutcome::DroppedUnmatched);
    assert_eq!(exchange.state, ExchangeState::Running);
}

#[test]
fn cancelling_frees_the_identifier() {
    let mut exchange = Exchange::new(None);
    exchange.on_ready();
    let (id, payload) = match exchange.submit(a_query()) {
        SubmitOutcome::Sent { id, payload } => (id, payload),
        other => panic!("expected the request to go out, got {:?}", other),
    };
    assert!(exchange.cancel(id));
    let late = echo_response(&payload);
    assert_eq!(exchange.on_inbound(&late), DispatchOutcome::DroppedUnmatched);
    assert_eq!(exchange.state, ExchangeState::Running);
}

#[test]
fn quiescent_shutdown_only_when_idle() {
    let mut exchange = Exchange::new(None);
    exchange.on_ready();
    let (_id, payload) = match exchange.submit(a_query()) {
        SubmitOutcome::Sent { id, payload } => (id, payload),
        other => panic!("expected the request to go out, got {:?}", other),
    };
    assert!(!exchange.shutdown_if_quiescent());
    let response = echo_response(&payload);
    assert!(matches!(exchange.on_inbound(&response), DispatchOutcome::Resolved { .. }));
    assert!(exchange.shutdown_if_quiescent());
    assert_eq!(exchange.state, ExchangeState::Closed);
}

#[test]
fn queued_message_is_a_message_with_a_non_response_flag() {
    let mut exchange = Exchange::new(None);
    exchange.on_ready();
    let ptr_query = DnsQuery { name: b"_dns._udp.local.".to_vec(), qtype: 12, qclass: 1 };
    let (id, payload) = match exchange.submit(ptr_query) {
        SubmitOutcome::Sent { id, payload } => (id, payload),
        other => panic!("expected the request to go out, got {:?}", other),
    };
    let on_wire = decode(&payload).expect("outbound payload must decode");
    assert_eq!(on_wire.id, id);
    assert!(!on_wire.response);
    assert_eq!(on_wire.query.name, b"_dns._udp.local.".to_vec());
    assert!(on_wire.answers.is_empty());
}
