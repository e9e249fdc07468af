use dns_transaction::codec::{decode, encode, DnsMessage, DnsQuery, DnsRecord};
use dns_transaction::mux::{DispatchOutcome, MessageSigner, Multiplexer};

fn a_query() -> DnsQuery {
    DnsQuery { name: b"example.com.".to_vec(), qtype: 1, qclass: 1 }
}

fn answer_payload_for(request_payload: &Vec<u8>) -> Vec<u8> {
    let request = decode(request_payload).expect("request payload must decode");
    let response = DnsMessage {
        id: request.id,
        response: true,
        query: request.query,
        answers: vec![DnsRecord {
            name: b"example.com.".to_vec(),
            rtype: 1,
            rclass: 1,
            rdata: vec![93, 184, 216, 34],
        }],
    };
    encode(&response)
}

#[test]
fn identifiers_assigned_in_submission_order() {
    let mut mux = Multiplexer::new(None);
    let (id0, _) = mux.send(&a_query()).unwrap();
    let (id1, _) = mux.send(&a_query()).unwrap();
    let (id2, _) = mux.send(&a_query()).unwrap();
    assert_eq!((id0, id1, id2), (0, 1, 2));
    assert_eq!(mux.pending_count(), 3);
    assert!(mux.is_pending(id0) && mux.is_pending(id1) && mux.is_pending(id2));
}

#[test]
fn response_resolves_exactly_its_request() {
    let mut mux = Multiplexer::new(None);
    let (id_a, _payload_a) = mux.send(&a_query()).unwrap();
    let (id_b, payload_b) = mux.send(&a_query()).unwrap();
    let response = answer_payload_for(&payload_b);
    match mux.dispatch(&response) {
        DispatchOutcome::Resolved { id, message } => {
            assert_eq!(id, id_b);
            assert_eq!(message.id, id_b);
            assert!(message.response);
            assert!(!message.answers.is_empty());
        },
        other => panic!("expected a resolution, got {:?}", other),
    }
    assert!(!mux.is_pending(id_b));
    assert!(mux.is_pending(id_a));
}

#[test]
fn duplicate_response_is_dropped() {
    let mut mux = Multiplexer::new(None);
    let (_id, payload) = mux.send(&a_query()).unwrap();
    let response = answer_payload_for(&payload);
    assert!(matches!(mux.dispatch(&response), DispatchOutcome::Resolved { .. }));
    // a retransmission of the same answer has no pending entry left
    assert_eq!(mux.dispatch(&response), DispatchOutcome::DroppedUnmatched);
    assert_eq!(mux.pending_count(), 0);
}

#[test]
fn cancelled_request_ignores_late_response() {
    let mut mux = Multiplexer::new(None);
    let (id, payload) = mux.send(&a_query()).unwrap();
    assert!(mux.cancel(id));
    assert!(!mux.is_pending(id));
    let late = answer_payload_for(&payload);
    assert_eq!(mux.dispatch(&late), DispatchOutcome::DroppedUnmatched);
    assert!(!mux.cancel(id));
}

#[test]
fn malformed_payload_is_dropped_without_effect() {
    let mut mux = Multiplexer::new(None);
    let (id, payload) = mux.send(&a_query()).unwrap();
    assert_eq!(mux.dispatch(&vec![]), DispatchOutcome::DroppedMalformed);
    assert_eq!(mux.dispatch(&vec![0xFF]), DispatchOutcome::DroppedMalformed);
    // carries the pending identifier but fails the wire-format decode
    let mut stub = payload.clone();
    stub.truncate(3);
    assert_eq!(mux.dispatch(&stub), DispatchOutcome::DroppedMalformed);
    assert!(mux.is_pending(id));
}

#[test]
fn fail_all_empties_the_table() {
    let mut mux = Multiplexer::new(None);
    let (id0, _) = mux.send(&a_query()).unwrap();
    let (id1, _) = mux.send(&a_query()).unwrap();
    let failed = mux.fail_all();
    assert_eq!(failed, vec![id0, id1]);
    assert_eq!(mux.pending_count(), 0);
}

#[test]
fn signer_tag_travels_and_validates() {
    let signer = MessageSigner { tag: b"sig!".to_vec() };
    let mut mux = Multiplexer::new(Some(signer));
    let (id, payload) = mux.send(&a_query()).unwrap();
    assert!(payload.ends_with(b"sig!"));
    // the body without the tag must be a decodable query
    let body = payload[..payload.len() - 4].to_vec();
    let request = decode(&body).expect("signed payload body must decode");
    assert_eq!(request.id, id);

    // a matched payload with a wrong tag is dropped, the request kept
    let mut forged = answer_payload_for(&body);
    forged.extend_from_slice(b"nope");
    assert_eq!(mux.dispatch(&forged), DispatchOutcome::DroppedBadSignature);
    assert!(mux.is_pending(id));

    // the genuine tag validates and resolves
    let mut genuine = answer_payload_for(&body);
    genuine.extend_from_slice(b"sig!");
    assert!(matches!(mux.dispatch(&genuine), DispatchOutcome::Resolved { .. }));
    assert!(!mux.is_pending(id));
}

#[test]
fn freed_identifier_is_reused_after_wrap() {
    let mut mux = Multiplexer::new(None);
    let (id0, _) = mux.send(&a_query()).unwrap();
    assert_eq!(id0, 0);
    assert!(mux.cancel(id0));
    // the search starts after the last assignment, so the next send picks 1
    let (id1, _) = mux.send(&a_query()).unwrap();
    assert_eq!(id1, 1);
}
