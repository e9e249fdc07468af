use dns_transaction::addr::{mdns_ipv4_group, mdns_ipv6_group, IpAddress, SockAddr};
use dns_transaction::codec::{decode, encode, DnsMessage, DnsQuery, DnsRecord};
use dns_transaction::connection::{
    CertificateDer, ConnectPlan, HttpsClientConnection, MdnsClientConnection, UdpClientConnection,
};
use dns_transaction::error::ClientError;
use dns_transaction::exchange::{ExchangeState, SubmitOutcome};
use dns_transaction::mux::DispatchOutcome;

fn name_server() -> SockAddr {
    SockAddr { ip: IpAddress::V4 { bits: 0x0808_0808 }, port: 53 }
}

/// A responder that echoes a well-formed answer with the same transaction
/// identifier, as a recursive name server would.
fn answering_responder(request_payload: &Vec<u8>) -> Vec<u8> {
    let request = decode(request_payload).expect("the responder sees a well-formed query");
    let response = DnsMessage {
        id: request.id,
        response: true,
        query: request.query,
        answers: vec![DnsRecord {
            name: b"example.com.".to_vec(),
            rtype: 1,
            rclass: 1,
            rdata: vec![93, 184, 216, 34],
        }],
    };
    encode(&response)
}

#[test]
fn udp_round_trip_resolves_with_matching_id() {
    let connection = UdpClientConnection::new(name_server()).expect("construction cannot fail");
    let (plan, mut exchange) = connection.new_stream();
    match plan {
        ConnectPlan::Udp { name_server: target } => assert_eq!(target, name_server()),
        other => panic!("expected a UDP plan, got a different transport: {:?}", line_of(&other)),
    }
    // the driving task binds the socket, then reports readiness
    exchange.on_ready();
    let query = DnsQuery { name: b"example.com.".to_vec(), qtype: 1, qclass: 1 };
    let (assigned_id, payload) = match exchange.submit(query) {
        SubmitOutcome::Sent { id, payload } => (id, payload),
        other => panic!("expected the request to go out, got {:?}", other),
    };
    let response = answering_responder(&payload);
    match exchange.on_inbound(&response) {
        DispatchOutcome::Resolved { id, message } => {
            assert_eq!(id, assigned_id);
            assert_eq!(message.id, assigned_id);
            assert!(message.response);
            assert!(!message.answers.is_empty());
        },
        other => panic!("expected a resolution, got {:?}", other),
    }
}

fn line_of(plan: &ConnectPlan) -> &'static str {
    match plan {
        ConnectPlan::Udp { .. } => "udp",
        ConnectPlan::Multicast { .. } => "multicast",
        ConnectPlan::Https { .. } => "https",
    }
}

#[test]
fn mdns_one_shot_echo_and_duplicate() {
    let connection = MdnsClientConnection::new_ipv4(Some(1), None);
    assert_eq!(connection.multicast_addr, mdns_ipv4_group());
    let (plan, mut exchange) = connection.new_stream();
    match plan {
        ConnectPlan::Multicast { group, packet_ttl, ipv4_if, ipv6_if } => {
            assert_eq!(group, mdns_ipv4_group());
            assert_eq!(packet_ttl, Some(1));
            assert_eq!(ipv4_if, None);
            assert_eq!(ipv6_if, None);
        },
        other => panic!("expected a multicast plan, got {}", line_of(&other)),
    }
    exchange.on_ready();
    let ptr_query = DnsQuery { name: b"_dns._udp.local.".to_vec(), qtype: 12, qclass: 1 };
    let (assigned_id, payload) = match exchange.submit(ptr_query) {
        SubmitOutcome::Sent { id, payload } => (id, payload),
        other => panic!("expected the request to go out, got {:?}", other),
    };
    // a peer in the group echoes the received message back verbatim
    let echo = payload.clone();
    match exchange.on_inbound(&echo) {
        DispatchOutcome::Resolved { id, message } => {
            assert_eq!(id, assigned_id);
            assert_eq!(message.id, assigned_id);
            assert_eq!(message.query.name, b"_dns._udp.local.".to_vec());
        },
        other => panic!("expected a resolution, got {:?}", other),
    }
    // a fresh query goes out before the duplicate echo arrives
    let second_query = DnsQuery { name: b"_dns._udp.local.".to_vec(), qtype: 12, qclass: 1 };
    let (second_id, second_payload) = match exchange.submit(second_query) {
        SubmitOutcome::Sent { id, payload } => (id, payload),
        other => panic!("expected the request to go out, got {:?}", other),
    };
    assert_ne!(second_id, assigned_id);
    // the duplicate echo for the first identifier is dropped ...
    assert_eq!(exchange.on_inbound(&echo), DispatchOutcome::DroppedUnmatched);
    // ... and does not affect the new query, which still resolves
    assert!(exchange.mux.is_pending(second_id));
    let second_echo = second_payload.clone();
    assert!(matches!(exchange.on_inbound(&second_echo), DispatchOutcome::Resolved { .. }));
}

#[test]
fn mdns_ipv6_uses_the_well_known_group() {
    let connection = MdnsClientConnection::new_ipv6(None, Some(3));
    assert_eq!(connection.multicast_addr, mdns_ipv6_group());
    assert_eq!(connection.ipv6_if, Some(3));
    assert_eq!(connection.ipv4_if, None);
}

#[test]
fn https_builder_rejects_malformed_trust_material() {
    let mut builder = HttpsClientConnection::new();
    // not a DER-encoded certificate: rejected at configuration time
    let garbage = CertificateDer { der: vec![0xDE, 0xAD, 0xBE, 0xEF] };
    assert_eq!(builder.add_ca(garbage), Err(ClientError::Configuration));
    let empty = CertificateDer { der: vec![] };
    assert_eq!(builder.add_ca(empty), Err(ClientError::Configuration));
    let connection = builder.build(name_server(), String::from("dns.example"));
    assert_eq!(connection.name_server, name_server());
    assert_eq!(connection.dns_name, "dns.example");
    let (plan, exchange) = connection.new_stream();
    match plan {
        ConnectPlan::Https { name_server: target, dns_name, .. } => {
            assert_eq!(target, name_server());
            assert_eq!(dns_name, "dns.example");
        },
        other => panic!("expected an HTTPS plan, got {}", line_of(&other)),
    }
    assert_eq!(exchange.state, ExchangeState::Connecting);
}
