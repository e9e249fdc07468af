use dns_transaction::codec::{decode, encode, encode_query_message, DnsMessage, DnsQuery, DnsRecord};
use dns_transaction::error::ClientError;

fn a_query() -> DnsQuery {
    DnsQuery { name: b"example.com.".to_vec(), qtype: 1, qclass: 1 }
}

#[test]
fn query_message_exact_bytes() {
    let payload = encode_query_message(0x1234, &a_query());
    let mut expected: Vec<u8> = vec![0x12, 0x34, 0, 12];
    expected.extend_from_slice(b"example.com.");
    expected.extend_from_slice(&[0, 1, 0, 1, 0]);
    assert_eq!(payload, expected);
}

#[test]
fn round_trip_with_answers() {
    let message = DnsMessage {
        id: 0xBEEF,
        response: true,
        query: a_query(),
        answers: vec![
            DnsRecord {
                name: b"example.com.".to_vec(),
                rtype: 1,
                rclass: 1,
                rdata: vec![93, 184, 216, 34],
            },
            DnsRecord { name: b"alt.example.com.".to_vec(), rtype: 1, rclass: 1, rdata: vec![] },
        ],
    };
    let bytes = encode(&message);
    let back = decode(&bytes).expect("well-formed bytes must decode");
    assert_eq!(back.id, 0xBEEF);
    assert!(back.response);
    assert_eq!(back.query.name, b"example.com.".to_vec());
    assert_eq!(back.query.qtype, 1);
    assert_eq!(back.query.qclass, 1);
    assert_eq!(back.answers.len(), 2);
    assert_eq!(back.answers[0].rdata, vec![93, 184, 216, 34]);
    assert_eq!(back.answers[1].name, b"alt.example.com.".to_vec());
}

#[test]
fn round_trip_empty_answer_section() {
    let payload = encode_query_message(7, &a_query());
    let back = decode(&payload).expect("a fresh query must decode");
    assert_eq!(back.id, 7);
    assert!(!back.response);
    assert!(back.answers.is_empty());
}

#[test]
fn decode_rejects_malformed() {
    assert_eq!(decode(&vec![]), Err(ClientError::Decode));
    assert_eq!(decode(&vec![0x12]), Err(ClientError::Decode));
    // truncated after the identifier
    assert_eq!(decode(&vec![0x12, 0x34]), Err(ClientError::Decode));
    // flag byte out of range
    assert_eq!(decode(&vec![0, 1, 9, 0, 0, 1, 0, 1, 0]), Err(ClientError::Decode));
    // name length prefix overruns the payload
    assert_eq!(decode(&vec![0, 1, 0, 200, 0, 1, 0, 1, 0]), Err(ClientError::Decode));
    // trailing garbage after a complete message
    let mut bytes = encode_query_message(7, &a_query());
    bytes.push(0);
    assert_eq!(decode(&bytes), Err(ClientError::Decode));
}

#[test]
fn error_labels_are_distinct() {
    assert_eq!(ClientError::Configuration.describe(), "invalid configuration");
    assert_eq!(ClientError::Connect.describe(), "connection setup failed");
    assert_eq!(ClientError::ConnectionLost.describe(), "connection lost");
    assert_eq!(ClientError::Decode.describe(), "malformed message");
    assert_eq!(ClientError::Cancelled.describe(), "request cancelled");
}
