use ordercast::codec::{decode_order, encode_order};
use ordercast::errors::TransportError;
use ordercast::order::{Order, OrderType};

fn sample_buy() -> Order {
    Order::new("12345", OrderType::Buy, 1500, 3000000)
}

#[test]
fn encode_exact_bytes() {
    let enc = encode_order(&sample_buy());
    let expected = "{\"order_id\":\"12345\",\"order_type\":\"buy\",\"amount\":1500,\"price\":3000000}";
    assert_eq!(enc, expected.as_bytes().to_vec());
}

#[test]
fn round_trip_buy() {
    let o = sample_buy();
    let enc = encode_order(&o);
    let back = decode_order(&enc).expect("canonical encoding must decode");
    assert_eq!(back.order_id, "12345");
    assert!(matches!(back.order_type, OrderType::Buy));
    assert_eq!(back.amount, 1500);
    assert_eq!(back.price, 3000000);
}

#[test]
fn round_trip_sell() {
    let o = Order::new("67890", OrderType::Sell, 2000, 3100000);
    let enc = encode_order(&o);
    let back = decode_order(&enc).expect("canonical encoding must decode");
    assert_eq!(back.order_id, "67890");
    assert!(matches!(back.order_type, OrderType::Sell));
    assert_eq!(back.amount, 2000);
    assert_eq!(back.price, 3100000);
}

#[test]
fn round_trip_edge_values() {
    let o = Order::new("", OrderType::Buy, 1, u64::MAX);
    let enc = encode_order(&o);
    let back = decode_order(&enc).expect("canonical encoding must decode");
    assert_eq!(back.order_id, "");
    assert_eq!(back.amount, 1);
    assert_eq!(back.price, u64::MAX);
}

#[test]
fn decode_truncated_fails() {
    let enc = encode_order(&sample_buy());
    for cut in 0..enc.len() {
        let truncated: Vec<u8> = enc[..cut].to_vec();
        match decode_order(&truncated) {
            Err(TransportError::MalformedMessage) => {},
            other => panic!("truncation at {} gave {:?}", cut, other),
        }
    }
}

#[test]
fn decode_type_mismatch_fails() {
    let text = "{\"order_id\":\"12345\",\"order_type\":\"hold\",\"amount\":1500,\"price\":3000000}";
    let r = decode_order(&text.as_bytes().to_vec());
    assert_eq!(r.unwrap_err(), TransportError::MalformedMessage);

    let text = "{\"order_id\":\"12345\",\"order_type\":\"buy\",\"amount\":\"x\",\"price\":3000000}";
    let r = decode_order(&text.as_bytes().to_vec());
    assert_eq!(r.unwrap_err(), TransportError::MalformedMessage);
}

#[test]
fn decode_missing_field_fails() {
    let text = "{\"order_id\":\"12345\",\"order_type\":\"buy\",\"price\":3000000}";
    let r = decode_order(&text.as_bytes().to_vec());
    assert_eq!(r.unwrap_err(), TransportError::MalformedMessage);
}

#[test]
fn decode_trailing_garbage_fails() {
    let mut enc = encode_order(&sample_buy());
    enc.push(b' ');
    let r = decode_order(&enc);
    assert_eq!(r.unwrap_err(), TransportError::MalformedMessage);
}

#[test]
fn decode_rejects_leading_zero_and_zero_values() {
    let text = "{\"order_id\":\"1\",\"order_type\":\"buy\",\"amount\":01,\"price\":2}";
    assert_eq!(decode_order(&text.as_bytes().to_vec()).unwrap_err(), TransportError::MalformedMessage);

    let text = "{\"order_id\":\"1\",\"order_type\":\"buy\",\"amount\":0,\"price\":2}";
    assert_eq!(decode_order(&text.as_bytes().to_vec()).unwrap_err(), TransportError::MalformedMessage);

    let text = "{\"order_id\":\"1\",\"order_type\":\"buy\",\"amount\":2,\"price\":0}";
    assert_eq!(decode_order(&text.as_bytes().to_vec()).unwrap_err(), TransportError::MalformedMessage);
}

#[test]
fn decode_rejects_number_overflow() {
    // one past u64::MAX
    let text = "{\"order_id\":\"1\",\"order_type\":\"buy\",\"amount\":18446744073709551616,\"price\":2}";
    assert_eq!(decode_order(&text.as_bytes().to_vec()).unwrap_err(), TransportError::MalformedMessage);
    // exactly u64::MAX still fits
    let text = "{\"order_id\":\"1\",\"order_type\":\"buy\",\"amount\":18446744073709551615,\"price\":2}";
    assert_eq!(decode_order(&text.as_bytes().to_vec()).unwrap().amount, u64::MAX);
}

#[test]
fn decode_rejects_bad_id_bytes() {
    let bytes = b"{\"order_id\":\"a\\b\",\"order_type\":\"buy\",\"amount\":1,\"price\":2}".to_vec();
    assert_eq!(decode_order(&bytes).unwrap_err(), TransportError::MalformedMessage);
    let bytes = b"{\"order_id\":\"a\x07b\",\"order_type\":\"buy\",\"amount\":1,\"price\":2}".to_vec();
    assert_eq!(decode_order(&bytes).unwrap_err(), TransportError::MalformedMessage);
}

#[test]
fn encoding_is_valid_json() {
    let enc = encode_order(&sample_buy());
    let v: serde_json::Value = serde_json::from_slice(&enc).expect("wire bytes must parse as JSON");
    assert_eq!(v["order_id"].as_str().unwrap(), "12345");
    assert_eq!(v["order_type"].as_str().unwrap(), "buy");
    assert_eq!(v["amount"].as_u64().unwrap(), 1500);
    assert_eq!(v["price"].as_u64().unwrap(), 3000000);
}

#[test]
fn error_labels_are_stable() {
    assert_eq!(TransportError::MalformedMessage.label(), "malformed message");
    assert_eq!(TransportError::HandshakeFailed.label(), "handshake failed");
    assert_eq!(TransportError::SessionClosed.label(), "session closed");
    assert_eq!(TransportError::StreamOpenFailed.label(), "stream open failed");
    assert_eq!(TransportError::WriteFailed.label(), "write failed");
    assert_eq!(TransportError::ReadFailed.label(), "read failed");
    assert_eq!(TransportError::PeerUnreachable.label(), "peer unreachable");
    assert_eq!(TransportError::DiscoveryTimeout.label(), "discovery timeout");
}
