use ordercast::codec::encode_order;
use ordercast::dispatch::{dispatch_session, dispatch_stream, summarize_batch};
use ordercast::errors::TransportError;
use ordercast::order::{Order, OrderType};
use ordercast::sink::InboundSink;

#[test]
fn concurrent_sends_three_orders() {
    // three independent orders, one stream each, arriving in some order
    let orders = vec![
        Order::new("12345", OrderType::Buy, 1500, 3000000),
        Order::new("67890", OrderType::Sell, 2000, 3100000),
        Order::new("24680", OrderType::Buy, 3500, 3200000),
    ];
    let payloads: Vec<Vec<u8>> = orders.iter().map(encode_order).collect();
    let mut sink = InboundSink::new();
    let malformed = dispatch_session(&payloads, &mut sink);
    assert_eq!(malformed, 0);
    assert_eq!(sink.len(), 3);
    let mut ids: Vec<String> = Vec::new();
    for i in 0..sink.len() {
        ids.push(sink.get(i).order_id.clone());
    }
    ids.sort();
    assert_eq!(ids, vec!["12345".to_string(), "24680".to_string(), "67890".to_string()]);
}

#[test]
fn arrival_order_is_preserved_per_session() {
    let a = encode_order(&Order::new("67890", OrderType::Sell, 2, 3));
    let b = encode_order(&Order::new("12345", OrderType::Buy, 1, 2));
    let mut sink = InboundSink::new();
    dispatch_session(&vec![a, b], &mut sink);
    assert_eq!(sink.get(0).order_id, "67890");
    assert_eq!(sink.get(1).order_id, "12345");
}

#[test]
fn session_isolation_malformed_stream() {
    let good1 = encode_order(&Order::new("12345", OrderType::Buy, 1500, 3000000));
    let bad = b"{\"order_id\":".to_vec();
    let good2 = encode_order(&Order::new("67890", OrderType::Sell, 2000, 3100000));
    let mut sink = InboundSink::new();
    let malformed = dispatch_session(&vec![good1, bad, good2], &mut sink);
    assert_eq!(malformed, 1);
    assert_eq!(sink.len(), 2);
    assert_eq!(sink.get(0).order_id, "12345");
    assert_eq!(sink.get(1).order_id, "67890");
}

#[test]
fn single_stream_reports_malformed() {
    let mut sink = InboundSink::new();
    let r = dispatch_stream(&b"nonsense".to_vec(), &mut sink);
    assert_eq!(r.unwrap_err(), TransportError::MalformedMessage);
    assert_eq!(sink.len(), 0);
}

#[test]
fn batch_report_counts_partial_failures() {
    let results: Vec<Result<(), TransportError>> = vec![
        Ok(()),
        Err(TransportError::StreamOpenFailed),
        Ok(()),
        Err(TransportError::WriteFailed),
        Ok(()),
    ];
    let rep = summarize_batch(&results);
    assert_eq!(rep.succeeded, 3);
    assert_eq!(rep.failed, 2);
}

#[test]
fn batch_report_empty() {
    let rep = summarize_batch(&Vec::new());
    assert_eq!(rep.succeeded, 0);
    assert_eq!(rep.failed, 0);
}
