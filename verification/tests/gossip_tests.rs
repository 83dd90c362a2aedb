use ordercast::gossip::{GossipNode, GossipPhase};

#[test]
fn gossip_dedup_two_peers() {
    let mut node = GossipNode::new(1);
    node.start();
    node.on_advertisement(2);
    node.on_advertisement(3);

    // first arrival of message 42, from peer 2: delivered, forwarded to 3
    let first = node.on_receive(42, 2);
    assert!(first.deliver);
    assert_eq!(first.forward_to, vec![3]);

    // same id again, now from peer 3: neither delivered nor forwarded
    let second = node.on_receive(42, 3);
    assert!(!second.deliver);
    assert!(second.forward_to.is_empty());
}

#[test]
fn publish_suppresses_own_echo() {
    let mut node = GossipNode::new(1);
    node.start();
    node.on_advertisement(2);
    let targets = node.on_publish(7);
    assert_eq!(targets, vec![2]);
    // the published id echoed back is not delivered again
    let echo = node.on_receive(7, 2);
    assert!(!echo.deliver);
}

#[test]
fn discovery_enables_exchange() {
    // a node started later hears the earlier node's advertisement ...
    let mut late = GossipNode::new(9);
    late.start();
    assert!(matches!(late.phase, GossipPhase::Advertising));
    late.on_advertisement(4);
    assert!(matches!(late.phase, GossipPhase::Peering));
    // ... and can exchange a published message with it
    let targets = late.on_publish(100);
    assert!(targets.contains(&4));
}

#[test]
fn refresh_does_not_duplicate_peer() {
    let mut node = GossipNode::new(1);
    node.start();
    node.on_advertisement(5);
    node.on_advertisement(5);
    let targets = node.on_publish(8);
    assert_eq!(targets, vec![5]);
}

#[test]
fn own_advertisement_is_ignored() {
    let mut node = GossipNode::new(1);
    node.start();
    node.on_advertisement(1);
    assert!(matches!(node.phase, GossipPhase::Advertising));
    assert!(node.on_publish(3).is_empty());
}

#[test]
fn shutdown_closes_peer_links() {
    let mut node = GossipNode::new(1);
    node.start();
    node.on_advertisement(2);
    node.shutdown();
    assert!(matches!(node.phase, GossipPhase::Stopped));
    assert!(node.on_publish(9).is_empty());
}
