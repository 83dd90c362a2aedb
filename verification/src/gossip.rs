//! Peer discovery and gossip propagation: the node's decision core.
//!
//! The node advertises itself on the local network, records peers it hears,
//! and floods published messages with deduplication: a message id already
//! seen is neither delivered again nor forwarded again.  The socket work —
//! broadcasting advertisements, carrying signed payloads to peers — is the
//! event loop's job outside the library; it feeds every event into these
//! methods and performs the actions they return.
//!
//! Dedup fingerprints and peer records are kept without eviction here; the
//! caller that owns the node chooses when to retire state (the source left
//! both policies open).

use vstd::prelude::*;

verus! {

broadcast use vstd::seq_lib::lemma_seq_contains_after_push, vstd::prelude::Seq::lemma_push_to_set_commute;

/// Lifecycle phase of the local node.
#[derive(Clone, Copy, PartialEq, Eq, Structural, Debug)]
pub enum GossipPhase {
    /// Not started.
    Idle,
    /// Broadcasting the local identity, no peer heard yet.
    Advertising,
    /// At least one peer known; publishing and forwarding.
    Peering,
    /// Shut down: deregistered, all peer links closed.
    Stopped,
}

/// Mathematical model of the node.
pub ghost struct GossipModel {
    pub local_id: u64,
    pub phase: GossipPhase,
    pub peers: Set<u64>,
    pub seen: Set<u64>,
}

/// The local gossip node: identity, phase, known peers and the dedup
/// fingerprints of messages already seen.
pub struct GossipNode {
    pub local_id: u64,
    pub phase: GossipPhase,
    pub peers: Vec<u64>,
    pub seen: Vec<u64>,
}

impl View for GossipNode {
    type V = GossipModel;

    open spec fn view(&self) -> GossipModel {
        GossipModel {
            local_id: self.local_id,
            phase: self.phase,
            peers: self.peers@.to_set(),
            seen: self.seen@.to_set(),
        }
    }
}

/// Starting moves the node into its advertising phase.
pub open spec fn start_transition(m: GossipModel) -> GossipModel {
    GossipModel { phase: GossipPhase::Advertising, ..m }
}

/// Hearing an advertisement records (or refreshes) the peer; the first
/// peer heard moves an advertising node into its peering phase.  A node's
/// own advertisement changes nothing.
pub open spec fn hear_transition(m: GossipModel, peer_id: u64) -> GossipModel {
    if peer_id == m.local_id {
        m
    } else {
        GossipModel {
            phase: if m.phase is Advertising {
                GossipPhase::Peering
            } else {
                m.phase
            },
            peers: m.peers.insert(peer_id),
            ..m
        }
    }
}

/// A received message is delivered exactly when its id is fresh.
pub open spec fn receive_fresh(m: GossipModel, msg_id: u64) -> bool {
    !m.seen.contains(msg_id)
}

/// Receiving records the message id, whatever else happens.
pub open spec fn receive_transition(m: GossipModel, msg_id: u64) -> GossipModel {
    GossipModel { seen: m.seen.insert(msg_id), ..m }
}

/// Publishing records the own message id, so echoes of it are suppressed.
pub open spec fn publish_transition(m: GossipModel, msg_id: u64) -> GossipModel {
    GossipModel { seen: m.seen.insert(msg_id), ..m }
}

/// Shutdown is terminal: deregister and drop every peer link.
pub open spec fn shutdown_transition(m: GossipModel) -> GossipModel {
    GossipModel { phase: GossipPhase::Stopped, peers: Set::empty(), ..m }
}

/// Structural invariant: no duplicate peer or fingerprint entries, and the
/// node is not its own peer.
pub open spec fn wf_node(n: GossipNode) -> bool {
    &&& n.peers@.no_duplicates()
    &&& n.seen@.no_duplicates()
    &&& !n.peers@.contains(n.local_id)
}

/// What one received message leads to.
pub struct ReceiveOutcome {
    /// Deliver the message to the local inbound sink (first sight only).
    pub deliver: bool,
    /// Forward the message to exactly these peers (everyone but the
    /// sender, first sight only; empty on a duplicate).
    pub forward_to: Vec<u64>,
}

/// Consequences of appending one fresh element to a duplicate-free list.
proof fn lemma_push_fresh(s: Seq<u64>, x: u64)
    ensures
        forall|p: u64| s.push(x).contains(p) <==> (s.contains(p) || p == x),
        s.no_duplicates() && !s.contains(x) ==> s.push(x).no_duplicates(),
{
    assert forall|p: u64| s.push(x).contains(p) <==> (s.contains(p) || p == x) by {
        vstd::seq_lib::lemma_seq_contains_after_push(s, x, p);
    }
    if s.no_duplicates() && !s.contains(x) {
        assert forall|i: int, j: int|
            0 <= i < s.push(x).len() && 0 <= j < s.push(x).len() && i != j implies s.push(x)[i]
            != s.push(x)[j] by {
            if j == s.len() {
                assert(s.contains(s[i]));
            } else if i == s.len() {
                assert(s.contains(s[j]));
            }
        }
    }
}

fn vec_contains(v: &Vec<u64>, x: u64) -> (b: bool)
    ensures
        b == v@.contains(x),
{
    let mut i: usize = 0;
    while i < v.len()
        invariant
            i <= v@.len(),
            forall|k: int| 0 <= k < i ==> v@[k] != x,
        decreases v@.len() - i,
    {
        if v[i] == x {
            return true;
        }
        i += 1;
    }
    false
}

impl GossipNode {
    /// A fresh node: knows nobody, has seen nothing.
    pub fn new(local_id: u64) -> (n: GossipNode)
        ensures
            wf_node(n),
            n@ == (GossipModel {
                local_id,
                phase: GossipPhase::Idle,
                peers: Set::<u64>::empty(),
                seen: Set::<u64>::empty(),
            }),
    {
        let n = GossipNode { local_id, phase: GossipPhase::Idle, peers: Vec::new(), seen: Vec::new() };
        proof {
            assert(n.peers@.to_set() =~= Set::<u64>::empty());
            assert(n.seen@.to_set() =~= Set::<u64>::empty());
        }
        n
    }

    /// Start the node: it begins advertising its identity.
    pub fn start(&mut self)
        requires
            wf_node(*old(self)),
        ensures
            wf_node(*final(self)),
            final(self)@ == start_transition(old(self)@),
    {
        self.phase = GossipPhase::Advertising;
    }

    /// An advertisement was heard on the local network.
    pub fn on_advertisement(&mut self, peer_id: u64)
        requires
            wf_node(*old(self)),
        ensures
            wf_node(*final(self)),
            final(self)@ == hear_transition(old(self)@, peer_id),
    {
        if peer_id == self.local_id {
            return;
        }
        if !vec_contains(&self.peers, peer_id) {
            self.peers.push(peer_id);
            proof {
                assert(self.peers@.drop_last() =~= old(self).peers@);
                assert(self.peers@.to_set() =~= old(self).peers@.to_set().insert(peer_id));
            }
        } else {
            proof {
                assert(self.peers@.to_set() =~= old(self).peers@.to_set().insert(peer_id));
            }
        }
        if matches!(self.phase, GossipPhase::Advertising) {
            self.phase = GossipPhase::Peering;
        }
    }

    /// A gossip message arrived from `from`. Decide delivery and fan-out:
    /// a fresh id is delivered once and forwarded to every known peer but
    /// the sender; a duplicate id is neither delivered nor forwarded.
    pub fn on_receive(&mut self, msg_id: u64, from: u64) -> (r: ReceiveOutcome)
        requires
            wf_node(*old(self)),
        ensures
            wf_node(*final(self)),
            final(self)@ == receive_transition(old(self)@, msg_id),
            r.deliver == receive_fresh(old(self)@, msg_id),
            r.deliver ==> r.forward_to@.no_duplicates() && forall|p: u64|
                r.forward_to@.contains(p) <==> (old(self)@.peers.contains(p) && p != from),
            !r.deliver ==> r.forward_to@.len() == 0,
    {
        let fresh = !vec_contains(&self.seen, msg_id);
        if !fresh {
            proof {
                assert(self.seen@.to_set() =~= old(self).seen@.to_set().insert(msg_id));
            }
            return ReceiveOutcome { deliver: false, forward_to: Vec::new() };
        }
        self.seen.push(msg_id);
        proof {
            assert(self.seen@.drop_last() =~= old(self).seen@);
            assert(self.seen@.to_set() =~= old(self).seen@.to_set().insert(msg_id));
        }
        let forward_to = self.peers_except(from);
        ReceiveOutcome { deliver: true, forward_to }
    }

    /// The application publishes a message: its id is recorded, and it
    /// goes to every known peer.
    pub fn on_publish(&mut self, msg_id: u64) -> (targets: Vec<u64>)
        requires
            wf_node(*old(self)),
        ensures
            wf_node(*final(self)),
            final(self)@ == publish_transition(old(self)@, msg_id),
            targets@.no_duplicates(),
            forall|p: u64| targets@.contains(p) <==> old(self)@.peers.contains(p),
    {
        if !vec_contains(&self.seen, msg_id) {
            self.seen.push(msg_id);
            proof {
                assert(self.seen@.drop_last() =~= old(self).seen@);
                assert(self.seen@.to_set() =~= old(self).seen@.to_set().insert(msg_id));
            }
        } else {
            proof {
                assert(self.seen@.to_set() =~= old(self).seen@.to_set().insert(msg_id));
            }
        }
        let mut targets: Vec<u64> = Vec::new();
        let mut i: usize = 0;
        while i < self.peers.len()
            invariant
                i <= self.peers@.len(),
                self.peers@.no_duplicates(),
                targets@.no_duplicates(),
                forall|p: u64|
                    targets@.contains(p) <==> self.peers@.subrange(0, i as int).contains(p),
            decreases self.peers@.len() - i,
        {
            let ghost prev = targets@;
            let ghost sub = self.peers@.subrange(0, i as int);
            proof {
                assert(!sub.contains(self.peers@[i as int]));
            }
            targets.push(self.peers[i]);
            proof {
                lemma_push_fresh(prev, self.peers@[i as int]);
                lemma_push_fresh(sub, self.peers@[i as int]);
                assert(self.peers@.subrange(0, i + 1) =~= sub.push(self.peers@[i as int]));
            }
            i += 1;
        }
        proof {
            assert(self.peers@.subrange(0, self.peers@.len() as int) =~= self.peers@);
        }
        targets
    }

    /// Shut the node down: deregister and close all peer links.
    pub fn shutdown(&mut self)
        requires
            wf_node(*old(self)),
        ensures
            wf_node(*final(self)),
            final(self)@ == shutdown_transition(old(self)@),
    {
        self.phase = GossipPhase::Stopped;
        self.peers = Vec::new();
        proof {
            assert(self.peers@.to_set() =~= Set::<u64>::empty());
        }
    }

    /// Every known peer except `excluded`, each once.
    fn peers_except(&self, excluded: u64) -> (r: Vec<u64>)
        requires
            wf_node(*self),
        ensures
            r@.no_duplicates(),
            forall|p: u64| r@.contains(p) <==> (self@.peers.contains(p) && p != excluded),
    {
        let mut r: Vec<u64> = Vec::new();
        let mut i: usize = 0;
        while i < self.peers.len()
            invariant
                i <= self.peers@.len(),
                self.peers@.no_duplicates(),
                r@.no_duplicates(),
                forall|p: u64|
                    r@.contains(p) <==> (self.peers@.subrange(0, i as int).contains(p) && p
                        != excluded),
            decreases self.peers@.len() - i,
        {
            let ghost prev = r@;
            let ghost sub = self.peers@.subrange(0, i as int);
            if self.peers[i] != excluded {
                proof {
                    assert(!sub.contains(self.peers@[i as int]));
                    assert(!prev.contains(self.peers@[i as int]));
                }
                r.push(self.peers[i]);
                proof {
                    lemma_push_fresh(prev, self.peers@[i as int]);
                }
            }
            proof {
                lemma_push_fresh(sub, self.peers@[i as int]);
                assert(self.peers@.subrange(0, i + 1) =~= sub.push(self.peers@[i as int]));
            }
            i += 1;
        }
        proof {
            assert(self.peers@.subrange(0, self.peers@.len() as int) =~= self.peers@);
        }
        r
    }
}

/// Law: gossip dedup. Once a message id has been seen — received from any
/// peer, or published locally — a later arrival of the same id, from the
/// same or any other peer, is not delivered again.
pub proof fn lemma_gossip_dedup(m: GossipModel, msg_id: u64)
    ensures
        !receive_fresh(receive_transition(m, msg_id), msg_id),
        !receive_fresh(publish_transition(m, msg_id), msg_id),
{
}

/// Law: a seen fingerprint is permanent. No event of the node forgets a
/// message id, so a message delivered once is never delivered again,
/// however many events lie in between.
pub proof fn lemma_seen_is_permanent(m: GossipModel, msg_id: u64, peer_id: u64, other_id: u64)
    requires
        m.seen.contains(msg_id),
    ensures
        start_transition(m).seen.contains(msg_id),
        hear_transition(m, peer_id).seen.contains(msg_id),
        receive_transition(m, other_id).seen.contains(msg_id),
        publish_transition(m, other_id).seen.contains(msg_id),
        shutdown_transition(m).seen.contains(msg_id),
{
}

/// Law: discovery. Hearing another node's advertisement makes it a known
/// peer, and it stays known across later message traffic, so a subsequent
/// publish targets it.
pub proof fn lemma_discovery(m: GossipModel, peer_id: u64, msg_id: u64)
    requires
        peer_id != m.local_id,
    ensures
        hear_transition(m, peer_id).peers.contains(peer_id),
        receive_transition(hear_transition(m, peer_id), msg_id).peers.contains(peer_id),
{
}

} // verus!
