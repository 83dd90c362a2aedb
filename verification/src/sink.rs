//! The inbound sink: an unbounded in-process queue through which decoded
//! orders reach the application boundary, in arrival order.

use vstd::prelude::*;

use crate::order::{Order, OrderModel};

verus! {

/// Queue of decoded orders awaiting the application's single consumer.
/// Unbounded by design; overflow policy is the application's concern.
pub struct InboundSink {
    pub items: Vec<Order>,
}

impl View for InboundSink {
    type V = Seq<OrderModel>;

    open spec fn view(&self) -> Seq<OrderModel> {
        Seq::new(self.items@.len(), |i: int| self.items@[i]@)
    }
}

impl InboundSink {
    pub fn new() -> (s: Self)
        ensures
            s@ == Seq::<OrderModel>::empty(),
    {
        let s = InboundSink { items: Vec::new() };
        proof {
            assert(s@ =~= Seq::<OrderModel>::empty());
        }
        s
    }

    /// Deliver one decoded order; everything already queued stays put.
    pub fn push(&mut self, o: Order)
        ensures
            final(self)@ == old(self)@.push(o@),
    {
        self.items.push(o);
        proof {
            assert(self@ =~= old(self)@.push(o@));
        }
    }

    pub fn len(&self) -> (n: usize)
        ensures
            n == self@.len(),
    {
        self.items.len()
    }

    pub fn get(&self, i: usize) -> (o: &Order)
        requires
            i < self@.len(),
        ensures
            o@ == self@[i as int],
    {
        &self.items[i]
    }
}

} // verus!
