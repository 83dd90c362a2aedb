//! The stream dispatcher: one stream carries exactly one message, and a
//! failure on one stream never disturbs another.
//!
//! The server side of a session is modelled as the sequence of complete
//! stream payloads it accepted, in arrival order; dispatching delivers the
//! decodable ones to the inbound sink and counts the malformed ones.

use vstd::prelude::*;

use crate::codec::{decode_order, lemma_round_trip, spec_decode, spec_encode};
use crate::errors::TransportError;
use crate::order::wf_order;
use crate::order::OrderModel;
use crate::sink::InboundSink;

verus! {

/// The orders a session delivers: each decodable payload's order, in
/// arrival order; malformed payloads deliver nothing.
pub open spec fn delivered_orders(payloads: Seq<Seq<u8>>) -> Seq<OrderModel>
    decreases payloads.len(),
{
    if payloads.len() == 0 {
        Seq::empty()
    } else {
        delivered_orders(payloads.drop_last()) + (if spec_decode(payloads.last()) is Some {
            seq![spec_decode(payloads.last())->Some_0]
        } else {
            Seq::empty()
        })
    }
}

/// How many payloads of the session were malformed.
pub open spec fn malformed_count(payloads: Seq<Seq<u8>>) -> int
    decreases payloads.len(),
{
    if payloads.len() == 0 {
        0int
    } else {
        malformed_count(payloads.drop_last()) + (if spec_decode(payloads.last()) is None {
            1int
        } else {
            0int
        })
    }
}

/// Handle one inbound stream: decode its payload and deliver the order to
/// the sink. A malformed payload delivers nothing and is only reported.
pub fn dispatch_stream(payload: &Vec<u8>, sink: &mut InboundSink) -> (r: Result<
    (),
    TransportError,
>)
    ensures
        match r {
            Ok(_) => spec_decode(payload@) is Some && final(sink)@ == old(sink)@.push(
                spec_decode(payload@)->Some_0,
            ),
            Err(e) => spec_decode(payload@) is None && e == TransportError::MalformedMessage
                && final(sink)@ == old(sink)@,
        },
{
    match decode_order(payload) {
        Ok(o) => {
            sink.push(o);
            Ok(())
        },
        Err(e) => Err(e),
    }
}

/// Serve a whole session: dispatch every accepted stream in arrival order.
/// Returns how many streams carried malformed payloads; each such stream
/// is isolated and every other stream is still delivered.
pub fn dispatch_session(payloads: &Vec<Vec<u8>>, sink: &mut InboundSink) -> (malformed: usize)
    ensures
        final(sink)@ == old(sink)@ + delivered_orders(payloads.deep_view()),
        malformed == malformed_count(payloads.deep_view()),
{
    let ghost pv = payloads.deep_view();
    let mut bad: usize = 0;
    let mut i: usize = 0;
    while i < payloads.len()
        invariant
            i <= payloads@.len(),
            bad <= i,
            pv == payloads.deep_view(),
            pv.len() == payloads@.len(),
            sink@ == old(sink)@ + delivered_orders(pv.subrange(0, i as int)),
            bad == malformed_count(pv.subrange(0, i as int)),
        decreases payloads@.len() - i,
    {
        let r = dispatch_stream(&payloads[i], sink);
        if r.is_err() {
            bad += 1;
        }
        proof {
            assert(pv.subrange(0, i + 1).drop_last() =~= pv.subrange(0, i as int));
            assert(pv.subrange(0, i + 1).last() == pv[i as int]);
            assert(pv[i as int] == payloads@[i as int]@);
            assert(sink@ == old(sink)@ + delivered_orders(pv.subrange(0, i + 1)));
        }
        i += 1;
    }
    proof {
        assert(pv.subrange(0, pv.len() as int) =~= pv);
    }
    bad
}

/// Law: batch delivery. If the session's streams carried the canonical
/// encodings of well-formed orders — one stream per order, arriving in any
/// order — then exactly those orders are delivered, each exactly once, in
/// the streams' arrival order, and nothing is malformed.
pub proof fn lemma_batch_delivery(payloads: Seq<Seq<u8>>, orders: Seq<OrderModel>)
    requires
        payloads.len() == orders.len(),
        forall|i: int|
            0 <= i < orders.len() ==> wf_order(#[trigger] orders[i]) && payloads[i] == spec_encode(
                orders[i],
            ),
    ensures
        delivered_orders(payloads) == orders,
        malformed_count(payloads) == 0,
    decreases payloads.len(),
{
    if payloads.len() == 0 {
        assert(delivered_orders(payloads) =~= orders);
    } else {
        assert forall|i: int| 0 <= i < orders.drop_last().len() implies wf_order(
            #[trigger] orders.drop_last()[i],
        ) && payloads.drop_last()[i] == spec_encode(orders.drop_last()[i]) by {
            assert(orders.drop_last()[i] == orders[i]);
            assert(payloads.drop_last()[i] == payloads[i]);
        }
        lemma_batch_delivery(payloads.drop_last(), orders.drop_last());
        let last = orders[orders.len() - 1];
        lemma_round_trip(last);
        assert(spec_decode(payloads.last()) == Some(last));
        assert(delivered_orders(payloads) =~= orders);
    }
}

/// Law: stream isolation. A malformed stream delivers nothing and changes
/// nothing: dropping it from the session leaves the delivered orders
/// exactly as they were, so no other stream is affected by it.
pub proof fn lemma_stream_isolation(payloads: Seq<Seq<u8>>, i: int)
    requires
        0 <= i < payloads.len(),
        spec_decode(payloads[i]) is None,
    ensures
        delivered_orders(payloads) == delivered_orders(payloads.remove(i)),
    decreases payloads.len(),
{
    if i == payloads.len() - 1 {
        assert(payloads.remove(i) =~= payloads.drop_last());
    } else {
        lemma_stream_isolation(payloads.drop_last(), i);
        assert(payloads.remove(i).drop_last() =~= payloads.drop_last().remove(i));
        assert(payloads.remove(i).last() == payloads.last());
    }
}

/// Outcome tally of one concurrent client batch: per-order results, never
/// all-or-nothing.
#[derive(Clone, Copy, PartialEq, Eq, Structural, Debug)]
pub struct BatchReport {
    pub succeeded: usize,
    pub failed: usize,
}

/// How many results of a batch are successes.
pub open spec fn ok_count(rs: Seq<Result<(), TransportError>>) -> int
    decreases rs.len(),
{
    if rs.len() == 0 {
        0int
    } else {
        ok_count(rs.drop_last()) + (if rs.last() is Ok {
            1int
        } else {
            0int
        })
    }
}

/// Tally a batch of per-order send results. A failure in one send never
/// hides the outcome of another: successes and failures always add up to
/// the whole batch.
pub fn summarize_batch(results: &Vec<Result<(), TransportError>>) -> (rep: BatchReport)
    ensures
        rep.succeeded == ok_count(results@),
        rep.succeeded + rep.failed == results@.len(),
{
    let mut ok: usize = 0;
    let mut i: usize = 0;
    while i < results.len()
        invariant
            i <= results@.len(),
            ok <= i,
            ok == ok_count(results@.subrange(0, i as int)),
        decreases results@.len() - i,
    {
        if results[i].is_ok() {
            ok += 1;
        }
        proof {
            assert(results@.subrange(0, i + 1).drop_last() =~= results@.subrange(0, i as int));
            assert(results@.subrange(0, i + 1).last() == results@[i as int]);
        }
        i += 1;
    }
    proof {
        assert(results@.subrange(0, results@.len() as int) =~= results@);
        lemma_ok_count_bound(results@);
    }
    BatchReport { succeeded: ok, failed: results.len() - ok }
}

/// A batch never reports more successes than results.
proof fn lemma_ok_count_bound(rs: Seq<Result<(), TransportError>>)
    ensures
        0 <= ok_count(rs) <= rs.len(),
    decreases rs.len(),
{
    if rs.len() > 0 {
        lemma_ok_count_bound(rs.drop_last());
    }
}

} // verus!
