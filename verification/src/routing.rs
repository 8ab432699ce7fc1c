//! The back-routing rules: how the already-traversed part of a routing
//! header is reversed to address a signal to the packet's originator, and
//! what the negative acknowledgments built from it look like.

use vstd::prelude::*;
use crate::packet::Nack;
use crate::packet::NackType;
use crate::packet::NodeId;
use crate::packet::Packet;
use crate::packet::PacketType;

verus! {

/// The return route a node builds from a header it holds: the hops from the
/// start of the path up to and including the node's own first occurrence,
/// reversed; empty when the node does not appear in the path at all.
pub open spec fn route_back(node: NodeId, hops: Seq<NodeId>) -> Seq<NodeId> {
    match hops.index_of_first(node) {
        Some(i) => hops.take(i + 1).reverse(),
        None => Seq::empty(),
    }
}

/// Full characterization of `route_back`: it is nonempty exactly when the
/// node occurs in the path; its last entry is then the path's start, its
/// first entry the node itself, and nothing past its first entry is the
/// node again.
pub proof fn lemma_route_back(node: NodeId, hops: Seq<NodeId>)
    ensures
        hops.contains(node) <==> route_back(node, hops).len() >= 1,
        !hops.contains(node) ==> route_back(node, hops) == Seq::<NodeId>::empty(),
        route_back(node, hops).len() >= 1 ==> ({
            let r = route_back(node, hops);
            let i = r.len() - 1;
            &&& 0 <= i < hops.len()
            &&& hops[i as int] == node
            &&& forall|j: int| 0 <= j < i ==> hops[j] != node
            &&& forall|j: int| 0 <= j < r.len() ==> r[j] == hops[i - j]
            &&& r[0] == node
            &&& forall|j: int| 1 <= j < r.len() ==> r[j] != node
        }),
{
    hops.index_of_first_ensures(node);
    match hops.index_of_first(node) {
        Some(i) => {
            let r = hops.take(i + 1).reverse();
            assert(r.len() == i + 1);
            assert forall|j: int| 0 <= j < r.len() implies r[j] == hops[i - j] by {
                assert(r[j] == hops.take(i + 1)[i + 1 - 1 - j]);
            }
        },
        None => {},
    }
}

/// Reversing a route that itself came out of `route_back` leads nowhere
/// further: the node stands at its head, so the new return route is the
/// node alone.
pub proof fn lemma_route_back_again(node: NodeId, hops: Seq<NodeId>)
    ensures
        route_back(node, hops).len() >= 1 ==> route_back(node, route_back(node, hops)) =~= seq![
            node,
        ],
{
    lemma_route_back(node, hops);
    if route_back(node, hops).len() >= 1 {
        let r = route_back(node, hops);
        assert(r[0] == node);
        r.index_of_first_ensures(node);
        match r.index_of_first(node) {
            Some(i) => {
                assert(i == 0);
                assert(route_back(node, r) == r.take(1).reverse());
                assert(r.take(1).reverse().len() == 1);
                assert(r.take(1).reverse()[0] == r.take(1)[0]);
            },
            None => {
                assert(r.contains(node));
            },
        }
    }
}

/// Termination measure for the chain of back-signals: a failed send may
/// raise a negative acknowledgment, whose own failure reverses an already
/// reversed route, which cannot be reversed any further.
pub open spec fn back_rank(node: NodeId, hops: Seq<NodeId>) -> int {
    if route_back(node, hops).len() >= 2 {
        1
    } else {
        0
    }
}

/// The packet `q` is the negative acknowledgment that `node` sends back for
/// `p`, with the given kind and fragment index: the superseded packet's
/// session, the reversed traversed route, and the cursor past the new
/// originator.
pub open spec fn is_back_nack(q: Packet, p: Packet, node: NodeId, nt: NackType, fi: u64) -> bool {
    &&& q.pack_type == PacketType::Nack(Nack { fragment_index: fi, nack_type: nt })
    &&& q.session_id == p.session_id
    &&& q.routing_header.hop_index == 1
    &&& q.routing_header.hops@ == route_back(node, p.routing_header.hops@)
}

} // verus!
