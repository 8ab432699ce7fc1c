//! The flood discovery rules: what a flood response looks like, how its
//! return route is built from the visited-path trace, and how a flood
//! request is extended before fan-out.

use vstd::prelude::*;
use crate::packet::FloodRequest;
use crate::packet::NodeId;
use crate::packet::NodeType;
use crate::packet::Packet;
use crate::packet::PacketType;

verus! {

/// The node identities of a path trace, in visiting order.
pub open spec fn trace_ids(trace: Seq<(NodeId, NodeType)>) -> Seq<NodeId> {
    trace.map_values(|entry: (NodeId, NodeType)| entry.0)
}

/// The return route of a flood response: the visited identities, reversed.
pub open spec fn flood_route(trace: Seq<(NodeId, NodeType)>) -> Seq<NodeId> {
    trace_ids(trace).reverse()
}

/// Reversing a flood response's route reconstructs the exact sequence of
/// visited node identities.
pub proof fn lemma_flood_route_round_trip(trace: Seq<(NodeId, NodeType)>)
    ensures
        flood_route(trace).reverse() == trace_ids(trace),
{
    assert(flood_route(trace).reverse() =~= trace_ids(trace));
}

/// The packet `q` is the flood response for flood `flood_id` that closes
/// the given trace: it carries the full trace, runs along the reversed
/// trace identities, and its cursor already stands past the new originator.
pub open spec fn is_flood_response_packet(
    q: Packet,
    flood_id: u64,
    trace: Seq<(NodeId, NodeType)>,
    session_id: u64,
) -> bool {
    &&& match q.pack_type {
        PacketType::FloodResponse(resp) => resp.flood_id == flood_id && resp.path_trace@ == trace,
        _ => false,
    }
    &&& q.session_id == session_id
    &&& q.routing_header.hop_index == 1
    &&& q.routing_header.hops@ == flood_route(trace)
}

/// The packet `q` carries the flood request onward: same flood and
/// initiator, the given trace, and the incoming routing header and session
/// preserved.
pub open spec fn is_flood_fanout_packet(
    q: Packet,
    request: FloodRequest,
    trace: Seq<(NodeId, NodeType)>,
    header_hops: Seq<NodeId>,
    header_hop_index: usize,
    session_id: u64,
) -> bool {
    &&& match q.pack_type {
        PacketType::FloodRequest(req) => {
            &&& req.flood_id == request.flood_id
            &&& req.initiator_id == request.initiator_id
            &&& req.path_trace@ == trace
        },
        _ => false,
    }
    &&& q.session_id == session_id
    &&& q.routing_header.hop_index == header_hop_index
    &&& q.routing_header.hops@ == header_hops
}

/// Builds the return route of a flood response: the trace identities in
/// reverse visiting order.
pub fn build_flood_route(trace: &Vec<(NodeId, NodeType)>) -> (r: Vec<NodeId>)
    ensures
        r@ == flood_route(trace@),
{
    let mut r: Vec<NodeId> = Vec::new();
    let n = trace.len();
    let mut i: usize = 0;
    while i < n
        invariant
            i <= n,
            n == trace@.len(),
            r@.len() == i,
            forall|j: int| 0 <= j < i ==> r@[j] == trace@[n - 1 - j].0,
        decreases n - i,
    {
        r.push(trace[n - 1 - i].0);
        i = i + 1;
    }
    proof {
        assert(r@ =~= flood_route(trace@));
    }
    r
}

} // verus!
