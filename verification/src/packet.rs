//! The packet vocabulary of the overlay network: routing headers, the five
//! packet variants, controller commands and controller events.
//!
//! All fields are plain values, so contracts can speak about packets
//! directly.  Because several types carry a `Vec`, spec-level comparison of
//! packets goes through the `*_matches` predicates below, which compare
//! views field by field.

use vstd::prelude::*;

verus! {

/// Identity of a node in the overlay, as carried inside routing headers.
pub type NodeId = u8;

/// The role a node reported for itself inside a flood path trace.
#[derive(Clone, Copy, Debug, PartialEq, Eq, Structural)]
pub enum NodeType {
    Client,
    Drone,
    Server,
}

/// A positive acknowledgment for one data fragment.
#[derive(Clone, Copy, Debug, PartialEq, Eq, Structural)]
pub struct Ack {
    pub fragment_index: u64,
}

/// The reason a negative acknowledgment was produced.
#[derive(Clone, Copy, Debug, PartialEq, Eq, Structural)]
pub enum NackType {
    /// The resolved next hop was not reachable from the signalling node.
    ErrorInRouting(NodeId),
    /// The route ended at a relay instead of an end host.
    DestinationIsDrone,
    /// The fragment fell to the simulated packet loss.
    Dropped,
    /// The packet reached a node the header did not name as current hop.
    UnexpectedRecipient(NodeId),
}

/// A negative acknowledgment for one data fragment (index 0 when the
/// superseded packet was not a fragment).
#[derive(Clone, Copy, Debug, PartialEq, Eq, Structural)]
pub struct Nack {
    pub fragment_index: u64,
    pub nack_type: NackType,
}

/// One opaque data block of a fragmented message.
#[derive(Clone, Copy, Debug, PartialEq, Eq)]
pub struct Fragment {
    pub fragment_index: u64,
    pub total_n_fragments: u64,
    pub length: u8,
    pub data: [u8; 128],
}

/// The full path a packet must follow, plus the cursor naming the entry the
/// current holder is expected to match.
#[derive(Clone, Debug, PartialEq, Eq)]
pub struct SourceRoutingHeader {
    pub hop_index: usize,
    pub hops: Vec<NodeId>,
}

/// A flood discovery request, accumulating the trace of visited nodes.
#[derive(Clone, Debug, PartialEq, Eq)]
pub struct FloodRequest {
    pub flood_id: u64,
    pub initiator_id: NodeId,
    pub path_trace: Vec<(NodeId, NodeType)>,
}

/// The answer to a flood discovery request, carrying the completed trace.
#[derive(Clone, Debug, PartialEq, Eq)]
pub struct FloodResponse {
    pub flood_id: u64,
    pub path_trace: Vec<(NodeId, NodeType)>,
}

/// The five packet variants of the overlay.
#[derive(Clone, Debug, PartialEq, Eq)]
pub enum PacketType {
    MsgFragment(Fragment),
    Ack(Ack),
    Nack(Nack),
    FloodRequest(FloodRequest),
    FloodResponse(FloodResponse),
}

/// One packet on the wire: typed payload, routing header, session.
#[derive(Clone, Debug, PartialEq, Eq)]
pub struct Packet {
    pub pack_type: PacketType,
    pub routing_header: SourceRoutingHeader,
    pub session_id: u64,
}

/// An administrative command from the supervising controller.
pub enum DroneCommand {
    AddSender(NodeId, crossbeam_channel::Sender<Packet>),
    SetPacketDropRate(u32),
    RemoveSender(NodeId),
    Crash,
}

/// An event reported to the supervising controller.
#[derive(Clone, Debug, PartialEq, Eq)]
pub enum DroneEvent {
    PacketSent(Packet),
    PacketDropped(Packet),
    ControllerShortcut(Packet),
}

/// The two payloads hold the same fragment data.
pub open spec fn fragments_match(a: Fragment, b: Fragment) -> bool {
    &&& a.fragment_index == b.fragment_index
    &&& a.total_n_fragments == b.total_n_fragments
    &&& a.length == b.length
    &&& a.data@ == b.data@
}

/// The two flood requests describe the same flood and the same trace.
pub open spec fn flood_requests_match(a: FloodRequest, b: FloodRequest) -> bool {
    &&& a.flood_id == b.flood_id
    &&& a.initiator_id == b.initiator_id
    &&& a.path_trace@ == b.path_trace@
}

/// The two flood responses describe the same flood and the same trace.
pub open spec fn flood_responses_match(a: FloodResponse, b: FloodResponse) -> bool {
    &&& a.flood_id == b.flood_id
    &&& a.path_trace@ == b.path_trace@
}

/// The two payloads are the same variant with equal contents.
pub open spec fn pack_types_match(a: PacketType, b: PacketType) -> bool {
    match (a, b) {
        (PacketType::MsgFragment(x), PacketType::MsgFragment(y)) => fragments_match(x, y),
        (PacketType::Ack(x), PacketType::Ack(y)) => x == y,
        (PacketType::Nack(x), PacketType::Nack(y)) => x == y,
        (PacketType::FloodRequest(x), PacketType::FloodRequest(y)) => flood_requests_match(x, y),
        (PacketType::FloodResponse(x), PacketType::FloodResponse(y)) => flood_responses_match(
            x,
            y,
        ),
        _ => false,
    }
}

/// The two headers name the same path and the same cursor.
pub open spec fn headers_match(a: SourceRoutingHeader, b: SourceRoutingHeader) -> bool {
    &&& a.hop_index == b.hop_index
    &&& a.hops@ == b.hops@
}

/// The two packets carry equal payload, header and session.
pub open spec fn packets_match(a: Packet, b: Packet) -> bool {
    &&& pack_types_match(a.pack_type, b.pack_type)
    &&& headers_match(a.routing_header, b.routing_header)
    &&& a.session_id == b.session_id
}

/// Matching of packets is transitive.
pub proof fn lemma_packets_match_trans(a: Packet, b: Packet, c: Packet)
    requires
        packets_match(a, b),
        packets_match(b, c),
    ensures
        packets_match(a, c),
{
}

/// Copies a route, entry for entry.
pub fn copy_hops(v: &Vec<NodeId>) -> (r: Vec<NodeId>)
    ensures
        r@ == v@,
{
    let mut r: Vec<NodeId> = Vec::new();
    let mut i: usize = 0;
    while i < v.len()
        invariant
            i <= v.len(),
            r@ == v@.take(i as int),
        decreases v.len() - i,
    {
        r.push(v[i]);
        i = i + 1;
        proof {
            assert(r@ =~= v@.take(i as int));
        }
    }
    proof {
        assert(r@ =~= v@);
    }
    r
}

/// Copies a flood path trace, entry for entry.
pub fn copy_trace(v: &Vec<(NodeId, NodeType)>) -> (r: Vec<(NodeId, NodeType)>)
    ensures
        r@ == v@,
{
    let mut r: Vec<(NodeId, NodeType)> = Vec::new();
    let mut i: usize = 0;
    while i < v.len()
        invariant
            i <= v.len(),
            r@ == v@.take(i as int),
        decreases v.len() - i,
    {
        r.push(v[i]);
        i = i + 1;
        proof {
            assert(r@ =~= v@.take(i as int));
        }
    }
    proof {
        assert(r@ =~= v@);
    }
    r
}

impl PacketType {
    /// Rebuilds the payload as an equal value.
    pub fn duplicate(&self) -> (r: PacketType)
        ensures
            pack_types_match(r, *self),
    {
        match self {
            PacketType::MsgFragment(f) => PacketType::MsgFragment(*f),
            PacketType::Ack(a) => PacketType::Ack(*a),
            PacketType::Nack(n) => PacketType::Nack(*n),
            PacketType::FloodRequest(req) => PacketType::FloodRequest(
                FloodRequest {
                    flood_id: req.flood_id,
                    initiator_id: req.initiator_id,
                    path_trace: copy_trace(&req.path_trace),
                },
            ),
            PacketType::FloodResponse(resp) => PacketType::FloodResponse(
                FloodResponse { flood_id: resp.flood_id, path_trace: copy_trace(&resp.path_trace) },
            ),
        }
    }
}

impl Packet {
    /// Rebuilds the packet as an equal value.
    pub fn duplicate(&self) -> (r: Packet)
        ensures
            packets_match(r, *self),
    {
        Packet {
            pack_type: self.pack_type.duplicate(),
            routing_header: SourceRoutingHeader {
                hop_index: self.routing_header.hop_index,
                hops: copy_hops(&self.routing_header.hops),
            },
            session_id: self.session_id,
        }
    }
}

} // verus!
