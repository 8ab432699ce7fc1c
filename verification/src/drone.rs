//! The relay node itself: its state, its administrative command handling,
//! and its packet forwarding, back-routing and flood discovery engines.
//!
//! Every message the node hands to a channel — a packet to a neighbor, an
//! event to the supervising controller — is recorded in a ghost emission
//! log, so the contracts can say not only how the node's state evolves but
//! also what it put on the wire and in which order.

use vstd::prelude::*;
use vstd::std_specs::iter::IteratorSpec;
use vstd::std_specs::iter::VerusForLoopWrapper;
use std::collections::HashMap;
use std::collections::HashSet;
use crate::channel::channel_send;
use crate::flood::build_flood_route;
use crate::flood::is_flood_fanout_packet;
use crate::flood::is_flood_response_packet;
use crate::packet::DroneCommand;
use crate::packet::DroneEvent;
use crate::packet::FloodRequest;
use crate::packet::FloodResponse;
use crate::packet::NodeType;
use crate::packet::Nack;
use crate::packet::NackType;
use crate::packet::NodeId;
use crate::packet::Packet;
use crate::packet::PacketType;
use crate::packet::SourceRoutingHeader;
use crate::packet::pack_types_match;
use crate::packet::packets_match;
use crate::rng::PDR_UNIT;
use crate::rng::draw_loss_lot;
use crate::routing::back_rank;
use crate::routing::is_back_nack;
use crate::routing::lemma_route_back;
use crate::routing::lemma_route_back_again;
use crate::routing::route_back;

verus! {

broadcast use vstd::std_specs::hash::group_hash_axioms;

/// Mathematical state of a relay node: identity, drop rate in millionths,
/// reachable neighbors, flood identifiers already processed, crash flag.
#[verifier::ext_equal]
pub struct DroneModel {
    pub id: NodeId,
    pub pdr: u32,
    pub neighbors: Map<NodeId, crossbeam_channel::Sender<Packet>>,
    pub floods: Set<u64>,
    pub crashed: bool,
}

/// One message the node handed to a channel.
pub enum Emission {
    /// A packet handed to the channel of neighbor `target`.
    Handoff { target: NodeId, packet: Packet },
    /// An event handed to the supervising controller's channel.
    Notice { event: DroneEvent },
}

/// The emission reports packet `p` as sent.
pub open spec fn is_sent_notice_of(e: Emission, p: Packet) -> bool {
    match e {
        Emission::Notice { event: DroneEvent::PacketSent(q) } => packets_match(q, p),
        _ => false,
    }
}

/// The emission reports packet `p` as dropped.
pub open spec fn is_dropped_notice_of(e: Emission, p: Packet) -> bool {
    match e {
        Emission::Notice { event: DroneEvent::PacketDropped(q) } => packets_match(q, p),
        _ => false,
    }
}

/// The emission escalates packet `p` to the controller for out-of-band
/// delivery.
pub open spec fn is_shortcut_notice_of(e: Emission, p: Packet) -> bool {
    match e {
        Emission::Notice { event: DroneEvent::ControllerShortcut(q) } => packets_match(q, p),
        _ => false,
    }
}

/// The stored drop rate after clamping a requested one.
pub open spec fn clamped_rate(pdr: u32) -> u32 {
    if pdr > PDR_UNIT {
        PDR_UNIT
    } else {
        pdr
    }
}

/// Every packet handed to a neighbor inside `t` is a negative
/// acknowledgment; controller notices are unconstrained.
pub open spec fn only_nack_handoffs(t: Seq<Emission>) -> bool {
    forall|i: int|
        0 <= i < t.len() ==> match #[trigger] t[i] {
            Emission::Handoff { target: _, packet: q } => q.pack_type is Nack,
            Emission::Notice { event: _ } => true,
        }
}

/// The packet `q` is the signal that `node` built to travel back along the
/// reversed traversed route of `p`, with payload `ack`.
pub open spec fn is_built_signal(q: Packet, p: Packet, ack: PacketType, node: NodeId) -> bool {
    &&& pack_types_match(q.pack_type, ack)
    &&& q.session_id == p.session_id
    &&& q.routing_header.hop_index == 1
    &&& q.routing_header.hops@ == route_back(node, p.routing_header.hops@)
}

/// What raising a negative acknowledgment for `p` appends to the emission
/// log of a node in state `m`: the acknowledgment of kind `nt` is handed to
/// the previous hop of the reversed route where one is reachable, and
/// otherwise the controller is told to deliver `p` out of band.
pub open spec fn nack_signal_trace(
    t: Seq<Emission>,
    p: Packet,
    m: DroneModel,
    nt: NackType,
    fi: u64,
) -> bool {
    let route = route_back(m.id, p.routing_header.hops@);
    &&& only_nack_handoffs(t)
    &&& (route.len() < 2 ==> t.len() == 1 && is_shortcut_notice_of(t[0], p))
    &&& (route.len() >= 2 && !m.neighbors.contains_key(route[1]) ==> t.len() == 2 && !(t[0]
        is Handoff) && is_shortcut_notice_of(t[1], p))
    &&& (route.len() >= 2 && m.neighbors.contains_key(route[1]) ==> {
        &&& t.len() >= 2
        &&& (exists|q: Packet|
            is_back_nack(q, p, m.id, nt, fi) && t[0] == (Emission::Handoff {
                target: route[1],
                packet: q,
            }))
        &&& ((t.len() == 2 && (exists|q: Packet|
            is_back_nack(q, p, m.id, nt, fi) && is_sent_notice_of(t[1], q))) || (t.len() == 4
            && is_shortcut_notice_of(t[3], p)))
    })
}

/// A raised negative acknowledgment is never silent: its trace either
/// hands a packet to the previous hop of the reversed route, or tells the
/// controller to deliver the superseded packet out of band.
pub proof fn lemma_failure_is_signalled(
    t: Seq<Emission>,
    p: Packet,
    m: DroneModel,
    nt: NackType,
    fi: u64,
)
    requires
        nack_signal_trace(t, p, m, nt, fi),
    ensures
        (exists|i: int|
            0 <= i < t.len() && is_handoff_to(
                #[trigger] t[i],
                route_back(m.id, p.routing_header.hops@)[1],
            )) || (exists|i: int| 0 <= i < t.len() && is_shortcut_notice_of(#[trigger] t[i], p)),
{
    let route = route_back(m.id, p.routing_header.hops@);
    if route.len() < 2 {
        assert(is_shortcut_notice_of(t[0], p));
    } else if !m.neighbors.contains_key(route[1]) {
        assert(is_shortcut_notice_of(t[1], p));
    } else {
        let q0 = choose|q: Packet|
            is_back_nack(q, p, m.id, nt, fi) && t[0] == (Emission::Handoff {
                target: route[1],
                packet: q,
            });
        assert(is_handoff_to(t[0], route[1]));
    }
}

/// The packet `q` is `p` advanced one hop: same payload, path and
/// session, cursor one further.
pub open spec fn is_advance_of(q: Packet, p: Packet) -> bool {
    &&& pack_types_match(q.pack_type, p.pack_type)
    &&& q.session_id == p.session_id
    &&& q.routing_header.hops@ == p.routing_header.hops@
    &&& q.routing_header.hop_index == p.routing_header.hop_index + 1
}

/// What forwarding `p` appends to the emission log of a node in state `m`:
/// a header naming someone else or ending here raises the matching
/// negative acknowledgment; otherwise the packet, advanced by one hop, is
/// handed to the next neighbor or dropped by the simulated loss.
pub open spec fn forward_trace(t: Seq<Emission>, p: Packet, m: DroneModel, skip: bool, fi: u64) -> bool {
    let hops = p.routing_header.hops@;
    let cursor = p.routing_header.hop_index as int;
    &&& (hops[cursor] != m.id ==> nack_signal_trace(
        t,
        p,
        m,
        NackType::UnexpectedRecipient(m.id),
        fi,
    ))
    &&& (hops[cursor] == m.id && cursor + 1 >= hops.len() ==> nack_signal_trace(
        t,
        p,
        m,
        NackType::DestinationIsDrone,
        fi,
    ))
    &&& (hops[cursor] == m.id && cursor + 1 < hops.len() ==> ({
        let next = hops[cursor + 1];
        &&& (!m.neighbors.contains_key(next) ==> (exists|np: Packet|
            is_advance_of(np, p) && nack_signal_trace(
                t,
                np,
                m,
                NackType::ErrorInRouting(next),
                fi,
            )))
        &&& (m.neighbors.contains_key(next) ==> {
            &&& t.len() >= 1
            &&& ((skip || m.pdr == 0) ==> (exists|np: Packet|
                is_advance_of(np, p) && t[0] == (Emission::Handoff { target: next, packet: np })))
            &&& ((!skip && m.pdr >= PDR_UNIT) ==> (exists|np: Packet|
                is_advance_of(np, p) && is_dropped_notice_of(t[0], np) && nack_signal_trace(
                    t.skip(1),
                    np,
                    m,
                    NackType::Dropped,
                    fi,
                )) && only_nack_handoffs(t))
        })
    }))
}

/// The emission hands a packet to neighbor `n`, whatever the packet.
pub open spec fn is_handoff_to(e: Emission, n: NodeId) -> bool {
    match e {
        Emission::Handoff { target, packet: _ } => target == n,
        Emission::Notice { event: _ } => false,
    }
}

/// The neighbor an emission hands a packet to; meaningless for controller
/// notices.
pub open spec fn handoff_target(e: Emission) -> NodeId {
    match e {
        Emission::Handoff { target, packet: _ } => target,
        Emission::Notice { event: _ } => 0,
    }
}

/// What handling flood request `request` does to a node in state `pre`:
/// a duplicate at a live node answers the immediate predecessor with a
/// flood response closing the extended trace, and nothing else; a first
/// sighting records the flood and fans the request — its trace extended by
/// this node unless it crashed — out to every neighbor but the
/// predecessor, each exactly once.
pub open spec fn flood_discovery_trace(
    t: Seq<Emission>,
    request: FloodRequest,
    session_id: u64,
    header: SourceRoutingHeader,
    pre: DroneModel,
    post: DroneModel,
) -> bool {
    let prev = request.path_trace@.last().0;
    let marked = request.path_trace@.push((pre.id, NodeType::Drone));
    &&& (pre.floods.contains(request.flood_id) && !pre.crashed ==> {
        &&& post == pre
        &&& (pre.neighbors.contains_key(prev) ==> t.len() == 1 && is_handoff_to(t[0], prev)
            && (match t[0] {
            Emission::Handoff { target: _, packet: q } => is_flood_response_packet(
                q,
                request.flood_id,
                marked,
                session_id,
            ),
            Emission::Notice { event: _ } => false,
        }))
        &&& (!pre.neighbors.contains_key(prev) ==> t.len() == 0)
    })
    &&& (!(pre.floods.contains(request.flood_id) && !pre.crashed) ==> ({
        let fwd_trace = if !pre.crashed {
            marked
        } else {
            request.path_trace@
        };
        &&& post == (DroneModel { floods: pre.floods.insert(request.flood_id), ..pre })
        &&& (forall|i: int|
            0 <= i < t.len() ==> match #[trigger] t[i] {
                Emission::Handoff { target, packet: q } => {
                    &&& target != prev
                    &&& pre.neighbors.contains_key(target)
                    &&& is_flood_fanout_packet(
                        q,
                        request,
                        fwd_trace,
                        header.hops@,
                        header.hop_index,
                        session_id,
                    )
                },
                Emission::Notice { event: _ } => false,
            })
        &&& (forall|n: NodeId|
            #[trigger] pre.neighbors.contains_key(n) && n != prev ==> exists|i: int|
                0 <= i < t.len() && is_handoff_to(#[trigger] t[i], n))
        &&& (forall|i: int, j: int|
            0 <= i < j < t.len() ==> handoff_target(#[trigger] t[i]) != handoff_target(
                #[trigger] t[j],
            ))
    }))
}

/// Splits what two nested calls appended to the log: the whole suffix past
/// `pre` is what was there at the intermediate point `mid` plus what came
/// after it.
pub proof fn lemma_log_split(pre: Seq<Emission>, mid: Seq<Emission>, post: Seq<Emission>)
    requires
        pre.is_prefix_of(mid),
        mid.is_prefix_of(post),
    ensures
        pre.is_prefix_of(post),
        post.skip(pre.len() as int) =~= mid.skip(pre.len() as int) + post.skip(mid.len() as int),
{
    assert(post.skip(pre.len() as int) =~= mid.skip(pre.len() as int) + post.skip(
        mid.len() as int,
    ));
}

/// A negative-acknowledgment trace raised for one packet is a trace for
/// any matching packet: the predicate reads only the packet's views.
pub proof fn lemma_nack_trace_same_packet(
    t: Seq<Emission>,
    a: Packet,
    b: Packet,
    m: DroneModel,
    nt: NackType,
    fi: u64,
)
    requires
        packets_match(a, b),
        nack_signal_trace(t, a, m, nt, fi),
    ensures
        nack_signal_trace(t, b, m, nt, fi),
{
    let route = route_back(m.id, a.routing_header.hops@);
    assert(route_back(m.id, b.routing_header.hops@) == route);
    if route.len() < 2 {
        assert(is_shortcut_notice_of(t[0], a));
        match t[0] {
            Emission::Notice { event: DroneEvent::ControllerShortcut(q) } => {
                crate::packet::lemma_packets_match_trans(q, a, b);
            },
            _ => {},
        }
    } else if !m.neighbors.contains_key(route[1]) {
        match t[1] {
            Emission::Notice { event: DroneEvent::ControllerShortcut(q) } => {
                crate::packet::lemma_packets_match_trans(q, a, b);
            },
            _ => {},
        }
    } else {
        let q0 = choose|q: Packet|
            is_back_nack(q, a, m.id, nt, fi) && t[0] == (Emission::Handoff {
                target: route[1],
                packet: q,
            });
        assert(is_back_nack(q0, b, m.id, nt, fi));
        if t.len() == 2 && (exists|q: Packet|
            is_back_nack(q, a, m.id, nt, fi) && is_sent_notice_of(t[1], q)) {
            let q1 = choose|q: Packet|
                is_back_nack(q, a, m.id, nt, fi) && is_sent_notice_of(t[1], q);
            assert(is_back_nack(q1, b, m.id, nt, fi));
        } else {
            match t[3] {
                Emission::Notice { event: DroneEvent::ControllerShortcut(q) } => {
                    crate::packet::lemma_packets_match_trans(q, a, b);
                },
                _ => {},
            }
        }
    }
}

/// A source-routed relay node for a lossy overlay network.
///
/// The node owns its two inbound endpoints — administrative commands and
/// packets — so they stay connected for its lifetime; the loop that waits
/// on them lives with the embedder, which hands each received value to
/// `handle_command` or `handle_packet`.
pub struct RustafarianDrone {
    id: NodeId,
    controller_send: crossbeam_channel::Sender<DroneEvent>,
    controller_recv: crossbeam_channel::Receiver<DroneCommand>,
    packet_recv: crossbeam_channel::Receiver<Packet>,
    pdr: u32,
    neighbors: HashMap<NodeId, crossbeam_channel::Sender<Packet>>,
    flood_requests: HashSet<u64>,
    crashed: bool,
    emissions: Ghost<Seq<Emission>>,
}

impl View for RustafarianDrone {
    type V = DroneModel;

    closed spec fn view(&self) -> DroneModel {
        DroneModel {
            id: self.id,
            pdr: self.pdr,
            neighbors: self.neighbors@,
            floods: self.flood_requests@,
            crashed: self.crashed,
        }
    }
}

impl RustafarianDrone {
    /// Everything the node handed to a channel so far, oldest first.
    pub closed spec fn log(&self) -> Seq<Emission> {
        self.emissions@
    }

    /// Builds a node with the given identity, controller endpoints, packet
    /// queue, initial neighbor table and drop rate; the rate is clamped to
    /// at most `PDR_UNIT`, no flood is recorded and the node is not
    /// crashed.
    pub fn new(
        id: NodeId,
        controller_send: crossbeam_channel::Sender<DroneEvent>,
        controller_recv: crossbeam_channel::Receiver<DroneCommand>,
        packet_recv: crossbeam_channel::Receiver<Packet>,
        packet_send: HashMap<NodeId, crossbeam_channel::Sender<Packet>>,
        pdr: u32,
    ) -> (r: Self)
        ensures
            r@.id == id,
            r@.pdr == clamped_rate(pdr),
            r@.pdr <= PDR_UNIT,
            r@.neighbors == packet_send@,
            r@.floods == Set::<u64>::empty(),
            !r@.crashed,
            r.log() == Seq::<Emission>::empty(),
    {
        let pdr = if pdr > PDR_UNIT {
            PDR_UNIT
        } else {
            pdr
        };
        Self {
            id,
            controller_send,
            controller_recv,
            packet_recv,
            neighbors: packet_send,
            pdr,
            flood_requests: HashSet::new(),
            crashed: false,
            emissions: Ghost(Seq::empty()),
        }
    }

    /// Inserts or replaces the delivery channel of neighbor `node_id`.
    pub fn add_neighbor(&mut self, node_id: NodeId, neighbor: crossbeam_channel::Sender<Packet>)
        ensures
            final(self)@ == (DroneModel {
                neighbors: old(self)@.neighbors.insert(node_id, neighbor),
                ..old(self)@
            }),
            final(self).log() == old(self).log(),
    {
        self.neighbors.insert(node_id, neighbor);
    }

    /// Removes the delivery channel of neighbor `node_id`; absence is not
    /// an error.
    pub fn remove_sender(&mut self, node_id: NodeId)
        ensures
            final(self)@ == (DroneModel { neighbors: old(self)@.neighbors.remove(node_id), ..old(self)@ }),
            final(self).log() == old(self).log(),
    {
        self.neighbors.remove(&node_id);
    }

    /// Marks the node as crashed, irreversibly.
    pub fn make_crash(&mut self)
        ensures
            final(self)@ == (DroneModel { crashed: true, ..old(self)@ }),
            final(self).log() == old(self).log(),
    {
        self.crashed = true;
    }

    /// Replaces the drop rate with the requested one, clamped to at most
    /// `PDR_UNIT`.
    pub fn set_packet_drop_rate(&mut self, pdr: u32)
        ensures
            final(self)@ == (DroneModel { pdr: clamped_rate(pdr), ..old(self)@ }),
            final(self).log() == old(self).log(),
    {
        self.pdr = if pdr > PDR_UNIT {
            PDR_UNIT
        } else {
            pdr
        };
    }

    /// Applies one administrative command.  No command emits a packet or a
    /// controller event.
    pub fn handle_command(&mut self, command: DroneCommand)
        ensures
            final(self).log() == old(self).log(),
            match command {
                DroneCommand::AddSender(node_id, sender) => final(self)@ == (DroneModel {
                    neighbors: old(self)@.neighbors.insert(node_id, sender),
                    ..old(self)@
                }),
                DroneCommand::SetPacketDropRate(pdr) => final(self)@ == (DroneModel {
                    pdr: clamped_rate(pdr),
                    ..old(self)@
                }),
                DroneCommand::RemoveSender(node_id) => final(self)@ == (DroneModel {
                    neighbors: old(self)@.neighbors.remove(node_id),
                    ..old(self)@
                }),
                DroneCommand::Crash => final(self)@ == (DroneModel { crashed: true, ..old(self)@ }),
            },
    {
        match command {
            DroneCommand::AddSender(node_id, sender) => self.add_neighbor(node_id, sender),
            DroneCommand::SetPacketDropRate(pdr) => self.set_packet_drop_rate(pdr),
            DroneCommand::RemoveSender(node_id) => self.remove_sender(node_id),
            DroneCommand::Crash => self.make_crash(),
        }
    }

    /// Whether the node has been crashed by its controller.
    pub fn is_crashed(&self) -> (r: bool)
        ensures
            r == self@.crashed,
    {
        self.crashed
    }

    /// Decides whether the current fragment falls to the simulated loss: a
    /// uniform draw below the stored rate.  A rate of zero never drops, a
    /// rate of `PDR_UNIT` always does.
    fn should_drop(&self) -> (r: bool)
        ensures
            self@.pdr == 0 ==> !r,
            self@.pdr >= PDR_UNIT ==> r,
    {
        let lot = draw_loss_lot();
        lot < self.pdr
    }

    /// Hands `packet` to the channel of neighbor `target` and records the
    /// handoff; reports whether the channel accepted it.
    fn note_handoff(&mut self, target: NodeId, packet: Packet) -> (r: bool)
        requires
            old(self)@.neighbors.contains_key(target),
        ensures
            final(self)@ == old(self)@,
            final(self).log() == old(self).log().push(Emission::Handoff { target, packet }),
    {
        let ghost entry = Emission::Handoff { target, packet };
        let delivered = match self.neighbors.get(&target) {
            Some(ch) => channel_send(ch, packet),
            None => false,
        };
        self.emissions = Ghost(self.emissions@.push(entry));
        delivered
    }

    /// Hands `event` to the supervising controller's channel and records
    /// it.  The controller is outside this node, so the outcome is
    /// ignored, as every notification is best-effort.
    fn notify_controller(&mut self, event: DroneEvent)
        ensures
            final(self)@ == old(self)@,
            final(self).log() == old(self).log().push(Emission::Notice { event }),
    {
        let ghost entry = Emission::Notice { event };
        let _accepted = channel_send(&self.controller_send, event);
        self.emissions = Ghost(self.emissions@.push(entry));
    }

    /// Reverses the already-traversed part of `header`: the hops up to and
    /// including this node's first occurrence, last first; empty when this
    /// node does not appear.
    fn reverse_route(&self, header: &SourceRoutingHeader) -> (r: Vec<NodeId>)
        ensures
            r@ == route_back(self@.id, header.hops@),
    {
        let n = header.hops.len();
        let mut i: usize = 0;
        while i < n
            invariant
                i <= n,
                n == header.hops@.len(),
                forall|j: int| 0 <= j < i ==> header.hops@[j] != self@.id,
            decreases n - i,
        {
            if header.hops[i] == self.id {
                let mut r: Vec<NodeId> = Vec::new();
                let mut k: usize = 0;
                while k <= i
                    invariant
                        k <= i + 1,
                        i < n,
                        n == header.hops@.len(),
                        r@.len() == k,
                        forall|j: int| 0 <= j < k ==> r@[j] == header.hops@[i - j],
                    decreases i + 1 - k,
                {
                    r.push(header.hops[i - k]);
                    k = k + 1;
                }
                proof {
                    assert(header.hops@.contains(self@.id)) by {
                        assert(header.hops@[i as int] == self@.id);
                    }
                    header.hops@.index_of_first_ensures(self@.id);
                    let i0 = header.hops@.index_of_first(self@.id)->Some_0;
                    assert(i0 == i);
                    assert(r@ =~= route_back(self@.id, header.hops@));
                }
                return r;
            }
            i = i + 1;
        }
        proof {
            header.hops@.index_of_first_ensures(self@.id);
            if header.hops@.contains(self@.id) {
                let w = choose|j: int| 0 <= j < header.hops@.len() && header.hops@[j] == self@.id;
                assert(header.hops@[w] != self@.id);
            }
            assert(route_back(self@.id, header.hops@) =~= Seq::<NodeId>::empty());
        }
        Vec::new()
    }

    /// Sends `packet` to the hop its cursor names.  When the neighbor is
    /// missing, the simulated loss strikes, or the channel is dead, a
    /// negative acknowledgment is raised instead and failure is reported;
    /// the controller is told of every outcome that concerns it.
    fn send_packet(
        &mut self,
        packet: Packet,
        skip_pdr_check: bool,
        fragment_index: u64,
    ) -> (r: bool)
        ensures
            final(self)@ == old(self)@,
            old(self).log().is_prefix_of(final(self).log()),
            ({
                let t = final(self).log().skip(old(self).log().len() as int);
                let m = old(self)@;
                let hops = packet.routing_header.hops@;
                let cursor = packet.routing_header.hop_index as int;
                &&& (cursor >= hops.len() ==> !r && t.len() == 0)
                &&& (cursor < hops.len() && !m.neighbors.contains_key(hops[cursor]) ==> !r
                    && nack_signal_trace(
                    t,
                    packet,
                    m,
                    NackType::ErrorInRouting(hops[cursor]),
                    fragment_index,
                ))
                &&& (cursor < hops.len() && m.neighbors.contains_key(hops[cursor]) ==> ({
                    let next = hops[cursor];
                    &&& (r ==> t.len() == 2 && t[0] == (Emission::Handoff { target: next, packet })
                        && is_sent_notice_of(t[1], packet))
                    &&& (skip_pdr_check ==> t.len() >= 1 && t[0] == (Emission::Handoff {
                        target: next,
                        packet,
                    }) && (!r ==> t.len() >= 2 && is_shortcut_notice_of(t[1], packet)
                        && nack_signal_trace(
                        t.skip(2),
                        packet,
                        m,
                        NackType::ErrorInRouting(next),
                        fragment_index,
                    )))
                    &&& (!skip_pdr_check ==> {
                        &&& t.len() >= 1
                        &&& (is_dropped_notice_of(t[0], packet) || t[0] == (Emission::Handoff {
                            target: next,
                            packet,
                        }))
                        &&& (m.pdr >= PDR_UNIT ==> !r && is_dropped_notice_of(t[0], packet)
                            && nack_signal_trace(
                            t.skip(1),
                            packet,
                            m,
                            NackType::Dropped,
                            fragment_index,
                        ))
                        &&& (m.pdr == 0 ==> t[0] == (Emission::Handoff { target: next, packet })
                            && (!r ==> nack_signal_trace(
                            t.skip(1),
                            packet,
                            m,
                            NackType::ErrorInRouting(next),
                            fragment_index,
                        )))
                    })
                }))
            }),
        decreases back_rank(old(self)@.id, packet.routing_header.hops@), 2int,
    {
        let ghost pre_log = self.log();
        let hop_index = packet.routing_header.hop_index;
        if hop_index >= packet.routing_header.hops.len() {
            return false;
        }
        let next_hop = packet.routing_header.hops[hop_index];
        if !self.neighbors.contains_key(&next_hop) {
            self.send_nack_fragment(packet, NackType::ErrorInRouting(next_hop), fragment_index);
            return false;
        }
        if !skip_pdr_check && self.should_drop() {
            let dup = packet.duplicate();
            self.notify_controller(DroneEvent::PacketDropped(dup));
            let ghost mid_log = self.log();
            self.send_nack_fragment(packet, NackType::Dropped, fragment_index);
            proof {
                lemma_log_split(pre_log, mid_log, self.log());
                let t = self.log().skip(pre_log.len() as int);
                let t_nf = self.log().skip(mid_log.len() as int);
                assert(t.skip(1) =~= t_nf);
            }
            return false;
        }
        let dup = packet.duplicate();
        let ok = self.note_handoff(next_hop, packet);
        if ok {
            self.notify_controller(DroneEvent::PacketSent(dup));
            return true;
        }
        if skip_pdr_check {
            let dup2 = dup.duplicate();
            self.notify_controller(DroneEvent::ControllerShortcut(dup2));
        }
        let ghost mid_log = self.log();
        self.send_nack_fragment(dup, NackType::ErrorInRouting(next_hop), fragment_index);
        proof {
            lemma_log_split(pre_log, mid_log, self.log());
            let t = self.log().skip(pre_log.len() as int);
            let t_nf = self.log().skip(mid_log.len() as int);
            lemma_nack_trace_same_packet(
                t_nf,
                dup,
                packet,
                old(self)@,
                NackType::ErrorInRouting(next_hop),
                fragment_index,
            );
            if skip_pdr_check {
                assert(t.skip(2) =~= t_nf);
            } else {
                assert(t.skip(1) =~= t_nf);
            }
        }
        false
    }

    /// Raises a negative acknowledgment of kind `nack_type` for `packet`.
    /// The acknowledgment travels the reversed traversed route; when even
    /// that cannot be delivered, the controller is told to deliver the
    /// superseded packet out of band, so a failure is never silent.
    fn send_nack_fragment(&mut self, packet: Packet, nack_type: NackType, fragment_index: u64)
        ensures
            final(self)@ == old(self)@,
            old(self).log().is_prefix_of(final(self).log()),
            nack_signal_trace(
                final(self).log().skip(old(self).log().len() as int),
                packet,
                old(self)@,
                nack_type,
                fragment_index,
            ),
        decreases back_rank(old(self)@.id, packet.routing_header.hops@), 1int,
    {
        let ghost pre_log = self.log();
        let nack = Nack { fragment_index, nack_type };
        let delivered = self.send_back(&packet, PacketType::Nack(nack));
        if !delivered {
            let ghost mid_log = self.log();
            self.notify_controller(DroneEvent::ControllerShortcut(packet));
            proof {
                lemma_log_split(pre_log, mid_log, self.log());
            }
        }
    }

    /// Builds a packet that carries `acknowledgment` back along the
    /// reversed traversed route of `acked_packet` and sends it to the
    /// previous hop, reporting whether that hop's channel accepted it.  A
    /// route too short to name a previous hop fails without any emission.
    fn send_back(&mut self, acked_packet: &Packet, acknowledgment: PacketType) -> (r: bool)
        ensures
            final(self)@ == old(self)@,
            old(self).log().is_prefix_of(final(self).log()),
            ({
                let t = final(self).log().skip(old(self).log().len() as int);
                let m = old(self)@;
                let route = route_back(m.id, acked_packet.routing_header.hops@);
                &&& (route.len() < 2 ==> !r && t.len() == 0)
                &&& (route.len() >= 2 && !m.neighbors.contains_key(route[1]) ==> !r && t.len() == 1
                    && !(t[0] is Handoff) && (exists|q: Packet|
                    is_built_signal(q, *acked_packet, acknowledgment, m.id)
                        && is_shortcut_notice_of(t[0], q)))
                &&& (route.len() >= 2 && m.neighbors.contains_key(route[1]) ==> {
                    &&& t.len() >= 2
                    &&& (exists|q: Packet|
                        is_built_signal(q, *acked_packet, acknowledgment, m.id) && t[0] == (
                        Emission::Handoff { target: route[1], packet: q }))
                    &&& (r ==> t.len() == 2 && (exists|q: Packet|
                        is_built_signal(q, *acked_packet, acknowledgment, m.id)
                            && is_sent_notice_of(t[1], q)))
                    &&& (!r ==> t.len() == 3 && !(t[1] is Handoff) && !(t[2] is Handoff) && (
                    exists|q: Packet|
                        is_built_signal(q, *acked_packet, acknowledgment, m.id)
                            && is_shortcut_notice_of(t[1], q) && is_shortcut_notice_of(t[2], q)))
                })
            }),
        decreases back_rank(old(self)@.id, acked_packet.routing_header.hops@), 0int,
    {
        let route = self.reverse_route(&acked_packet.routing_header);
        if route.len() < 2 {
            return false;
        }
        proof {
            lemma_route_back(self@.id, acked_packet.routing_header.hops@);
            lemma_route_back_again(self@.id, acked_packet.routing_header.hops@);
        }
        let routing_header = SourceRoutingHeader { hop_index: 1, hops: route };
        let new_packet = Packet {
            pack_type: acknowledgment,
            session_id: acked_packet.session_id,
            routing_header,
        };
        self.send_packet(new_packet, true, 0)
    }

    /// Forwards `packet` one hop: this node must be the hop the cursor
    /// names, the cursor advances by one, and the packet goes to the next
    /// hop; a header naming someone else raises an unexpected-recipient
    /// acknowledgment, one ending at this relay a destination-is-drone
    /// one.
    fn forward_packet(&mut self, packet: Packet, skip_pdr_check: bool, fragment_index: u64)
        requires
            packet.routing_header.hop_index < packet.routing_header.hops@.len(),
        ensures
            final(self)@ == old(self)@,
            old(self).log().is_prefix_of(final(self).log()),
            forward_trace(
                final(self).log().skip(old(self).log().len() as int),
                packet,
                old(self)@,
                skip_pdr_check,
                fragment_index,
            ),
    {
        let cursor = packet.routing_header.hop_index;
        let curr_hop = packet.routing_header.hops[cursor];
        if self.id != curr_hop {
            self.send_nack_fragment(
                packet,
                NackType::UnexpectedRecipient(self.id),
                fragment_index,
            );
            return;
        }
        let total = packet.routing_header.hops.len();
        let mut new_packet = packet.duplicate();
        new_packet.routing_header.hop_index = cursor + 1;
        if new_packet.routing_header.hop_index >= total {
            self.send_nack_fragment(packet, NackType::DestinationIsDrone, fragment_index);
            return;
        }
        let ghost np = new_packet;
        self.send_packet(new_packet, skip_pdr_check, fragment_index);
        proof {
            let m = old(self)@;
            let t = self.log().skip(old(self).log().len() as int);
            let hops = packet.routing_header.hops@;
            let cur = packet.routing_header.hop_index as int;
            let next = hops[cur + 1];
            assert(is_advance_of(np, packet));
            if m.neighbors.contains_key(next) {
                if !skip_pdr_check && m.pdr >= PDR_UNIT {
                    assert(only_nack_handoffs(t)) by {
                        assert(is_dropped_notice_of(t[0], np));
                        assert(only_nack_handoffs(t.skip(1)));
                        assert forall|i: int| 0 <= i < t.len() implies match #[trigger] t[i] {
                            Emission::Handoff { target: _, packet: q } => q.pack_type is Nack,
                            Emission::Notice { event: _ } => true,
                        } by {
                            if i >= 1 {
                                assert(t[i] == t.skip(1)[i - 1]);
                            }
                        }
                    }
                }
            }
        }
    }

    /// Collects the identity of every neighbor except `excluded`, each
    /// exactly once.
    fn fanout_targets(&self, excluded: NodeId) -> (r: Vec<NodeId>)
        ensures
            r@.no_duplicates(),
            forall|i: int|
                0 <= i < r@.len() ==> self@.neighbors.contains_key(#[trigger] r@[i]) && r@[i]
                    != excluded,
            forall|n: NodeId|
                #[trigger] self@.neighbors.contains_key(n) && n != excluded ==> r@.contains(n),
    {
        let iter = self.neighbors.iter();
        let ghost all = iter.remaining();
        let mut w = VerusForLoopWrapper::new(iter, Ghost(None));
        let mut r: Vec<NodeId> = Vec::new();
        loop
            invariant_except_break
                w.wf(),
                w.iter.obeys_prophetic_iter_laws(),
                w.iter.decrease() is Some,
                w.seq() == all,
                0 <= w.index() <= all.len(),
                all.no_duplicates(),
                forall|j: int|
                    #![trigger all[j]]
                    0 <= j < all.len() ==> self@.neighbors.contains_key(*all[j].0) && *all[j].1
                        == self@.neighbors[*all[j].0],
                forall|n: NodeId|
                    #[trigger] self@.neighbors.contains_key(n) ==> all.contains(
                        (&n, &self@.neighbors[n]),
                    ),
                r@.no_duplicates(),
                forall|i: int|
                    0 <= i < r@.len() ==> self@.neighbors.contains_key(#[trigger] r@[i]) && r@[i]
                        != excluded,
                forall|i: int|
                    #![trigger r@[i]]
                    0 <= i < r@.len() ==> exists|j: int|
                        0 <= j < w.index() && *#[trigger] all[j].0 == r@[i],
                forall|j: int|
                    #![trigger all[j]]
                    0 <= j < w.index() ==> (*all[j].0 == excluded || r@.contains(*all[j].0)),
            ensures
                r@.no_duplicates(),
                forall|i: int|
                    0 <= i < r@.len() ==> self@.neighbors.contains_key(#[trigger] r@[i]) && r@[i]
                        != excluded,
                forall|j: int|
                    #![trigger all[j]]
                    0 <= j < all.len() ==> (*all[j].0 == excluded || r@.contains(*all[j].0)),
                forall|n: NodeId|
                    #[trigger] self@.neighbors.contains_key(n) ==> all.contains(
                        (&n, &self@.neighbors[n]),
                    ),
            decreases w.iter.decrease()->0,
        {
            match w.next() {
                Some(pair) => {
                    proof {
                        assert(pair == all[w.index() - 1]);
                    }
                    let (neighbor_id, _channel) = pair;
                    if *neighbor_id != excluded {
                        proof {
                            if r@.contains(*neighbor_id) {
                                let i0 = choose|i: int|
                                    0 <= i < r@.len() && r@[i] == *neighbor_id;
                                let j0 = choose|j: int|
                                    0 <= j < w.index() - 1 && *all[j].0 == r@[i0];
                                assert(all[j0] == all[w.index() - 1]);
                                assert(false);
                            }
                        }
                        let ghost r_before = r@;
                        r.push(*neighbor_id);
                        proof {
                            assert(r@ == r_before.push(*neighbor_id));
                            assert(r@[r@.len() - 1] == *neighbor_id);
                            assert forall|j: int|
                                #![trigger all[j]]
                                0 <= j < w.index() implies (*all[j].0 == excluded || r@.contains(
                                *all[j].0,
                            )) by {
                                if j == w.index() - 1 {
                                    assert(r@.contains(*neighbor_id));
                                } else if *all[j].0 != excluded {
                                    let i0 = choose|i: int|
                                        0 <= i < r_before.len() && r_before[i] == *all[j].0;
                                    assert(r@[i0] == *all[j].0);
                                }
                            }
                        }
                    }
                },
                None => {
                    proof {
                        assert(w.index() == all.len());
                    }
                    break;
                },
            }
        }
        proof {
            assert forall|n: NodeId|
                #[trigger] self@.neighbors.contains_key(n) && n != excluded implies r@.contains(
                n,
            ) by {
                let pair_n = (&n, &self@.neighbors[n]);
                assert(all.contains(pair_n));
                let j = choose|j: int| 0 <= j < all.len() && all[j] == pair_n;
                assert(*all[j].0 == n);
            }
        }
        r
    }

    /// Handles one flood discovery request.  A flood already seen by a
    /// live node is answered with a flood response sent straight to the
    /// immediate predecessor in the trace; otherwise the flood is
    /// recorded and the request — with this node appended to the trace
    /// unless it crashed — goes to every neighbor except the predecessor.
    pub fn handle_flood_req(
        &mut self,
        packet: FloodRequest,
        session_id: u64,
        routing_header: SourceRoutingHeader,
    )
        requires
            packet.path_trace@.len() > 0,
        ensures
            old(self).log().is_prefix_of(final(self).log()),
            flood_discovery_trace(
                final(self).log().skip(old(self).log().len() as int),
                packet,
                session_id,
                routing_header,
                old(self)@,
                final(self)@,
            ),
    {
        let mut packet = packet;
        let ghost m = self@;
        let ghost pre_log = self.log();
        if self.flood_requests.contains(&packet.flood_id) && !self.crashed {
            let sender_id = packet.path_trace[packet.path_trace.len() - 1].0;
            packet.path_trace.push((self.id, NodeType::Drone));
            let route = build_flood_route(&packet.path_trace);
            let flood_id = packet.flood_id;
            let response = FloodResponse { flood_id, path_trace: packet.path_trace };
            let new_packet = Packet {
                pack_type: PacketType::FloodResponse(response),
                session_id,
                routing_header: SourceRoutingHeader { hop_index: 1, hops: route },
            };
            if self.neighbors.contains_key(&sender_id) {
                let _delivered = self.note_handoff(sender_id, new_packet);
            }
        } else {
            let last_node = packet.path_trace[packet.path_trace.len() - 1].0;
            if !self.crashed {
                packet.path_trace.push((self.id, NodeType::Drone));
            }
            let targets = self.fanout_targets(last_node);
            self.flood_requests.insert(packet.flood_id);
            let ghost m2 = self@;
            let ghost mid_log = self.log();
            let base = Packet {
                pack_type: PacketType::FloodRequest(packet),
                routing_header,
                session_id,
            };
            let mut k: usize = 0;
            while k < targets.len()
                invariant
                    k <= targets@.len(),
                    self@ == m2,
                    m2.neighbors == m.neighbors,
                    forall|i: int|
                        0 <= i < targets@.len() ==> m.neighbors.contains_key(
                            #[trigger] targets@[i],
                        ),
                    mid_log.is_prefix_of(self.log()),
                    self.log().len() == mid_log.len() + k,
                    forall|i: int|
                        #![trigger self.log()[mid_log.len() + i]]
                        0 <= i < k ==> (exists|q: Packet|
                            packets_match(q, base) && self.log()[mid_log.len() + i] == (
                            Emission::Handoff { target: targets@[i], packet: q })),
                decreases targets@.len() - k,
            {
                let dup = base.duplicate();
                let target = targets[k];
                let _delivered = self.note_handoff(target, dup);
                k = k + 1;
            }
            proof {
                let t = self.log().skip(pre_log.len() as int);
                assert(t.len() == targets@.len());
                assert forall|i: int| 0 <= i < t.len() implies t[i] == self.log()[
                    mid_log.len() + i
                ] by {}
                assert forall|n: NodeId|
                    #[trigger] m.neighbors.contains_key(n) && n != last_node implies exists|i: int|
                    0 <= i < t.len() && is_handoff_to(#[trigger] t[i], n) by {
                    assert(targets@.contains(n));
                    let i0 = choose|i: int| 0 <= i < targets@.len() && targets@[i] == n;
                    assert(is_handoff_to(t[i0], n));
                }
                assert forall|i: int, j: int| 0 <= i < j < t.len() implies handoff_target(
                    #[trigger] t[i],
                ) != handoff_target(#[trigger] t[j]) by {
                    assert(handoff_target(t[i]) == targets@[i]);
                    assert(handoff_target(t[j]) == targets@[j]);
                }
            }
        }
    }

    /// Takes one inbound packet and dispatches it: acknowledgments,
    /// negative acknowledgments and flood responses are forwarded exempt
    /// from the loss check; a data fragment is forwarded under it, or — at
    /// a crashed node — answered with a routing-error negative
    /// acknowledgment without touching the neighbor table or the cursor; a
    /// flood request goes to the discovery engine whatever the crash
    /// state.
    pub fn handle_packet(&mut self, packet: Packet)
        requires
            match packet.pack_type {
                PacketType::FloodRequest(req) => req.path_trace@.len() > 0,
                PacketType::MsgFragment(_) => old(self)@.crashed
                    || packet.routing_header.hop_index < packet.routing_header.hops@.len(),
                _ => packet.routing_header.hop_index < packet.routing_header.hops@.len(),
            },
        ensures
            old(self).log().is_prefix_of(final(self).log()),
            ({
                let t = final(self).log().skip(old(self).log().len() as int);
                let m = old(self)@;
                match packet.pack_type {
                    PacketType::Nack(_) => final(self)@ == m && forward_trace(t, packet, m, true, 0),
                    PacketType::Ack(_) => final(self)@ == m && forward_trace(t, packet, m, true, 0),
                    PacketType::FloodResponse(_) => final(self)@ == m && forward_trace(
                        t,
                        packet,
                        m,
                        true,
                        0,
                    ),
                    PacketType::MsgFragment(f) => final(self)@ == m && if m.crashed {
                        nack_signal_trace(
                            t,
                            packet,
                            m,
                            NackType::ErrorInRouting(m.id),
                            f.fragment_index,
                        )
                    } else {
                        forward_trace(t, packet, m, false, f.fragment_index)
                    },
                    PacketType::FloodRequest(req) => flood_discovery_trace(
                        t,
                        req,
                        packet.session_id,
                        packet.routing_header,
                        m,
                        final(self)@,
                    ),
                }
            }),
    {
        match packet.pack_type {
            PacketType::FloodRequest(req) => {
                let session_id = packet.session_id;
                let routing_header = packet.routing_header;
                self.handle_flood_req(req, session_id, routing_header);
            },
            PacketType::MsgFragment(ref fragment) => {
                let fragment_index = fragment.fragment_index;
                if self.crashed {
                    self.send_nack_fragment(
                        packet,
                        NackType::ErrorInRouting(self.id),
                        fragment_index,
                    );
                } else {
                    self.forward_packet(packet, false, fragment_index);
                }
            },
            PacketType::Nack(_) => self.forward_packet(packet, true, 0),
            PacketType::Ack(_) => self.forward_packet(packet, true, 0),
            PacketType::FloodResponse(_) => self.forward_packet(packet, true, 0),
        }
    }
}

} // verus!
