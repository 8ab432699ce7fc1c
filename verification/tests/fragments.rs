//! Forwarding of data fragments: the happy path, simulated loss, and every
//! negative-acknowledgment kind the forwarding engine can raise.

use crossbeam_channel::unbounded;
use rustafarian_drone::DroneCommand;
use rustafarian_drone::DroneEvent;
use rustafarian_drone::Fragment;
use rustafarian_drone::Nack;
use rustafarian_drone::NackType;
use rustafarian_drone::Packet;
use rustafarian_drone::PacketType;
use rustafarian_drone::RustafarianDrone;
use rustafarian_drone::SourceRoutingHeader;
use rustafarian_drone::PDR_UNIT;
use std::collections::HashMap;

fn sample_fragment_packet() -> Packet {
    Packet {
        pack_type: PacketType::MsgFragment(Fragment {
            fragment_index: 1,
            total_n_fragments: 1,
            length: 128,
            data: [2; 128],
        }),
        routing_header: SourceRoutingHeader {
            hop_index: 1,
            hops: vec![1, 11, 12, 21],
        },
        session_id: 1,
    }
}

/// A fragment travels the chain 1 -> 11 -> 12 -> 21 unchanged, with the
/// cursor advanced at each relay.
#[test]
fn run_complex_topology() {
    let (c_send, _c_recv) = unbounded();
    let (s_send, s_recv) = unbounded();
    let (d1_send, d1_recv) = unbounded::<Packet>();
    let (d2_send, d2_recv) = unbounded::<Packet>();
    let (d3_send, d3_recv) = unbounded::<Packet>();
    let (_cmd_send, cmd_recv) = unbounded::<DroneCommand>();

    let neighbours1 = HashMap::from([
        (12, d2_send.clone()),
        (13, d3_send.clone()),
        (1, c_send.clone()),
    ]);
    let neighbours2 = HashMap::from([
        (11, d1_send.clone()),
        (13, d3_send.clone()),
        (21, s_send.clone()),
    ]);
    let neighbours3 = HashMap::from([(11, d1_send.clone()), (12, d2_send.clone())]);

    let mut drone1 = RustafarianDrone::new(
        11,
        unbounded().0,
        cmd_recv.clone(),
        d1_recv.clone(),
        neighbours1,
        0,
    );
    let mut drone2 = RustafarianDrone::new(
        12,
        unbounded().0,
        cmd_recv.clone(),
        d2_recv.clone(),
        neighbours2,
        0,
    );
    let mut drone3 = RustafarianDrone::new(
        13,
        unbounded().0,
        cmd_recv.clone(),
        d3_recv.clone(),
        neighbours3,
        0,
    );

    let mut msg = sample_fragment_packet();
    d1_send.send(msg.clone()).unwrap();

    for _ in 0..4 {
        while let Ok(p) = d1_recv.try_recv() {
            drone1.handle_packet(p);
        }
        while let Ok(p) = d2_recv.try_recv() {
            drone2.handle_packet(p);
        }
        while let Ok(p) = d3_recv.try_recv() {
            drone3.handle_packet(p);
        }
    }

    msg.routing_header.hop_index = 3;
    assert_eq!(s_recv.try_recv().unwrap(), msg);
}

/// With a drop rate of one, the fragment is never delivered: the previous
/// hop receives a negative acknowledgment of kind dropped instead.
#[test]
fn run_edge_cases() {
    let (c_send, c_recv) = unbounded();
    let (s_send, _s_recv) = unbounded();
    let (d1_send, d1_recv) = unbounded::<Packet>();
    let (d2_send, d2_recv) = unbounded::<Packet>();
    let (d3_send, d3_recv) = unbounded::<Packet>();
    let (_cmd_send, cmd_recv) = unbounded::<DroneCommand>();

    let neighbours1 = HashMap::from([
        (12, d2_send.clone()),
        (13, d3_send.clone()),
        (1, c_send.clone()),
    ]);
    let neighbours2 = HashMap::from([
        (11, d1_send.clone()),
        (13, d3_send.clone()),
        (21, s_send.clone()),
    ]);
    let neighbours3 = HashMap::from([(11, d1_send.clone()), (12, d2_send.clone())]);

    let mut drone1 = RustafarianDrone::new(
        11,
        unbounded().0,
        cmd_recv.clone(),
        d1_recv.clone(),
        neighbours1,
        PDR_UNIT,
    );
    let mut _drone2 = RustafarianDrone::new(
        12,
        unbounded().0,
        cmd_recv.clone(),
        d2_recv.clone(),
        neighbours2,
        0,
    );
    let mut _drone3 = RustafarianDrone::new(
        13,
        unbounded().0,
        cmd_recv.clone(),
        d3_recv.clone(),
        neighbours3,
        0,
    );

    let msg = sample_fragment_packet();
    d1_send.send(msg).unwrap();
    while let Ok(p) = d1_recv.try_recv() {
        drone1.handle_packet(p);
    }

    let dropped = Nack {
        fragment_index: 1,
        nack_type: NackType::Dropped,
    };
    let srh = SourceRoutingHeader {
        hop_index: 1,
        hops: vec![11, 1],
    };
    let nack_packet = Packet {
        pack_type: PacketType::Nack(dropped),
        routing_header: srh,
        session_id: 1,
    };

    assert_eq!(c_recv.try_recv().unwrap(), nack_packet);
    assert!(d2_recv.try_recv().is_err());
}

/// A negative acknowledgment is itself forwarded hop by hop, exempt from
/// the loss check.
#[test]
fn run_nack() {
    let (c_send, _c_recv) = unbounded();
    let (s_send, s_recv) = unbounded();
    let (d1_send, d1_recv) = unbounded::<Packet>();
    let (d2_send, d2_recv) = unbounded::<Packet>();
    let (d3_send, d3_recv) = unbounded::<Packet>();
    let (_cmd_send, cmd_recv) = unbounded::<DroneCommand>();

    let neighbours1 = HashMap::from([
        (12, d2_send.clone()),
        (13, d3_send.clone()),
        (1, c_send.clone()),
    ]);
    let neighbours2 = HashMap::from([
        (11, d1_send.clone()),
        (13, d3_send.clone()),
        (21, s_send.clone()),
    ]);
    let neighbours3 = HashMap::from([(11, d1_send.clone()), (12, d2_send.clone())]);

    let mut drone1 = RustafarianDrone::new(
        11,
        unbounded().0,
        cmd_recv.clone(),
        d1_recv.clone(),
        neighbours1,
        0,
    );
    let mut drone2 = RustafarianDrone::new(
        12,
        unbounded().0,
        cmd_recv.clone(),
        d2_recv.clone(),
        neighbours2,
        0,
    );
    let mut drone3 = RustafarianDrone::new(
        13,
        unbounded().0,
        cmd_recv.clone(),
        d3_recv.clone(),
        neighbours3,
        0,
    );

    let dropped = Nack {
        fragment_index: 1,
        nack_type: NackType::Dropped,
    };
    let srh = SourceRoutingHeader {
        hop_index: 1,
        hops: vec![1, 11, 13, 12, 21],
    };
    let mut nack_packet = Packet {
        pack_type: PacketType::Nack(dropped),
        routing_header: srh,
        session_id: 1,
    };

    d1_send.send(nack_packet.clone()).unwrap();

    for _ in 0..4 {
        while let Ok(p) = d1_recv.try_recv() {
            drone1.handle_packet(p);
        }
        while let Ok(p) = d3_recv.try_recv() {
            drone3.handle_packet(p);
        }
        while let Ok(p) = d2_recv.try_recv() {
            drone2.handle_packet(p);
        }
    }

    nack_packet.routing_header.hop_index += 3;
    assert_eq!(s_recv.try_recv().unwrap(), nack_packet);
}

/// A next hop that is not in the neighbor table is answered with an
/// error-in-routing negative acknowledgment naming that hop.
#[test]
fn run_wrong_neighbor() {
    let (c_send, c_recv) = unbounded();
    let (d1_send, d1_recv) = unbounded::<Packet>();
    let (_cmd_send, cmd_recv) = unbounded::<DroneCommand>();

    let neighbours1 = HashMap::from([(1, c_send.clone())]);

    let mut drone1 = RustafarianDrone::new(
        11,
        unbounded().0,
        cmd_recv.clone(),
        d1_recv.clone(),
        neighbours1,
        0,
    );

    let msg = sample_fragment_packet();
    d1_send.send(msg).unwrap();
    while let Ok(p) = d1_recv.try_recv() {
        drone1.handle_packet(p);
    }

    let expected_nack = Packet {
        session_id: 1,
        routing_header: SourceRoutingHeader {
            hop_index: 1,
            hops: [11, 1].to_vec(),
        },
        pack_type: PacketType::Nack(Nack {
            fragment_index: 1,
            nack_type: NackType::ErrorInRouting(12),
        }),
    };

    assert_eq!(
        c_recv.try_recv().unwrap(),
        expected_nack,
        "The message received should be an error in routing!"
    );
}

/// A route that ends at a relay is answered with a destination-is-drone
/// negative acknowledgment.
#[test]
fn run_wrong_destination() {
    let (c_send, c_recv) = unbounded();
    let (d1_send, d1_recv) = unbounded::<Packet>();
    let (_cmd_send, cmd_recv) = unbounded::<DroneCommand>();

    let neighbours1 = HashMap::from([(1, c_send.clone())]);

    let mut drone1 = RustafarianDrone::new(
        11,
        unbounded().0,
        cmd_recv.clone(),
        d1_recv.clone(),
        neighbours1,
        0,
    );

    let msg = Packet {
        session_id: 0,
        routing_header: SourceRoutingHeader {
            hop_index: 1,
            hops: [1, 11].to_vec(),
        },
        pack_type: PacketType::MsgFragment(Fragment {
            fragment_index: 0,
            total_n_fragments: 1,
            length: 1,
            data: [2; 128],
        }),
    };

    d1_send.send(msg).unwrap();
    while let Ok(p) = d1_recv.try_recv() {
        drone1.handle_packet(p);
    }

    let expected_nack = Packet {
        session_id: 0,
        routing_header: SourceRoutingHeader {
            hop_index: 1,
            hops: [11, 1].to_vec(),
        },
        pack_type: PacketType::Nack(Nack {
            fragment_index: 0,
            nack_type: NackType::DestinationIsDrone,
        }),
    };

    assert_eq!(
        c_recv.try_recv().unwrap(),
        expected_nack,
        "I should receive a NACK!"
    );
}

/// A packet whose cursor names another node is bounced back with an
/// unexpected-recipient negative acknowledgment along the reversed prefix.
#[test]
fn run_wrong_hop() {
    let (c_send, c_recv) = unbounded();
    let (s_send, _s_recv) = unbounded::<Packet>();
    let (d1_send, d1_recv) = unbounded::<Packet>();
    let (d2_send, d2_recv) = unbounded::<Packet>();
    let (d3_send, d3_recv) = unbounded::<Packet>();
    let (_cmd_send, cmd_recv) = unbounded::<DroneCommand>();

    let neighbours1 = HashMap::from([
        (12, d2_send.clone()),
        (13, d3_send.clone()),
        (1, c_send.clone()),
    ]);
    let neighbours2 = HashMap::from([
        (11, d1_send.clone()),
        (13, d3_send.clone()),
        (21, s_send.clone()),
        (1, c_send.clone()),
    ]);
    let neighbours3 = HashMap::from([(11, d1_send.clone()), (12, d2_send.clone())]);

    let mut drone1 = RustafarianDrone::new(
        11,
        unbounded().0,
        cmd_recv.clone(),
        d1_recv.clone(),
        neighbours1,
        0,
    );
    let mut drone2 = RustafarianDrone::new(
        12,
        unbounded().0,
        cmd_recv.clone(),
        d2_recv.clone(),
        neighbours2,
        0,
    );
    let mut drone3 = RustafarianDrone::new(
        13,
        unbounded().0,
        cmd_recv.clone(),
        d3_recv.clone(),
        neighbours3,
        0,
    );

    let msg = Packet {
        session_id: 0,
        routing_header: SourceRoutingHeader {
            hop_index: 1,
            hops: [1, 12, 13, 11].to_vec(),
        },
        pack_type: PacketType::MsgFragment(Fragment {
            fragment_index: 0,
            total_n_fragments: 1,
            length: 1,
            data: [2; 128],
        }),
    };

    d1_send.send(msg).unwrap();

    for _ in 0..4 {
        while let Ok(p) = d1_recv.try_recv() {
            drone1.handle_packet(p);
        }
        while let Ok(p) = d3_recv.try_recv() {
            drone3.handle_packet(p);
        }
        while let Ok(p) = d2_recv.try_recv() {
            drone2.handle_packet(p);
        }
    }

    let expected_nack = Packet {
        session_id: 0,
        routing_header: SourceRoutingHeader {
            hop_index: 3,
            hops: [11, 13, 12, 1].to_vec(),
        },
        pack_type: PacketType::Nack(Nack {
            fragment_index: 0,
            nack_type: NackType::UnexpectedRecipient(11),
        }),
    };

    assert_eq!(
        c_recv.try_recv().unwrap(),
        expected_nack,
        "I should receive a NACK!"
    );
}

/// A dead neighbor channel makes the node escalate the packet to the
/// controller as a shortcut.
#[test]
fn run_closed_channel() {
    let (c_send, _c_recv) = unbounded();
    let (d1_send, d1_recv) = unbounded::<Packet>();
    let (d2_send, d2_recv) = unbounded::<Packet>();
    let (_cmd_send, cmd_recv) = unbounded::<DroneCommand>();
    let (ev_send, ev_recv) = unbounded::<DroneEvent>();

    let neighbours1 = HashMap::from([(12, d2_send.clone()), (1, c_send.clone())]);

    let mut drone1 = RustafarianDrone::new(
        11,
        ev_send,
        cmd_recv.clone(),
        d1_recv.clone(),
        neighbours1,
        0,
    );

    let mut msg = Packet {
        session_id: 0,
        routing_header: SourceRoutingHeader {
            hop_index: 1,
            hops: [1, 11, 12].to_vec(),
        },
        pack_type: PacketType::Ack(rustafarian_drone::Ack { fragment_index: 0 }),
    };

    drop(d2_send);
    drop(d2_recv);
    d1_send.send(msg.clone()).unwrap();
    while let Ok(p) = d1_recv.try_recv() {
        drone1.handle_packet(p);
    }

    msg.routing_header.hop_index += 1;

    let expected_shortcut = DroneEvent::ControllerShortcut(msg);

    assert_eq!(
        ev_recv.try_recv().unwrap(),
        expected_shortcut,
        "I should receive a ControllerShortcut!"
    );
}

/// Forwarding a fragment reports a packet-sent event carrying the advanced
/// packet to the controller.
#[test]
fn fragment_forward_notifies_controller() {
    let (d1_send, d1_recv) = unbounded::<Packet>();
    let (d2_send, d2_recv) = unbounded::<Packet>();
    let (_cmd_send, cmd_recv) = unbounded::<DroneCommand>();
    let (ev_send, ev_recv) = unbounded::<DroneEvent>();

    let neighbours1 = HashMap::from([(12, d2_send.clone())]);
    let mut drone1 = RustafarianDrone::new(
        11,
        ev_send,
        cmd_recv.clone(),
        d1_recv.clone(),
        neighbours1,
        0,
    );

    let mut msg = Packet {
        session_id: 5,
        routing_header: SourceRoutingHeader {
            hop_index: 1,
            hops: vec![1, 11, 12],
        },
        pack_type: PacketType::MsgFragment(Fragment {
            fragment_index: 3,
            total_n_fragments: 4,
            length: 8,
            data: [9; 128],
        }),
    };

    d1_send.send(msg.clone()).unwrap();
    while let Ok(p) = d1_recv.try_recv() {
        drone1.handle_packet(p);
    }

    msg.routing_header.hop_index = 2;
    assert_eq!(d2_recv.try_recv().unwrap(), msg);
    assert_eq!(ev_recv.try_recv().unwrap(), DroneEvent::PacketSent(msg));
}

/// With a full drop rate the controller is told of the dropped packet, and
/// the previous hop sees the dropped-kind negative acknowledgment.
#[test]
fn drop_rate_full_notifies_controller() {
    let (c_send, c_recv) = unbounded::<Packet>();
    let (d1_send, d1_recv) = unbounded::<Packet>();
    let (d2_send, d2_recv) = unbounded::<Packet>();
    let (_cmd_send, cmd_recv) = unbounded::<DroneCommand>();
    let (ev_send, ev_recv) = unbounded::<DroneEvent>();

    let neighbours1 = HashMap::from([(12, d2_send.clone()), (1, c_send.clone())]);
    let mut drone1 = RustafarianDrone::new(
        11,
        ev_send,
        cmd_recv.clone(),
        d1_recv.clone(),
        neighbours1,
        PDR_UNIT,
    );

    let mut msg = sample_fragment_packet();
    msg.routing_header.hops = vec![1, 11, 12];
    d1_send.send(msg.clone()).unwrap();
    while let Ok(p) = d1_recv.try_recv() {
        drone1.handle_packet(p);
    }

    msg.routing_header.hop_index = 2;
    assert_eq!(ev_recv.try_recv().unwrap(), DroneEvent::PacketDropped(msg));
    assert!(d2_recv.try_recv().is_err());

    let nack = c_recv.try_recv().unwrap();
    assert_eq!(
        nack.pack_type,
        PacketType::Nack(Nack {
            fragment_index: 1,
            nack_type: NackType::Dropped,
        })
    );
}
