use kelp::sim::grid::create_grid;
use kelp::sim::network::{message_nanos, ChannelState, Color, Network, NodeState};
use kelp::sim::protocol::{
    next_event, remaining_nanos, ProtocolAction, ProtocolEvent, ProtocolNode, ProtocolPhase,
    ProtocolStep, TrickleProtocol, IMAX_NANOS, IMIN_NANOS,
};
use kelp::sim::state::{decode_checked, CommState, CommStateType, DeserializeError};
use kelp::sim::visualizer::{channel_color, ChannelEdge, Visualizer, VisualizerData};
use kelp::time::Instant;
use kelp::wire::PacketError;

fn state(seq_num: u32) -> CommState {
    CommState {
        seq_num,
        type_: CommStateType::Nop,
    }
}

fn at(nanos: u128) -> Instant {
    Instant { nanos }
}

#[test]
fn frames_are_exact() {
    assert_eq!(
        state(0).serialize(),
        vec![0x01, 0x01, 0x05, 0xFF, 0x12, 0xD9, 0x41, 0x00]
    );
    assert_eq!(
        state(300).serialize(),
        vec![0x03, 0xAC, 0x02, 0x05, 0x94, 0x1F, 0x15, 0x1D, 0x00]
    );
}

#[test]
fn states_travel() {
    for seq_num in [0, 1, 127, 128, 300, u32::MAX] {
        let mut frame = state(seq_num).serialize();
        assert_eq!(CommState::deserialize(&frame), Ok(state(seq_num)));
        // The delimiter may be missing.
        frame.pop();
        assert_eq!(CommState::deserialize(&frame), Ok(state(seq_num)));
    }
}

#[test]
fn damaged_states_are_refused() {
    assert_eq!(
        CommState::deserialize(&[0x05, 0x01, 0x00]),
        Err(DeserializeError::CobsDecoding)
    );
    assert_eq!(
        CommState::deserialize(&[0x02, 0x01, 0x00]),
        Err(DeserializeError::TooShort)
    );
    let mut frame = state(300).serialize();
    frame[1] = 0xAD;
    let error = CommState::deserialize(&frame).unwrap_err();
    assert!(matches!(
        error,
        DeserializeError::CrcMismatch {
            received: 0x1d15_1f94,
            ..
        }
    ));
}

#[test]
fn checksum_is_compared() {
    assert_eq!(decode_checked(&[7, 0, 1, 0, 0, 0], 1), Ok(state(7)));
    assert_eq!(
        decode_checked(&[7, 0, 1, 0, 0, 0], 0xAB),
        Err(DeserializeError::CrcMismatch {
            expected: 0xAB,
            received: 1
        })
    );
    assert_eq!(
        decode_checked(&[7, 1, 1, 0, 0, 0], 1),
        Err(DeserializeError::Postcard(PacketError::SerdeDeCustom))
    );
    assert_eq!(
        decode_checked(&[7, 1, 0, 0, 0], 1),
        Err(DeserializeError::Postcard(PacketError::DeserializeUnexpectedEnd))
    );
    assert_eq!(
        decode_checked(&[0xFF, 0xFF, 0xFF, 0xFF, 0x1F, 1, 0, 0, 0], 1),
        Err(DeserializeError::Postcard(PacketError::DeserializeBadVarint))
    );
    assert_eq!(decode_checked(&[1, 0, 0], 1), Err(DeserializeError::TooShort));
}

#[test]
fn errors_have_a_text() {
    assert_eq!(DeserializeError::CobsDecoding.message(), "COBS decoding failed");
    assert_eq!(DeserializeError::TooShort.message(), "Data too short to contain CRC");
    assert_eq!(
        DeserializeError::CrcMismatch {
            expected: 0xAB,
            received: 0
        }
        .message(),
        "CRC mismatch: expected 0xab, received 0x0"
    );
    assert_eq!(
        DeserializeError::Postcard(PacketError::DeserializeUnexpectedEnd).message(),
        "Postcard deserialization error: Hit the end of buffer, expected more data"
    );
    let texts = [
        (PacketError::DeserializeBadVarint,
            "Found a varint that didn't terminate. Is the usize too big for this platform?"),
        (PacketError::DeserializeBadEncoding, "The original data was not well encoded"),
        (PacketError::DeserializeBadCrc, "Bad CRC while deserializing"),
        (PacketError::SerdeDeCustom, "Serde Deserialization Error"),
    ];
    for (error, text) in texts {
        assert_eq!(
            DeserializeError::Postcard(error).message(),
            format!("Postcard deserialization error: {}", text)
        );
    }
}

#[test]
fn subjects_go_together() {
    assert!(state(3).is_consistent(&state(3)));
    assert!(!state(3).is_consistent(&state(2)));
    assert!(state(3).is_newer(&state(2)));
    assert!(!state(3).is_newer(&state(3)));
    assert_eq!(state(3).propagate(), [state(3); 4]);
}

#[test]
fn messages_take_time() {
    assert_eq!(message_nanos(0), 0);
    assert_eq!(message_nanos(125_000), 1_000_000_000);
}

#[test]
fn overlapping_messages_are_lost() {
    let mut network = Network::new();
    let channel = network.add_channel("link".to_string());
    assert_eq!(network.add_channel("other".to_string()), 1);
    assert_eq!(network.channel_name(channel), "link");
    let first = network.create_receiver(channel);
    let second = network.create_receiver(channel);
    assert_eq!((first, second), (0, 1));
    network.initialize_state(at(0));
    network.begin_transmission(channel, at(1));
    assert_eq!(network.deliveries(channel), vec![0, 1]);
    network.begin_transmission(channel, at(2));
    assert!(network.deliveries(channel).is_empty());
    assert_eq!(network.get_history().last().unwrap().busy_channels(), vec![0]);
    network.decrement_channel_counter(channel, at(3));
    assert!(network.deliveries(channel).is_empty());
    network.decrement_channel_counter(channel, at(4));
    assert_eq!(
        network.current_channel_state()[channel],
        ChannelState {
            counter: 0,
            conflict: false
        }
    );
    network.begin_transmission(channel, at(5));
    assert_eq!(network.deliveries(channel), vec![0, 1]);
    assert_eq!(network.history_size(), 6);
    assert_eq!(network.get_history()[2].timestamp, at(2));
    assert_eq!(network.get_history()[2].channels[0].counter, 2);
    assert!(network.get_history()[2].channels[0].conflict);
}

#[test]
fn nodes_keep_their_state() {
    let mut network = Network::new();
    network.add_node("a".to_string(), None, None, None, None);
    network.add_node("b".to_string(), None, None, None, None);
    network.initialize_state(at(0));
    network.set_comm_state(1, state(9), at(7));
    assert_eq!(network.current_node_state()[0].comm_state, state(0));
    assert_eq!(network.current_node_state()[1].comm_state, state(9));
    assert_eq!(network.get_history()[0].nodes[1].comm_state, state(0));
    assert_eq!(NodeState::new().colors, vec![Color { r: 0, g: 0, b: 0 }; 100]);
}

#[test]
fn grid_links_neighbours() {
    let network = create_grid("grid", 3, 4, at(0));
    assert_eq!(network.nodes.len(), 12);
    assert_eq!(network.current_channel_state().len(), 2 * 4 + 3 * 3);
    assert_eq!(network.current_node_state().len(), 12);
    assert_eq!(network.nodes[6].name, "grid r1 c2");
    assert_eq!(network.channel_name(2), "grid r0-1 c2");
    assert_eq!(network.channel_name(8 + 3), "grid r1 c0-1");
    for row in 0..3 {
        for col in 0..4 {
            let node = &network.nodes[row * 4 + col];
            if row < 2 {
                assert_eq!(node.south, network.nodes[(row + 1) * 4 + col].north);
            } else {
                assert_eq!(node.south, None);
            }
            if col < 3 {
                assert_eq!(node.east, network.nodes[row * 4 + col + 1].west);
            } else {
                assert_eq!(node.east, None);
            }
        }
    }
    let lone = create_grid("one", 1, 1, at(0));
    assert_eq!(lone.nodes[0].send_all(), Vec::<usize>::new());
}

#[test]
fn messages_go_to_every_neighbour() {
    let network = create_grid("grid", 2, 2, at(0));
    // The node in the upper right has neighbours to the south and west.
    let node = &network.nodes[1];
    assert_eq!(node.send_all(), vec![1, 2]);
    let messages = [vec![1u8], vec![2], vec![3], vec![4]];
    assert_eq!(node.send_directional(messages), vec![(1, vec![2]), (2, vec![4])]);
}

#[test]
fn nodes_follow_the_protocol() {
    let mut node = TrickleProtocol::new(state(5));
    node.on_interval_expiry();
    assert_eq!(node.interval_nanos, 2 * IMIN_NANOS);
    node.begin_interval(state(5));
    assert!(node.t_nanos >= IMIN_NANOS && node.t_nanos < 2 * IMIN_NANOS);
    assert_eq!(node.rest_nanos(), 2 * IMIN_NANOS - node.t_nanos);
    let messages = node.on_t_expiry().unwrap();
    assert_eq!(messages[3], state(5).serialize());
    // Its own state makes the node keep silent.
    assert_eq!(node.hear_message(&messages[0]), ProtocolStep::Continue);
    assert_eq!(node.counter, 1);
    assert!(node.on_t_expiry().is_none());
    // An outdated one makes it speak soon.
    assert_eq!(node.hear(Ok(state(4))), ProtocolStep::Restart);
    assert_eq!(node.interval_nanos, IMIN_NANOS);
    assert_eq!(node.current_state, state(5));
    node.begin_interval_at(7, state(5));
    assert_eq!((node.t_nanos, node.counter), (7, 0));
    // A newer one is taken over.
    assert_eq!(node.hear(Ok(state(6))), ProtocolStep::Adopt(state(6)));
    assert_eq!(node.current_state, state(6));
    assert_eq!(node.hear_message(&[1, 2, 3]), ProtocolStep::Continue);
    let event = next_event(&node.current_state);
    assert_eq!(node.on_event(event), ProtocolStep::Adopt(state(7)));
    for _ in 0..12 {
        node.on_interval_expiry();
    }
    assert_eq!(node.interval_nanos, IMAX_NANOS);
    assert_eq!(remaining_nanos(at(9), at(4)), Some(5));
    assert_eq!(remaining_nanos(at(9), at(9)), None);
}

fn recorded() -> Visualizer {
    let mut network = create_grid("grid", 2, 3, at(1_000));
    network.begin_transmission(0, at(3_000));
    network.begin_transmission(0, at(4_500));
    Visualizer::new(VisualizerData {
        snapshots: network.get_history().to_vec(),
        nodes: network.nodes.clone(),
        grid_rows: 2,
        grid_cols: 3,
    })
}

#[test]
fn viewer_moves_through_the_record() {
    let mut viewer = recorded();
    assert_eq!(viewer.snapshot_count(), 3);
    assert_eq!(viewer.node_count(), 6);
    assert_eq!(viewer.grid_size(), (2, 3));
    assert!(!viewer.previous());
    assert!(viewer.next());
    assert!(viewer.next());
    assert!(!viewer.next());
    assert_eq!(viewer.current_snapshot_index(), 2);
    assert_eq!(viewer.get_snapshot_time(2), 3_500);
    assert!(viewer.previous());
    assert_eq!(viewer.current_snapshot_index(), 1);
    viewer.select(9);
    assert_eq!(viewer.current_snapshot_index(), viewer.last_index());
    viewer.select(0);
    assert_eq!(viewer.current_snapshot_index(), 0);
    assert!(viewer.shows_node(5));
    assert!(!viewer.shows_node(6));
    // Three channels from north to south, four from east to west.
    assert!(viewer.shows_channel(6));
    assert!(!viewer.shows_channel(7));
}

#[test]
fn viewer_draws_every_channel() {
    let viewer = recorded();
    assert_eq!(viewer.node_idx_to_grid_pos(4), (1, 1));
    let edges = viewer.channel_edges();
    assert_eq!(edges.len(), 7);
    assert_eq!(
        edges[0],
        ChannelEdge {
            channel_id: 3,
            start: (0, 0),
            end: (0, 1)
        }
    );
    assert_eq!(
        edges[1],
        ChannelEdge {
            channel_id: 0,
            start: (0, 0),
            end: (1, 0)
        }
    );
    let mut ids: Vec<usize> = edges.iter().map(|edge| edge.channel_id).collect();
    ids.sort();
    assert_eq!(ids, (0..7).collect::<Vec<usize>>());
}

#[test]
fn viewer_colors_what_happens() {
    let mut viewer = recorded();
    assert_eq!(viewer.edge_color(0), Color { r: 100, g: 100, b: 100 });
    viewer.select(1);
    assert_eq!(viewer.edge_color(0), Color { r: 255, g: 255, b: 0 });
    viewer.select(2);
    assert_eq!(viewer.edge_color(0), Color { r: 255, g: 0, b: 0 });
    assert_eq!(viewer.edge_color(1), Color { r: 100, g: 100, b: 100 });
    assert_eq!(viewer.led_colors(5), vec![Color { r: 0, g: 0, b: 0 }; 20]);
    let quiet = ChannelState {
        counter: 0,
        conflict: false,
    };
    assert_eq!(channel_color(&quiet), Color { r: 100, g: 100, b: 100 });
}

fn waited(action: ProtocolAction) -> u64 {
    match action {
        ProtocolAction::Wait(nanos) => nanos,
        ProtocolAction::Send(_) => panic!("Expected to wait"),
    }
}

#[test]
fn intervals_run_in_order() {
    let mut node = ProtocolNode::new(state(5));
    let before = waited(node.next(ProtocolEvent::Restarted, state(5)));
    assert_eq!(node.phase, ProtocolPhase::Listening);
    assert!(IMIN_NANOS / 2 <= before && before < IMIN_NANOS);
    match node.next(ProtocolEvent::Elapsed, state(5)) {
        ProtocolAction::Send(messages) => {
            for message in messages {
                assert_eq!(CommState::deserialize(&message), Ok(state(5)));
            }
        }
        ProtocolAction::Wait(_) => panic!("Expected to send"),
    }
    assert_eq!(node.phase, ProtocolPhase::Sending);
    let behind = waited(node.next(ProtocolEvent::Sent, state(5)));
    assert_eq!(node.phase, ProtocolPhase::Resting);
    assert_eq!(before + behind, IMIN_NANOS);
    let before = waited(node.next(ProtocolEvent::Elapsed, state(5)));
    assert_eq!(node.protocol.interval_nanos, 2 * IMIN_NANOS);
    assert!(IMIN_NANOS <= before && before < 2 * IMIN_NANOS);
    // Enough was heard: nothing is sent.
    let message = state(5).serialize();
    assert_eq!(node.protocol.hear_message(&message), ProtocolStep::Continue);
    let behind = waited(node.next(ProtocolEvent::Elapsed, state(5)));
    assert_eq!(node.phase, ProtocolPhase::Resting);
    assert_eq!(before + behind, 2 * IMIN_NANOS);
    // News break the interval off.
    let news = state(6).serialize();
    assert_eq!(node.protocol.hear_message(&news), ProtocolStep::Adopt(state(6)));
    let before = waited(node.next(ProtocolEvent::Restarted, state(6)));
    assert_eq!(node.phase, ProtocolPhase::Listening);
    assert_eq!(node.protocol.interval_nanos, IMIN_NANOS);
    assert_eq!(node.protocol.current_state, state(6));
    assert!(before < IMIN_NANOS);
}

#[test]
fn messages_never_lower_the_state() {
    let mut node = TrickleProtocol::new(state(5));
    let mut highest = 5;
    for seq_num in [3, 7, 7, 2, 6, 9, 8] {
        assert_eq!(node.hear_message(&[9, 9, 9]), ProtocolStep::Continue);
        node.hear_message(&state(seq_num).serialize());
        highest = highest.max(seq_num);
        assert_eq!(node.current_state, state(highest));
    }
}

#[test]
fn messages_get_through_alone() {
    let mut network = create_grid("g", 1, 3, at(0));
    let left = network.nodes[0].east.unwrap();
    let right = network.nodes[2].west.unwrap();
    assert_ne!(left, right);
    let receiver = network.create_receiver(left);
    // What happens elsewhere does not matter.
    network.begin_transmission(left, at(1));
    network.begin_transmission(right, at(2));
    network.begin_transmission(right, at(3));
    network.set_comm_state(1, state(4), at(4));
    assert_eq!(network.deliveries(left), vec![receiver]);
    network.decrement_channel_counter(left, at(5));
    assert_eq!(network.current_channel_state()[left].counter, 0);
    // Another one that came and went in the meantime does.
    network.begin_transmission(left, at(6));
    network.begin_transmission(left, at(7));
    assert!(network.deliveries(left).is_empty());
    network.decrement_channel_counter(left, at(8));
    assert!(network.deliveries(left).is_empty());
    network.decrement_channel_counter(left, at(9));
    assert!(!network.current_channel_state()[left].conflict);
}

#[test]
fn one_damaged_byte_is_noticed_in_a_frame() {
    for seq_num in [0u32, 1, 300, 0xFFFF_FFFF] {
        let frame = state(seq_num).serialize();
        let mut code = 0;
        for i in 0..frame.len() - 1 {
            if i == code {
                code += frame[i] as usize;
                continue;
            }
            for damage in [0x01u8, 0x40, 0xFF] {
                let mut damaged = frame.clone();
                damaged[i] ^= damage;
                if damaged[i] != 0 {
                    assert!(matches!(
                        CommState::deserialize(&damaged),
                        Err(DeserializeError::CrcMismatch { .. })
                    ));
                }
            }
        }
    }
}
