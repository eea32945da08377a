use kelp::bootloader::{BlAction, Bootloader, Reception, Transmission};
use kelp::chunk::Chunk;
use kelp::host::{Heard, Host, HostTransmission};
use kelp::node::{app_trickle_params, AppNode, AppReception, AppTransmission};
use kelp::packet::seal;
use kelp::proto::{
    trickle_params, AgeMicros, BlBroadcastPing, BlCodeProgress, BlCodeWrite, CommState, CommType,
};
use kelp::time::Instant;

fn micros(micros: u64) -> Instant {
    Instant {
        nanos: micros as u128 * 1000,
    }
}

fn write(seq_num: u64, chunk_index: u32, data: &[u8]) -> CommState {
    CommState {
        seq_num,
        type_: CommType::BlCodeWrite(BlCodeWrite {
            hardware_id: 1,
            chunk_count: 9,
            chunk_index,
            chunk_data: Chunk::from_slice(data).unwrap(),
        }),
    }
}

fn progress(seq_num: u64, chunk_count: u32) -> CommState {
    CommState {
        seq_num,
        type_: CommType::BlCodeProgress(BlCodeProgress {
            hardware_id: 1,
            chunk_count,
        }),
    }
}

fn ping(seq_num: u64, latency_micros: u64, age_micros: u64) -> CommState {
    CommState {
        seq_num,
        type_: CommType::BlBroadcastPing(BlBroadcastPing {
            latency_micros,
            age_micros: AgeMicros {
                age_micros,
                last_update: None,
            },
            data: Chunk::new(),
        }),
    }
}

// What a bootloader sends once its timer asks for it.
fn spoken(node: &mut Bootloader, begun: u64) -> CommState {
    let now = micros(begun + 10_000);
    assert!(node.can_transmit(now));
    match node.transmit(now) {
        Transmission::Send(sent) => {
            for bytes in &sent {
                assert_eq!(bytes, &sent[0]);
                assert_eq!(bytes[0], 0);
            }
            CommState::try_deserialize_packet(&mut sent[0].clone()[1..]).unwrap()
        }
        Transmission::Wait(_) => panic!("nothing was sent"),
    }
}

#[test]
fn pages_are_written_in_order() {
    let params = trickle_params();
    let mut node = Bootloader::new(&params, micros(0), 0);
    assert!(node.should_branch_to_app());
    let first = node.receive(write(1, 0, &[1, 2]), micros(10));
    assert!(matches!(
        first,
        BlAction::WritePage { address: 0x0800_8000, ref data } if data.as_slice() == [1, 2]
    ));
    assert!(!node.should_branch_to_app());
    // A repetition is not written again, a gap is not written at all.
    assert!(matches!(node.receive(write(2, 0, &[1, 2]), micros(20)), BlAction::Nothing));
    assert!(matches!(node.receive(write(3, 2, &[5]), micros(30)), BlAction::Nothing));
    assert!(matches!(
        node.receive(write(4, 1, &[3]), micros(40)),
        BlAction::WritePage { address: 0x0800_8100, .. }
    ));
    // The node answers a question for progress with its own.
    assert!(matches!(node.receive(progress(5, 9), micros(50)), BlAction::Nothing));
    match spoken(&mut node, 50).type_ {
        CommType::BlCodeProgress(progress) => assert_eq!(progress.chunk_count, 2),
        _ => panic!("Expected BlCodeProgress variant"),
    }
    // Another subject starts the count anew.
    node.receive(
        CommState {
            seq_num: 6,
            type_: CommType::BlInit,
        },
        micros(60),
    );
    assert!(matches!(
        node.receive(write(7, 0, &[1]), micros(70)),
        BlAction::WritePage { address: 0x0800_8000, .. }
    ));
}

#[test]
fn pings_are_marked_once() {
    let params = trickle_params();
    let mut node = Bootloader::new(&params, micros(0), 0);
    node.receive(ping(1, 0, 2_500), micros(10));
    match spoken(&mut node, 10).type_ {
        CommType::BlBroadcastPing(ping) => {
            assert_eq!(ping.latency_micros, 2_500);
            assert_eq!(ping.age_micros.age_micros, 12_500);
        }
        _ => panic!("Expected BlBroadcastPing variant"),
    }
    node.receive(ping(1, 9_999, 80_000), micros(20_000));
    match spoken(&mut node, 20_000).type_ {
        CommType::BlBroadcastPing(ping) => assert_eq!(ping.latency_micros, 9_999),
        _ => panic!("Expected BlBroadcastPing variant"),
    }
}

#[test]
fn application_ends_the_bootloader() {
    let params = trickle_params();
    let mut node = Bootloader::new(&params, micros(0), 0);
    let init = CommState {
        seq_num: 1,
        type_: CommType::Init,
    };
    assert!(matches!(
        node.receive_frame(&mut init.to_packet(), micros(10)),
        Reception::Heard(BlAction::BranchToApp)
    ));
    assert!(node.should_branch_to_app());
}

#[test]
fn frames_without_packets_are_ignored() {
    let params = trickle_params();
    let mut node = Bootloader::new(&params, micros(0), 0);
    assert!(matches!(node.receive_frame(&mut [5, 0], micros(10)), Reception::Ignored));
    let news = CommState {
        seq_num: 1,
        type_: CommType::BlUnknown,
    };
    assert!(matches!(
        node.receive_frame(&mut news.to_packet(), Instant { nanos: u128::MAX }),
        Reception::Refused
    ));
    assert!(!node.can_receive(&news, Instant { nanos: u128::MAX }));
    assert!(node.can_receive(&news, micros(10)));
    assert!(matches!(
        node.receive_frame(&mut news.to_packet(), micros(10)),
        Reception::Heard(BlAction::Nothing)
    ));
}

#[test]
fn consistent_states_keep_the_bootloader_silent() {
    let params = trickle_params();
    let same = CommState {
        seq_num: 0,
        type_: CommType::BlInit,
    };
    // Left alone, it sends in its first interval.
    let mut node = Bootloader::new(&params, micros(0), 0);
    assert!(matches!(node.transmit(micros(9_999)), Transmission::Send(_)));
    let mut node = Bootloader::new(&params, micros(0), 0);
    assert!(node.can_receive(&same, micros(1_000)));
    node.receive(same, micros(1_000));
    assert!(matches!(node.transmit(micros(9_999)), Transmission::Wait(1)));
    assert!(node.should_branch_to_app());
}

#[test]
fn outdated_states_restart_the_bootloader() {
    let params = trickle_params();
    let mut node = Bootloader::new(&params, micros(0), 0);
    let news = CommState {
        seq_num: 4,
        type_: CommType::BlInit,
    };
    let stale = CommState {
        seq_num: 3,
        type_: CommType::BlInit,
    };
    node.receive(news, micros(0));
    node.receive(stale, micros(9_000));
    // The first interval would have been over by now.
    assert!(matches!(node.transmit(micros(12_000)), Transmission::Wait(_)));
    assert!(matches!(node.transmit(micros(18_999)), Transmission::Send(_)));
}

fn reported(node: &mut Bootloader, begun: u64) -> u32 {
    match spoken(node, begun).type_ {
        CommType::BlCodeProgress(progress) => progress.chunk_count,
        _ => panic!("Expected BlCodeProgress variant"),
    }
}

#[test]
fn progress_is_the_lesser_of_both() {
    let params = trickle_params();
    let mut node = Bootloader::new(&params, micros(0), 0);
    node.receive(write(1, 0, &[1]), micros(10));
    node.receive(write(2, 1, &[2]), micros(20));
    node.receive(progress(3, 9), micros(30));
    assert_eq!(reported(&mut node, 30), 2);
    // A node that is further behind is repeated, one that is ahead is not.
    node.receive(progress(3, 1), micros(50_000));
    assert_eq!(reported(&mut node, 50_000), 1);
    node.receive(progress(3, 2), micros(90_000));
    assert_eq!(reported(&mut node, 90_000), 1);
    // What was written here stays.
    assert!(matches!(
        node.receive(write(4, 2, &[3]), micros(130_000)),
        BlAction::WritePage { address: 0x0800_8200, .. }
    ));
}

#[test]
fn bootloaders_agree_on_the_least_progress() {
    let params = trickle_params();
    let mut nodes: Vec<Bootloader> = Vec::new();
    for pages in [3u32, 1, 2] {
        let mut node = Bootloader::new(&params, micros(0), 0);
        for page in 0..pages {
            node.receive(write(1 + page as u64, page, &[7]), micros(page as u64));
        }
        node.receive(progress(9, 5), micros(10));
        nodes.push(node);
    }
    let own: Vec<u32> = nodes.iter_mut().map(|node| reported(node, 10)).collect();
    assert_eq!(own, vec![3, 1, 2]);
    for node in nodes.iter_mut() {
        for count in &own {
            node.receive(progress(9, *count), micros(50_000));
        }
        // The report that was taken over is repeated when an old one is heard.
        node.receive(progress(8, 0), micros(60_000));
        assert_eq!(reported(node, 60_000), 1);
    }
}

#[test]
fn applications_do_not_read_what_bootloaders_say() {
    let params = app_trickle_params();
    // A chunk that breaks off behind its kind.
    let broken = seal(&[7, 0x82, 0x01]);
    assert!(CommState::try_deserialize_packet(&mut broken.clone()).is_err());
    let read = CommState::try_deserialize_app_packet(&mut broken.clone()).unwrap();
    assert_eq!(read.seq_num, 7);
    assert!(matches!(read.type_, CommType::BlUnknown));
    let mut node = AppNode::new(&params, micros(0), 0);
    assert_eq!(
        node.receive_frame(&mut broken.clone(), micros(1)),
        AppReception::Heard { wake: true }
    );
    let mut bootloader = Bootloader::new(&params, micros(0), 0);
    assert!(matches!(
        bootloader.receive_frame(&mut broken.clone(), micros(1)),
        Reception::Ignored
    ));
    for (kind, unknown) in [(vec![0x00], false), (vec![0x7E], true), (vec![0xFF, 0x01], false)] {
        let mut payload = vec![3];
        payload.extend(kind);
        let state = CommState::try_deserialize_app_packet(&mut seal(&payload)).unwrap();
        assert_eq!(matches!(state.type_, CommType::Unknown), unknown);
    }
    // A kind has to fit a byte.
    assert!(CommState::try_deserialize_app_packet(&mut seal(&[3, 0x80, 0x02])).is_err());
}

#[test]
fn host_hands_news_on() {
    let params = trickle_params();
    let mut host = Host::new(&params, micros(0), 42);
    let news = CommState {
        seq_num: 3,
        type_: CommType::BlInit,
    };
    assert!(matches!(host.hear_frame(&mut [0], micros(1)), Heard::Ignored));
    assert!(matches!(host.hear_frame(&mut [7, 7, 0], micros(1)), Heard::Ignored));
    match host.hear_frame(&mut news.to_packet(), micros(1)) {
        Heard::Newer(state) => assert_eq!(state.seq_num, 3),
        _ => panic!("Expected news"),
    }
    assert_eq!(host.comm_state().seq_num, 0);
    assert!(host.can_hold(micros(1)));
    host.hold(news.clone(), micros(1));
    assert_eq!(host.comm_state().seq_num, 3);
    // A consistent state makes the host keep silent.
    assert!(host.can_hear(&news, micros(2)));
    assert!(matches!(host.hear_frame(&mut news.to_packet(), micros(2)), Heard::Noted));
    assert!(matches!(host.transmit(micros(10_000)), HostTransmission::Wait(1)));
    // An outdated one makes it speak soon.
    let stale = CommState::default();
    assert!(host.hear(stale, micros(10_000)).is_none());
    assert!(host.can_transmit(micros(20_000)));
    match host.transmit(micros(20_000)) {
        HostTransmission::Send(sent) => assert_eq!(sent, news.transmission()),
        HostTransmission::Wait(_) => panic!("nothing was sent"),
    }
    let refused = host.hear_frame(
        &mut CommState::default().to_packet(),
        Instant { nanos: u128::MAX },
    );
    assert!(matches!(refused, Heard::Refused));
}

#[test]
fn application_passes_news_on() {
    let params = app_trickle_params();
    let mut node = AppNode::new(&params, micros(0), 0);
    let news = ping(4, 1, 1);
    assert!(node.can_receive(&news, micros(5)));
    assert_eq!(
        node.receive_frame(&mut news.to_packet(), micros(5)),
        AppReception::Heard { wake: true }
    );
    assert_eq!(
        node.receive_frame(&mut news.to_packet(), micros(6)),
        AppReception::Heard { wake: false }
    );
    assert_eq!(node.receive_frame(&mut [1, 0], micros(6)), AppReception::Ignored);
    assert!(node.receive(CommState::default(), micros(7)));
    let now = micros(100_007);
    assert!(node.can_transmit(now));
    match node.transmit(now) {
        AppTransmission::Send(mut sent) => {
            let state = CommState::try_deserialize_packet(&mut sent[2][1..]).unwrap();
            assert_eq!(state.seq_num, 4);
            assert!(matches!(state.type_, CommType::BlUnknown));
        }
        AppTransmission::Wait(_) => panic!("nothing was sent"),
    }
    assert_eq!(
        node.receive_frame(
            &mut CommState::default().to_packet(),
            Instant { nanos: u128::MAX }
        ),
        AppReception::Refused
    );
}
