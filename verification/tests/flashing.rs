use kelp::bootloader::{BlAction, Bootloader};
use kelp::chunk::Chunk;
use kelp::flasher::{count_chunks, FlashError, Flasher, Phase, Report};
use kelp::host::{Host, HostTransmission};
use kelp::proto::{
    trickle_params, AgeMicros, BlBroadcastPing, BlCodeProgress, CommState, CommType,
};
use kelp::time::Instant;

fn millis(millis: u64) -> Instant {
    Instant {
        nanos: millis as u128 * 1_000_000,
    }
}

fn answered_ping(seq_num: u64, latency_micros: u64) -> CommState {
    CommState {
        seq_num,
        type_: CommType::BlBroadcastPing(BlBroadcastPing {
            latency_micros,
            age_micros: AgeMicros::default(),
            data: Chunk::new(),
        }),
    }
}

fn progress(seq_num: u64, chunk_count: u32) -> CommState {
    CommState {
        seq_num,
        type_: CommType::BlCodeProgress(BlCodeProgress {
            hardware_id: 1,
            chunk_count,
        }),
    }
}

#[test]
fn chunks_are_counted() {
    assert_eq!(count_chunks(&[]), 0);
    assert_eq!(count_chunks(&[0; 1]), 1);
    assert_eq!(count_chunks(&[0; 256]), 1);
    assert_eq!(count_chunks(&[0; 257]), 2);
    assert!(Flasher::new(vec![]).is_none());
}

#[test]
fn program_reaches_the_nodes() {
    let params = trickle_params();
    let firmware: Vec<u8> = (0..600u32).map(|i| (i % 251) as u8).collect();
    let mut host = Host::new(&params, millis(0), 42);
    let mut flasher = Flasher::new(firmware.clone()).unwrap();
    let mut node = Bootloader::new(&params, millis(0), 0);
    let mut memory: Vec<u8> = Vec::new();
    let mut lost_one = false;
    let mut timeouts = Vec::new();
    let mut now = 0;
    assert_eq!(flasher.chunk_count(), 3);
    while flasher.phase() != Phase::Done {
        now += 1;
        assert!(flasher.can_begin(&host, millis(now)));
        let timeout = flasher.begin(&mut host, millis(now));
        timeouts.push((flasher.phase(), timeout));
        // The node misses the second chunk the first time.
        let missed = flasher.phase() == Phase::Write(1) && !lost_one;
        if missed {
            lost_one = true;
        } else if flasher.phase() != Phase::SwitchToApp {
            let heard = CommState::try_deserialize_packet(&mut host.comm_state().to_packet()).unwrap();
            match node.receive(heard, millis(now)) {
                BlAction::WritePage { address, data } => {
                    assert_eq!(address as usize, 0x0800_8000 + memory.len());
                    memory.extend_from_slice(data.as_slice());
                }
                BlAction::Nothing => {}
                BlAction::BranchToApp => panic!("left too soon"),
            }
        }
        // The host hears what the node makes of it.
        let answer = match flasher.phase() {
            Phase::Ping => Some(answered_ping(host.comm_state().seq_num, 2_000)),
            Phase::Progress => {
                let pages = (memory.len() + 255) / 256;
                Some(progress(host.comm_state().seq_num, pages as u32))
            }
            _ => None,
        };
        if let Some(answer) = answer {
            if let Some(newer) = host.hear(answer, millis(now)) {
                assert!(flasher.can_meet(&host, &newer, millis(now)));
                flasher.meet(&mut host, newer, millis(now));
            }
        }
        let report = flasher.end(&host).unwrap();
        if let Report::Latency { millis } = report {
            assert_eq!(millis, 2);
        }
    }
    assert_eq!(memory, firmware);
    assert_eq!(
        timeouts,
        vec![
            (Phase::SwitchToBootloader, 1_000),
            (Phase::Ping, 1_000),
            (Phase::Write(0), 50),
            (Phase::Write(1), 50),
            (Phase::Write(2), 50),
            (Phase::Progress, 1_000),
            (Phase::Write(1), 100),
            (Phase::Write(2), 100),
            (Phase::Progress, 1_000),
            (Phase::SwitchToApp, 1_000),
        ]
    );
    assert!(matches!(host.comm_state().type_, CommType::Init));
    assert_eq!(host.comm_state().seq_num, 8 + 9);
    assert_eq!(flasher.end(&host), Ok(Report::Nothing));
}

#[test]
fn bootloaders_are_called_over_other_traffic() {
    let params = trickle_params();
    let mut host = Host::new(&params, millis(0), 42);
    let mut flasher = Flasher::new(vec![1]).unwrap();
    flasher.begin(&mut host, millis(0));
    assert_eq!(host.comm_state().seq_num, 8);
    // A state with a higher number makes the flasher raise its own.
    let loud = CommState {
        seq_num: 10,
        type_: CommType::Init,
    };
    flasher.meet(&mut host, loud, millis(1));
    assert_eq!(host.comm_state().seq_num, 16);
    assert!(matches!(host.comm_state().type_, CommType::BlInit));
    // One that only differs in kind is taken over.
    let other = CommState {
        seq_num: 16,
        type_: CommType::BlUnknown,
    };
    assert!(flasher.can_meet(&host, &other, millis(500)));
    flasher.meet(&mut host, other, millis(500));
    assert!(matches!(host.comm_state().type_, CommType::BlUnknown));
    // It is passed on soon after that.
    assert!(matches!(host.transmit(millis(501)), HostTransmission::Wait(_)));
    assert!(matches!(host.transmit(millis(509)), HostTransmission::Send(_)));
}

// A flasher in the phase after the ping.
fn at_ping<'a>(params: &'a kelp::trickle::TrickleParams) -> (Host<'a>, Flasher) {
    let mut host = Host::new(params, millis(0), 42);
    let mut flasher = Flasher::new(vec![1; 300]).unwrap();
    flasher.begin(&mut host, millis(0));
    flasher.end(&host).unwrap();
    flasher.begin(&mut host, millis(1));
    (host, flasher)
}

#[test]
fn flashing_fails_without_nodes() {
    let params = trickle_params();
    let (host, mut flasher) = at_ping(&params);
    assert_eq!(flasher.end(&host), Err(FlashError::NoDevices));
    assert_eq!(flasher.phase(), Phase::Ping);
}

#[test]
fn flashing_fails_with_other_traffic() {
    let params = trickle_params();
    let (mut host, mut flasher) = at_ping(&params);
    let other = CommState {
        seq_num: 100,
        type_: CommType::BlInit,
    };
    flasher.meet(&mut host, other, millis(2));
    assert_eq!(flasher.end(&host), Err(FlashError::OtherTraffic));
    let (mut host, mut flasher) = at_ping(&params);
    let seq_num = host.comm_state().seq_num;
    flasher.meet(&mut host, progress(seq_num, 0), millis(2));
    assert_eq!(flasher.end(&host), Err(FlashError::TypeChanged));
}

#[test]
fn flashing_fails_with_impossible_progress() {
    let params = trickle_params();
    let (mut host, mut flasher) = at_ping(&params);
    let seq_num = host.comm_state().seq_num;
    flasher.meet(&mut host, answered_ping(seq_num, 1), millis(2));
    flasher.end(&host).unwrap();
    for now in 3..5 {
        flasher.begin(&mut host, millis(now));
        flasher.end(&host).unwrap();
    }
    assert_eq!(flasher.phase(), Phase::Progress);
    flasher.begin(&mut host, millis(6));
    let seq_num = host.comm_state().seq_num;
    host.hold(progress(seq_num, 3), millis(7));
    assert_eq!(flasher.end(&host), Err(FlashError::ProgressOutOfRange));
    // Nodes that never get on make the flasher wait longer and longer.
    let mut rounds = 0;
    let failure = loop {
        let seq_num = host.comm_state().seq_num;
        host.hold(progress(seq_num, 1), millis(7));
        match flasher.end(&host) {
            Ok(report) => assert_eq!(report, Report::Progress { chunk_count: 1 }),
            Err(error) => break error,
        }
        rounds += 1;
        flasher.begin(&mut host, millis(8));
        flasher.end(&host).unwrap();
        flasher.begin(&mut host, millis(9));
    };
    assert_eq!(failure, FlashError::TimeoutOverflow);
    assert_eq!(rounds, 68);
}

#[test]
fn sequence_numbers_run_out() {
    let params = trickle_params();
    let mut host = Host::new(&params, millis(0), 42);
    let flasher = Flasher::new(vec![1]).unwrap();
    host.hold(
        CommState {
            seq_num: u64::MAX - 7,
            type_: CommType::Init,
        },
        millis(0),
    );
    assert!(!flasher.can_begin(&host, millis(1)));
}
