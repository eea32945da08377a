use kelp::proto::trickle_params;
use kelp::rng::Rng;
use kelp::time::Instant;
use kelp::trickle::{weigh_u64, TrickleOrdering, TrickleParams, TricklePollResult, TrickleState};

fn micros(micros: u64) -> Instant {
    Instant {
        nanos: micros as u128 * 1000,
    }
}

#[test]
fn generator_follows_its_seed() {
    let mut ours = Rng::new(42);
    let mut theirs = oorandom::Rand32::new(42);
    for _ in 0..20 {
        assert_eq!(ours.range(5, 1000), theirs.rand_range(5..1000));
    }
    let mut other = Rng::new(43);
    let mut same = Rng::new(42);
    let drawn: Vec<u32> = (0..8).map(|_| other.range(0, 1 << 30)).collect();
    let repeated: Vec<u32> = (0..8).map(|_| same.range(0, 1 << 30)).collect();
    assert_ne!(drawn, repeated);
}

// When a fresh timer first asks to send.
fn first_send(timer: &mut TrickleState) -> u64 {
    for now in 0..20_000u64 {
        if timer.poll(micros(now)) == TricklePollResult::Send {
            return now;
        }
    }
    panic!("nothing was sent");
}

#[test]
fn send_point_lies_in_the_second_half() {
    let params = trickle_params();
    for seed in 0..50 {
        let mut timer = TrickleState::new(&params, micros(0), seed);
        let point = first_send(&mut timer);
        // 10000 microseconds are 9 draw units of 1024 microseconds.
        assert!(point == 4 * 1024 || point == 5 * 1024 || point == 6 * 1024 || point == 7 * 1024
            || point == 8 * 1024);
    }
}

#[test]
fn interval_doubles_to_the_longest() {
    let params = TrickleParams {
        i_min_micros: 10_000,
        i_max_micros: 35_000,
        k: 1,
    };
    let mut timer = TrickleState::new(&params, micros(0), 1);
    let mut begun = 0u64;
    for length in [10_000u64, 20_000, 35_000, 35_000] {
        // Pass the send point just before the end, then ask how long the interval lasts.
        let end = begun + length;
        assert!(timer.can_poll(micros(end - 1)));
        assert_eq!(timer.poll(micros(end - 1)), TricklePollResult::Send);
        assert_eq!(timer.poll(micros(end - 1)), TricklePollResult::Wait(1));
        assert!(matches!(timer.poll(micros(end)), TricklePollResult::Wait(_)));
        begun = end;
    }
}

#[test]
fn consistent_states_suppress_a_send() {
    let params = trickle_params();
    let mut timer = TrickleState::new(&params, micros(0), 3);
    assert!(timer.can_count());
    timer.got_consistent_state();
    assert_eq!(timer.poll(micros(9_999)), TricklePollResult::Wait(1));
    // The count starts anew with the next interval.
    assert!(matches!(timer.poll(micros(10_000)), TricklePollResult::Wait(_)));
    assert_eq!(timer.poll(micros(29_999)), TricklePollResult::Send);
}

#[test]
fn news_restart_the_shortest_interval() {
    let params = trickle_params();
    let mut timer = TrickleState::new(&params, micros(0), 3);
    assert_eq!(timer.poll(micros(10_000)), TricklePollResult::Send);
    assert!(matches!(timer.poll(micros(10_000)), TricklePollResult::Wait(_)));
    assert!(timer.can_restart(micros(12_000)));
    timer.got_outdated_state(micros(12_000));
    assert_eq!(timer.poll(micros(22_000)), TricklePollResult::Send);
    assert_eq!(timer.poll(micros(21_999)), TricklePollResult::Wait(1));
    timer.got_new_state(micros(30_000));
    assert_eq!(timer.poll(micros(40_000)), TricklePollResult::Send);
}

#[test]
fn timer_knows_its_limits() {
    let tiny = TrickleParams {
        i_min_micros: 2_048,
        i_max_micros: 100,
        k: 1,
    };
    let mut timer = TrickleState::new(&tiny, micros(0), 0);
    assert!(timer.can_poll(micros(2_048)));
    assert_eq!(timer.poll(micros(2_048)), TricklePollResult::Send);
    // The next interval would be too short to draw a point in.
    assert!(!timer.can_poll(micros(2_048)));
    assert!(!timer.can_restart(Instant { nanos: u128::MAX }));
}

#[test]
fn numbers_are_weighed() {
    assert_eq!(weigh_u64(5, 4), TrickleOrdering::Less);
    assert_eq!(weigh_u64(5, 5), TrickleOrdering::Consistent);
    assert_eq!(weigh_u64(5, 6), TrickleOrdering::Greater);
}

#[test]
fn instants_count_whole_micros() {
    let early = Instant { nanos: 1_500 };
    let late = Instant { nanos: 4_499 };
    assert_eq!(late.micros_since(early), 2);
    assert_eq!(early.micros_since(late), 0);
    assert_eq!(early.add_micros(3), Instant { nanos: 4_500 });
    let far = Instant {
        nanos: ((u64::MAX as u128) + 6) * 1000,
    };
    assert_eq!(far.micros_since(Instant { nanos: 0 }), 5);
}

#[test]
fn first_decision_counts() {
    let all = [
        TrickleOrdering::Less,
        TrickleOrdering::Consistent,
        TrickleOrdering::Greater,
    ];
    for a in all {
        assert_eq!(TrickleOrdering::then(TrickleOrdering::Consistent, a), a);
        assert_eq!(TrickleOrdering::then(a, TrickleOrdering::Consistent), a);
        for b in all {
            if a != TrickleOrdering::Consistent {
                assert_eq!(TrickleOrdering::then(a, b), a);
            }
            for c in all {
                assert_eq!(
                    TrickleOrdering::then(TrickleOrdering::then(a, b), c),
                    TrickleOrdering::then(a, TrickleOrdering::then(b, c))
                );
            }
        }
    }
}

#[test]
fn one_send_in_an_interval() {
    let params = trickle_params();
    for seed in 0..20 {
        for heard_at in [0u64, 4_000, 9_998] {
            let mut timer = TrickleState::new(&params, micros(0), seed);
            let mut point = None;
            let mut sends = 0;
            let mut heard_before = true;
            for now in 0..9_999u64 {
                if now == heard_at {
                    timer.got_consistent_state();
                    heard_before = point.is_none();
                }
                if timer.poll(micros(now)) == TricklePollResult::Send {
                    sends += 1;
                    point = Some(now);
                }
            }
            // What is heard first suppresses the send, what is heard later does not.
            assert_eq!(sends, if heard_before { 0 } else { 1 });
            // The send point lies at least a draw unit before the end.
            assert!(point.map_or(true, |now| 5_000 - 1_024 <= now && now <= 10_000 - 1_024));
        }
    }
}
