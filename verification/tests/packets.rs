use kelp::chunk::Chunk;
use kelp::packet::{decode_checked, seal};
use kelp::proto::{
    AgeMicros, BlBroadcastPing, BlCodeProgress, BlCodeWrite, CommState, CommType, MAX_PACKET_LEN,
};
use kelp::time::Instant;
use kelp::trickle::{TrickleOrd, TrickleOrdering};
use kelp::wire::PacketError;
use std::cmp::Ordering;

#[test]
fn test_init() {
    let state = CommState {
        seq_num: 42,
        type_: CommType::Init,
    };

    let mut buffer = [0u8; MAX_PACKET_LEN];
    let serialized = state.serialize_packet(&mut buffer);
    let deserialized =
        CommState::try_deserialize_packet(serialized).expect("Failed to deserialize packet");

    assert_eq!(state.seq_num, deserialized.seq_num);
    assert!(matches!(deserialized.type_, CommType::Init));
}

#[test]
fn test_bl_init() {
    let state = CommState {
        seq_num: 999,
        type_: CommType::BlInit,
    };

    let mut buffer = [0u8; MAX_PACKET_LEN];
    let serialized = state.serialize_packet(&mut buffer);
    let deserialized =
        CommState::try_deserialize_packet(serialized).expect("Failed to deserialize packet");

    assert_eq!(state.seq_num, deserialized.seq_num);
    assert!(matches!(deserialized.type_, CommType::BlInit));
}

#[test]
fn test_bl_broadcast_ping() {
    let state = CommState {
        seq_num: 5678,
        type_: CommType::BlBroadcastPing(BlBroadcastPing {
            latency_micros: 1500,
            age_micros: AgeMicros {
                age_micros: 3000,
                last_update: None,
            },
            data: Chunk::from_slice(&[0xAA; 256]).unwrap(),
        }),
    };

    let mut buffer = [0u8; MAX_PACKET_LEN];
    let serialized = state.serialize_packet(&mut buffer);
    let deserialized =
        CommState::try_deserialize_packet(serialized).expect("Failed to deserialize packet");

    assert_eq!(state.seq_num, deserialized.seq_num);
    if let CommType::BlBroadcastPing(ping) = deserialized.type_ {
        assert_eq!(ping.latency_micros, 1500);
        assert_eq!(ping.age_micros.age_micros, 3000);
    } else {
        panic!("Expected BlBroadcastPing variant");
    }
}

#[test]
fn test_bl_code_write() {
    let mut chunk_data = Chunk::new();
    chunk_data.push(0x01).unwrap();
    chunk_data.push(0x02).unwrap();
    chunk_data.push(0x03).unwrap();
    chunk_data.push(0xFF).unwrap();

    let state = CommState {
        seq_num: 1000,
        type_: CommType::BlCodeWrite(BlCodeWrite {
            hardware_id: 0xDEADBEEF,
            chunk_count: 100,
            chunk_index: 42,
            chunk_data,
        }),
    };

    let mut buffer = [0u8; MAX_PACKET_LEN];
    let serialized = state.serialize_packet(&mut buffer);
    let deserialized =
        CommState::try_deserialize_packet(serialized).expect("Failed to deserialize packet");

    assert_eq!(state.seq_num, deserialized.seq_num);
    if let CommType::BlCodeWrite(write) = deserialized.type_ {
        assert_eq!(write.hardware_id, 0xDEADBEEF);
        assert_eq!(write.chunk_count, 100);
        assert_eq!(write.chunk_index, 42);
        assert_eq!(write.chunk_data.len(), 4);
        assert_eq!(write.chunk_data.as_slice()[0], 0x01);
        assert_eq!(write.chunk_data.as_slice()[3], 0xFF);
    } else {
        panic!("Expected BlCodeWrite variant");
    }
}

#[test]
fn test_bl_code_progress() {
    let state = CommState {
        seq_num: 2048,
        type_: CommType::BlCodeProgress(BlCodeProgress {
            hardware_id: 0x12345678,
            chunk_count: 50,
        }),
    };

    let mut buffer = [0u8; MAX_PACKET_LEN];
    let serialized = state.serialize_packet(&mut buffer);
    let deserialized =
        CommState::try_deserialize_packet(serialized).expect("Failed to deserialize packet");

    assert_eq!(state.seq_num, deserialized.seq_num);
    if let CommType::BlCodeProgress(progress) = deserialized.type_ {
        assert_eq!(progress.hardware_id, 0x12345678);
        assert_eq!(progress.chunk_count, 50);
    } else {
        panic!("Expected BlCodeProgress variant");
    }
}

#[test]
fn test_packet_with_large_chunk() {
    let mut chunk_data = Chunk::new();
    for i in 0..chunk_data.capacity() {
        chunk_data.push(i as u8).unwrap();
    }

    let state = CommState {
        seq_num: 99999,
        type_: CommType::BlCodeWrite(BlCodeWrite {
            hardware_id: 0xCAFEBABE,
            chunk_count: 200,
            chunk_index: 150,
            chunk_data,
        }),
    };

    let mut buffer = [0u8; MAX_PACKET_LEN];
    let serialized = state.serialize_packet(&mut buffer);
    let deserialized =
        CommState::try_deserialize_packet(serialized).expect("Failed to deserialize packet");

    assert_eq!(state.seq_num, deserialized.seq_num);
    if let CommType::BlCodeWrite(write) = deserialized.type_ {
        assert_eq!(write.hardware_id, 0xCAFEBABE);
        assert_eq!(write.chunk_count, 200);
        assert_eq!(write.chunk_index, 150);
        assert_eq!(write.chunk_data.len(), write.chunk_data.capacity());
        for i in 0..write.chunk_data.len() {
            assert_eq!(write.chunk_data.as_slice()[i], i as u8);
        }
    } else {
        panic!("Expected BlCodeWrite variant");
    }
}

// The payload of a kind that is not known: a sequence number, a discriminant
// and a number that comes with it.
fn unknown_payload(seq_num: u64, discriminant: u32, data: u32) -> Vec<u8> {
    postcard::to_allocvec(&(seq_num, discriminant, data)).unwrap()
}

#[test]
fn test_unknown() {
    let mut serialized = seal(&unknown_payload(5555, 0x7E, 0xDEADBEEF));
    let deserialized =
        CommState::try_deserialize_packet(&mut serialized).expect("Failed to deserialize packet");

    assert_eq!(5555, deserialized.seq_num);
    assert!(matches!(deserialized.type_, CommType::Unknown));
}

#[test]
fn test_bl_unknown() {
    let mut serialized = seal(&unknown_payload(6666, 0xFE, 0xCAFEBABE));
    let deserialized =
        CommState::try_deserialize_packet(&mut serialized).expect("Failed to deserialize packet");

    assert_eq!(6666, deserialized.seq_num);
    assert!(matches!(deserialized.type_, CommType::BlUnknown));
}

#[test]
fn test_corrupted_data_bad_crc() {
    let state = CommState {
        seq_num: 12345,
        type_: CommType::BlInit,
    };

    let mut buffer = [0u8; MAX_PACKET_LEN];
    let serialized = state.serialize_packet(&mut buffer);

    // Make a copy that we can corrupt
    let mut corrupted = [0u8; MAX_PACKET_LEN];
    corrupted[..serialized.len()].copy_from_slice(serialized);

    // Corrupt a byte in the middle of the data (not the CRC itself)
    // COBS encoding puts a 0 delimiter at the end, so corrupt before that
    if corrupted.len() > 5 {
        corrupted[2] ^= 0xFF; // Flip all bits in byte 2
    }

    // Try to deserialize - should fail with bad CRC
    let result = CommState::try_deserialize_packet(&mut corrupted[..serialized.len()]);

    assert!(result.is_err());
    assert!(matches!(
        result.unwrap_err(),
        PacketError::DeserializeBadCrc
    ));
}

#[test]
fn sealed_bytes_are_exact() {
    // The check value of CRC-32/BZIP2 is 0xFC891918.
    let mut expected = vec![14u8];
    expected.extend_from_slice(b"123456789");
    expected.extend_from_slice(&[0x18, 0x19, 0x89, 0xFC, 0x00]);
    assert_eq!(seal(b"123456789"), expected);
}

#[test]
fn payload_bytes_are_exact() {
    let state = CommState {
        seq_num: 300,
        type_: CommType::BlCodeWrite(BlCodeWrite {
            hardware_id: 1,
            chunk_count: 128,
            chunk_index: 2,
            chunk_data: Chunk::from_slice(&[7, 0, 9]).unwrap(),
        }),
    };
    assert_eq!(
        state.payload(),
        vec![0xAC, 0x02, 0x82, 0x01, 1, 0x80, 0x01, 2, 3, 7, 0, 9]
    );
}

#[test]
fn payload_decoding_finds_every_error() {
    let end = CommState::decode_payload(&[0x05]).unwrap_err();
    assert_eq!(end, PacketError::DeserializeUnexpectedEnd);
    let long = CommState::decode_payload(&[0xFF; 11]).unwrap_err();
    assert_eq!(long, PacketError::DeserializeBadVarint);
    let wide = CommState::decode_payload(&[0x05, 0x80, 0x02]).unwrap_err();
    assert_eq!(wide, PacketError::SerdeDeCustom);
    let full = {
        let mut payload = vec![0x05, 0x81, 0x01, 0x00, 0x00, 0x81, 0x02];
        payload.extend_from_slice(&[0; 300]);
        CommState::decode_payload(&payload).unwrap_err()
    };
    assert_eq!(full, PacketError::SerdeDeCustom);
    let cut = CommState::decode_payload(&[0x05, 0x81, 0x01, 0x00, 0x00, 0x03, 1, 2]).unwrap_err();
    assert_eq!(cut, PacketError::DeserializeUnexpectedEnd);
}

#[test]
fn damaged_frames_are_refused() {
    assert_eq!(
        CommState::try_deserialize_packet(&mut [0x05, 0x01, 0x00]).unwrap_err(),
        PacketError::DeserializeBadEncoding
    );
    assert_eq!(
        CommState::try_deserialize_packet(&mut []).unwrap_err(),
        PacketError::DeserializeBadEncoding
    );
    assert_eq!(
        CommState::try_deserialize_packet(&mut [0x03, 0x01, 0x01, 0x00]).unwrap_err(),
        PacketError::DeserializeUnexpectedEnd
    );
}

#[test]
fn checksum_decides() {
    let unframed = [0x2A, 0x00, 0x78, 0x56, 0x34, 0x12];
    let state = decode_checked(&unframed, 0x12345678).unwrap();
    assert_eq!(state.seq_num, 42);
    assert!(matches!(state.type_, CommType::Init));
    assert_eq!(
        decode_checked(&unframed, 0x12345679).unwrap_err(),
        PacketError::DeserializeBadCrc
    );
    assert_eq!(
        decode_checked(&unframed[..3], 0).unwrap_err(),
        PacketError::DeserializeUnexpectedEnd
    );
}

#[test]
fn short_buffers_take_no_packet() {
    let state = CommState {
        seq_num: 42,
        type_: CommType::Init,
    };
    let len = state.to_packet().len();
    let mut buffer = vec![0x55u8; len - 1];
    assert!(state.try_serialize_packet(&mut buffer).is_none());
    assert_eq!(buffer, vec![0x55u8; len - 1]);
    let mut buffer = vec![0x55u8; len + 2];
    let packet = state.try_serialize_packet(&mut buffer).unwrap().to_vec();
    assert_eq!(packet, state.to_packet());
    assert_eq!(&buffer[len..], &[0x55, 0x55]);
}

#[test]
fn largest_packet_fits() {
    let state = CommState {
        seq_num: u64::MAX,
        type_: CommType::BlBroadcastPing(BlBroadcastPing {
            latency_micros: u64::MAX,
            age_micros: AgeMicros {
                age_micros: u64::MAX,
                last_update: None,
            },
            data: Chunk::from_slice(&[0xAA; 256]).unwrap(),
        }),
    };
    let packet = state.to_packet();
    assert!(packet.len() <= MAX_PACKET_LEN);
    assert_eq!(packet.iter().position(|b| *b == 0), Some(packet.len() - 1));
    let sent = state.transmission();
    assert_eq!(sent[0], 0);
    assert_eq!(&sent[1..], &packet[..]);
}

#[test]
fn last_update_stays_behind() {
    let mut state = CommState {
        seq_num: 1,
        type_: CommType::BlBroadcastPing(BlBroadcastPing::default()),
    };
    state.update(Instant { nanos: 5_000 });
    let received = CommState::try_deserialize_packet(&mut state.to_packet()).unwrap();
    match (state.type_, received.type_) {
        (CommType::BlBroadcastPing(sent), CommType::BlBroadcastPing(got)) => {
            assert_eq!(sent.age_micros.last_update, Some(Instant { nanos: 5_000 }));
            assert_eq!(got.age_micros.last_update, None);
        }
        _ => panic!("Expected pings"),
    }
}

fn code_write(index: u32, data: &[u8]) -> CommType {
    CommType::BlCodeWrite(BlCodeWrite {
        hardware_id: 1,
        chunk_count: 3,
        chunk_index: index,
        chunk_data: Chunk::from_slice(data).unwrap(),
    })
}

fn progress(chunk_count: u32) -> CommType {
    CommType::BlCodeProgress(BlCodeProgress {
        hardware_id: 1,
        chunk_count,
    })
}

#[test]
fn states_are_weighed() {
    let state = |seq_num: u64, type_: CommType| CommState { seq_num, type_ };
    assert_eq!(
        state(1, CommType::BlInit).consider(&state(2, CommType::Init)),
        TrickleOrdering::Greater
    );
    assert_eq!(
        state(2, CommType::Init).consider(&state(1, CommType::BlInit)),
        TrickleOrdering::Less
    );
    assert_eq!(
        state(1, CommType::Init).consider(&state(1, CommType::Unknown)),
        TrickleOrdering::Consistent
    );
    assert_eq!(
        state(1, CommType::Unknown).consider(&state(1, CommType::Init)),
        TrickleOrdering::Less
    );
    assert_eq!(
        state(1, CommType::Unknown).consider(&state(1, CommType::BlInit)),
        TrickleOrdering::Greater
    );
    assert_eq!(
        state(1, progress(4)).consider(&state(1, CommType::BlUnknown)),
        TrickleOrdering::Consistent
    );
    assert_eq!(
        state(1, progress(4)).consider(&state(1, progress(3))),
        TrickleOrdering::Greater
    );
    assert_eq!(
        state(1, progress(4)).consider(&state(1, progress(5))),
        TrickleOrdering::Less
    );
    assert_eq!(
        state(1, code_write(1, &[1, 2])).consider(&state(1, code_write(1, &[1, 2, 0]))),
        TrickleOrdering::Greater
    );
    assert_eq!(
        state(1, code_write(1, &[9])).consider(&state(1, code_write(2, &[1]))),
        TrickleOrdering::Greater
    );
    assert_eq!(
        state(1, code_write(1, &[9])).consider(&state(1, code_write(1, &[9]))),
        TrickleOrdering::Consistent
    );
}

#[test]
fn ordering_follows_comparison() {
    assert_eq!(TrickleOrdering::from_ordering(Ordering::Less), TrickleOrdering::Less);
    assert_eq!(TrickleOrdering::from_ordering(Ordering::Equal), TrickleOrdering::Consistent);
    assert_eq!(TrickleOrdering::from_ordering(Ordering::Greater), TrickleOrdering::Greater);
    assert_eq!(
        TrickleOrdering::Consistent.then_with(|| TrickleOrdering::Greater),
        TrickleOrdering::Greater
    );
    assert_eq!(
        TrickleOrdering::Less.then_with(|| TrickleOrdering::Greater),
        TrickleOrdering::Less
    );
    assert_eq!(
        TrickleOrdering::then(TrickleOrdering::Consistent, TrickleOrdering::Less),
        TrickleOrdering::Less
    );
    assert_eq!(
        TrickleOrdering::then(TrickleOrdering::Greater, TrickleOrdering::Less),
        TrickleOrdering::Greater
    );
}

#[test]
fn discriminants_tell_the_side() {
    assert_eq!(CommType::Init.discriminant(), 0x00);
    assert_eq!(CommType::Unknown.discriminant(), 0x7F);
    assert_eq!(CommType::BlInit.discriminant(), 0x80);
    assert_eq!(progress(0).discriminant(), 0x83);
    assert_eq!(CommType::BlUnknown.discriminant(), 0xFF);
    assert!(!CommType::Unknown.is_bl());
    assert!(CommType::BlInit.is_bl());
    assert!(matches!(CommType::default(), CommType::Init));
}

#[test]
fn ages_have_no_drift() {
    let mut stepwise = AgeMicros::default();
    stepwise.update(Instant { nanos: 500 });
    let mut direct = stepwise;
    for nanos in [1_999u128, 2_400, 7_777] {
        stepwise.update(Instant { nanos });
    }
    direct.update(Instant { nanos: 7_777 });
    assert_eq!(stepwise, direct);
    assert_eq!(stepwise.age_micros, 7);
    assert_eq!(stepwise.last_update, Some(Instant { nanos: 7_500 }));
}

#[test]
fn state_is_propagated_in_four_directions() {
    let state = CommState {
        seq_num: 7,
        type_: code_write(2, &[4, 5]),
    };
    for sent in state.propagate() {
        assert_eq!(sent.payload(), state.payload());
    }
}

#[test]
fn chunks_hold_what_fits() {
    assert!(Chunk::from_slice(&[1; 257]).is_none());
    let mut chunk = Chunk::from_slice(&[1; 255]).unwrap();
    assert_eq!(chunk.push(2), Ok(()));
    assert_eq!(chunk.push(3), Err(3));
    assert_eq!(chunk.len(), 256);
    assert_eq!(chunk.clone().as_slice()[255], 2);
    assert_eq!(Chunk::default().len(), 0);
}

// What a node ends up with when it hears some states in turn.
fn after_hearing(ours: &CommState, heard: &[CommState]) -> CommState {
    let mut state = ours.clone();
    for other in heard {
        if state.consider(other) == TrickleOrdering::Greater {
            state = other.clone();
        }
    }
    state
}

#[test]
fn newest_state_is_kept() {
    let state = |seq_num: u64, type_: CommType| CommState { seq_num, type_ };
    let heard = vec![
        state(2, CommType::Unknown),
        state(3, code_write(1, &[4])),
        state(3, CommType::BlInit),
        state(3, code_write(1, &[5])),
        state(1, CommType::BlUnknown),
    ];
    for shift in 0..heard.len() {
        let mut turned = heard.clone();
        turned.rotate_left(shift);
        let end = after_hearing(&state(0, CommType::Init), &turned);
        assert_eq!(end.payload(), heard[3].payload());
        for other in &heard {
            assert_ne!(end.consider(other), TrickleOrdering::Greater);
        }
    }
}

#[test]
fn consensus_is_the_least_progress() {
    let report = |count: u32| CommState {
        seq_num: 5,
        type_: progress(count),
    };
    let end = after_hearing(&report(7), &[report(9), report(4), report(6), report(4), report(8)]);
    assert_eq!(end.payload(), report(4).payload());
    let kept = after_hearing(&report(3), &[report(9), report(4)]);
    assert_eq!(kept.payload(), report(3).payload());
    // The largest hardware id wins, whatever the counts are.
    let other = |hardware_id: u32, chunk_count: u32| CommState {
        seq_num: 5,
        type_: CommType::BlCodeProgress(BlCodeProgress {
            hardware_id,
            chunk_count,
        }),
    };
    let end = after_hearing(&other(2, 1), &[other(7, 9), other(3, 0), other(7, 6), other(7, 8)]);
    assert_eq!(end.payload(), other(7, 6).payload());
}

#[test]
fn chunks_of_every_size_travel() {
    for len in 0..=256usize {
        let contents: [Vec<u8>; 3] = [
            vec![0xFF; len],
            vec![0x00; len],
            (0..len).map(|i| (i % 7) as u8).collect(),
        ];
        for content in contents {
            let state = CommState {
                seq_num: len as u64,
                type_: code_write(len as u32, &content),
            };
            let mut packet = state.to_packet();
            assert!(packet.len() <= MAX_PACKET_LEN);
            assert_eq!(packet.iter().position(|b| *b == 0), Some(packet.len() - 1));
            let received = CommState::try_deserialize_packet(&mut packet).unwrap();
            assert_eq!(received.payload(), state.payload());
        }
    }
}

// Whether each byte of a frame is a code: each tells where the next one stands.
fn codes(frame: &[u8]) -> Vec<bool> {
    let mut is_code = vec![false; frame.len()];
    let mut at = 0;
    while frame[at] != 0 {
        is_code[at] = true;
        at += frame[at] as usize;
    }
    is_code
}

#[test]
fn one_damaged_byte_is_noticed() {
    for len in [0usize, 1, 40, 256] {
        for content in [vec![0xFF; len], (0..len).map(|i| (i % 7) as u8).collect()] {
            let state = CommState {
                seq_num: 300,
                type_: code_write(2, &content),
            };
            let packet = state.to_packet();
            let is_code = codes(&packet);
            assert!(is_code[0]);
            for i in 0..packet.len() - 1 {
                if is_code[i] {
                    continue;
                }
                for damage in [0x01u8, 0x80, 0xFF] {
                    let mut damaged = packet.clone();
                    damaged[i] ^= damage;
                    if damaged[i] == 0 {
                        continue;
                    }
                    assert_eq!(
                        CommState::try_deserialize_packet(&mut damaged.clone()).err(),
                        Some(PacketError::DeserializeBadCrc)
                    );
                    assert_eq!(
                        CommState::try_deserialize_app_packet(&mut damaged).err(),
                        Some(PacketError::DeserializeBadCrc)
                    );
                }
            }
        }
    }
}
