use kelp::framer::Framer;
use kelp::proto::{CommState, CommType};

#[test]
fn frames_end_in_zero() {
    let mut framer = Framer::new();
    assert_eq!(framer.room(), 300);
    let frames = framer.feed(&[0, 0, 1, 2, 0, 3, 0, 4]);
    assert_eq!(frames, vec![vec![1, 2, 0], vec![3, 0]]);
    assert_eq!(framer.room(), 299);
    assert_eq!(framer.feed(&[0]), vec![vec![4, 0]]);
    assert_eq!(framer.room(), 300);
}

#[test]
fn overrun_ends_at_a_zero() {
    let mut framer = Framer::new();
    assert!(framer.feed(&[1; 200]).is_empty());
    assert_eq!(framer.room(), 100);
    // The buffer is full: what is in it is dropped.
    assert!(framer.feed(&[1; 100]).is_empty());
    assert_eq!(framer.room(), 300);
    // What comes up to the next zero belongs to the frame that was lost.
    assert!(framer.feed(&[2; 300]).is_empty());
    assert!(framer.feed(&[3, 4]).is_empty());
    assert_eq!(framer.room(), 298);
    assert_eq!(framer.feed(&[5, 0, 6, 7, 0]), vec![vec![6, 7, 0]]);
    assert_eq!(framer.room(), 300);
}

#[test]
fn longest_packet_is_found() {
    let mut framer = Framer::new();
    framer.feed(&[1; 300]);
    assert!(framer.feed(&[0]).is_empty());
    assert!(framer.feed(&[7; 299]).is_empty());
    assert_eq!(framer.room(), 1);
    let mut packet = vec![7; 299];
    packet.push(0);
    assert_eq!(framer.feed(&[0]), vec![packet]);
}

#[test]
fn pieces_do_not_matter() {
    let state = CommState {
        seq_num: 77,
        type_: CommType::BlInit,
    };
    let sent = state.transmission();
    for cut in 0..sent.len() {
        let mut framer = Framer::new();
        framer.feed(&[9, 9]);
        let mut frames = framer.feed(&sent[..cut]);
        frames.extend(framer.feed(&sent[cut..]));
        assert_eq!(frames, vec![vec![9, 9, 0], state.to_packet()]);
        assert_eq!(framer.room(), 300);
        let received = CommState::try_deserialize_packet(&mut frames[1]).unwrap();
        assert_eq!(received.seq_num, 77);
    }
}
