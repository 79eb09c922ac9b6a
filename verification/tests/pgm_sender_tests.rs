use std::collections::VecDeque;
use zmq_core::pgm_sender::{PgmAction, PgmMsg, PgmSender, V1Encoder, RX_TIMER_ID, TX_TIMER_ID};
use zmq_core::pgm_socket::Options;

fn options(maxtpdu: usize) -> Options {
    Options {
        rate: 100,
        recovery_ivl: 10,
        multicast_hops: 1,
        multicast_maxtpdu: maxtpdu,
        sndbuf: 0,
        rcvbuf: 0,
        in_batch_size: 8192,
    }
}

fn ready_sender(maxtpdu: usize) -> PgmSender {
    let mut s = PgmSender::new(&options(maxtpdu));
    assert_eq!(s.init(false, "eth0;239.192.1.1:5555"), Ok(()));
    assert_eq!(s.out_buffer().len(), maxtpdu);
    assert!(s.out_buffer().iter().all(|b| *b == 0));
    let actions = s.plug();
    assert_eq!(
        actions,
        vec![
            PgmAction::AddFd(0),
            PgmAction::AddFd(0),
            PgmAction::AddFd(0),
            PgmAction::AddFd(0),
            PgmAction::SetPollin(0),
            PgmAction::SetPollin(0),
            PgmAction::SetPollin(0),
            PgmAction::SetPollout(0),
        ]
    );
    s
}

#[test]
fn pgm_sender_packs_messages_behind_the_offset() {
    let mut s = ready_sender(64);
    let mut session = VecDeque::new();
    session.push_back(PgmMsg::new(vec![1, 2, 3], false));
    session.push_back(PgmMsg::new(vec![4], true));
    let actions = s.out_event(&mut session);
    assert!(actions.is_empty());
    assert!(session.is_empty());
    assert_eq!(&s.out_buffer()[..10], &[0, 0, 4, 0, 1, 2, 3, 2, 1, 4]);
    assert!(s.out_buffer()[10..].iter().all(|b| *b == 0));
}

#[test]
fn pgm_sender_with_nothing_to_send_stops_watching_for_room() {
    let mut s = ready_sender(64);
    let mut session = VecDeque::new();
    assert_eq!(s.out_event(&mut session), vec![PgmAction::ResetPollout(0)]);
    assert!(s.out_buffer().iter().all(|b| *b == 0));
}

#[test]
fn pgm_sender_splits_a_frame_over_packets() {
    let mut s = ready_sender(8);
    let mut session = VecDeque::new();
    session.push_back(PgmMsg::new((10u8..20).collect(), false));
    assert!(s.out_event(&mut session).is_empty());
    assert_eq!(s.out_buffer(), &[0, 0, 11, 0, 10, 11, 12, 13]);
    session.push_back(PgmMsg::new(vec![7], false));
    assert!(s.out_event(&mut session).is_empty());
    assert_eq!(s.out_buffer(), &[0, 0, 14, 15, 16, 17, 18, 19]);
    assert_eq!(s.out_event(&mut VecDeque::new()), vec![PgmAction::ResetPollout(0)]);
    assert_eq!(s.out_buffer(), &[0, 0, 14, 15, 16, 17, 18, 19]);
}

#[test]
fn pgm_sender_long_frames_carry_an_eight_byte_size() {
    let mut s = ready_sender(16);
    let mut session = VecDeque::new();
    session.push_back(PgmMsg::new(vec![9u8; 300], true));
    assert!(s.out_event(&mut session).is_empty());
    assert_eq!(s.out_buffer(), &[0, 0, 0xff, 0, 0, 0, 0, 0, 0, 1, 0x2d, 1, 9, 9, 9, 9]);
}

#[test]
fn pgm_sender_offset_skips_continued_messages() {
    let mut s = ready_sender(8);
    let mut session = VecDeque::new();
    session.push_back(PgmMsg::new(vec![1, 2, 3, 4, 5], true));
    assert!(s.out_event(&mut session).is_empty());
    assert_eq!(s.out_buffer(), &[0, 0, 6, 1, 1, 2, 3, 4]);
    session.push_back(PgmMsg::new(vec![9], false));
    assert!(s.out_event(&mut session).is_empty());
    assert_eq!(s.out_buffer(), &[0, 4, 5, 2, 0, 9, 3, 4]);
    assert!(session.is_empty());
}

#[test]
fn pgm_sender_timers_and_unplug() {
    let mut s = ready_sender(32);
    assert!(s.in_event().is_empty());
    let mut session = VecDeque::new();
    assert!(s.timer_event(RX_TIMER_ID, &mut session).is_empty());
    assert_eq!(
        s.timer_event(TX_TIMER_ID, &mut session),
        vec![PgmAction::SetPollout(0), PgmAction::ResetPollout(0)]
    );
    assert!(!s.has_tx_timer());
    assert!(!s.has_handshake_stage());
    assert_eq!(
        s.unplug(),
        vec![PgmAction::RmFd(0), PgmAction::RmFd(0), PgmAction::RmFd(0), PgmAction::RmFd(0)]
    );
}

#[test]
fn v1_encoder_hands_out_the_stream_in_pieces() {
    let mut e = V1Encoder::new(0);
    e.load_msg(PgmMsg::new(vec![5, 6], true));
    let mut out = vec![0u8; 3];
    assert_eq!(e.encode(&mut out, 1), 2);
    assert_eq!(out, vec![0, 3, 1]);
    assert_eq!(e.encode(&mut out, 0), 2);
    assert_eq!(out, vec![5, 6, 1]);
    assert_eq!(e.encode(&mut out, 0), 0);
}
