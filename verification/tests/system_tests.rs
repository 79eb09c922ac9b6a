use zmq_core::signaler::{poll_timeout, valid, wait_outcome, WaitOutcome, RETIRED_FD};
use zmq_core::sockaddr_storage::{zmq_socklen_to_c_int, ZmqSockaddrStorage};
use zmq_core::socket_poller::{Event, Item, PollerError, SocketPoller, CAFEBABE};
use zmq_core::thread::thread_name;

#[test]
fn socket_poller_add_and_wait() {
    let mut p = SocketPoller::new();
    assert_eq!(p.tag, CAFEBABE);
    let mut events: Vec<Event> = Vec::new();
    assert_eq!(p.wait(&mut events, None), Err(PollerError::InvalidInput));
    assert_eq!(p.wait(&mut events, Some(10)), Ok(0));
    assert_eq!(p.add(1, 100, 1, false), Ok(()));
    assert!(p.need_rebuild);
    assert!(!p.has_signaler);
    assert_eq!(p.add(1, 200, 1, true), Err(PollerError::InvalidInput));
    assert_eq!(p.add(2, 200, 4, true), Ok(()));
    assert!(p.has_signaler);
    assert_eq!(p.items[1], Item { socket: Some(2), fd: 0, user_data: 200, events: 4 });
    assert_eq!(p.wait(&mut events, None), Ok(0));
    assert!(!p.need_rebuild);
}

#[test]
fn sockaddr_storage_is_zero() {
    let s = ZmqSockaddrStorage::new();
    assert_eq!(s.ss_family, 0);
    assert!(s.ss_pad2.iter().all(|b| *b == 0));
    assert_eq!(zmq_socklen_to_c_int(16), 16);
    assert_eq!(zmq_socklen_to_c_int(u32::MAX), -1);
}

#[test]
fn signaler_decisions() {
    assert_eq!(wait_outcome(-1), WaitOutcome::Failed);
    assert_eq!(wait_outcome(0), WaitOutcome::TimedOut);
    assert_eq!(wait_outcome(1), WaitOutcome::Signalled);
    assert_eq!(poll_timeout(None), -1);
    assert_eq!(poll_timeout(Some(250)), 250);
    assert!(!valid(RETIRED_FD));
    assert!(valid(5));
}

#[test]
fn thread_names_are_cut_to_fifteen_bytes() {
    assert_eq!(&thread_name(b"Reaper")[..7], b"Reaper\0");
    let long = thread_name(b"abcdefghijklmnopqrstuvwxyz");
    assert_eq!(&long[..15], b"abcdefghijklmno");
    assert_eq!(long[15], 0);
}

use zmq_core::pgm_socket::{Options as PgmOptions, PgmSocket};

#[test]
fn test_pgm_socket_creation() {
    let options = PgmOptions {
        rate: 40 * 1000,
        recovery_ivl: 10,
        multicast_hops: 2,
        multicast_maxtpdu: 1500,
        sndbuf: 65536,
        rcvbuf: 65536,
        in_batch_size: 8192,
    };

    let socket = PgmSocket::new(true, options);
    assert!(socket.receiver);
    assert!(socket.sock.is_none());
}

#[test]
fn pgm_socket_window_and_stubs() {
    let options = PgmOptions {
        rate: 40 * 1000,
        recovery_ivl: 10,
        multicast_hops: 2,
        multicast_maxtpdu: 1500,
        sndbuf: 65536,
        rcvbuf: 65536,
        in_batch_size: 8192,
    };
    let mut socket = PgmSocket::new(false, options);
    // 5000 bytes a second for 10 s, in packets of 1500 bytes.
    assert_eq!(socket.compute_sqns(1500), 33);
    assert_eq!(socket.compute_sqns(100_000), 1);
    assert_eq!(socket.compute_sqns(-1500), -33);
    assert_eq!(socket.init(false, "eth0;239.192.1.1"), Ok(()));
    assert_eq!(socket.send(b"abc"), Ok(3));
    assert_eq!(socket.get_rx_timeout(), -1);
    assert_eq!(socket.get_tx_timeout(), -1);
    assert_eq!(socket.get_sender_fds(), (0, 0, 0, 0));
    assert_eq!(socket.get_receiver_fds(), (0, 0));
    let (data, tsi) = socket.receive().unwrap();
    assert!(data.is_empty() && tsi.is_none());
}
