use zmq_core::tcp_address::TcpAddressMask;
use zmq_core::tcp_listener::{AcceptSetup, ListenSource, ListenerOptions, TcpListenerZmq};
use zmq_core::tcp::TcpOptions;

#[test]
fn test_tcp_options_default() {
    let opts = TcpOptions::default();
    assert_eq!(opts.sndbuf, -1);
    assert_eq!(opts.rcvbuf, -1);
    assert_eq!(opts.tos, 0);
    assert_eq!(opts.priority, 0);
    assert_eq!(opts.loopback_fastpath, false);
    assert_eq!(opts.busy_poll, 0);
    assert!(opts.bound_device.is_empty());
    assert_eq!(opts.ipv6, false);
}

#[test]
fn tcp_listener_decisions_follow_its_options() {
    let plain = TcpListenerZmq::new(ListenerOptions {
        use_fd: -1,
        tos: 0,
        priority: 0,
        tcp_accept_filters: Vec::new(),
    });
    assert_eq!(plain.listen_source(), ListenSource::Bind);
    assert_eq!(plain.accept_setup(), AcceptSetup { tos: None, priority: None });
    assert_eq!(plain.accept_outcome(7, &[127, 0, 0, 1]), Ok(7));
    assert_eq!(plain.get_endpoint(), "");

    let mut tuned = TcpListenerZmq::new(ListenerOptions {
        use_fd: 12,
        tos: 0x10,
        priority: 3,
        tcp_accept_filters: vec![TcpAddressMask::new()],
    });
    assert_eq!(tuned.listen_source(), ListenSource::ExistingFd(12));
    assert_eq!(tuned.accept_setup(), AcceptSetup { tos: Some(0x10), priority: Some(3) });
    assert_eq!(tuned.accept_outcome(9, &[10, 0, 0, 2]), Ok(9));
    tuned.set_endpoint(String::from("127.0.0.1:5555"));
    assert_eq!(tuned.get_endpoint(), "127.0.0.1:5555");
}

#[test]
fn tcp_open_plan_follows_the_options() {
    let defaults = TcpOptions::default();
    assert_eq!(
        zmq_core::tcp::tcp_open_plan(&defaults),
        zmq_core::tcp::TcpTuning { sndbuf: None, rcvbuf: None, loopback_fastpath: false, busy_poll: None }
    );
    let mut tuned = TcpOptions::default();
    tuned.sndbuf = 0;
    tuned.rcvbuf = 65536;
    tuned.loopback_fastpath = true;
    tuned.busy_poll = 50;
    assert_eq!(
        zmq_core::tcp::tcp_open_plan(&tuned),
        zmq_core::tcp::TcpTuning { sndbuf: Some(0), rcvbuf: Some(65536), loopback_fastpath: true, busy_poll: Some(50) }
    );
    tuned.busy_poll = -3;
    assert_eq!(zmq_core::tcp::tcp_open_plan(&tuned).busy_poll, None);
}
