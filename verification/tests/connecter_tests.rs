use zmq_core::stream_connecter_base::{
    ConnecterAction, Options, StreamConnecterBase, TimerId, RETIRED_FD,
};
use zmq_core::stream_listener_base::{
    EngineKind, ListenerAction, ListenerError, Options as ListenerOptions, StreamListenerBase,
};
use zmq_core::tcp_connecter::{
    ConnectResult, OpenResult, Options as TcpOptions, TcpConnecter, TcpConnecterAction,
};

fn connecter(ivl: i32, max: i32) -> StreamConnecterBase {
    StreamConnecterBase::new(
        "tcp://127.0.0.1:5555".to_string(),
        Options { reconnect_ivl: ivl, reconnect_ivl_max: max, raw_socket: false },
        true,
    )
}

#[test]
fn reconnect_backoff_doubles_to_max() {
    let mut c = connecter(100, 1000);
    let ivls: Vec<i32> = (0..6).map(|_| c.next_reconnect_ivl(0)).collect();
    assert_eq!(ivls, vec![100, 200, 400, 800, 1000, 1000]);
}

#[test]
fn reconnect_backoff_caps_first_interval() {
    let mut c = connecter(5000, 1000);
    assert_eq!(c.next_reconnect_ivl(0), 1000);
}

#[test]
fn reconnect_jitter_without_max() {
    let mut c = connecter(100, 0);
    assert_eq!(c.next_reconnect_ivl(1234), 100 + 34);
    assert_eq!(c.next_reconnect_ivl(7), 107);
    assert_eq!(c.current_reconnect_ivl, 100);
    let mut d = connecter(100, 0);
    d.current_reconnect_ivl = i32::MAX - 10;
    assert_eq!(d.next_reconnect_ivl(50), i32::MAX);
    let ivl = d.get_new_reconnect_ivl();
    assert!(ivl >= i32::MAX - 10);
}

#[test]
fn reconnect_timer_and_plug() {
    let mut c = connecter(100, 1000);
    assert_eq!(c.process_plug(), vec![ConnecterAction::AddReconnectTimer(100)]);
    assert!(c.reconnect_timer_started);
    assert_eq!(c.timer_event(TimerId::ReconnectTimer), vec![ConnecterAction::StartConnecting]);
    assert!(!c.reconnect_timer_started);
    let mut off = connecter(0, 0);
    assert_eq!(off.add_reconnect_timer(), vec![]);
    let mut now = StreamConnecterBase::new(
        "x".to_string(),
        Options { reconnect_ivl: 100, reconnect_ivl_max: 0, raw_socket: false },
        false,
    );
    assert_eq!(now.process_plug(), vec![ConnecterAction::StartConnecting]);
}

#[test]
fn connecter_term_cleans_up() {
    let mut c = connecter(100, 1000);
    c.add_reconnect_timer();
    c.handle = Some(4);
    c.s = 9;
    assert_eq!(
        c.process_term(0),
        vec![
            ConnecterAction::CancelReconnectTimer,
            ConnecterAction::RmFd(4),
            ConnecterAction::Close(9)
        ]
    );
    assert_eq!(c.s, RETIRED_FD);
    assert_eq!(c.process_term(0), vec![]);
}

#[test]
fn listener_plug_term_and_engine() {
    let mut l = StreamListenerBase::new(ListenerOptions { raw_socket: true, affinity: 0 });
    assert_eq!(l.get_local_address(), Err(ListenerError::SocketNotInitialized));
    assert_eq!(l.process_plug(), vec![]);
    l.handle = Some(3);
    l.socket = 3;
    assert_eq!(l.get_local_address(), Ok(String::new()));
    assert_eq!(l.process_plug(), vec![ListenerAction::SetPollin(3)]);
    assert_eq!(l.create_engine(7), EngineKind::Raw);
    assert_eq!(l.process_term(), vec![ListenerAction::RmFd(3)]);
    assert_eq!(l.socket, -1);
    assert!(l.handle.is_none());
}

#[test]
fn tcp_connecter_paths() {
    let (mut c, first) = TcpConnecter::new(TcpOptions { connect_timeout: 500, reconnect_stop: 1 }, false);
    assert_eq!(first, vec![TcpConnecterAction::StartConnecting]);
    assert_eq!(
        c.start_connecting(OpenResult::InProgress),
        vec![
            TcpConnecterAction::AddHandle,
            TcpConnecterAction::SetPollout,
            TcpConnecterAction::ConnectDelayed,
            TcpConnecterAction::AddConnectTimer(500)
        ]
    );
    assert!(c.connect_timer_started);
    assert_eq!(
        c.out_event(ConnectResult::Refused),
        vec![
            TcpConnecterAction::CancelConnectTimer,
            TcpConnecterAction::RmHandle,
            TcpConnecterAction::SendConnFailed,
            TcpConnecterAction::Close,
            TcpConnecterAction::Terminate
        ]
    );
    assert_eq!(
        c.out_event(ConnectResult::Connected { tuned: true }),
        vec![TcpConnecterAction::RmHandle, TcpConnecterAction::CreateEngine]
    );
    assert_eq!(
        c.out_event(ConnectResult::Connected { tuned: false }),
        vec![TcpConnecterAction::RmHandle, TcpConnecterAction::Close, TcpConnecterAction::AddReconnectTimer]
    );
    assert_eq!(
        c.start_connecting(OpenResult::Failed),
        vec![TcpConnecterAction::Close, TcpConnecterAction::AddReconnectTimer]
    );
    assert_eq!(c.process_term(7), vec![TcpConnecterAction::TerminateBase(7)]);
    let (mut d, none) = TcpConnecter::new(TcpOptions { connect_timeout: 0, reconnect_stop: 0 }, true);
    assert!(none.is_empty());
    assert_eq!(
        d.out_event(ConnectResult::Refused),
        vec![TcpConnecterAction::RmHandle, TcpConnecterAction::Close, TcpConnecterAction::AddReconnectTimer]
    );
}
