use std::collections::HashMap;
use std::collections::HashSet;
use vstd::prelude::*;

verus! {

/// Bytes in a CURVE key.
pub const CURVE_KEYSIZE: usize = 32;

/// Characters in a Z85-encoded CURVE key.
pub const CURVE_KEYSIZE_Z85: usize = 40;

/// Bytes in the name of a device to bind to.
pub const BIND_DEV_SZ: usize = 16;

/// An address and mask an incoming TCP peer is filtered by.
pub struct TcpAddressMask {}

/// The settings of a socket, each with its documented default.
pub struct Options {
    pub send_high_water_mark: i32,
    pub recv_high_water_mark: i32,
    pub affinity: u64,
    pub routing_id_size: u8,
    pub routing_id: [u8; 256],
    pub rate: i32,
    pub recovery_ivl: i32,
    pub multicast_hops: i32,
    pub multicast_max_trans_data_unit_szu: i32,
    pub send_buf_opt: i32,
    pub recv_buf_opt: i32,
    pub type_of_svc: i32,
    pub priority: i32,
    pub socket_type: i8,
    pub linger: i32,
    pub connect_timeout: i32,
    pub tcp_max_retrans_intvl: i32,
    pub reconnect_stop: i32,
    pub reconnect_intvl: i32,
    pub reconnect_intvl_max: i32,
    pub backlog: i32,
    pub max_msg_sz: i64,
    pub recv_timeo: i32,
    pub send_timeo: i32,
    pub ipv6: bool,
    pub immediate: i32,
    pub filter: bool,
    pub invert_matching: bool,
    pub recv_routing_id: bool,
    pub raw_socket: bool,
    pub raw_notify: bool,
    pub socks_proxy_address: String,
    pub socks_proxy_username: String,
    pub socks_proxy_password: String,
    pub tcp_keepalive: i32,
    pub tcp_keepalive_cnt: i32,
    pub tcp_keepalive_idle: i32,
    pub tcp_keepalive_intvl: i32,
    pub tcp_accept_filters: Vec<TcpAddressMask>,
    pub ipc_uid_accept_filters: HashSet<u32>,
    pub ipc_gid_accept_filters: HashSet<u32>,
    pub ipc_pid_accept_filters: HashSet<i32>,
    pub mechanism: i32,
    pub as_server: i32,
    pub zap_domain: String,
    pub plain_username: String,
    pub plain_password: String,
    pub curve_public_key: [u8; 32],
    pub curve_secret_key: [u8; 32],
    pub curve_server_key: [u8; 32],
    pub socket_id: i32,
    pub conflate: bool,
    pub handshake_intvl: i32,
    pub connected: bool,
    pub heartbeat_ttl: u16,
    pub heartbeat_intvl: i32,
    pub heartbeat_timeo: i32,
    pub use_fd: i32,
    pub bound_device: String,
    pub zap_enforce_domain: bool,
    pub loopback_fastpath: bool,
    pub multicast_loop: bool,
    pub in_batch_size: i32,
    pub out_batch_size: i32,
    pub zero_copy: bool,
    pub router_notify: i32,
    pub app_metadata: HashMap<String, String>,
    pub monitor_event_version: i32,
    pub hello_msg: Vec<u8>,
    pub can_send_hello_msg: bool,
    pub disconnect_msg: Vec<u8>,
    pub can_recv_disconnect_msg: bool,
    pub hiccup_msg: Vec<u8>,
    pub can_recv_hiccup_msg: bool,
    pub busy_poll: i32,

}

impl Options {
    /// The defaults: high-water marks of 1000 messages, 100 kb/s multicast
    /// rate over a 10 s recovery interval, no linger limit, reconnect after
    /// 100 ms, a backlog of 100, no size or time limits, the NULL
    /// mechanism, a 30 s handshake, batches of 8192 bytes, and no key,
    /// filter, address or protocol message set.
    pub fn new() -> (o: Self)
        ensures
            o.send_high_water_mark == 1000,
            o.recv_high_water_mark == 1000,
            o.affinity == 0,
            o.routing_id_size == 0,
            o.routing_id@ == Seq::new(256, |i: int| 0u8),
            o.rate == 100,
            o.recovery_ivl == 10000,
            o.multicast_hops == 1,
            o.multicast_max_trans_data_unit_szu == 1500,
            o.send_buf_opt == -1,
            o.recv_buf_opt == -1,
            o.type_of_svc == 0,
            o.priority == 0,
            o.socket_type == -1,
            o.linger == -1,
            o.connect_timeout == 0,
            o.tcp_max_retrans_intvl == 0,
            o.reconnect_stop == 0,
            o.reconnect_intvl == 100,
            o.reconnect_intvl_max == 0,
            o.backlog == 100,
            o.max_msg_sz == -1,
            o.recv_timeo == -1,
            o.send_timeo == -1,
            o.ipv6 == false,
            o.immediate == 0,
            o.filter == false,
            o.invert_matching == false,
            o.recv_routing_id == false,
            o.raw_socket == false,
            o.raw_notify == true,
            o.socks_proxy_address@ == Seq::<char>::empty(),
            o.socks_proxy_username@ == Seq::<char>::empty(),
            o.socks_proxy_password@ == Seq::<char>::empty(),
            o.tcp_keepalive == -1,
            o.tcp_keepalive_cnt == -1,
            o.tcp_keepalive_idle == -1,
            o.tcp_keepalive_intvl == -1,
            o.tcp_accept_filters@.len() == 0,
            o.ipc_uid_accept_filters@ == Set::<u32>::empty(),
            o.ipc_gid_accept_filters@ == Set::<u32>::empty(),
            o.ipc_pid_accept_filters@ == Set::<i32>::empty(),
            o.mechanism == 0,
            o.as_server == 0,
            o.zap_domain@ == Seq::<char>::empty(),
            o.plain_username@ == Seq::<char>::empty(),
            o.plain_password@ == Seq::<char>::empty(),
            o.curve_public_key@ == Seq::new(32, |i: int| 0u8),
            o.curve_secret_key@ == Seq::new(32, |i: int| 0u8),
            o.curve_server_key@ == Seq::new(32, |i: int| 0u8),
            o.socket_id == 0,
            o.conflate == false,
            o.handshake_intvl == 30000,
            o.connected == false,
            o.heartbeat_ttl == 0,
            o.heartbeat_intvl == 0,
            o.heartbeat_timeo == -1,
            o.use_fd == -1,
            o.bound_device@ == Seq::<char>::empty(),
            o.zap_enforce_domain == false,
            o.loopback_fastpath == false,
            o.multicast_loop == true,
            o.in_batch_size == 8192,
            o.out_batch_size == 8192,
            o.zero_copy == true,
            o.router_notify == 0,
            o.app_metadata@ == Map::<String, String>::empty(),
            o.monitor_event_version == 1,
            o.hello_msg@.len() == 0,
            o.can_send_hello_msg == false,
            o.disconnect_msg@.len() == 0,
            o.can_recv_disconnect_msg == false,
            o.hiccup_msg@.len() == 0,
            o.can_recv_hiccup_msg == false,
            o.busy_poll == 0,

    {
        Options {
            send_high_water_mark: 1000,
            recv_high_water_mark: 1000,
            affinity: 0,
            routing_id_size: 0,
            routing_id: [0u8; 256],
            rate: 100,
            recovery_ivl: 10000,
            multicast_hops: 1,
            multicast_max_trans_data_unit_szu: 1500,
            send_buf_opt: -1,
            recv_buf_opt: -1,
            type_of_svc: 0,
            priority: 0,
            socket_type: -1,
            linger: -1,
            connect_timeout: 0,
            tcp_max_retrans_intvl: 0,
            reconnect_stop: 0,
            reconnect_intvl: 100,
            reconnect_intvl_max: 0,
            backlog: 100,
            max_msg_sz: -1,
            recv_timeo: -1,
            send_timeo: -1,
            ipv6: false,
            immediate: 0,
            filter: false,
            invert_matching: false,
            recv_routing_id: false,
            raw_socket: false,
            raw_notify: true,
            socks_proxy_address: String::new(),
            socks_proxy_username: String::new(),
            socks_proxy_password: String::new(),
            tcp_keepalive: -1,
            tcp_keepalive_cnt: -1,
            tcp_keepalive_idle: -1,
            tcp_keepalive_intvl: -1,
            tcp_accept_filters: Vec::new(),
            ipc_uid_accept_filters: HashSet::new(),
            ipc_gid_accept_filters: HashSet::new(),
            ipc_pid_accept_filters: HashSet::new(),
            mechanism: 0,
            as_server: 0,
            zap_domain: String::new(),
            plain_username: String::new(),
            plain_password: String::new(),
            curve_public_key: [0u8; 32],
            curve_secret_key: [0u8; 32],
            curve_server_key: [0u8; 32],
            socket_id: 0,
            conflate: false,
            handshake_intvl: 30000,
            connected: false,
            heartbeat_ttl: 0,
            heartbeat_intvl: 0,
            heartbeat_timeo: -1,
            use_fd: -1,
            bound_device: String::new(),
            zap_enforce_domain: false,
            loopback_fastpath: false,
            multicast_loop: true,
            in_batch_size: 8192,
            out_batch_size: 8192,
            zero_copy: true,
            router_notify: 0,
            app_metadata: HashMap::new(),
            monitor_event_version: 1,
            hello_msg: Vec::new(),
            can_send_hello_msg: false,
            disconnect_msg: Vec::new(),
            can_recv_disconnect_msg: false,
            hiccup_msg: Vec::new(),
            can_recv_hiccup_msg: false,
            busy_poll: 0,

        }
    }
}

impl Default for Options {
    fn default() -> (o: Self)
        ensures
            o.send_high_water_mark == 1000,
            o.recv_high_water_mark == 1000,
            o.affinity == 0,
            o.routing_id_size == 0,
            o.routing_id@ == Seq::new(256, |i: int| 0u8),
            o.rate == 100,
            o.recovery_ivl == 10000,
            o.multicast_hops == 1,
            o.multicast_max_trans_data_unit_szu == 1500,
            o.send_buf_opt == -1,
            o.recv_buf_opt == -1,
            o.type_of_svc == 0,
            o.priority == 0,
            o.socket_type == -1,
            o.linger == -1,
            o.connect_timeout == 0,
            o.tcp_max_retrans_intvl == 0,
            o.reconnect_stop == 0,
            o.reconnect_intvl == 100,
            o.reconnect_intvl_max == 0,
            o.backlog == 100,
            o.max_msg_sz == -1,
            o.recv_timeo == -1,
            o.send_timeo == -1,
            o.ipv6 == false,
            o.immediate == 0,
            o.filter == false,
            o.invert_matching == false,
            o.recv_routing_id == false,
            o.raw_socket == false,
            o.raw_notify == true,
            o.socks_proxy_address@ == Seq::<char>::empty(),
            o.socks_proxy_username@ == Seq::<char>::empty(),
            o.socks_proxy_password@ == Seq::<char>::empty(),
            o.tcp_keepalive == -1,
            o.tcp_keepalive_cnt == -1,
            o.tcp_keepalive_idle == -1,
            o.tcp_keepalive_intvl == -1,
            o.tcp_accept_filters@.len() == 0,
            o.ipc_uid_accept_filters@ == Set::<u32>::empty(),
            o.ipc_gid_accept_filters@ == Set::<u32>::empty(),
            o.ipc_pid_accept_filters@ == Set::<i32>::empty(),
            o.mechanism == 0,
            o.as_server == 0,
            o.zap_domain@ == Seq::<char>::empty(),
            o.plain_username@ == Seq::<char>::empty(),
            o.plain_password@ == Seq::<char>::empty(),
            o.curve_public_key@ == Seq::new(32, |i: int| 0u8),
            o.curve_secret_key@ == Seq::new(32, |i: int| 0u8),
            o.curve_server_key@ == Seq::new(32, |i: int| 0u8),
            o.socket_id == 0,
            o.conflate == false,
            o.handshake_intvl == 30000,
            o.connected == false,
            o.heartbeat_ttl == 0,
            o.heartbeat_intvl == 0,
            o.heartbeat_timeo == -1,
            o.use_fd == -1,
            o.bound_device@ == Seq::<char>::empty(),
            o.zap_enforce_domain == false,
            o.loopback_fastpath == false,
            o.multicast_loop == true,
            o.in_batch_size == 8192,
            o.out_batch_size == 8192,
            o.zero_copy == true,
            o.router_notify == 0,
            o.app_metadata@ == Map::<String, String>::empty(),
            o.monitor_event_version == 1,
            o.hello_msg@.len() == 0,
            o.can_send_hello_msg == false,
            o.disconnect_msg@.len() == 0,
            o.can_recv_disconnect_msg == false,
            o.hiccup_msg@.len() == 0,
            o.can_recv_hiccup_msg == false,
            o.busy_poll == 0,

    {
        Options::new()
    }
}

} // verus!
