use vstd::prelude::*;

pub mod mechanism;
pub mod null_mechanism;
pub mod object;
pub mod options;
pub mod own;
pub mod pair;
pub mod peer;
pub mod pgm_sender;
pub mod pgm_socket;
pub mod pipe;
pub mod plain_client;
pub mod plain_common;
pub mod plain_server;
pub mod poll;
pub mod poller;
pub mod poller_base;
pub mod pollset;
pub mod polling_util;
pub mod proxy;
pub mod pull;
pub mod push;
pub mod radio;
pub mod radix_tree;
pub mod random;
pub mod reaper;
pub mod raw_decoder;
pub mod raw_encoder;
pub mod raw_engine;
pub mod rep;
pub mod req;
pub mod router;
pub mod scatter;
pub mod secure_allocator;
pub mod select;
pub mod server;
pub mod session_base;
pub mod sha1;
pub mod signaler;
pub mod socket;
pub mod socket_base;
pub mod sockaddr_storage;
pub mod socket_poller;
pub mod socks;
pub mod socks_connecter;
pub mod stream;
pub mod stream_connecter_base;
pub mod stream_engine_base;
pub mod stream_listener_base;
pub mod sub;
pub mod tcp;
pub mod tcp_address;
pub mod tcp_connecter;
pub mod tcp_listener;
pub mod thread;
pub mod text;
pub mod timers;
pub mod tipc_address;
pub mod tipc_connecter;
pub mod tipc_listener;
pub mod trie;

verus! {

} // verus!
