use zmq_core::tipc_address::{
    sockaddr_tipc, tipc_addr, tipc_cluster, tipc_node, tipc_zone, AddressError, TipcAddress,
    AF_TIPC, SOCKADDR_TIPC_LEN, TIPC_ADDR_ID, TIPC_ADDR_NAMESEQ, TIPC_ZONE_SCOPE,
};
use zmq_core::tipc_connecter::{OpenError, TipcConnecter, ECONNREFUSED, RETIRED_FD};
use zmq_core::tipc_listener::{Options, TipcListener, EAGAIN, EINTR, EMFILE};

#[test]
fn tipc_new_address_is_zero() {
    let a = TipcAddress::new();
    assert!(!a.is_random());
    assert_eq!(*a.as_sockaddr(), sockaddr_tipc::zeroed());
    assert_eq!(a.addr_len(), SOCKADDR_TIPC_LEN);
    assert_eq!(a.addr_len(), 28);
}

#[test]
fn tipc_resolve_random() {
    let mut a = TipcAddress::new();
    assert_eq!(a.resolve("<*>"), Ok(()));
    assert!(a.is_random());
    assert!(!a.is_service());
    let sa = a.as_sockaddr();
    assert_eq!(sa.family, AF_TIPC);
    assert_eq!(sa.addrtype, TIPC_ADDR_ID);
    assert_eq!(sa.scope, 0);
    assert_eq!(a.to_string().unwrap(), "tipc://<0:0:0:0>");
}

#[test]
fn tipc_resolve_name_sequence() {
    let mut a = TipcAddress::new();
    assert_eq!(a.resolve("{5560,1,3}"), Ok(()));
    assert!(!a.is_random());
    assert!(a.is_service());
    let sa = a.as_sockaddr();
    assert_eq!(sa.family, AF_TIPC);
    assert_eq!(sa.addrtype, TIPC_ADDR_NAMESEQ);
    assert_eq!(sa.scope, TIPC_ZONE_SCOPE);
    assert_eq!((sa.typ, sa.lower, sa.upper), (5560, 1, 3));
    assert_eq!(a.to_string().unwrap(), "tipc://{type=5560, lower=1, upper=3}");
}

#[test]
fn tipc_resolve_trims_and_takes_plus() {
    let mut a = TipcAddress::new();
    assert_eq!(a.resolve("{ +64 ,\t0, 4294967295 }"), Ok(()));
    let sa = a.as_sockaddr();
    assert_eq!((sa.typ, sa.lower, sa.upper), (64, 0, 4294967295));
}

#[test]
fn tipc_resolve_rejects_bad_text() {
    for bad in [
        "", "{", "{}", "<*", "{1000,1}", "{1000,1,2,3}", "{63,1,2}", "{1000,3,2}", "{1000,-1,2}",
        "{1000,1,4294967296}", "{1000,,2}", "{+,1,2}", "1000,1,2", "{1000,1,2",
    ] {
        let mut a = TipcAddress::new();
        assert_eq!(a.resolve(bad), Err(AddressError::InvalidInput), "{bad:?}");
        assert_eq!(*a.as_sockaddr(), sockaddr_tipc::zeroed());
        assert!(!a.is_random());
    }
}

#[test]
fn tipc_to_string_needs_the_tipc_family() {
    let a = TipcAddress::new();
    assert_eq!(a.to_string(), Err(AddressError::InvalidData));
    let sa = sockaddr_tipc { family: AF_TIPC, addrtype: 2, scope: 0, typ: 0, lower: 0, upper: 0, domain: 0 };
    let b = TipcAddress::from_sockaddr(&sa);
    assert_eq!(b.to_string(), Err(AddressError::InvalidData));
}

#[test]
fn tipc_port_identity_text() {
    let node = tipc_addr(1, 2, 3);
    let sa = sockaddr_tipc { family: AF_TIPC, addrtype: TIPC_ADDR_ID, scope: 0, typ: node, lower: 77, upper: 0, domain: 0 };
    let a = TipcAddress::from_sockaddr(&sa);
    assert_eq!(a.to_string().unwrap(), "tipc://<1:2:3:77>");
}

#[test]
fn tipc_from_sockaddr_of_another_family() {
    let sa = sockaddr_tipc { family: 2, addrtype: TIPC_ADDR_ID, scope: 0, typ: 9, lower: 9, upper: 9, domain: 9 };
    let a = TipcAddress::from_sockaddr(&sa);
    assert_eq!(*a.as_sockaddr(), sockaddr_tipc::zeroed());
}

#[test]
fn tipc_node_address_round_trip() {
    let a = tipc_addr(0x1ff, 0x2ab, 0x1_2345);
    assert_eq!(a, 0xffab_2345);
    assert_eq!(tipc_zone(a), 0xff);
    assert_eq!(tipc_cluster(a), 0xab);
    assert_eq!(tipc_node(a), 0x2345);
}

#[test]
fn tipc_listener_sets_endpoint() {
    let mut l = TipcListener::new(Options { backlog: 100 });
    assert_eq!(l.fd, -1);
    assert_eq!(l.set_local_address("{70,1,1}"), Ok(()));
    assert_eq!(l.endpoint, "tipc://{type=70, lower=1, upper=1}");
    assert_eq!(l.set_local_address("nonsense"), Err(AddressError::InvalidInput));
    assert_eq!(l.endpoint, "tipc://{type=70, lower=1, upper=1}");
}

#[test]
fn tipc_listener_accept_outcomes() {
    assert_eq!(TipcListener::accept_outcome(7, 0), Ok(7));
    assert_eq!(TipcListener::accept_outcome(-1, EAGAIN), Ok(-1));
    assert_eq!(TipcListener::accept_outcome(-1, EINTR), Ok(-1));
    assert_eq!(TipcListener::accept_outcome(-1, EMFILE), Ok(-1));
    assert_eq!(TipcListener::accept_outcome(-1, 9), Err(9));
}

#[test]
fn tipc_connecter_checks_and_outcomes() {
    let mut random = TipcAddress::new();
    random.set_random();
    let c = TipcConnecter::new(random, false);
    assert_eq!(c.open_check(), Err(OpenError::InvalidInput));

    let mut c = TipcConnecter::new(TipcAddress::new(), true);
    assert_eq!(c.open_check(), Ok(()));
    c.socket = 12;
    assert_eq!(c.open_check(), Err(OpenError::AlreadyExists));
    assert_eq!(c.connect_outcome(ECONNREFUSED), Err(ECONNREFUSED));
    assert_eq!(c.socket, 12);
    assert_eq!(c.connect_outcome(0), Ok(12));
    assert_eq!(c.socket, RETIRED_FD);
    assert_eq!(c.close(), None);
    c.socket = 5;
    assert_eq!(c.close(), Some(5));
    assert_eq!(c.socket, RETIRED_FD);
}
