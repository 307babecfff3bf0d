use simulation::addr::{IpAddress, SocketAddress};
use simulation::poll::IoErrorKind;
use simulation::ports::{PortTable, SocketPortCounter};

#[test]
fn any_port_requests_get_increasing_free_ports() {
    let mut table: PortTable<&str> = PortTable::new();
    assert!(table.has_free_port());
    assert_eq!(table.register_listener_channel(2, "two"), Ok(2));
    assert_eq!(table.register_listener_channel(0, "first"), Ok(1));
    assert_eq!(table.register_listener_channel(0, "second"), Ok(3), "port 2 is taken");
    assert_eq!(table.register_listener_channel(3, "again"), Err(IoErrorKind::AddrInUse));
    assert_eq!(table.listener_channel(1), Ok(&"first"));
    assert_eq!(table.listener_channel(4), Err(IoErrorKind::AddrNotAvailable));
}

#[test]
fn bind_and_connect_by_port() {
    let mut table: PortTable<u8> = PortTable::new();
    let any = SocketAddress::new(IpAddress::localhost(), 0);
    let bound = table.bind(any, 7).unwrap();
    assert_eq!(bound, SocketAddress::new(IpAddress::localhost(), 1));
    let fixed = SocketAddress::new(IpAddress::localhost(), 9092);
    assert_eq!(table.bind(fixed, 8), Ok(fixed));
    assert_eq!(table.bind(fixed, 9), Err(IoErrorKind::AddrInUse));
    assert_eq!(table.connect_channel(fixed), Ok(&8));
    assert_eq!(table.connect_channel(any), Err(IoErrorKind::InvalidInput));
    assert_eq!(table.connect_channel(SocketAddress::new(IpAddress::localhost(), 5)), Err(IoErrorKind::AddrNotAvailable));
}

#[test]
fn socket_ports_count_down_and_wrap() {
    let mut counter = SocketPortCounter::new();
    assert_eq!(counter.new_socket_port(), 65535);
    assert_eq!(counter.new_socket_port(), 65534);
    let mut last = 0;
    for _ in 0..65534 {
        last = counter.new_socket_port();
    }
    assert_eq!(last, 0);
    assert_eq!(counter.new_socket_port(), 65535);
}
