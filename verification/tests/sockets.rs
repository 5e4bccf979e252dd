use ncrs::address::AddressFamily;
use ncrs::ip::{IpAddress, SocketAddress};
use ncrs::common::{
    set_socket_debug, set_socket_minttl, set_socket_tcp_md5sig, set_socket_tos, set_socket_ttl,
    SocketOption,
};
use ncrs::net::{
    tcp_connect_plan, tcp_listen_plan, udp_bind_addr, SocketSetupError, TcpSocketOptions,
};

#[test]
fn tcp_connect_without_source_binds_nothing() {
    let o = TcpSocketOptions::default();
    assert_eq!(tcp_connect_plan(true, &o, None), Ok(None));
}

#[test]
fn tcp_connect_with_source_port_only() {
    let o = TcpSocketOptions { source_port: Some(19001), ..Default::default() };
    assert_eq!(
        tcp_connect_plan(true, &o, None),
        Ok(Some(SocketAddress { ip: IpAddress::V4([0, 0, 0, 0]), port: 19001 }))
    );
    assert_eq!(
        tcp_connect_plan(false, &o, None),
        Ok(Some(SocketAddress { ip: IpAddress::V6([0; 16]), port: 19001 }))
    );
}

#[test]
fn tcp_connect_with_source_address() {
    let o = TcpSocketOptions { source_addr: Some("127.0.0.1".to_string()), ..Default::default() };
    assert_eq!(
        tcp_connect_plan(true, &o, None),
        Ok(Some(SocketAddress { ip: IpAddress::V4([127, 0, 0, 1]), port: 0 }))
    );
    assert_eq!(tcp_connect_plan(false, &o, None), Err(SocketSetupError::SourceFamilyMismatch));
    let bad = TcpSocketOptions { source_addr: Some("nowhere".to_string()), ..Default::default() };
    assert_eq!(tcp_connect_plan(true, &bad, None), Err(SocketSetupError::InvalidSourceAddress));
    let dccp = TcpSocketOptions { dccp: true, ..Default::default() };
    assert_eq!(tcp_connect_plan(true, &dccp, None), Err(SocketSetupError::DccpUnsupported));
}

#[test]
fn listeners_listen_on_all_addresses() {
    let p = tcp_listen_plan(8080, AddressFamily::Any, false).unwrap();
    assert_eq!(p.address, "0.0.0.0:8080");
    assert!(!p.ipv6);
    let p = tcp_listen_plan(8080, AddressFamily::Ipv6, false).unwrap();
    assert_eq!(p.address, "[::]:8080");
    assert!(p.ipv6);
    let p = tcp_listen_plan(1, AddressFamily::Ipv4, false).unwrap();
    assert_eq!(p.address, "0.0.0.0:1");
    assert!(tcp_listen_plan(1, AddressFamily::Any, true).is_err());
}

#[test]
fn udp_bind_addresses() {
    assert_eq!(
        udp_bind_addr(true, 9000, AddressFamily::Any, &None, None, None),
        Ok(SocketAddress { ip: IpAddress::V4([0, 0, 0, 0]), port: 9000 })
    );
    assert_eq!(
        udp_bind_addr(true, 9000, AddressFamily::Ipv6, &None, None, Some(5)),
        Ok(SocketAddress { ip: IpAddress::V6([0; 16]), port: 9000 })
    );
    assert_eq!(
        udp_bind_addr(false, 9000, AddressFamily::Any, &None, None, Some(7)),
        Ok(SocketAddress { ip: IpAddress::V4([0, 0, 0, 0]), port: 7 })
    );
    assert_eq!(
        udp_bind_addr(false, 9000, AddressFamily::Ipv6, &None, None, None),
        Ok(SocketAddress { ip: IpAddress::V6([0; 16]), port: 0 })
    );
    let src = Some("192.168.1.2".to_string());
    assert_eq!(
        udp_bind_addr(false, 1, AddressFamily::Ipv4, &src, None, None),
        Ok(SocketAddress { ip: IpAddress::V4([192, 168, 1, 2]), port: 0 })
    );
    assert_eq!(udp_bind_addr(false, 1, AddressFamily::Ipv6, &src, None, None), Err(SocketSetupError::SourceNotIpv6));
    let v6 = Some("::1".to_string());
    let mut one = [0u8; 16];
    one[15] = 1;
    assert_eq!(udp_bind_addr(false, 1, AddressFamily::Ipv4, &v6, Some(one), None), Err(SocketSetupError::SourceNotIpv4));
    assert_eq!(
        udp_bind_addr(false, 1, AddressFamily::Any, &v6, Some(one), Some(3)),
        Ok(SocketAddress { ip: IpAddress::V6(one), port: 3 })
    );
    let bad = Some("x".to_string());
    assert_eq!(udp_bind_addr(false, 1, AddressFamily::Any, &bad, None, None), Err(SocketSetupError::InvalidSourceAddress));
}

#[test]
fn socket_option_requests() {
    assert_eq!(set_socket_debug().option, SocketOption::Debug);
    assert_eq!(set_socket_debug().value, 1);
    assert_eq!(set_socket_ttl(5, true).option, SocketOption::IpTtl);
    assert_eq!(set_socket_ttl(5, false).option, SocketOption::Ipv6UnicastHops);
    assert_eq!(set_socket_ttl(5, true).value, 5);
    assert_eq!(set_socket_ttl(u32::MAX, true).value, -1);
    assert_eq!(set_socket_tos(0x10, true).option, SocketOption::IpTos);
    assert_eq!(set_socket_tos(0x10, false).option, SocketOption::Ipv6TrafficClass);
    assert_eq!(set_socket_tos(0xa0, false).value, 160);
    assert_eq!(set_socket_minttl(64).option, SocketOption::MinTtl);
    assert_eq!(set_socket_minttl(64).value, 64);
    assert_eq!(set_socket_minttl(u32::MAX).value, -1);
    assert_eq!(set_socket_tcp_md5sig().option, SocketOption::TcpMd5Sig);
    assert_eq!(set_socket_tcp_md5sig().value, 1);
}
