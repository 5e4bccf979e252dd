//! The decisions taken before a socket is opened: which local address a
//! TCP or UDP socket is bound to, where a listener listens, and which socket
//! options carry `-D`, `-M` and `-T`.
use vstd::prelude::*;
use crate::address::{endpoint_parts, endpoint_text, law_endpoint_text_roundtrip, AddressFamily};
use crate::ip::{ip_from_text, ip_of, ip_view, ipv6_view, IpAddress, SocketAddress};
use crate::text::{decimal_text, push_decimal};

verus! {

/// Options of a TCP socket, from the command line.
#[derive(Clone, Debug, Default)]
pub struct TcpSocketOptions {
    /// Local source address (`-s`).
    pub source_addr: Option<String>,
    /// Local source port (`-p`).
    pub source_port: Option<u16>,
    /// `SO_DEBUG` (`-D`).
    pub debug: bool,
    /// Receive buffer size (`-I`).
    pub recv_bytes: Option<u32>,
    /// Send buffer size (`-O`).
    pub send_bytes: Option<u32>,
    /// TTL / hop limit (`-M`).
    pub ttl: Option<u32>,
    /// Type of service / traffic class (`-T`).
    pub tos: Option<u8>,
    /// Minimum TTL of incoming packets (`-m`).
    pub minttl: Option<u32>,
    /// TCP MD5 signatures (`-S`).
    pub tcp_md5sig: bool,
    /// DCCP mode (`-Z`), which is not supported.
    pub dccp: bool,
}

/// Why a socket could not be set up.
#[derive(Clone, Copy, Debug, PartialEq, Eq)]
pub enum SocketSetupError {
    /// DCCP (`-Z`) is not supported.
    DccpUnsupported,
    /// The source address (`-s`) is not an IP address.
    InvalidSourceAddress,
    /// The source address is of the other family than the target.
    SourceFamilyMismatch,
    /// IPv4 mode (`-4`) with an IPv6 source address.
    SourceNotIpv4,
    /// IPv6 mode (`-6`) with an IPv4 source address.
    SourceNotIpv6,
}

/// The unspecified address of a family (`0.0.0.0` or `::`).
pub open spec fn unspecified(ipv4: bool) -> IpAddress {
    if ipv4 {
        IpAddress::V4([0u8, 0u8, 0u8, 0u8])
    } else {
        IpAddress::V6([0u8, 0u8, 0u8, 0u8, 0u8, 0u8, 0u8, 0u8, 0u8, 0u8, 0u8, 0u8, 0u8, 0u8, 0u8, 0u8])
    }
}

fn unspecified_address(ipv4: bool) -> (r: IpAddress)
    ensures
        r == unspecified(ipv4),
{
    if ipv4 {
        IpAddress::V4([0u8, 0u8, 0u8, 0u8])
    } else {
        IpAddress::V6([0u8, 0u8, 0u8, 0u8, 0u8, 0u8, 0u8, 0u8, 0u8, 0u8, 0u8, 0u8, 0u8, 0u8, 0u8, 0u8])
    }
}

/// Reads a source address, given what `std::net::Ipv6Addr` reads from it.
fn source_ip(text: &Option<String>, ipv6: Option<[u8; 16]>) -> (r: Result<
    Option<IpAddress>,
    SocketSetupError,
>)
    ensures
        match text {
            None => r == Ok::<Option<IpAddress>, SocketSetupError>(None),
            Some(t) => match ip_of(t@, ipv6_view(ipv6)) {
                None => r == Err::<Option<IpAddress>, SocketSetupError>(
                    SocketSetupError::InvalidSourceAddress,
                ),
                Some(v) => (r matches Ok(Some(a)) && ip_view(a) == v),
            },
        },
{
    match text {
        None => Ok(None),
        Some(t) => match ip_from_text(t.as_str(), ipv6) {
            Some(a) => Ok(Some(a)),
            None => Err(SocketSetupError::InvalidSourceAddress),
        },
    }
}

/// Whether an address is IPv4.
pub fn is_ipv4(a: IpAddress) -> (r: bool)
    ensures
        r == ip_view(a).0,
{
    match a {
        IpAddress::V4(_) => true,
        IpAddress::V6(_) => false,
    }
}

/// The local address an outgoing TCP connection is bound to, if any: the
/// source address (`-s`) and port (`-p`), the unspecified address of the
/// target's family standing in for a missing source address and 0 for a
/// missing port; no binding when neither is given. DCCP is refused, and so
/// is a source address that is not an IP address or is of the other family
/// than the target. `source_ipv6` is what `std::net::Ipv6Addr` reads from
/// the source address.
pub fn tcp_connect_plan(
    target_is_ipv4: bool,
    options: &TcpSocketOptions,
    source_ipv6: Option<[u8; 16]>,
) -> (r: Result<Option<SocketAddress>, SocketSetupError>)
    ensures
        options.dccp ==> r == Err::<Option<SocketAddress>, SocketSetupError>(
            SocketSetupError::DccpUnsupported,
        ),
        !options.dccp ==> match options.source_addr {
            Some(t) => match ip_of(t@, ipv6_view(source_ipv6)) {
                None => r == Err::<Option<SocketAddress>, SocketSetupError>(
                    SocketSetupError::InvalidSourceAddress,
                ),
                Some(v) => if v.0 != target_is_ipv4 {
                    r == Err::<Option<SocketAddress>, SocketSetupError>(
                        SocketSetupError::SourceFamilyMismatch,
                    )
                } else {
                    (r matches Ok(Some(a)) && ip_view(a.ip) == v && a.port == (match options.source_port {
                        Some(p) => p,
                        None => 0,
                    }))
                },
            },
            None => match options.source_port {
                Some(p) => r == Ok::<Option<SocketAddress>, SocketSetupError>(
                    Some(SocketAddress { ip: unspecified(target_is_ipv4), port: p }),
                ),
                None => r == Ok::<Option<SocketAddress>, SocketSetupError>(None),
            },
        },
{
    if options.dccp {
        return Err(SocketSetupError::DccpUnsupported);
    }
    let local_ip = match source_ip(&options.source_addr, source_ipv6) {
        Ok(ip) => ip,
        Err(e) => return Err(e),
    };
    if let Some(ip) = local_ip {
        if is_ipv4(ip) != target_is_ipv4 {
            return Err(SocketSetupError::SourceFamilyMismatch);
        }
    }
    if local_ip.is_some() || options.source_port.is_some() {
        let ip = match local_ip {
            Some(ip) => ip,
            None => unspecified_address(target_is_ipv4),
        };
        let port = match options.source_port {
            Some(p) => p,
            None => 0,
        };
        Ok(Some(SocketAddress { ip, port }))
    } else {
        Ok(None)
    }
}

/// Where a TCP listener listens.
#[derive(Clone, Debug)]
pub struct ListenPlan {
    /// The address text, `0.0.0.0:port` or `[::]:port`.
    pub address: String,
    /// The socket is an IPv6 socket.
    pub ipv6: bool,
}

/// A listener listens on all IPv6 addresses in IPv6 mode (`-6`), else on
/// all IPv4 addresses; DCCP is refused.
pub open spec fn listen_address_of(port: u16, family: AddressFamily) -> Seq<char> {
    match family {
        AddressFamily::Ipv6 => "[::]:"@ + decimal_text(port as nat),
        _ => "0.0.0.0:"@ + decimal_text(port as nat),
    }
}

/// The listen address reads back as the unspecified address of the family
/// (`::` in IPv6 mode, else `0.0.0.0`) and the port asked for, for every
/// port.
pub proof fn law_listen_address_reads_back(port: u16, family: AddressFamily)
    ensures
        endpoint_parts(listen_address_of(port, family)) == Some(
            (
                if family == AddressFamily::Ipv6 {
                    "::"@
                } else {
                    "0.0.0.0"@
                },
                port,
            ),
        ),
{
    reveal_strlit("::");
    reveal_strlit("[::]:");
    reveal_strlit("0.0.0.0");
    reveal_strlit("0.0.0.0:");
    let d = decimal_text(port as nat);
    if family == AddressFamily::Ipv6 {
        let h = "::"@;
        assert(h[0] == ':');
        assert(!h.contains('['));
        assert(h.contains(':'));
        assert(listen_address_of(port, family) == endpoint_text(h, port));
        law_endpoint_text_roundtrip(h, port);
    } else {
        let h = "0.0.0.0"@;
        assert(!h.contains('['));
        assert(!h.contains(':'));
        assert(listen_address_of(port, family) == endpoint_text(h, port));
        law_endpoint_text_roundtrip(h, port);
    }
}

/// Decides where a TCP listener on `port` listens.
pub fn tcp_listen_plan(port: u16, family: AddressFamily, dccp: bool) -> (r: Result<
    ListenPlan,
    SocketSetupError,
>)
    ensures
        dccp ==> r == Err::<ListenPlan, SocketSetupError>(SocketSetupError::DccpUnsupported),
        !dccp ==> (r matches Ok(p) && p.address@ == listen_address_of(port, family) && p.ipv6 == (
        family == AddressFamily::Ipv6)),
{
    if dccp {
        return Err(SocketSetupError::DccpUnsupported);
    }
    let mut address = String::new();
    let ipv6 = match family {
        AddressFamily::Ipv6 => {
            address.append("[::]:");
            true
        },
        _ => {
            address.append("0.0.0.0:");
            false
        },
    };
    push_decimal(&mut address, port as u64);
    Ok(ListenPlan { address, ipv6 })
}

/// The local address of a UDP socket: all addresses of the family on `port`
/// when listening; else the source address (`-s`, the unspecified address
/// of the family when missing, IPv4 unless in IPv6 mode) and source port
/// (`-p`, else 0). A source address that is no IP address, or not of the
/// family asked for with `-4` or `-6`, is refused. `source_ipv6` is what
/// `std::net::Ipv6Addr` reads from the source address.
pub fn udp_bind_addr(
    listen: bool,
    port: u16,
    family: AddressFamily,
    source_addr: &Option<String>,
    source_ipv6: Option<[u8; 16]>,
    source_port: Option<u16>,
) -> (r: Result<SocketAddress, SocketSetupError>)
    ensures
        listen ==> r == Ok::<SocketAddress, SocketSetupError>(
            SocketAddress { ip: unspecified(family != AddressFamily::Ipv6), port },
        ),
        !listen ==> match source_addr {
            Some(t) => match ip_of(t@, ipv6_view(source_ipv6)) {
                None => r == Err::<SocketAddress, SocketSetupError>(
                    SocketSetupError::InvalidSourceAddress,
                ),
                Some(v) => if family == AddressFamily::Ipv4 && !v.0 {
                    r == Err::<SocketAddress, SocketSetupError>(SocketSetupError::SourceNotIpv4)
                } else if family == AddressFamily::Ipv6 && v.0 {
                    r == Err::<SocketAddress, SocketSetupError>(SocketSetupError::SourceNotIpv6)
                } else {
                    (r matches Ok(a) && ip_view(a.ip) == v && a.port == (match source_port {
                        Some(p) => p,
                        None => 0,
                    }))
                },
            },
            None => r == Ok::<SocketAddress, SocketSetupError>(
                SocketAddress {
                    ip: unspecified(family != AddressFamily::Ipv6),
                    port: match source_port {
                        Some(p) => p,
                        None => 0,
                    },
                },
            ),
        },
{
    if listen {
        let v4 = match family {
            AddressFamily::Ipv6 => false,
            _ => true,
        };
        return Ok(SocketAddress { ip: unspecified_address(v4), port });
    }
    let ip = match source_ip(source_addr, source_ipv6) {
        Ok(Some(ip)) => ip,
        Ok(None) => match family {
            AddressFamily::Ipv6 => unspecified_address(false),
            _ => unspecified_address(true),
        },
        Err(e) => return Err(e),
    };
    match family {
        AddressFamily::Ipv4 => if !is_ipv4(ip) {
            return Err(SocketSetupError::SourceNotIpv4);
        },
        AddressFamily::Ipv6 => if is_ipv4(ip) {
            return Err(SocketSetupError::SourceNotIpv6);
        },
        AddressFamily::Any => {},
    }
    let p = match source_port {
        Some(p) => p,
        None => 0,
    };
    Ok(SocketAddress { ip, port: p })
}

} // verus!
