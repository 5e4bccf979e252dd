//! The command line: its arguments, and what a run does with them.
use vstd::prelude::*;
use crate::address::AddressFamily;
use crate::common::{parse_port_range, parse_tos, port_range_of, tos_of};
use crate::duplex::DuplexOptions;
use crate::net::TcpSocketOptions;
use crate::text::{chars_of, parse_u16, parse_unsigned_range};

verus! {

/// The command-line arguments of `ncrs`.
#[derive(Clone, Debug, Default)]
pub struct Args {
    /// Target IP address or host name (or Unix socket path with `-U`).
    pub target: Option<String>,
    /// Port(s): `80`, several, or ranges such as `20-100`.
    pub ports: Vec<String>,
    /// `-l`: listen for incoming connections.
    pub listen: bool,
    /// `-v`: print connection details.
    pub verbose: bool,
    /// `-z`: scan ports without I/O.
    pub scan: bool,
    /// `-p`: local source port.
    pub source_port: Option<u16>,
    /// `-s`: local source address.
    pub source_addr: Option<String>,
    /// `-w`: timeout in seconds.
    pub timeout: Option<u64>,
    /// `-u`: UDP.
    pub udp: bool,
    /// `-n`: numeric addresses only.
    pub numeric: bool,
    /// `-b`: allow broadcast.
    pub broadcast: bool,
    /// `-4`: IPv4 only.
    pub ipv4: bool,
    /// `-6`: IPv6 only.
    pub ipv6: bool,
    /// `-C`: send CRLF line endings.
    pub crlf: bool,
    /// `-k`: keep accepting connections.
    pub keep_alive: bool,
    /// `-N`: shut down the socket after the end of input.
    pub shutdown_on_eof: bool,
    /// `-d`: do not read standard input.
    pub no_stdin: bool,
    /// `-D`: socket debugging.
    pub debug: bool,
    /// `-t`: refuse Telnet negotiations.
    pub telnet: bool,
    /// `-q`: quit delay after the end of input.
    pub quit_delay: Option<i32>,
    /// `-i`: delay between chunks and between scanned ports.
    pub interval: Option<u64>,
    /// `-r`: scan ports in random order.
    pub randomize_ports: bool,
    /// `-I`: receive buffer size.
    pub recv_bytes: Option<u32>,
    /// `-O`: send buffer size.
    pub send_bytes: Option<u32>,
    /// `-W`: stop after this many reads.
    pub recv_limit: Option<u32>,
    /// `-U`: Unix domain sockets.
    pub unix: bool,
    /// `-M`: TTL / hop limit.
    pub ttl: Option<u32>,
    /// `-T`: type of service keyword or value.
    pub tos: Option<String>,
    /// `-x`: proxy address.
    pub proxy: Option<String>,
    /// `-X`: proxy protocol.
    pub proxy_type: Option<String>,
    /// `-P`: proxy user name.
    pub proxy_username: Option<String>,
    /// `-F`: pass the connected socket to standard output.
    pub pass_fd: bool,
    /// `-m`: minimum TTL of incoming packets.
    pub minttl: Option<u32>,
    /// `-S`: TCP MD5 signatures.
    pub tcp_md5sig: bool,
    /// `-Z`: DCCP.
    pub dccp: bool,
    /// `--tls`: use TLS.
    pub tls: bool,
    /// `--tls-gen`: generate TLS files.
    pub tls_gen: bool,
    /// `--tls-gen-force`: generate TLS files, overwriting.
    pub tls_gen_force: bool,
}

/// Why a run cannot go ahead.
#[derive(Clone, Copy, Debug, PartialEq, Eq)]
pub enum CliError {
    /// A proxy cannot be used with `-l`, `-u`, `-U` or `-s`.
    ProxyConflict,
    /// The `-T` value is no keyword or byte.
    InvalidTos,
    /// `-U` needs a socket path.
    UnixNeedsPath,
    /// `-z` needs a destination.
    ScanNeedsDestination,
    /// `-z` needs at least one port.
    ScanNeedsPorts,
    /// Listening needs a positional port (`-p` is the source port).
    ListenNeedsPort,
    /// Neither a target and port nor listen mode was given.
    Usage,
}

/// What a run does.
#[derive(Clone, Copy, Debug, PartialEq, Eq)]
pub enum Mode {
    /// Generate the TLS certificate and key (`--tls-gen`), overwriting when
    /// forced (`--tls-gen-force`).
    GenerateTls { force: bool },
    /// Connect to a Unix socket.
    UnixClient,
    /// Accept one connection on a Unix socket.
    UnixServer,
    /// Keep accepting connections on a Unix socket.
    UnixServerPersistent,
    /// Scan ports.
    Scan,
    /// UDP, listening or sending.
    Udp,
    /// Accept one TCP connection.
    TcpServer,
    /// Keep accepting TCP connections.
    TcpServerPersistent,
    /// Connect over TCP.
    TcpClient,
}

/// A run, as decided from the arguments.
#[derive(Clone, Debug)]
pub struct RunPlan {
    pub mode: Mode,
    /// The port to connect to, listen on, or send to; for a scan the first
    /// port, by which the target is resolved (0 where none is used).
    pub port: u16,
    /// All ports named, in the order they are used.
    pub ports: Vec<u16>,
    pub family: AddressFamily,
    /// The type of service (`-T`).
    pub tos: Option<u8>,
    /// Seconds to wait for name resolution and connection (`-w`, else 5).
    pub connect_timeout_secs: u64,
    /// Seconds a read may stay idle (`-w`).
    pub read_timeout_secs: Option<u64>,
}

/// The texts of a list of strings.
pub open spec fn texts(v: Seq<String>) -> Seq<Seq<char>> {
    v.map_values(|s: String| s@)
}

/// The ports named by port arguments, in order.
pub open spec fn ports_of(args: Seq<Seq<char>>) -> Seq<u16>
    decreases args.len(),
{
    if args.len() == 0 {
        seq![]
    } else {
        ports_of(args.drop_last()) + port_range_of(args.last())
    }
}

/// Collects the ports of all port arguments, in order.
pub fn collect_ports(args: &Args) -> (r: Vec<u16>)
    ensures
        r@ == ports_of(texts(args.ports@)),
{
    let mut all: Vec<u16> = Vec::new();
    let mut i: usize = 0;
    while i < args.ports.len()
        invariant
            i <= args.ports.len(),
            all@ == ports_of(texts(args.ports@).take(i as int)),
        decreases args.ports.len() - i,
    {
        let p = parse_port_range(args.ports[i].as_str());
        let mut j: usize = 0;
        let ghost before = all@;
        while j < p.len()
            invariant
                j <= p.len(),
                all@ == before + p@.take(j as int),
            decreases p.len() - j,
        {
            all.push(p[j]);
            j = j + 1;
            assert(all@ == before + p@.take(j as int));
        }
        assert(p@.take(p@.len() as int) == p@);
        let ghost t = texts(args.ports@);
        assert(t.take(i + 1).drop_last() == t.take(i as int));
        assert(t.take(i + 1).last() == args.ports@[i as int]@);
        i = i + 1;
    }
    assert(texts(args.ports@).take(args.ports@.len() as int) == texts(args.ports@));
    all
}

/// The address family asked for: `-4` before `-6`, else either.
pub open spec fn family_of(ipv4: bool, ipv6: bool) -> AddressFamily {
    if ipv4 {
        AddressFamily::Ipv4
    } else if ipv6 {
        AddressFamily::Ipv6
    } else {
        AddressFamily::Any
    }
}

/// The address family asked for on the command line.
pub fn address_family(ipv4: bool, ipv6: bool) -> (r: AddressFamily)
    ensures
        r == family_of(ipv4, ipv6),
{
    if ipv4 {
        AddressFamily::Ipv4
    } else if ipv6 {
        AddressFamily::Ipv6
    } else {
        AddressFamily::Any
    }
}

/// A proxy (`-x`) cannot be combined with `-l`, `-u`, `-U` or `-s`.
pub open spec fn proxy_conflict(args: Args) -> bool {
    args.proxy is Some && (args.listen || args.udp || args.unix || args.source_addr is Some)
}

/// The `-T` value, where one is given and valid.
pub open spec fn tos_arg(args: Args) -> Option<u8> {
    match args.tos {
        Some(t) => tos_of(t@),
        None => None,
    }
}

/// The port to listen on: the first port argument, else the destination
/// when it is a port number.
pub open spec fn listen_port_of(args: Args, ports: Seq<u16>) -> Option<u16> {
    if ports.len() > 0 {
        Some(ports[0])
    } else {
        match args.target {
            Some(t) => parse_u16(t@),
            None => None,
        }
    }
}

/// What a run does, and on which port, given the ports in the order they
/// are used (after `-r` shuffled them). Checked in this order: the `-T`
/// value; then Unix sockets, port scan, UDP, listening, and connecting.
pub open spec fn mode_of(args: Args, ports: Seq<u16>) -> Result<(Mode, u16), CliError> {
    if args.tos is Some && tos_arg(args) is None {
        Err(CliError::InvalidTos)
    } else if args.unix {
        if args.target is None {
            Err(CliError::UnixNeedsPath)
        } else if args.listen {
            Ok((if args.keep_alive { Mode::UnixServerPersistent } else { Mode::UnixServer }, 0))
        } else {
            Ok((Mode::UnixClient, 0))
        }
    } else if args.scan {
        if args.target is None {
            Err(CliError::ScanNeedsDestination)
        } else if ports.len() == 0 {
            Err(CliError::ScanNeedsPorts)
        } else {
            Ok((Mode::Scan, ports[0]))
        }
    } else if args.udp {
        if args.listen {
            match listen_port_of(args, ports) {
                Some(p) => Ok((Mode::Udp, p)),
                None => Err(CliError::ListenNeedsPort),
            }
        } else {
            Ok((Mode::Udp, if ports.len() > 0 { ports[0] } else { 4444 }))
        }
    } else if args.listen {
        match listen_port_of(args, ports) {
            Some(p) => Ok(
                (if args.keep_alive { Mode::TcpServerPersistent } else { Mode::TcpServer }, p),
            ),
            None => Err(CliError::ListenNeedsPort),
        }
    } else if args.target is Some && ports.len() > 0 {
        Ok((Mode::TcpClient, ports[0]))
    } else {
        Err(CliError::Usage)
    }
}

/// A listener, over TCP or UDP alike, listens on the first port argument,
/// else on the destination read as a decimal port (`ncrs -l 8080`,
/// `ncrs -u -l 8080`); with neither it is refused.
pub proof fn law_listen_port(args: Args, ports: Seq<u16>)
    requires
        args.listen,
        !args.unix,
        !args.scan,
        args.tos is None || tos_arg(args) is Some,
    ensures
        ({
            let m = if args.udp {
                Mode::Udp
            } else if args.keep_alive {
                Mode::TcpServerPersistent
            } else {
                Mode::TcpServer
            };
            if ports.len() > 0 {
                mode_of(args, ports) == Ok::<(Mode, u16), CliError>((m, ports[0]))
            } else {
                match args.target {
                    Some(t) => match parse_u16(t@) {
                        Some(p) => mode_of(args, ports) == Ok::<(Mode, u16), CliError>((m, p)),
                        None => mode_of(args, ports) == Err::<(Mode, u16), CliError>(
                            CliError::ListenNeedsPort,
                        ),
                    },
                    None => mode_of(args, ports) == Err::<(Mode, u16), CliError>(
                        CliError::ListenNeedsPort,
                    ),
                }
            }
        }),
{
}

/// The plan holds what `mode_of` decides, with the ports, family, `-T`
/// value and timeouts of the arguments.
pub open spec fn plan_matches(p: RunPlan, args: Args, ports: Seq<u16>, mode: Mode, port: u16) -> bool {
    &&& p.mode == mode
    &&& p.port == port
    &&& p.ports@ == ports
    &&& p.family == family_of(args.ipv4, args.ipv6)
    &&& p.tos == tos_arg(args)
    &&& p.connect_timeout_secs == (match args.timeout {
        Some(t) => t,
        None => 5,
    })
    &&& p.read_timeout_secs == args.timeout
}

/// Decides a run from the arguments and the ports in the order they are
/// used.
pub fn plan_with_ports(args: &Args, ports: Vec<u16>) -> (r: Result<RunPlan, CliError>)
    ensures
        match mode_of(*args, ports@) {
            Ok((m, port)) => (r matches Ok(p) && plan_matches(p, *args, ports@, m, port)),
            Err(e) => (r matches Err(e2) && e2 == e),
        },
{
    let family = address_family(args.ipv4, args.ipv6);
    let connect_timeout_secs = match args.timeout {
        Some(t) => t,
        None => 5,
    };
    let tos = match &args.tos {
        Some(t) => match parse_tos(t.as_str()) {
            Some(v) => Some(v),
            None => return Err(CliError::InvalidTos),
        },
        None => None,
    };
    let target_port: Option<u16> = match &args.target {
        Some(t) => {
            let c = chars_of(t.as_str());
            assert(c@.subrange(0, c@.len() as int) == c@);
            match parse_unsigned_range(&c, 0, c.len(), 10, 65535) {
                Some(p) => Some(p as u16),
                None => None,
            }
        },
        None => None,
    };
    let listen_port: Option<u16> = if ports.len() > 0 {
        Some(ports[0])
    } else {
        target_port
    };
    let first_or_default: u16 = if ports.len() > 0 {
        ports[0]
    } else {
        4444
    };
    let decided: Result<(Mode, u16), CliError> = if args.unix {
        if args.target.is_none() {
            Err(CliError::UnixNeedsPath)
        } else if args.listen {
            Ok((if args.keep_alive { Mode::UnixServerPersistent } else { Mode::UnixServer }, 0))
        } else {
            Ok((Mode::UnixClient, 0))
        }
    } else if args.scan {
        if args.target.is_none() {
            Err(CliError::ScanNeedsDestination)
        } else if ports.len() == 0 {
            Err(CliError::ScanNeedsPorts)
        } else {
            Ok((Mode::Scan, ports[0]))
        }
    } else if args.udp {
        if args.listen {
            match listen_port {
                Some(p) => Ok((Mode::Udp, p)),
                None => Err(CliError::ListenNeedsPort),
            }
        } else {
            Ok((Mode::Udp, first_or_default))
        }
    } else if args.listen {
        match listen_port {
            Some(p) => Ok(
                (if args.keep_alive { Mode::TcpServerPersistent } else { Mode::TcpServer }, p),
            ),
            None => Err(CliError::ListenNeedsPort),
        }
    } else if args.target.is_some() && ports.len() > 0 {
        Ok((Mode::TcpClient, ports[0]))
    } else {
        Err(CliError::Usage)
    };
    match decided {
        Ok((mode, port)) => Ok(
            RunPlan {
                mode,
                port,
                ports,
                family,
                tos,
                connect_timeout_secs,
                read_timeout_secs: args.timeout,
            },
        ),
        Err(e) => Err(e),
    }
}

/// Shuffles the ports in place with `rand::seq::SliceRandom::shuffle` and
/// the thread's random generator (`rand::rng()`).
///
/// Trusted: the result holds the same ports, each as often as before; the
/// order is random, so nothing more is stated of it.
#[verifier::external_body]
fn shuffle_ports(ports: &mut Vec<u16>)
    ensures
        final(ports)@.to_multiset() == old(ports)@.to_multiset(),
        final(ports)@.len() == old(ports)@.len(),
{
    rand::seq::SliceRandom::shuffle(ports.as_mut_slice(), &mut rand::rng())
}

/// Decides a run from the arguments: TLS file generation comes first; then
/// a proxy combined with `-l`, `-u`, `-U` or `-s` is refused; then, with
/// `-r`, the ports are put in a random order; then `plan_with_ports`
/// decides.
pub fn plan(args: &Args) -> (r: Result<RunPlan, CliError>)
    ensures
        (args.tls_gen || args.tls_gen_force) ==> (r matches Ok(p) && p.mode == (Mode::GenerateTls {
            force: args.tls_gen_force,
        })),
        !(args.tls_gen || args.tls_gen_force) && proxy_conflict(*args) ==> (r matches Err(e) && e
            == CliError::ProxyConflict),
        !(args.tls_gen || args.tls_gen_force) && !proxy_conflict(*args) && !args.randomize_ports
            ==> match mode_of(*args, ports_of(texts(args.ports@))) {
            Ok((m, port)) => (r matches Ok(p) && plan_matches(
                p,
                *args,
                ports_of(texts(args.ports@)),
                m,
                port,
            )),
            Err(e) => (r matches Err(e2) && e2 == e),
        },
        !(args.tls_gen || args.tls_gen_force) && !proxy_conflict(*args) && args.randomize_ports
            ==> exists|ports: Seq<u16>|
            #![trigger mode_of(*args, ports)]
            ports.to_multiset() == ports_of(texts(args.ports@)).to_multiset() && match mode_of(
                *args,
                ports,
            ) {
                Ok((m, port)) => (r matches Ok(p) && plan_matches(p, *args, ports, m, port)),
                Err(e) => (r matches Err(e2) && e2 == e),
            },
{
    if args.tls_gen || args.tls_gen_force {
        return Ok(
            RunPlan {
                mode: Mode::GenerateTls { force: args.tls_gen_force },
                port: 0,
                ports: Vec::new(),
                family: AddressFamily::Any,
                tos: None,
                connect_timeout_secs: 0,
                read_timeout_secs: None,
            },
        );
    }
    let mut ports = collect_ports(args);
    if args.proxy.is_some() && (args.listen || args.udp || args.unix || args.source_addr.is_some()) {
        return Err(CliError::ProxyConflict);
    }
    if args.randomize_ports {
        shuffle_ports(&mut ports);
    }
    let r = plan_with_ports(args, ports);
    r
}

/// The options of a full-duplex session from the arguments (`-C`, `-N`,
/// `-d`, `-q`, `-i`, `-W`), the read timeout and whether Telnet
/// negotiations are refused.
pub fn duplex_options(args: &Args, read_timeout_secs: Option<u64>, telnet: bool) -> (r:
    DuplexOptions)
    ensures
        r == (DuplexOptions {
            crlf: args.crlf,
            read_timeout_secs,
            shutdown_on_eof: args.shutdown_on_eof,
            no_stdin: args.no_stdin,
            quit_delay: args.quit_delay,
            interval: args.interval,
            recv_limit: args.recv_limit,
            telnet,
        }),
{
    DuplexOptions {
        crlf: args.crlf,
        read_timeout_secs,
        shutdown_on_eof: args.shutdown_on_eof,
        no_stdin: args.no_stdin,
        quit_delay: args.quit_delay,
        interval: args.interval,
        recv_limit: args.recv_limit,
        telnet,
    }
}

/// The TCP socket options from the arguments and the `-T` value.
pub fn socket_options(args: &Args, tos: Option<u8>) -> (r: TcpSocketOptions)
    ensures
        r.source_addr == args.source_addr,
        r.source_port == args.source_port,
        r.debug == args.debug,
        r.recv_bytes == args.recv_bytes,
        r.send_bytes == args.send_bytes,
        r.ttl == args.ttl,
        r.tos == tos,
        r.minttl == args.minttl,
        r.tcp_md5sig == args.tcp_md5sig,
        r.dccp == args.dccp,
{
    TcpSocketOptions {
        source_addr: args.source_addr.clone(),
        source_port: args.source_port,
        debug: args.debug,
        recv_bytes: args.recv_bytes,
        send_bytes: args.send_bytes,
        ttl: args.ttl,
        tos,
        minttl: args.minttl,
        tcp_md5sig: args.tcp_md5sig,
        dccp: args.dccp,
    }
}

} // verus!
