use ncrs::address::{format_endpoint, select_address, AddressFamily};
use ncrs::common::{parse_port_range, parse_tos};
use ncrs::ip::{ip_from_text, ipv4_from_text, IpAddress};

#[test]
fn single_port_is_one_port() {
    assert_eq!(parse_port_range("80"), vec![80]);
    assert_eq!(parse_port_range("0"), vec![0]);
    assert_eq!(parse_port_range("65535"), vec![65535]);
    assert_eq!(parse_port_range("+5"), vec![5]);
    assert_eq!(parse_port_range("0080"), vec![80]);
}

#[test]
fn port_range_is_inclusive_and_ascending() {
    assert_eq!(parse_port_range("20-22"), vec![20, 21, 22]);
    assert_eq!(parse_port_range("7-7"), vec![7]);
    assert_eq!(parse_port_range("65534-65535"), vec![65534, 65535]);
    let all = parse_port_range("0-65535");
    assert_eq!(all.len(), 65536);
    assert_eq!(all[0], 0);
    assert_eq!(all[65535], 65535);
}

#[test]
fn bad_port_arguments_give_nothing() {
    assert_eq!(parse_port_range("22-20"), Vec::<u16>::new());
    assert_eq!(parse_port_range("abc"), Vec::<u16>::new());
    assert_eq!(parse_port_range("invalid"), Vec::<u16>::new());
    assert_eq!(parse_port_range("1-2-3"), Vec::<u16>::new());
    assert_eq!(parse_port_range("65536"), Vec::<u16>::new());
    assert_eq!(parse_port_range("-5"), Vec::<u16>::new());
    assert_eq!(parse_port_range("5-"), Vec::<u16>::new());
    assert_eq!(parse_port_range(""), Vec::<u16>::new());
    assert_eq!(parse_port_range("+"), Vec::<u16>::new());
    assert_eq!(parse_port_range("1-70000"), Vec::<u16>::new());
}

#[test]
fn tos_keywords_have_their_values() {
    assert_eq!(parse_tos("critical"), Some(0xa0));
    assert_eq!(parse_tos("inetcontrol"), Some(0xc0));
    assert_eq!(parse_tos("lowcost"), Some(0x02));
    assert_eq!(parse_tos("lowdelay"), Some(0x10));
    assert_eq!(parse_tos("netcontrol"), Some(0xe0));
    assert_eq!(parse_tos("throughput"), Some(0x08));
    assert_eq!(parse_tos("reliability"), Some(0x04));
}

#[test]
fn tos_keywords_ignore_case() {
    assert_eq!(parse_tos("LowDelay"), Some(0x10));
    assert_eq!(parse_tos("CRITICAL"), Some(0xa0));
}

#[test]
fn tos_numbers_in_hex_and_decimal() {
    assert_eq!(parse_tos("0x10"), Some(16));
    assert_eq!(parse_tos("0xff"), Some(255));
    assert_eq!(parse_tos("0xFF"), Some(255));
    assert_eq!(parse_tos("16"), Some(16));
    assert_eq!(parse_tos("255"), Some(255));
    assert_eq!(parse_tos("0x+f"), Some(15));
}

#[test]
fn bad_tos_values_are_refused() {
    assert_eq!(parse_tos("256"), None);
    assert_eq!(parse_tos("0x100"), None);
    assert_eq!(parse_tos("0X10"), None);
    assert_eq!(parse_tos("0x"), None);
    assert_eq!(parse_tos("fast"), None);
    assert_eq!(parse_tos(""), None);
    assert_eq!(parse_tos("lowdelays"), None);
}

#[test]
fn family_labels() {
    assert_eq!(AddressFamily::Any.label(), "IPv4/IPv6/DNS");
    assert_eq!(AddressFamily::Ipv4.label(), "IPv4");
    assert_eq!(AddressFamily::Ipv6.label(), "IPv6");
}

#[test]
fn endpoints_bracket_bare_ipv6() {
    assert_eq!(format_endpoint("::1", 80), "[::1]:80");
    assert_eq!(format_endpoint("example.com", 8080), "example.com:8080");
    assert_eq!(format_endpoint("[::1]", 80), "[::1]:80");
    assert_eq!(format_endpoint("127.0.0.1", 0), "127.0.0.1:0");
    assert_eq!(format_endpoint("", 65535), ":65535");
}

#[test]
fn endpoint_text_splits_back_at_the_last_colon() {
    for (target, port) in [("::1", 80u16), ("fe80::2", 65535), ("10.0.0.1", 0), ("host", 443)] {
        let text = format_endpoint(target, port);
        let (host, port_text) = text.rsplit_once(':').unwrap();
        let host = host.strip_prefix('[').and_then(|h| h.strip_suffix(']')).unwrap_or(host);
        assert_eq!(host, target);
        assert_eq!(port_text.parse::<u16>(), Ok(port));
    }
}

#[test]
fn first_address_of_the_family_is_chosen() {
    let fams = vec![false, true, true];
    assert_eq!(select_address(&fams, AddressFamily::Any), Some(0));
    assert_eq!(select_address(&fams, AddressFamily::Ipv4), Some(1));
    assert_eq!(select_address(&fams, AddressFamily::Ipv6), Some(0));
    assert_eq!(select_address(&vec![true], AddressFamily::Ipv6), None);
    assert_eq!(select_address(&vec![], AddressFamily::Any), None);
}

#[test]
fn ipv4_text_is_read_strictly() {
    assert_eq!(ipv4_from_text("127.0.0.1"), Some([127, 0, 0, 1]));
    assert_eq!(ipv4_from_text("255.255.255.255"), Some([255, 255, 255, 255]));
    assert_eq!(ipv4_from_text("0.0.0.0"), Some([0, 0, 0, 0]));
    assert_eq!(ipv4_from_text("01.2.3.4"), None);
    assert_eq!(ipv4_from_text("1.2.3.256"), None);
    assert_eq!(ipv4_from_text("1.2.3"), None);
    assert_eq!(ipv4_from_text("1.2.3.4.5"), None);
    assert_eq!(ipv4_from_text("1..2.3"), None);
    assert_eq!(ipv4_from_text("1.2.3.0004"), None);
    assert_eq!(ipv4_from_text("+1.2.3.4"), None);
    assert_eq!(ipv4_from_text("localhost"), None);
    assert_eq!(ipv4_from_text(""), None);
}

#[test]
fn ip_text_of_either_family() {
    assert_eq!(ip_from_text("10.0.0.1", None), Some(IpAddress::V4([10, 0, 0, 1])));
    let mut one = [0u8; 16];
    one[15] = 1;
    let v6 = Some(one);
    assert_eq!(ip_from_text("::1", v6), Some(IpAddress::V6(one)));
    assert_eq!(ip_from_text("nothing", None), None);
}
