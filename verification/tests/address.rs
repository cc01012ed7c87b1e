use mpc::address::{parse_ipv4, to_socket_address, IpAddr, Ipv4Addr, SocketAddr};

fn ip(a: u8, b: u8, c: u8, d: u8) -> Ipv4Addr {
    Ipv4Addr { a, b, c, d }
}

#[test]
fn reads_dotted_decimal() {
    assert_eq!(parse_ipv4("0.0.0.0"), Some(ip(0, 0, 0, 0)));
    assert_eq!(parse_ipv4("127.0.0.1"), Some(ip(127, 0, 0, 1)));
    assert_eq!(parse_ipv4("255.255.255.255"), Some(ip(255, 255, 255, 255)));
    assert_eq!(parse_ipv4("10.99.100.9"), Some(ip(10, 99, 100, 9)));
}

#[test]
fn refuses_other_text() {
    for text in [
        "", ".", "...", "1.2.3", "1.2.3.", "1.2.3.4.", ".1.2.3.4", "1.2.3.4.5", "256.0.0.0",
        "1.2.3.1000", "1..2.3", "01.2.3.4", "1.2.3.00", "012.004.002.000", "0xcb.0x0.0x71.0x00",
        " 1.2.3.4", "1.2.3.4 ", "1.2.3.-4", "1.2.3.4:80", "a.b.c.d", "1.2.3.\u{664}",
    ] {
        assert_eq!(parse_ipv4(text), None, "{}", text);
    }
}

#[test]
fn reads_every_octet() {
    for n in 0..=255u8 {
        assert_eq!(parse_ipv4(&format!("{}.1.{}.2", n, n)), Some(ip(n, 1, n, 2)));
    }
    for n in 256..2000u32 {
        assert_eq!(parse_ipv4(&format!("1.1.1.{}", n)), None);
    }
}

#[test]
fn socket_address_of_text() {
    assert_eq!(
        to_socket_address("192.168.0.7", 8080),
        SocketAddr::V4 { ip: ip(192, 168, 0, 7), port: 8080 }
    );
    assert_eq!(
        to_socket_address("0.0.0.0", 65535),
        SocketAddr::V4 { ip: ip(0, 0, 0, 0), port: 65535 }
    );
}

#[test]
fn parts_of_a_socket_address() {
    let v4 = SocketAddr::new(IpAddr::V4(ip(1, 2, 3, 4)), 5);
    assert_eq!(v4, SocketAddr::V4 { ip: ip(1, 2, 3, 4), port: 5 });
    assert_eq!(v4.ip(), IpAddr::V4(ip(1, 2, 3, 4)));
    assert_eq!(v4.port(), 5);
    let v6 = SocketAddr::V6 { bits: 1, port: 9, flowinfo: 3, scope_id: 4 };
    assert_eq!(v6.ip(), IpAddr::V6(1));
    assert_eq!(v6.port(), 9);
    assert_eq!(
        SocketAddr::new(v6.ip(), v6.port()),
        SocketAddr::V6 { bits: 1, port: 9, flowinfo: 0, scope_id: 0 }
    );
}
