use revproxy::config::{Config, ConfigError, IpLit};

fn load(ip: &str) -> Result<Config, ConfigError> {
    Config::load(8000, ip, 6677, "b.test", "127.0.0.1")
}

#[test]
fn valid_ipv4_accepted_with_octets() {
    let c = load("192.168.0.1").unwrap();
    assert!(matches!(c.upstream_ip, IpLit::V4 { a: 192, b: 168, c: 0, d: 1 }));
    assert_eq!(c.listen_port, 8000);
    assert_eq!(c.upstream_port, 6677);
    assert_eq!(c.virtual_host, "b.test");
    assert_eq!(c.spoofed_client_ip, "127.0.0.1");
}

#[test]
fn out_of_range_octets_rejected_naming_value() {
    let e = load("999.999.999.999").unwrap_err();
    let ConfigError::InvalidUpstreamAddress { given } = &e;
    assert_eq!(given, "999.999.999.999");
    assert_eq!(e.message(), "invalid upstream IP address: 999.999.999.999");
}

#[test]
fn ipv4_shape_errors_rejected() {
    assert!(load("256.1.1.1").is_err());
    assert!(load("01.2.3.4").is_err());
    assert!(load("1.2.3").is_err());
    assert!(load("1.2.3.4.5").is_err());
    assert!(load("1.2.3.").is_err());
    assert!(load(".1.2.3").is_err());
    assert!(load("a.b.c.d").is_err());
    assert!(load("").is_err());
    assert!(load("not-an-ip").is_err());
}

#[test]
fn ipv4_boundaries() {
    assert!(load("0.0.0.0").is_ok());
    assert!(load("255.255.255.255").is_ok());
    assert!(load("255.255.255.256").is_err());
}

#[test]
fn valid_ipv6_accepted_with_groups() {
    let c = load("2001:db8::8a2e:370:7334").unwrap();
    match c.upstream_ip {
        IpLit::V6 { g0, g1, g2, g3, g4, g5, g6, g7 } => {
            assert_eq!(
                [g0, g1, g2, g3, g4, g5, g6, g7],
                [0x2001, 0xdb8, 0, 0, 0, 0x8a2e, 0x370, 0x7334]
            );
        }
        IpLit::V4 { .. } => panic!("parsed as IPv4"),
    }
}

#[test]
fn ipv6_group_expansion() {
    let groups = |ip: &str| -> [u16; 8] {
        match load(ip).unwrap().upstream_ip {
            IpLit::V6 { g0, g1, g2, g3, g4, g5, g6, g7 } => [g0, g1, g2, g3, g4, g5, g6, g7],
            IpLit::V4 { .. } => panic!("parsed as IPv4"),
        }
    };
    assert_eq!(groups("::"), [0, 0, 0, 0, 0, 0, 0, 0]);
    assert_eq!(groups("::1"), [0, 0, 0, 0, 0, 0, 0, 1]);
    assert_eq!(groups("1::"), [1, 0, 0, 0, 0, 0, 0, 0]);
    assert_eq!(groups("1:2:3:4:5:6:7:8"), [1, 2, 3, 4, 5, 6, 7, 8]);
    assert_eq!(groups("fe80::1"), [0xfe80, 0, 0, 0, 0, 0, 0, 1]);
    assert_eq!(
        groups("::ffff:192.0.2.128"),
        [0, 0, 0, 0, 0, 0xffff, 0xc000, 0x0280]
    );
    assert_eq!(
        groups("1:2:3:4:5:6:1.2.3.4"),
        [1, 2, 3, 4, 5, 6, 0x0102, 0x0304]
    );
}

#[test]
fn ipv6_forms_accepted() {
    assert!(load("::").is_ok());
    assert!(load("::1").is_ok());
    assert!(load("1::").is_ok());
    assert!(load("1:2:3:4:5:6:7:8").is_ok());
    assert!(load("1:2:3:4:5:6:7::").is_ok());
    assert!(load("::1:2:3:4:5:6:7").is_ok());
    assert!(load("fe80::1").is_ok());
    assert!(load("::ffff:192.0.2.128").is_ok());
    assert!(load("1:2:3:4:5:6:1.2.3.4").is_ok());
    assert!(load("1::1.2.3.4").is_ok());
    assert!(load("ABCD:ef01::1").is_ok());
}

#[test]
fn ipv6_forms_rejected() {
    assert!(load(":").is_err());
    assert!(load(":::").is_err());
    assert!(load("1::2::3").is_err());
    assert!(load("1:2:3:4:5:6:7:8:9").is_err());
    assert!(load("1:2:3:4:5:6:7:8::").is_err());
    assert!(load("::1:2:3:4:5:6:7:8").is_err());
    assert!(load("12345::").is_err());
    assert!(load("g::1").is_err());
    assert!(load(":1:2:3").is_err());
    assert!(load("1:2:3:").is_err());
    assert!(load("1.2.3.4::").is_err());
    assert!(load("1:2:3:4:5:6:7:1.2.3.4").is_err());
}
