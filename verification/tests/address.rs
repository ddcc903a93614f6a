use ptp_fast_event_consumer::address::{
    format_connection_source, host_for_url, ipv6, PeerAddr,
};

const ADDRESSES: [&str; 24] = [
    "::",
    "::1",
    "1::",
    "fd00:10:96::1",
    "FD00:10:96::aBcD",
    "1:2:3:4:5:6:7:8",
    "1:2:3:4:5:6:7::",
    "::2:3:4:5:6:7:8",
    "1::3:4:5:6:7:8",
    "0:0:0:0:0:0:0:0",
    "::ffff:192.168.0.1",
    "::1.2.3.4",
    "64:ff9b::0.0.0.0",
    "1:2:3:4:5:6:1.2.3.4",
    "1::2:3:4:5:1.2.3.4",
    "2001:db8::",
    "fe80::1",
    "a:b:c:d:e:f:0:1",
    "0001:0002::",
    "::255.255.255.255",
    "1:2::7:8",
    "1:2:3::8",
    "1:2:3:4:5:6::8",
    "::8",
];

const OTHERS: [&str; 35] = [
    "",
    ":",
    ":::",
    "1",
    "10.96.0.1",
    "None",
    "ptp.svc.cluster.local",
    "1:2:3:4:5:6:7",
    "1:2:3:4:5:6:7:8:9",
    "1:2:3:4:5:6:7:8::",
    "::1:2:3:4:5:6:7:8",
    "1::2:3:4:5:6:7:8",
    "1::2::3",
    "1:::2",
    ":1:2:3:4:5:6:7:8",
    "1:2:3:4:5:6:7:8:",
    "1:",
    ":1",
    "12345::",
    "g::",
    "::g",
    "1.2.3.4::",
    "::1.2.3",
    "::1.2.3.4.5",
    "::1.2.3.256",
    "::01.2.3.4",
    "::1..3.4",
    "::1.2.3.4:5",
    "1:2:3:4:5:6:7:1.2.3.4",
    "1::2:3:4:5:6:1.2.3.4",
    "fe80::1%eth0",
    "[::1]",
    " ::1",
    "::1 ",
    "::0x1",
];

#[test]
fn ipv6_addresses_go_into_brackets() {
    for host in ADDRESSES {
        assert!(ipv6(host), "{}", host);
        assert_eq!(host_for_url(host), format!("[{}]", host));
    }
}

#[test]
fn other_hosts_stay_as_they_are() {
    for host in OTHERS {
        assert!(!ipv6(host), "{}", host);
        assert_eq!(host_for_url(host), host);
    }
}

#[test]
fn source_of_a_connection() {
    let four = PeerAddr::V4 { ip: "10.1.2.3".to_string(), port: 41234 };
    assert_eq!(format_connection_source(&four), "10.1.2.3:41234");
    let six = PeerAddr::V6 { ip: "fd00::5".to_string(), port: 0 };
    assert_eq!(format_connection_source(&six), "[fd00::5]:0");
    let mapped = PeerAddr::V6 { ip: "::ffff:10.1.2.3".to_string(), port: 65535 };
    assert_eq!(format_connection_source(&mapped), "[::ffff:10.1.2.3]:65535");
}

#[test]
fn sources_of_different_peers_differ() {
    let a = PeerAddr::V6 { ip: "fd00::5".to_string(), port: 12 };
    let b = PeerAddr::V6 { ip: "fd00::5:1".to_string(), port: 2 };
    assert_ne!(format_connection_source(&a), format_connection_source(&b));
}

#[test]
fn source_is_the_url_host_with_the_port() {
    for ip in ADDRESSES {
        let peer = PeerAddr::V6 { ip: ip.to_string(), port: 9043 };
        assert_eq!(format_connection_source(&peer), format!("{}:9043", host_for_url(ip)));
    }
    let peer = PeerAddr::V4 { ip: "10.96.0.1".to_string(), port: 9043 };
    assert_eq!(format_connection_source(&peer), format!("{}:9043", host_for_url("10.96.0.1")));
}

#[test]
fn host_and_port_read_back() {
    for host in ADDRESSES.iter().chain(["10.96.0.1", "ptp.svc", ""].iter()) {
        let authority = format!("{}:{}", host_for_url(host), 9043);
        let (before, port) = authority.rsplit_once(':').unwrap();
        let inner = before.strip_prefix('[').and_then(|b| b.strip_suffix(']')).unwrap_or(before);
        assert_eq!(inner, *host);
        assert_eq!(port, "9043");
    }
}
