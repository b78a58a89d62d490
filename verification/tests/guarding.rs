use favicons::guard::is_blocked;
use favicons::ip::is_global;
use favicons::ip::IpAddress;
use favicons::web::fetch_host;

fn loopback() -> IpAddress {
    IpAddress::V4 { a: 127, b: 0, c: 0, d: 1 }
}

fn private_ten() -> IpAddress {
    IpAddress::V4 { a: 10, b: 1, c: 2, d: 3 }
}

fn public_v4() -> IpAddress {
    IpAddress::V4 { a: 93, b: 184, c: 216, d: 34 }
}

#[test]
fn loopback_blocked_when_policy_on() {
    let addrs = vec![loopback()];
    assert!(is_blocked("localhost", Some(&addrs), true, None));
}

#[test]
fn private_blocked_when_policy_on() {
    let addrs = vec![public_v4(), private_ten()];
    assert!(is_blocked("intranet.example.com", Some(&addrs), true, None));
}

#[test]
fn loopback_allowed_when_policy_off() {
    let addrs = vec![loopback()];
    assert!(!is_blocked("localhost", Some(&addrs), false, None));
}

#[test]
fn unresolved_host_not_blocked_by_address_step() {
    assert!(!is_blocked("nxdomain.example", None, true, None));
}

#[test]
fn public_address_not_blocked() {
    let addrs = vec![public_v4()];
    assert!(!is_blocked("example.com", Some(&addrs), true, None));
}

#[test]
fn blacklist_pattern_blocks() {
    let addrs = vec![public_v4()];
    assert!(is_blocked("bad.example.com", Some(&addrs), false, Some("bad\\.")));
    assert!(!is_blocked("good.example.com", Some(&addrs), false, Some("bad\\.")));
}

#[test]
fn invalid_pattern_does_not_block() {
    assert!(!is_blocked("example.com", None, false, Some("(unclosed")));
}

#[test]
fn host_extracted_for_the_guard() {
    assert_eq!(fetch_host("https://cdn.example.net/a/b.png?q=1"), "cdn.example.net");
    assert_eq!(fetch_host("http://127.0.0.1:8080/x.ico"), "127.0.0.1");
    assert_eq!(fetch_host("not a url"), "");
    assert_eq!(fetch_host("data:image/png;base64,QUJD"), "");
}

#[test]
fn v6_globality() {
    let v6_loopback = IpAddress::V6 { s0: 0, s1: 0, s2: 0, s3: 0, s4: 0, s5: 0, s6: 0, s7: 1 };
    let v6_unique_local = IpAddress::V6 {
        s0: 0xfd12,
        s1: 1,
        s2: 2,
        s3: 3,
        s4: 4,
        s5: 5,
        s6: 6,
        s7: 7,
    };
    let v6_link_local = IpAddress::V6 {
        s0: 0xfe80,
        s1: 0,
        s2: 0,
        s3: 0,
        s4: 0,
        s5: 0,
        s6: 0,
        s7: 9,
    };
    let v6_public = IpAddress::V6 {
        s0: 0x2606,
        s1: 0x2800,
        s2: 0x220,
        s3: 1,
        s4: 0x248,
        s5: 0x1893,
        s6: 0x25c8,
        s7: 0x1946,
    };
    assert!(!is_global(&v6_loopback));
    assert!(!is_global(&v6_unique_local));
    assert!(!is_global(&v6_link_local));
    assert!(is_global(&v6_public));
}
