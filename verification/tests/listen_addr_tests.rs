use k8sfwd::config::listen_addr::{
    check_ipv4, check_ipv6, parse_listen_addr, validate_listen_addrs, ListenAddrError,
};

fn addrs(list: &[&str]) -> Vec<String> {
    list.iter().map(|s| String::from(*s)).collect()
}

#[test]
fn port_forward_config_test_listen_ip_and_localhost() {
    validate_listen_addrs(&addrs(&["127.0.0.1", "[::1]", "localhost"]))
        .expect("configuration is valid");
}

#[test]
fn port_forward_config_test_listen_invalid_host() {
    validate_listen_addrs(&addrs(&["foo"]))
        .expect_err("literal host names must be exactly `localhost`");
}

#[test]
fn port_forward_config_test_listen_invalid_ipv4() {
    validate_listen_addrs(&addrs(&["127.0.0.256"]))
        .expect_err("the IPv6 address is invalid");
}

#[test]
fn port_forward_config_test_listen_invalid_ipv6() {
    validate_listen_addrs(&addrs(&["[fe80:2030:31:24]"]))
        .expect_err("the IPv6 address is invalid");
}

#[test]
fn portfwd_test_listen_ip_and_localhost() {
    assert!(parse_listen_addr("127.0.0.1").is_ok());
    assert!(parse_listen_addr("[::1]").is_ok());
    assert!(parse_listen_addr("localhost").is_ok());
}

#[test]
fn portfwd_test_listen_invalid_host() {
    assert_eq!(
        parse_listen_addr("foo"),
        Err(ListenAddrError::InvalidAddress)
    );
}

#[test]
fn portfwd_test_listen_invalid_ipv4() {
    assert_eq!(
        parse_listen_addr("127.0.0.256"),
        Err(ListenAddrError::InvalidAddress)
    );
}

#[test]
fn portfwd_test_listen_invalid_ipv6() {
    assert_eq!(
        parse_listen_addr("[fe80:2030:31:24]"),
        Err(ListenAddrError::InvalidBracketedAddress)
    );
}

#[test]
fn ipv4_syntax() {
    assert!(check_ipv4("0.0.0.0"));
    assert!(check_ipv4("255.255.255.255"));
    assert!(!check_ipv4("256.0.0.1"));
    assert!(!check_ipv4("01.2.3.4"));
    assert!(!check_ipv4("1.2.3"));
    assert!(!check_ipv4("1.2.3.4.5"));
    assert!(!check_ipv4("1.2.3.x"));
    assert!(!check_ipv4(""));
}

#[test]
fn ipv6_syntax() {
    assert!(check_ipv6("::"));
    assert!(check_ipv6("::1"));
    assert!(check_ipv6("fe80::1"));
    assert!(check_ipv6("1:2:3:4:5:6:7:8"));
    assert!(check_ipv6("1:2:3:4:5:6:7::"));
    assert!(check_ipv6("::ffff:192.168.0.1"));
    assert!(check_ipv6("1:2:3:4:5:6:1.2.3.4"));
    assert!(!check_ipv6("1:2:3:4:5:6:7:8:9"));
    assert!(!check_ipv6("1:2:3:4:5:6:7"));
    assert!(!check_ipv6(":::"));
    assert!(!check_ipv6("1::2::3"));
    assert!(!check_ipv6(":1:2:3:4:5:6:7"));
    assert!(!check_ipv6("1:2:3:4:5:6:7:"));
    assert!(!check_ipv6("12345::"));
    assert!(!check_ipv6("g::1"));
    assert!(!check_ipv6("1:2:3:4::5:6:7:8"));
}
