use k8sfwd::config::port::{Port, PortParseError, PortValue};

#[test]
fn port_test_port_from_object() {
    let port = Port::from_object(Some(5012), Some(80)).unwrap();
    assert_eq!(port.local, Some(5012));
    assert_eq!(port.remote, 80);
}

#[test]
fn port_test_auto_port_from_object() {
    let port = Port::from_object(None, Some(80)).unwrap();
    assert_eq!(port.local, None);
    assert_eq!(port.remote, 80);
}

#[test]
fn port_test_port_from_string() {
    let port = Port::parse_str("5012:80").unwrap();
    assert_eq!(port.local, Some(5012));
    assert_eq!(port.remote, 80);
}

#[test]
fn port_test_auto_port_from_string() {
    let port = Port::parse_str(":80").unwrap();
    assert_eq!(port.local, None);
    assert_eq!(port.remote, 80);
}

#[test]
fn port_test_auto_port_from_string_2() {
    let port = Port::parse_str("80").unwrap();
    assert_eq!(port.local, None);
    assert_eq!(port.remote, 80);
}

#[test]
fn port_test_auto_port_from_string_3() {
    let port = Port::from_value(&PortValue::Text(String::from(":80"))).unwrap();
    assert_eq!(port.local, None);
    assert_eq!(port.remote, 80);
}

#[test]
fn port_test_auto_port_from_string_4() {
    let port = Port::from_value(&PortValue::Number(80)).unwrap();
    assert_eq!(port.local, None);
    assert_eq!(port.remote, 80);
}

#[test]
fn portfwd_test_port_from_object() {
    let port = Port::from_value(&PortValue::Object {
        local: Some(5012),
        remote: Some(80),
    })
    .unwrap();
    assert_eq!(port.local, Some(5012));
    assert_eq!(port.remote, 80);
}

#[test]
fn portfwd_test_auto_port_from_object() {
    let port = Port::from_value(&PortValue::Object {
        local: None,
        remote: Some(80),
    })
    .unwrap();
    assert_eq!(port.local, None);
    assert_eq!(port.remote, 80);
}

#[test]
fn portfwd_test_port_from_string() {
    let port = Port::from_value(&PortValue::Text(String::from("5012:80"))).unwrap();
    assert_eq!(port.local, Some(5012));
    assert_eq!(port.remote, 80);
}

#[test]
fn portfwd_test_auto_port_from_string() {
    let port = Port::parse_str(":80").unwrap();
    assert_eq!(port.local, None);
    assert_eq!(port.remote, 80);
}

#[test]
fn portfwd_test_auto_port_from_string_2() {
    let port = Port::parse_str("80").unwrap();
    assert_eq!(port.local, None);
    assert_eq!(port.remote, 80);
}

#[test]
fn portfwd_test_auto_port_from_string_3() {
    let port = Port::from_value(&PortValue::Text(String::from(":80"))).unwrap();
    assert_eq!(port.local, None);
    assert_eq!(port.remote, 80);
}

#[test]
fn portfwd_test_auto_port_from_string_4() {
    let port = Port::from_value(&PortValue::Number(80)).unwrap();
    assert_eq!(port.local, None);
    assert_eq!(port.remote, 80);
}

#[test]
fn port_zero_and_too_large_are_rejected() {
    assert_eq!(Port::from_number(0), Err(PortParseError::NotPositive));
    assert_eq!(Port::from_number(65536), Err(PortParseError::TooLarge));
    assert_eq!(Port::from_number(-1), Err(PortParseError::NotPositive));
    assert!(Port::parse_str("0").is_err());
    assert!(Port::parse_str("65536").is_err());
    assert!(Port::parse_str(":0").is_err());
    assert_eq!(
        Port::from_object(Some(0), Some(80)),
        Err(PortParseError::NotPositive)
    );
    assert_eq!(
        Port::from_object(None, Some(65536)),
        Err(PortParseError::TooLarge)
    );
    assert_eq!(
        Port::from_object(Some(1), None),
        Err(PortParseError::MissingRemote)
    );
}

#[test]
fn port_string_odd_shapes_are_rejected() {
    assert_eq!(Port::parse_str("1:2:3"), Err(PortParseError::InvalidFormat));
    assert_eq!(Port::parse_str(""), Err(PortParseError::InvalidFormat));
    assert_eq!(Port::parse_str("a:80"), Err(PortParseError::InvalidFormat));
    assert_eq!(Port::parse_str("80:"), Err(PortParseError::InvalidFormat));
    assert_eq!(Port::parse_str("+80"), Err(PortParseError::InvalidFormat));
}

#[test]
fn port_error_order_in_objects() {
    // The missing remote is reported first, then the local port's range,
    // then the remote port's range.
    assert_eq!(
        Port::from_object(Some(0), None),
        Err(PortParseError::MissingRemote)
    );
    assert_eq!(
        Port::from_object(Some(0), Some(70000)),
        Err(PortParseError::NotPositive)
    );
    assert_eq!(
        Port::from_object(Some(70000), Some(0)),
        Err(PortParseError::TooLarge)
    );
}

#[test]
fn port_digits_may_carry_leading_zeros() {
    let port = Port::parse_str("0080").unwrap();
    assert_eq!(port.remote, 80);
}

#[test]
fn port_error_messages() {
    assert_eq!(
        Port::from_number(0).unwrap_err().message(),
        "Invalid port number: value must be positive"
    );
    assert_eq!(
        Port::from_number(65536).unwrap_err().message(),
        "Invalid port number: value must be smaller than or equal to 65535"
    );
    assert_eq!(
        Port::parse_str("1:2:3").unwrap_err().message(),
        "Invalid string format"
    );
}
