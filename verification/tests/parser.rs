use tcping::parse_port_range;
use tcping::port_in_range;
use tcping::ports_in_order;
use tcping::PortError;
use tcping::PortRange;

#[test]
fn single_token_yields_that_port() {
    assert_eq!(port_in_range("1"), Ok(1));
    assert_eq!(port_in_range("80"), Ok(80));
    assert_eq!(port_in_range("65535"), Ok(65535));
    assert_eq!(parse_port_range("443"), Ok(PortRange { start: 443, end: 443 }));
}

#[test]
fn leading_plus_and_zeros_are_accepted() {
    assert_eq!(port_in_range("+80"), Ok(80));
    assert_eq!(port_in_range("0080"), Ok(80));
}

#[test]
fn non_numeric_token_is_invalid() {
    assert_eq!(
        port_in_range("abc"),
        Err(PortError::InvalidPort { token: String::from("abc") })
    );
    assert_eq!(
        port_in_range(""),
        Err(PortError::InvalidPort { token: String::from("") })
    );
    assert_eq!(
        port_in_range("+"),
        Err(PortError::InvalidPort { token: String::from("+") })
    );
    assert_eq!(
        port_in_range("80x"),
        Err(PortError::InvalidPort { token: String::from("80x") })
    );
}

#[test]
fn unrepresentable_numeral_is_invalid() {
    let huge = "99999999999999999999999999";
    assert_eq!(
        port_in_range(huge),
        Err(PortError::InvalidPort { token: String::from(huge) })
    );
}

#[test]
fn out_of_range_token_is_rejected() {
    assert_eq!(
        port_in_range("0"),
        Err(PortError::PortOutOfRange { token: String::from("0") })
    );
    assert_eq!(
        port_in_range("65536"),
        Err(PortError::PortOutOfRange { token: String::from("65536") })
    );
    assert_eq!(
        port_in_range("70000"),
        Err(PortError::PortOutOfRange { token: String::from("70000") })
    );
}

#[test]
fn error_messages_name_the_token_and_the_bounds() {
    let e = port_in_range("foo").unwrap_err();
    assert_eq!(e.message(), String::from("`foo` isn't a port number"));
    let e = port_in_range("70000").unwrap_err();
    assert_eq!(e.message(), String::from("`70000` port not in range 1-65535"));
}

#[test]
fn two_tokens_are_ordered() {
    assert_eq!(parse_port_range("80-90"), Ok(PortRange { start: 80, end: 90 }));
    assert_eq!(parse_port_range("90-80"), Ok(PortRange { start: 80, end: 90 }));
    assert_eq!(parse_port_range("7-7"), Ok(PortRange { start: 7, end: 7 }));
}

#[test]
fn reversed_range_is_normalized_and_probed_in_order() {
    let pr = parse_port_range("8080-8079").unwrap();
    assert_eq!(pr, PortRange { start: 8079, end: 8080 });
    assert_eq!(ports_in_order(&pr), vec![8079, 8080]);
}

#[test]
fn parse_failure_leaves_no_range_to_probe() {
    assert!(parse_port_range("80-").is_err());
    assert!(parse_port_range("-80").is_err());
    assert_eq!(
        parse_port_range("80-x"),
        Err(PortError::InvalidPort { token: String::from("x") })
    );
    assert_eq!(
        parse_port_range("abc"),
        Err(PortError::InvalidPort { token: String::from("abc") })
    );
    assert_eq!(
        parse_port_range("1-99999"),
        Err(PortError::PortOutOfRange { token: String::from("99999") })
    );
}

#[test]
fn first_invalid_token_wins() {
    assert_eq!(
        parse_port_range("x-99999"),
        Err(PortError::InvalidPort { token: String::from("x") })
    );
    assert_eq!(
        parse_port_range("1--3"),
        Err(PortError::InvalidPort { token: String::from("") })
    );
}

#[test]
fn extra_valid_tokens_are_ignored() {
    assert_eq!(parse_port_range("3-1-2"), Ok(PortRange { start: 1, end: 3 }));
}

#[test]
fn full_range_enumeration() {
    let pr = parse_port_range("5-8").unwrap();
    assert_eq!(ports_in_order(&pr), vec![5, 6, 7, 8]);
    let pr = parse_port_range("80").unwrap();
    assert_eq!(ports_in_order(&pr), vec![80]);
}
