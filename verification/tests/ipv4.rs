use ipguard::ipv4::is_valid_ip;

#[test]
fn accepts_four_octets() {
    assert!(is_valid_ip("10.0.0.5"));
    assert!(is_valid_ip("0.0.0.0"));
    assert!(is_valid_ip("255.255.255.255"));
    assert!(is_valid_ip("192.168.1.254"));
}

#[test]
fn rejects_three_octets_with_one_out_of_range() {
    assert!(!is_valid_ip("999.1.2"));
}

#[test]
fn rejects_too_few_or_too_many_octets() {
    assert!(!is_valid_ip("1.2.3"));
    assert!(!is_valid_ip("1.2.3.4.5"));
    assert!(!is_valid_ip("1"));
    assert!(!is_valid_ip(""));
}

#[test]
fn rejects_octets_over_255() {
    assert!(!is_valid_ip("256.1.1.1"));
    assert!(!is_valid_ip("1.1.1.256"));
    assert!(!is_valid_ip("999.1.2.3"));
    assert!(!is_valid_ip("1.2.3.99999999999999999999999"));
}

#[test]
fn rejects_empty_octets() {
    assert!(!is_valid_ip("1..2.3"));
    assert!(!is_valid_ip(".1.2.3"));
    assert!(!is_valid_ip("1.2.3."));
    assert!(!is_valid_ip("..."));
}

#[test]
fn rejects_what_is_no_decimal_number() {
    assert!(!is_valid_ip("a.b.c.d"));
    assert!(!is_valid_ip("1.2.3.4 "));
    assert!(!is_valid_ip(" 1.2.3.4"));
    assert!(!is_valid_ip("1.2.3.-4"));
    assert!(!is_valid_ip("1.2.3.0x4"));
    assert!(!is_valid_ip("１.2.3.4"));
    assert!(!is_valid_ip("1.2.3.4; rm -rf /"));
}

#[test]
fn leading_zeros_do_not_change_an_octet() {
    assert!(is_valid_ip("010.001.000.007"));
    assert!(is_valid_ip("0000255.0.0.1"));
    assert!(!is_valid_ip("0000256.0.0.1"));
}

#[test]
fn rejects_a_sign_before_an_octet() {
    assert!(!is_valid_ip("+1.2.3.4"));
    assert!(!is_valid_ip("1.+2.3.4"));
    assert!(!is_valid_ip("1.2.3.+4"));
    assert!(!is_valid_ip("+1.+2.+3.+4"));
    assert!(!is_valid_ip("-1.2.3.4"));
    assert!(!is_valid_ip("1.2.3.+"));
}
