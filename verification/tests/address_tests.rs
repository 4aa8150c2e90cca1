use netsync::address::{parse_address_and_port, parse_address_bytes, Ipv4Address};
use netsync::errors::NetworkError;

fn ip(a: u8, b: u8, c: u8, d: u8) -> Ipv4Address {
    Ipv4Address { a, b, c, d }
}

#[test]
fn loopback_without_port_gets_the_default_port() {
    assert_eq!(
        parse_address_and_port("127.0.0.1"),
        Ok((ip(127, 0, 0, 1), 13001))
    );
}

#[test]
fn explicit_port_is_used() {
    assert_eq!(
        parse_address_and_port("127.0.0.1:9000"),
        Ok((ip(127, 0, 0, 1), 9000))
    );
}

#[test]
fn extra_colon_in_a_bad_address_is_invalid_address() {
    assert_eq!(
        parse_address_and_port("bad:ip:val"),
        Err(NetworkError::InvalidAddress)
    );
}

#[test]
fn text_after_a_valid_port_is_invalid_address() {
    assert_eq!(
        parse_address_and_port("1.2.3.4:90:x"),
        Err(NetworkError::InvalidAddress)
    );
}

#[test]
fn bad_port_is_reported_before_the_extra_colon() {
    // Splitting takes the part between the first and second colon as the
    // port; its failure wins over the extra-colon check.
    assert_eq!(
        parse_address_and_port("1.2.3.4:x:y"),
        Err(NetworkError::InvalidPort)
    );
}

#[test]
fn octet_over_255_is_invalid() {
    assert_eq!(
        parse_address_and_port("256.1.1.1"),
        Err(NetworkError::InvalidAddress)
    );
    assert_eq!(
        parse_address_and_port("1.1.1.999"),
        Err(NetworkError::InvalidAddress)
    );
}

#[test]
fn leading_zeros_are_invalid() {
    assert_eq!(
        parse_address_and_port("01.2.3.4"),
        Err(NetworkError::InvalidAddress)
    );
    assert_eq!(
        parse_address_and_port("1.2.3.00"),
        Err(NetworkError::InvalidAddress)
    );
}

#[test]
fn zero_octets_are_fine() {
    assert_eq!(
        parse_address_and_port("0.0.0.0:13001"),
        Ok((ip(0, 0, 0, 0), 13001))
    );
}

#[test]
fn full_range_address_and_port() {
    assert_eq!(
        parse_address_and_port("255.255.255.255:65535"),
        Ok((ip(255, 255, 255, 255), 65535))
    );
}

#[test]
fn port_with_plus_sign_parses_like_the_standard_integer_parser() {
    assert_eq!(
        parse_address_and_port("10.0.0.1:+9000"),
        Ok((ip(10, 0, 0, 1), 9000))
    );
}

#[test]
fn port_with_leading_zeros_is_accepted() {
    assert_eq!(
        parse_address_and_port("10.0.0.1:009000"),
        Ok((ip(10, 0, 0, 1), 9000))
    );
}

#[test]
fn port_out_of_range_is_invalid_port() {
    assert_eq!(
        parse_address_and_port("1.2.3.4:65536"),
        Err(NetworkError::InvalidPort)
    );
}

#[test]
fn empty_port_is_invalid_port() {
    assert_eq!(
        parse_address_and_port("1.2.3.4:"),
        Err(NetworkError::InvalidPort)
    );
    assert_eq!(
        parse_address_and_port("1.2.3.4:+"),
        Err(NetworkError::InvalidPort)
    );
}

#[test]
fn empty_and_whitespace_strings_are_invalid_address() {
    assert_eq!(parse_address_and_port(""), Err(NetworkError::InvalidAddress));
    assert_eq!(
        parse_address_and_port(" 127.0.0.1"),
        Err(NetworkError::InvalidAddress)
    );
    assert_eq!(
        parse_address_and_port("127.0.0.1 "),
        Err(NetworkError::InvalidAddress)
    );
}

#[test]
fn too_few_or_too_many_octets_are_invalid() {
    assert_eq!(
        parse_address_and_port("1.2.3"),
        Err(NetworkError::InvalidAddress)
    );
    assert_eq!(
        parse_address_and_port("1.2.3.4.5"),
        Err(NetworkError::InvalidAddress)
    );
}

#[test]
fn byte_level_entry_point_matches() {
    assert_eq!(
        parse_address_bytes(b"192.168.0.17:13001"),
        Ok((ip(192, 168, 0, 17), 13001))
    );
}

#[test]
fn network_error_messages() {
    assert_eq!(NetworkError::MissingAddress.message(), "Missing IP address");
    assert_eq!(
        NetworkError::InvalidAddress.message(),
        "Unable to parse IP address"
    );
    assert_eq!(
        NetworkError::InvalidPort.message(),
        "Invalid port, expected decimal number from 0 to 65535"
    );
    assert_eq!(
        NetworkError::UnableBindSocket.message(),
        "Unable to bind socket"
    );
    assert_eq!(
        NetworkError::UnableCreateServerTransport.message(),
        "Unable to create server transport"
    );
    assert_eq!(
        NetworkError::UnableCreateClientTransport.message(),
        "Unable to create client transport"
    );
}
