use std::str::FromStr;
use cidr_inspector::cidr::ipv4::Ipv4CidrParseError;
use cidr_inspector::cidr::ipv6::Ipv6CidrParseError;
use cidr_inspector::cidr::{Cidr, CidrParseError};
use cidr_inspector::inspector::InspectionResult;

const EXPECTED_IPV4_PREFIX: u8 = 24;
const EXPECTED_IPV6_PREFIX: u8 = 24;

const EXPECTED_IPV4_STR: &str = "10.22.135.144";
const EXPECTED_IPV6_STR: &str = "2001:db8:1::ab9:c0a8:102";

#[test]
fn test_parse_ipv4_cidr() {
    // Arrange
    let expected_ipv4_cidr_str: String = format!("{EXPECTED_IPV4_STR}/{EXPECTED_IPV4_PREFIX}");

    // Act
    let actual_net: Cidr = expected_ipv4_cidr_str.parse().unwrap();

    // Assert
    match actual_net {
        Cidr::V4(cidr) => {
            assert_eq!(cidr.prefix_len(), EXPECTED_IPV4_PREFIX);
            assert_eq!(cidr.addr().human_readable(), EXPECTED_IPV4_STR);
        }
        _ => panic!("Expected Cidr::V4"),
    }
}

#[test]
fn test_parse_ipv6_cidr() {
    // Arrange
    let expected_ipv6_cidr_str: String = format!("{EXPECTED_IPV6_STR}/{EXPECTED_IPV6_PREFIX}");

    // Act
    let actual_net: Cidr = expected_ipv6_cidr_str.parse().unwrap();

    // Assert
    match actual_net {
        Cidr::V6(cidr) => {
            assert_eq!(cidr.prefix_len(), EXPECTED_IPV6_PREFIX);
            assert_eq!(cidr.addr().human_readable(), EXPECTED_IPV6_STR);
        }
        _ => panic!("Expected Cidr::V6"),
    }
}

#[test]
fn test_parse_invalid_string() {
    // Arrange
    let expected_invalid_string: &str = "some-invalid-string";

    // Act
    let actual_err = expected_invalid_string.parse::<Cidr>();

    // Assert
    assert!(actual_err.is_err());
}

#[test]
fn text_of_neither_family_carries_both_reasons() {
    assert_eq!(
        Cidr::from_str("not-a-cidr"),
        Err(CidrParseError::Neither {
            v4: Ipv4CidrParseError::InvalidFormat,
            v6: Ipv6CidrParseError::InvalidSyntax,
        })
    );
    assert_eq!(
        Cidr::from_str("192.168.not_a_number.1/24"),
        Err(CidrParseError::Neither {
            v4: Ipv4CidrParseError::InvalidCidr,
            v6: Ipv6CidrParseError::InvalidSyntax,
        })
    );
    assert_eq!(
        Cidr::from_str("10.0.0.0/33"),
        Err(CidrParseError::Neither {
            v4: Ipv4CidrParseError::InvalidCidr,
            v6: Ipv6CidrParseError::InvalidSyntax,
        })
    );
    assert_eq!(
        Cidr::from_str("2001:db8::/129"),
        Err(CidrParseError::Neither {
            v4: Ipv4CidrParseError::InvalidCidr,
            v6: Ipv6CidrParseError::InvalidSyntax,
        })
    );
}

#[test]
fn inspection_keeps_the_family() {
    let v4: InspectionResult = Cidr::from_str("10.22.135.144/24").unwrap().inspect();
    match v4 {
        InspectionResult::V4(result) => {
            assert_eq!(result.network, "10.22.135.0");
            assert_eq!(result.broadcast, "10.22.135.255");
        }
        InspectionResult::V6(_) => panic!("Expected InspectionResult::V4"),
    }
    let v6: InspectionResult = Cidr::from_str("2001:db8:1::ab9:c0a8:102/64").unwrap().inspect();
    match v6 {
        InspectionResult::V6(result) => {
            assert_eq!(result.network, "2001:db8:1::");
            assert_eq!(result.subnet_size, "2^64");
        }
        InspectionResult::V4(_) => panic!("Expected InspectionResult::V6"),
    }
}
