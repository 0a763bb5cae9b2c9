use std::str::FromStr;
use cidr_inspector::cidr::ipv4::{Ipv4Cidr, Ipv4CidrParseError, Ipv4CidrParts};
use cidr_inspector::cidr::CidrPartsError;
use cidr_inspector::inspector::ipv4::Ipv4InspectionResult;
use cidr_inspector::inspector::InspectionResult;
use cidr_inspector::ip::ipv4::IPv4;

const EXPECTED_BINARY_ADDRESS: u32 = 0b00001010_00010110_10000111_10010000;
const EXPECTED_IPV4_STR: &str = "10.22.135.144";

fn inspect_text(text: &str) -> Ipv4InspectionResult {
    match Ipv4Cidr::from_str(text).unwrap().inspect() {
        InspectionResult::V4(v4) => v4,
        InspectionResult::V6(_) => panic!("Expected InspectionResult::V4"),
    }
}

#[test]
fn ipv4_test_ipv4cidr_try_from_success() {
    // Arrange
    let expected_prefix: u8 = 24;
    let expected_cidr_parts: Ipv4CidrParts =
        Ipv4CidrParts { address: EXPECTED_BINARY_ADDRESS, prefix: expected_prefix };

    let expected_binary_mask: u32 = 0b11111111_11111111_11111111_00000000;

    // Act
    let actual_cidr: Ipv4Cidr = Ipv4Cidr::try_from(expected_cidr_parts).unwrap();

    // Assert
    assert_eq!(actual_cidr.addr().addr(), EXPECTED_BINARY_ADDRESS);
    assert_eq!(actual_cidr.mask().addr(), expected_binary_mask);
    assert_eq!(actual_cidr.prefix_len(), expected_prefix);
}

#[test]
fn ipv4_test_ipv4cidr_try_from_wrong_prefix() {
    // Arrange
    let expected_prefix: u8 = 33;
    let expected_cidr_parts: Ipv4CidrParts =
        Ipv4CidrParts { address: EXPECTED_BINARY_ADDRESS, prefix: expected_prefix };

    // Act
    let actual_result: Result<Ipv4Cidr, CidrPartsError> = Ipv4Cidr::try_from(expected_cidr_parts);

    // Assert
    assert_eq!(actual_result, Err(CidrPartsError::InvalidPrefix(expected_prefix)));
}

#[test]
fn ipv4_test_parse_ipv4_cidr_success() {
    // Arrange
    let expected_prefix: u8 = 24;
    let expected_binary_mask: u32 = 0b11111111_11111111_11111111_00000000;
    let expected_cidr_string: String = format!("{EXPECTED_IPV4_STR}/{expected_prefix}");
    let expected_cidr: Ipv4Cidr = Ipv4Cidr::try_from(Ipv4CidrParts {
        address: EXPECTED_BINARY_ADDRESS,
        prefix: expected_prefix,
    })
    .unwrap();

    // Act
    let actual_cidr: Ipv4Cidr = expected_cidr_string.parse().unwrap();

    // Assert
    assert_eq!(actual_cidr, expected_cidr);
    assert_eq!(actual_cidr.addr(), IPv4::from(EXPECTED_BINARY_ADDRESS));
    assert_eq!(actual_cidr.mask(), IPv4::from(expected_binary_mask));
    assert_eq!(actual_cidr.prefix_len(), expected_prefix);
}

#[test]
fn ipv4_test_parse_ipv4_cidr_invalid_format() {
    // Arrange

    // Act
    let actual_result: Result<Ipv4Cidr, Ipv4CidrParseError> = EXPECTED_IPV4_STR.parse();

    // Assert
    assert_eq!(actual_result, Err(Ipv4CidrParseError::InvalidFormat));
}

#[test]
fn ipv4_test_parse_ipv4_cidr_invalid_cidr_invalid_ip() {
    // Arrange
    let expected_prefix: u8 = 24;
    let expected_invalid_ip = "192.168.not_a_number.1";
    let expected_cidr_string: String = format!("{expected_invalid_ip}/{expected_prefix}");

    // Act
    let actual_result: Result<Ipv4Cidr, Ipv4CidrParseError> = expected_cidr_string.parse();

    // Assert
    assert_eq!(actual_result, Err(Ipv4CidrParseError::InvalidCidr));
}

#[test]
fn ipv4_test_get_subnet_address() {
    // Arrange
    let expected_prefix: u8 = 24;
    let expected_binary_mask: u32 = 0b11111111_11111111_11111111_00000000;
    let expected_binary_address: u32 = 0b00001010_01011000_10000111_10010000;
    let expected_subnet_address: u32 = 0b00001010_01011000_10000111_00000000;
    let expected_cidr: Ipv4Cidr = Ipv4Cidr::try_from(Ipv4CidrParts {
        address: expected_binary_address,
        prefix: expected_prefix,
    })
    .unwrap();
    assert_eq!(expected_cidr.mask(), IPv4::from(expected_binary_mask));

    // Act
    let actual_subnet_address: u32 = expected_cidr.get_network_address();

    // Assert
    assert_eq!(actual_subnet_address, expected_subnet_address);
    assert_eq!(expected_cidr.get_subnet_address(), expected_subnet_address);
}

#[test]
fn ipv4_test_inspect() {
    // Arrange
    let expected_prefix: u8 = 24;
    let expected_binary_mask: u32 = 0b11111111_11111111_11111111_00000000;
    let expected_cidr_string: String = format!("{EXPECTED_IPV4_STR}/{expected_prefix}");
    let expected_subnet_address: String = "10.22.135.0".to_string();
    let expected_first_usable_ip: String = "10.22.135.1".to_string();
    let expected_last_usable_ip: String = "10.22.135.254".to_string();
    let expected_broadcast_ip: String = "10.22.135.255".to_string();
    let expected_inspection_result: InspectionResult =
        InspectionResult::V4(Ipv4InspectionResult {
            cidr: expected_cidr_string,
            first_usable: expected_first_usable_ip,
            last_usable: expected_last_usable_ip,
            broadcast: expected_broadcast_ip,
            network: expected_subnet_address,
            address: EXPECTED_IPV4_STR.to_string(),
            prefix_length: expected_prefix,
        });
    let expected_cidr: Ipv4Cidr = Ipv4Cidr::try_from(Ipv4CidrParts {
        address: EXPECTED_BINARY_ADDRESS,
        prefix: expected_prefix,
    })
    .unwrap();
    assert_eq!(expected_cidr.mask(), IPv4::from(expected_binary_mask));

    // Act
    let actual_inspection_result: InspectionResult = expected_cidr.inspect();

    // Assert
    assert_eq!(actual_inspection_result, expected_inspection_result);
}

#[test]
fn typical_network_from_text() {
    let result: Ipv4InspectionResult = inspect_text("10.22.135.144/24");
    assert_eq!(result.cidr, "10.22.135.144/24");
    assert_eq!(result.address, "10.22.135.144");
    assert_eq!(result.prefix_length, 24);
    assert_eq!(result.network, "10.22.135.0");
    assert_eq!(result.broadcast, "10.22.135.255");
    assert_eq!(result.first_usable, "10.22.135.1");
    assert_eq!(result.last_usable, "10.22.135.254");
}

#[test]
fn host_route_keeps_the_plain_arithmetic() {
    let result: Ipv4InspectionResult = inspect_text("10.0.0.5/32");
    assert_eq!(result.cidr, "10.0.0.5/32");
    assert_eq!(result.network, "10.0.0.5");
    assert_eq!(result.broadcast, "10.0.0.5");
    assert_eq!(result.first_usable, "10.0.0.6");
    assert_eq!(result.last_usable, "10.0.0.4");
}

#[test]
fn point_to_point_network_keeps_the_plain_arithmetic() {
    let result: Ipv4InspectionResult = inspect_text("10.0.0.5/31");
    assert_eq!(result.network, "10.0.0.4");
    assert_eq!(result.broadcast, "10.0.0.5");
    assert_eq!(result.first_usable, "10.0.0.5");
    assert_eq!(result.last_usable, "10.0.0.4");
}

#[test]
fn whole_address_space() {
    let result: Ipv4InspectionResult = inspect_text("192.168.1.1/0");
    assert_eq!(result.cidr, "192.168.1.1/0");
    assert_eq!(result.network, "0.0.0.0");
    assert_eq!(result.broadcast, "255.255.255.255");
    assert_eq!(result.first_usable, "0.0.0.1");
    assert_eq!(result.last_usable, "255.255.255.254");
}

#[test]
fn usable_addresses_wrap_at_the_ends_of_the_address_space() {
    let low: Ipv4InspectionResult = inspect_text("0.0.0.0/32");
    assert_eq!(low.network, "0.0.0.0");
    assert_eq!(low.broadcast, "0.0.0.0");
    assert_eq!(low.first_usable, "0.0.0.1");
    assert_eq!(low.last_usable, "255.255.255.255");
    let high: Ipv4InspectionResult = inspect_text("255.255.255.255/32");
    assert_eq!(high.network, "255.255.255.255");
    assert_eq!(high.broadcast, "255.255.255.255");
    assert_eq!(high.first_usable, "0.0.0.0");
    assert_eq!(high.last_usable, "255.255.255.254");
}

#[test]
fn prefix_length_zero_gives_an_empty_mask() {
    let cidr: Ipv4Cidr =
        Ipv4Cidr::try_from(Ipv4CidrParts { address: EXPECTED_BINARY_ADDRESS, prefix: 0 }).unwrap();
    assert_eq!(cidr.mask().addr(), 0);
    assert_eq!(cidr.get_network_address(), 0);
    assert_eq!(cidr.prefix_len(), 0);
}

#[test]
fn prefix_length_of_the_whole_address_gives_a_full_mask() {
    let cidr: Ipv4Cidr =
        Ipv4Cidr::try_from(Ipv4CidrParts { address: EXPECTED_BINARY_ADDRESS, prefix: 32 })
            .unwrap();
    assert_eq!(cidr.mask().addr(), 0xFFFF_FFFF);
    assert_eq!(cidr.get_network_address(), EXPECTED_BINARY_ADDRESS);
}

#[test]
fn every_prefix_length_above_the_width_is_refused() {
    let mut prefix: u8 = 33;
    loop {
        assert_eq!(
            Ipv4Cidr::try_from(Ipv4CidrParts { address: 0, prefix }),
            Err(CidrPartsError::InvalidPrefix(prefix))
        );
        if prefix == 255 {
            break;
        }
        prefix += 1;
    }
}

#[test]
fn network_of_a_network_address_is_itself() {
    let addresses: Vec<u32> = vec![0, 1, EXPECTED_BINARY_ADDRESS, 0x8000_0001, 0xFFFF_FFFF];
    for address in addresses {
        let mut prefix: u8 = 0;
        while prefix <= 32 {
            let cidr: Ipv4Cidr = Ipv4Cidr::try_from(Ipv4CidrParts { address, prefix }).unwrap();
            let network: u32 = cidr.get_network_address();
            let again: Ipv4Cidr =
                Ipv4Cidr::try_from(Ipv4CidrParts { address: network, prefix }).unwrap();
            assert_eq!(again.get_network_address(), network);
            prefix += 1;
        }
    }
}

#[test]
fn text_without_exactly_one_slash_is_a_format_error() {
    assert_eq!(Ipv4Cidr::from_str(""), Err(Ipv4CidrParseError::InvalidFormat));
    assert_eq!(Ipv4Cidr::from_str("10.22.135.144"), Err(Ipv4CidrParseError::InvalidFormat));
    assert_eq!(Ipv4Cidr::from_str("10.0.0.0/8/8"), Err(Ipv4CidrParseError::InvalidFormat));
    assert_eq!(Ipv4Cidr::from_str("10.0.0.0//8"), Err(Ipv4CidrParseError::InvalidFormat));
    assert_eq!(Ipv4Cidr::from_str("not-a-cidr"), Err(Ipv4CidrParseError::InvalidFormat));
}

#[test]
fn bad_address_or_prefix_is_an_invalid_cidr() {
    assert_eq!(Ipv4Cidr::from_str("/"), Err(Ipv4CidrParseError::InvalidCidr));
    assert_eq!(Ipv4Cidr::from_str("10.0.0.0/"), Err(Ipv4CidrParseError::InvalidCidr));
    assert_eq!(Ipv4Cidr::from_str("/8"), Err(Ipv4CidrParseError::InvalidCidr));
    assert_eq!(Ipv4Cidr::from_str("10.0.0/8"), Err(Ipv4CidrParseError::InvalidCidr));
    assert_eq!(Ipv4Cidr::from_str("10.0.0.256/8"), Err(Ipv4CidrParseError::InvalidCidr));
    assert_eq!(Ipv4Cidr::from_str("10.0.0.0/33"), Err(Ipv4CidrParseError::InvalidCidr));
    assert_eq!(Ipv4Cidr::from_str("10.0.0.0/256"), Err(Ipv4CidrParseError::InvalidCidr));
    assert_eq!(Ipv4Cidr::from_str("10.0.0.0/-1"), Err(Ipv4CidrParseError::InvalidCidr));
    assert_eq!(Ipv4Cidr::from_str("10.0.0.0/a"), Err(Ipv4CidrParseError::InvalidCidr));
    assert_eq!(Ipv4Cidr::from_str("10.0.0.0/ 8"), Err(Ipv4CidrParseError::InvalidCidr));
    assert_eq!(
        Ipv4Cidr::from_str("192.168.not_a_number.1/24"),
        Err(Ipv4CidrParseError::InvalidCidr)
    );
}

#[test]
fn prefix_lengths_at_the_bounds_parse() {
    assert_eq!(Ipv4Cidr::from_str("1.2.3.4/0").unwrap().prefix_len(), 0);
    assert_eq!(Ipv4Cidr::from_str("1.2.3.4/32").unwrap().prefix_len(), 32);
    assert_eq!(Ipv4Cidr::from_str("1.2.3.4/+08").unwrap().prefix_len(), 8);
}
