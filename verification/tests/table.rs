use std::str::FromStr;
use cidr_inspector::cidr::Cidr;
use cidr_inspector::inspector::TableRow;

#[test]
fn row_of_an_ipv4_network_leaves_the_ipv6_columns_empty() {
    let row: TableRow = TableRow::from(Cidr::from_str("10.22.135.144/24").unwrap().inspect());
    assert_eq!(
        row,
        TableRow {
            ip_ver: "v4",
            cidr: "10.22.135.144/24".to_string(),
            address: "10.22.135.144".to_string(),
            prefix: 24,
            network: "10.22.135.0".to_string(),
            first_usable: "10.22.135.1".to_string(),
            last_usable: "10.22.135.254".to_string(),
            broadcast: "10.22.135.255".to_string(),
            available: String::new(),
            netmask: String::new(),
            hostmask: String::new(),
        }
    );
}

#[test]
fn row_of_an_ipv6_network_leaves_the_ipv4_columns_empty() {
    let row: TableRow =
        TableRow::from(Cidr::from_str("2001:db8:1::ab9:c0a8:102/64").unwrap().inspect());
    assert_eq!(
        row,
        TableRow {
            ip_ver: "v6",
            cidr: "2001:db8:1::ab9:c0a8:102/64".to_string(),
            address: "2001:db8:1::ab9:c0a8:102".to_string(),
            prefix: 64,
            network: "2001:db8:1::".to_string(),
            first_usable: String::new(),
            last_usable: String::new(),
            broadcast: String::new(),
            available: "2^64".to_string(),
            netmask: "ffff:ffff:ffff:ffff::".to_string(),
            hostmask: "::ffff:ffff:ffff:ffff".to_string(),
        }
    );
}
