use cidr_inspector::cidr::ipv4::Ipv4CidrParseError;
use cidr_inspector::cidr::ipv6::Ipv6CidrParseError;
use cidr_inspector::cidr::{inspect_all, inspect_one, CidrParseError, InspectError};
use cidr_inspector::inspector::InspectionResult;

#[test]
fn batch_keeps_the_order_of_its_inputs() {
    let inputs: Vec<String> =
        vec!["10.22.135.144/24".to_string(), "2001:db8::1/96".to_string(), "10.0.0.5/32".to_string()];
    let results: Vec<InspectionResult> = inspect_all(&inputs).unwrap();
    assert_eq!(results.len(), 3);
    match &results[0] {
        InspectionResult::V4(v4) => assert_eq!(v4.cidr, "10.22.135.144/24"),
        InspectionResult::V6(_) => panic!("Expected InspectionResult::V4"),
    }
    match &results[1] {
        InspectionResult::V6(v6) => {
            assert_eq!(v6.cidr, "2001:db8::1/96");
            assert_eq!(v6.subnet_size, "4294967296");
        }
        InspectionResult::V4(_) => panic!("Expected InspectionResult::V6"),
    }
    match &results[2] {
        InspectionResult::V4(v4) => assert_eq!(v4.cidr, "10.0.0.5/32"),
        InspectionResult::V6(_) => panic!("Expected InspectionResult::V4"),
    }
}

#[test]
fn batch_fails_on_its_first_bad_input() {
    let inputs: Vec<String> = vec![
        "10.22.135.144/24".to_string(),
        "10.22.135.144".to_string(),
        "2001:db8::1/96".to_string(),
        "10.0.0.0/33".to_string(),
    ];
    assert_eq!(
        inspect_all(&inputs),
        Err(InspectError {
            index: 1,
            error: CidrParseError::Neither {
                v4: Ipv4CidrParseError::InvalidFormat,
                v6: Ipv6CidrParseError::InvalidSyntax,
            },
        })
    );
}

#[test]
fn empty_batch_gives_no_results() {
    assert_eq!(inspect_all(&Vec::new()), Ok(Vec::new()));
}

#[test]
fn one_text_is_inspected_like_a_batch_of_one() {
    let one: InspectionResult = inspect_one("10.22.135.144/24").unwrap();
    let batch: Vec<InspectionResult> = inspect_all(&vec!["10.22.135.144/24".to_string()]).unwrap();
    assert_eq!(batch, vec![one]);
    assert_eq!(
        inspect_one("not-a-cidr"),
        Err(CidrParseError::Neither {
            v4: Ipv4CidrParseError::InvalidFormat,
            v6: Ipv6CidrParseError::InvalidSyntax,
        })
    );
}
