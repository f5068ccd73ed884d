use sep2_tls::certificate::{Certificate, GeneralName};
use sep2_tls::error::{CertificateError, TlsError};
use sep2_tls::names::{
    dns_name_matches, ip_address_matches, validate_dns_name, validate_ip_address,
    validate_server_identity, IpAddress, ServerName,
};

fn certificate(
    names: Result<Option<Vec<GeneralName>>, String>,
    common_names: Vec<String>,
) -> Certificate {
    Certificate {
        der: vec![],
        issuer: vec![],
        subject: vec![],
        public_key: vec![],
        key_parameters: None,
        not_before: 0,
        not_after: 0,
        extensions: vec![],
        key_usage: Ok(None),
        extended_key_usage: Ok(None),
        basic_constraints: Ok(None),
        subject_alternative_name: names,
        common_names,
    }
}

const WRONG_NAME: TlsError = TlsError::InvalidCertificate(CertificateError::NotValidForName);

#[test]
fn names_match_whatever_their_case() {
    assert!(dns_name_matches("Server.Example", "sERVER.eXAMPLE"));
    assert!(!dns_name_matches("server.example", "server.example.org"));
    assert!(!dns_name_matches("server.example", "server"));
    // Only the letters of ASCII have a case here.
    assert!(!dns_name_matches("\u{c4}.example", "\u{e4}.example"));
}

#[test]
fn trailing_dots_are_ignored() {
    assert!(dns_name_matches("server.example.", "server.example"));
    assert!(dns_name_matches("server.example", "server.example..."));
    assert!(dns_name_matches("*.example.", "server.example."));
    assert!(dns_name_matches("", "."));
}

#[test]
fn wildcard_stands_for_one_label() {
    assert!(dns_name_matches("*.example", "server.example"));
    assert!(dns_name_matches("*.GRID.example", "a.grid.EXAMPLE"));
    assert!(!dns_name_matches("*.example", "a.b.example"));
    assert!(!dns_name_matches("*.example", "example"));
    assert!(!dns_name_matches("*.a.example", "x.b.example"));
    assert!(dns_name_matches("*.example", ".example"));
}

#[test]
fn wildcard_stands_first_and_alone() {
    assert!(!dns_name_matches("s*.example", "server.example"));
    assert!(!dns_name_matches("*.*.example", "a.b.example"));
    assert!(!dns_name_matches("server.*", "server.example"));
    assert!(!dns_name_matches("*", "server"));
    // A pattern always matches itself.
    assert!(dns_name_matches("*.*.example", "*.*.example"));
}

#[test]
fn wildcard_needs_a_label_behind_it() {
    // The trailing dot is dropped first, which leaves no wildcard.
    assert!(!dns_name_matches("*.", "server"));
    assert!(!dns_name_matches("*.", "server."));
}

#[test]
fn addresses_match_byte_for_byte() {
    assert!(ip_address_matches(&[127, 0, 0, 1], IpAddress::V4([127, 0, 0, 1])));
    assert!(!ip_address_matches(&[127, 0, 0, 2], IpAddress::V4([127, 0, 0, 1])));
    assert!(!ip_address_matches(&[127, 0, 0], IpAddress::V4([127, 0, 0, 1])));
    let v6: [u8; 16] = [0, 0, 0, 0, 0, 0, 0, 0, 0, 0, 0xff, 0xff, 127, 0, 0, 1];
    assert!(ip_address_matches(&v6, IpAddress::V6(v6)));
    assert!(!ip_address_matches(&[127, 0, 0, 1], IpAddress::V6(v6)));
}

#[test]
fn alternative_names_decide() {
    let names = vec![
        GeneralName::Other,
        GeneralName::IpAddress(b"server.example".to_vec()),
        GeneralName::DnsName("*.grid.example".to_string()),
    ];
    let cert = certificate(Ok(Some(names)), vec!["server.example".to_string()]);
    assert_eq!(validate_dns_name(&cert, "a.grid.example"), Ok(()));
    assert_eq!(validate_dns_name(&cert, "server.example"), Err(WRONG_NAME));
}

#[test]
fn common_names_stand_in_for_alternative_names() {
    let cert = certificate(Ok(None), vec!["other".to_string(), "*.example".to_string()]);
    assert_eq!(validate_dns_name(&cert, "server.example"), Ok(()));
    assert_eq!(validate_dns_name(&cert, "server"), Err(WRONG_NAME));
    assert_eq!(validate_dns_name(&certificate(Ok(None), vec![]), "server"), Err(WRONG_NAME));
}

#[test]
fn empty_alternative_names_cover_nothing() {
    let cert = certificate(Ok(Some(vec![])), vec!["server.example".to_string()]);
    assert_eq!(validate_dns_name(&cert, "server.example"), Err(WRONG_NAME));
}

#[test]
fn addresses_need_alternative_names() {
    let names = vec![GeneralName::IpAddress(vec![10, 0, 0, 1])];
    let cert = certificate(Ok(Some(names)), vec![]);
    assert_eq!(validate_ip_address(&cert, IpAddress::V4([10, 0, 0, 1])), Ok(()));
    assert_eq!(validate_ip_address(&cert, IpAddress::V4([10, 0, 0, 2])), Err(WRONG_NAME));
    let cert = certificate(Ok(None), vec!["10.0.0.1".to_string()]);
    assert_eq!(validate_ip_address(&cert, IpAddress::V4([10, 0, 0, 1])), Err(WRONG_NAME));
}

#[test]
fn alternative_names_that_cannot_be_used_are_reported() {
    let error = || {
        Err(TlsError::General("invalid subject alternative name extension: twice".to_string()))
    };
    let cert = certificate(Err("twice".to_string()), vec!["server".to_string()]);
    assert_eq!(validate_dns_name(&cert, "server"), error());
    assert_eq!(validate_ip_address(&cert, IpAddress::V4([10, 0, 0, 1])), error());
}

#[test]
fn identity_goes_by_the_kind_of_name() {
    let names = vec![
        GeneralName::DnsName("server.example".to_string()),
        GeneralName::IpAddress(vec![10, 0, 0, 1]),
    ];
    let cert = certificate(Ok(Some(names)), vec![]);
    let dns = ServerName::DnsName("server.example".to_string());
    assert_eq!(validate_server_identity(&cert, &dns), Ok(()));
    let ip = ServerName::IpAddress(IpAddress::V4([10, 0, 0, 1]));
    assert_eq!(validate_server_identity(&cert, &ip), Ok(()));
    let other = ServerName::Unsupported("Mailbox".to_string());
    assert_eq!(
        validate_server_identity(&cert, &other),
        Err(TlsError::General("unsupported server name variant: Mailbox".to_string()))
    );
}
