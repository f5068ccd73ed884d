use sep2_tls::certificate::{
    BasicConstraints, Certificate, ExtendedKeyUsage, Extension, ExtensionKind, KeyUsage,
};
use sep2_tls::error::{CertificateError, TlsError};
use sep2_tls::text::decimal;
use sep2_tls::time::asn1_time_from_system;
use sep2_tls::validate::{
    validate_ca_certificate, validate_certificate_time, validate_end_entity_usages,
    validate_supported_critical_extensions,
};

fn authority() -> Certificate {
    Certificate {
        der: vec![],
        issuer: vec![],
        subject: vec![],
        public_key: vec![],
        key_parameters: None,
        not_before: 10,
        not_after: 20,
        extensions: vec![],
        key_usage: Ok(Some(KeyUsage { flags: 0x20 })),
        extended_key_usage: Ok(None),
        basic_constraints: Ok(Some(BasicConstraints { ca: true, path_len_constraint: None })),
        subject_alternative_name: Ok(None),
        common_names: vec![],
    }
}

fn extension(oid: &str, critical: bool, kind: ExtensionKind) -> Extension {
    Extension { encoded_oid: vec![], oid: oid.to_string(), critical, value: vec![], kind }
}

fn general(text: &str) -> Result<(), TlsError> {
    Err(TlsError::General(text.to_string()))
}

const WRONG_PURPOSE: TlsError = TlsError::InvalidCertificate(CertificateError::InvalidPurpose);

#[test]
fn validity_includes_both_ends() {
    let cert = authority();
    assert_eq!(validate_certificate_time(&cert, 10, "it"), Ok(()));
    assert_eq!(validate_certificate_time(&cert, 20, "it"), Ok(()));
    let error = "it is not valid at the current time";
    assert_eq!(validate_certificate_time(&cert, 9, "it"), general(error));
    assert_eq!(validate_certificate_time(&cert, 21, "it"), general(error));
}

#[test]
fn supported_extensions_may_be_critical() {
    let mut cert = authority();
    cert.extensions = vec![
        extension("1", true, ExtensionKind::KeyUsage(KeyUsage { flags: 0 })),
        extension("2", true, ExtensionKind::CertificatePolicies),
        extension(
            "3",
            true,
            ExtensionKind::ExtendedKeyUsage(ExtendedKeyUsage { any: false, server_auth: false }),
        ),
        extension("4", true, ExtensionKind::SubjectAlternativeName),
        extension("5", false, ExtensionKind::Other),
    ];
    assert_eq!(validate_supported_critical_extensions(&cert, "it"), Ok(()));
}

#[test]
fn first_unsupported_critical_extension_is_reported() {
    let mut cert = authority();
    cert.extensions = vec![
        extension("1.1", false, ExtensionKind::Other),
        extension("1.2", true, ExtensionKind::NameConstraints),
        extension("1.3", true, ExtensionKind::Other),
    ];
    assert_eq!(
        validate_supported_critical_extensions(&cert, "it"),
        general("unsupported critical extension 1.2 in it")
    );
}

#[test]
fn server_keys_may_have_no_usages() {
    let mut cert = authority();
    cert.key_usage = Ok(None);
    assert_eq!(validate_end_entity_usages(&cert), Ok(()));
}

#[test]
fn server_keys_have_to_sign() {
    let mut cert = authority();
    assert_eq!(
        validate_end_entity_usages(&cert),
        general("server certificate key usage does not permit digital signatures")
    );
    cert.key_usage = Ok(Some(KeyUsage { flags: 0x81 }));
    assert_eq!(validate_end_entity_usages(&cert), Ok(()));
    cert.key_usage = Err("twice".to_string());
    assert_eq!(validate_end_entity_usages(&cert), general("invalid key usage extension: twice"));
}

#[test]
fn server_keys_have_to_be_for_servers() {
    let mut cert = authority();
    cert.key_usage = Ok(None);
    cert.extended_key_usage = Ok(Some(ExtendedKeyUsage { any: false, server_auth: false }));
    assert_eq!(validate_end_entity_usages(&cert), Err(WRONG_PURPOSE));
    cert.extended_key_usage = Ok(Some(ExtendedKeyUsage { any: true, server_auth: false }));
    assert_eq!(validate_end_entity_usages(&cert), Ok(()));
    cert.extended_key_usage = Ok(Some(ExtendedKeyUsage { any: false, server_auth: true }));
    assert_eq!(validate_end_entity_usages(&cert), Ok(()));
    cert.extended_key_usage = Err("twice".to_string());
    assert_eq!(
        validate_end_entity_usages(&cert),
        general("invalid extended key usage extension: twice")
    );
}

#[test]
fn authorities_may_issue() {
    assert_eq!(validate_ca_certificate(&authority(), 15, 1000), Ok(()));
    let mut cert = authority();
    cert.key_usage = Ok(None);
    assert_eq!(validate_ca_certificate(&cert, 15, 0), Ok(()));
}

#[test]
fn authorities_have_to_be_marked() {
    let mut cert = authority();
    cert.basic_constraints = Ok(None);
    assert_eq!(
        validate_ca_certificate(&cert, 15, 0),
        general("issuer certificate is missing basic constraints")
    );
    cert.basic_constraints =
        Ok(Some(BasicConstraints { ca: false, path_len_constraint: Some(3) }));
    assert_eq!(
        validate_ca_certificate(&cert, 15, 9),
        general("issuer certificate is not marked as a CA certificate")
    );
    cert.basic_constraints = Err("twice".to_string());
    assert_eq!(
        validate_ca_certificate(&cert, 15, 0),
        general("invalid basic constraints extension: twice")
    );
}

#[test]
fn paths_have_a_longest_length() {
    let mut cert = authority();
    cert.basic_constraints =
        Ok(Some(BasicConstraints { ca: true, path_len_constraint: Some(12) }));
    assert_eq!(validate_ca_certificate(&cert, 15, 12), Ok(()));
    assert_eq!(validate_ca_certificate(&cert, 15, 11), Ok(()));
    assert_eq!(
        validate_ca_certificate(&cert, 15, 130),
        general(
            "issuer certificate path length constraint 12 exceeded by 130 subordinate CA certificates"
        )
    );
}

#[test]
fn authorities_have_to_sign_certificates() {
    let mut cert = authority();
    cert.key_usage = Ok(Some(KeyUsage { flags: 0x41 }));
    assert_eq!(
        validate_ca_certificate(&cert, 15, 0),
        general("issuer certificate key usage does not permit certificate signing")
    );
    cert.key_usage = Err("twice".to_string());
    assert_eq!(
        validate_ca_certificate(&cert, 15, 0),
        general("invalid issuer key usage extension: twice")
    );
}

#[test]
fn authorities_have_to_be_for_servers() {
    let mut cert = authority();
    cert.extended_key_usage = Ok(Some(ExtendedKeyUsage { any: false, server_auth: false }));
    assert_eq!(validate_ca_certificate(&cert, 15, 0), Err(WRONG_PURPOSE));
    cert.extended_key_usage = Err("twice".to_string());
    assert_eq!(
        validate_ca_certificate(&cert, 15, 0),
        general("invalid issuer extended key usage extension: twice")
    );
}

#[test]
fn first_fault_of_an_authority_is_reported() {
    let mut cert = authority();
    cert.extensions = vec![extension("1.2", true, ExtensionKind::Other)];
    cert.basic_constraints = Ok(None);
    assert_eq!(
        validate_ca_certificate(&cert, 30, 0),
        general("issuer certificate is not valid at the current time")
    );
    assert_eq!(
        validate_ca_certificate(&cert, 15, 0),
        general("unsupported critical extension 1.2 in issuer certificate")
    );
}

#[test]
fn clock_readings_become_times() {
    assert_eq!(asn1_time_from_system(Some(0)), Ok(0));
    assert_eq!(asn1_time_from_system(Some(1_700_000_000)), Ok(1_700_000_000_000_000_000));
    assert_eq!(asn1_time_from_system(Some(253_402_300_799)), Ok(253_402_300_799_000_000_000));
}

#[test]
fn clock_readings_out_of_range_are_refused() {
    let refused = |text: &str| Err(TlsError::General(text.to_string()));
    assert_eq!(asn1_time_from_system(None), refused("system time predates UNIX_EPOCH"));
    assert_eq!(
        asn1_time_from_system(Some(253_402_300_800)),
        refused("failed to convert system time for certificate verification")
    );
    assert_eq!(
        asn1_time_from_system(Some(i64::MAX as u64)),
        refused("failed to convert system time for certificate verification")
    );
    assert_eq!(
        asn1_time_from_system(Some(i64::MAX as u64 + 1)),
        refused("system time exceeds supported certificate verification range")
    );
}

#[test]
fn errors_are_put_in_words() {
    assert_eq!(
        TlsError::General("no reason".to_string()).display(),
        "unexpected error: no reason"
    );
    assert_eq!(WRONG_PURPOSE.display(), "invalid peer certificate: InvalidPurpose");
    assert_eq!(CertificateError::BadEncoding.name(), "BadEncoding");
    assert_eq!(CertificateError::UnknownIssuer.name(), "UnknownIssuer");
    assert_eq!(CertificateError::NotValidForName.name(), "NotValidForName");
}

#[test]
fn errors_read_as_in_rustls() {
    let pairs = [
        (CertificateError::BadEncoding, rustls::CertificateError::BadEncoding),
        (CertificateError::UnknownIssuer, rustls::CertificateError::UnknownIssuer),
        (CertificateError::NotValidForName, rustls::CertificateError::NotValidForName),
        (CertificateError::InvalidPurpose, rustls::CertificateError::InvalidPurpose),
    ];
    for (ours, theirs) in pairs {
        assert_eq!(
            TlsError::InvalidCertificate(ours).display(),
            rustls::Error::InvalidCertificate(theirs).to_string()
        );
    }
    assert_eq!(
        TlsError::General("why".to_string()).display(),
        rustls::Error::General("why".to_string()).to_string()
    );
}

#[test]
fn numbers_are_written_in_decimal() {
    assert_eq!(decimal(0), "0");
    assert_eq!(decimal(9), "9");
    assert_eq!(decimal(10), "10");
    assert_eq!(decimal(u64::MAX), "18446744073709551615");
}
