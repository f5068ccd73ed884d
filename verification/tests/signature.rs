use sep2_tls::error::TlsError;
use sep2_tls::server_cert::PureRustServerCertVerifier;
use sep2_tls::signature::{
    match_curve, signature_result, tls_signature_algorithm_identifier, KeyInfo, SignatureCheck,
    SignatureScheme,
};
use x509_verify::der::asn1::ObjectIdentifier;

fn general(text: &str) -> Result<(), TlsError> {
    Err(TlsError::General(text.to_string()))
}

fn encoded(oid: &str) -> Option<Vec<u8>> {
    Some(ObjectIdentifier::new_unwrap(oid).as_bytes().to_vec())
}

const P256: &str = "1.2.840.10045.3.1.7";
const P384: &str = "1.3.132.0.34";

#[test]
fn schemes_have_algorithms() {
    let algorithms = [
        (SignatureScheme::ECDSA_NISTP256_SHA256, "1.2.840.10045.4.3.2"),
        (SignatureScheme::ECDSA_NISTP384_SHA384, "1.2.840.10045.4.3.3"),
        (SignatureScheme::RSA_PKCS1_SHA256, "1.2.840.113549.1.1.11"),
        (SignatureScheme::RSA_PKCS1_SHA384, "1.2.840.113549.1.1.12"),
        (SignatureScheme::RSA_PKCS1_SHA512, "1.2.840.113549.1.1.13"),
        (SignatureScheme::ED25519, "1.3.101.112"),
    ];
    for (scheme, oid) in algorithms {
        assert_eq!(tls_signature_algorithm_identifier(scheme), Ok(oid));
    }
}

#[test]
fn schemes_without_algorithm_are_refused() {
    let names = [
        (SignatureScheme::RSA_PKCS1_SHA1, "RSA_PKCS1_SHA1"),
        (SignatureScheme::ECDSA_SHA1_Legacy, "ECDSA_SHA1_Legacy"),
        (SignatureScheme::ECDSA_NISTP521_SHA512, "ECDSA_NISTP521_SHA512"),
        (SignatureScheme::RSA_PSS_SHA256, "RSA_PSS_SHA256"),
        (SignatureScheme::RSA_PSS_SHA384, "RSA_PSS_SHA384"),
        (SignatureScheme::RSA_PSS_SHA512, "RSA_PSS_SHA512"),
        (SignatureScheme::ED448, "ED448"),
        (SignatureScheme::Unknown(2570), "Unknown(2570)"),
    ];
    for (scheme, name) in names {
        assert_eq!(
            tls_signature_algorithm_identifier(scheme).map(|_| ()),
            general(&format!("unsupported TLS signature scheme {}", name))
        );
        assert_eq!(format!("{:?}", scheme), name);
    }
}

#[test]
fn schemes_are_named_as_in_rustls() {
    for number in 0..=u16::MAX {
        let name = format!("{:?}", rustls::SignatureScheme::from(number));
        if name.starts_with("Unknown(") {
            assert_eq!(SignatureScheme::Unknown(number).name(), name);
        }
    }
    let scheme = SignatureScheme::ECDSA_NISTP256_SHA256;
    assert_eq!(scheme.name(), format!("{:?}", rustls::SignatureScheme::from(0x0403)));
    let scheme = SignatureScheme::RSA_PKCS1_SHA256;
    assert_eq!(scheme.name(), format!("{:?}", rustls::SignatureScheme::from(0x0401)));
}

#[test]
fn curve_has_to_match_the_scheme() {
    let p256 = SignatureScheme::ECDSA_NISTP256_SHA256;
    let p384 = SignatureScheme::ECDSA_NISTP384_SHA384;
    let name = |text: &str| Some(text.to_string());
    assert_eq!(match_curve(p256, &encoded(P256), name(P256)), Ok(()));
    assert_eq!(match_curve(p384, &encoded(P384), name(P384)), Ok(()));
    assert_eq!(
        match_curve(p256, &encoded(P384), name(P384)),
        general(
            "TLS 1.3 signature scheme ECDSA_NISTP256_SHA256 is incompatible with certificate curve 1.3.132.0.34"
        )
    );
    assert_eq!(
        match_curve(p384, &encoded(P256), name(P256)),
        general(
            "TLS 1.3 signature scheme ECDSA_NISTP384_SHA384 is incompatible with certificate curve 1.2.840.10045.3.1.7"
        )
    );
}

#[test]
fn curve_has_to_be_named() {
    let scheme = SignatureScheme::ECDSA_NISTP256_SHA256;
    assert_eq!(
        match_curve(scheme, &None, None),
        general("ECDSA certificate is missing named-curve parameters")
    );
    assert_eq!(
        match_curve(scheme, &Some(vec![1]), None),
        general("failed to parse ECDSA named-curve parameters")
    );
}

#[test]
fn other_schemes_take_any_curve() {
    for scheme in [SignatureScheme::ED25519, SignatureScheme::RSA_PKCS1_SHA256] {
        assert_eq!(match_curve(scheme, &None, None), Ok(()));
    }
}

#[test]
fn checks_of_signatures_are_reported() {
    let scheme = SignatureScheme::ED448;
    let text = || "why".to_string();
    assert_eq!(
        signature_result(scheme, SignatureCheck::NoKeyInfo(text())),
        general("invalid certificate subject public key info: why")
    );
    assert_eq!(
        signature_result(scheme, SignatureCheck::NoKey(text())),
        general("unsupported certificate public key for TLS signature verification: why")
    );
    assert_eq!(
        signature_result(scheme, SignatureCheck::NoAlgorithm),
        general("unsupported TLS signature scheme ED448")
    );
    assert_eq!(
        signature_result(scheme, SignatureCheck::Checked(Err(text()))),
        general("invalid TLS handshake signature: why")
    );
    assert_eq!(signature_result(scheme, SignatureCheck::Checked(Ok(()))), Ok(()));
}

#[test]
fn some_keys_have_one_length() {
    let key = |algorithm: &str, len: usize| KeyInfo {
        algorithm: encoded(algorithm).unwrap(),
        key: vec![0; len],
    };
    assert!(key("1.3.101.112", 32).is_of_fixed_length());
    assert!(!key("1.3.101.112", 31).is_of_fixed_length());
    assert!(!key("1.3.101.112", 33).is_of_fixed_length());
    assert!(key("1.2.840.10045.2.1", 31).is_of_fixed_length());
}

#[test]
fn offered_schemes_are_supported() {
    let verifier =
        PureRustServerCertVerifier { rootca_path: String::new(), trust_anchors: vec![] };
    let schemes = verifier.supported_verify_schemes();
    assert_eq!(
        schemes,
        vec![SignatureScheme::ECDSA_NISTP256_SHA256, SignatureScheme::RSA_PKCS1_SHA256]
    );
    for scheme in schemes {
        assert!(tls_signature_algorithm_identifier(scheme).is_ok());
    }
    assert!(!verifier.request_scts());
}
