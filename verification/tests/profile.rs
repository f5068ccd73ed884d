use sep2_tls::certificate::{
    BasicConstraints, ExtendedKeyUsage, Extension, ExtensionKind, KeyUsage,
};
use sep2_tls::profile::{check_extensions, Profile, ProfileError, Required, Violation};

const KEY_USAGE: ExtensionKind = ExtensionKind::KeyUsage(KeyUsage { flags: 0x60 });
const AUTHORITY: ExtensionKind =
    ExtensionKind::BasicConstraints(BasicConstraints { ca: true, path_len_constraint: None });

fn list(kinds: &[(ExtensionKind, bool)]) -> Vec<Extension> {
    kinds
        .iter()
        .map(|(kind, critical)| Extension {
            encoded_oid: vec![],
            oid: String::new(),
            critical: *critical,
            value: vec![],
            kind: *kind,
        })
        .collect()
}

fn device() -> Vec<(ExtensionKind, bool)> {
    vec![
        (KEY_USAGE, true),
        (ExtensionKind::CertificatePolicies, true),
        (ExtensionKind::SubjectAlternativeName, true),
        (ExtensionKind::AuthorityKeyIdentifier, false),
    ]
}

fn client() -> Vec<(ExtensionKind, bool)> {
    vec![(KEY_USAGE, true), (ExtensionKind::CertificatePolicies, true)]
}

fn authority() -> Vec<(ExtensionKind, bool)> {
    vec![
        (KEY_USAGE, true),
        (ExtensionKind::CertificatePolicies, true),
        (AUTHORITY, true),
        (ExtensionKind::SubjectKeyIdentifier, false),
    ]
}

fn with(
    mut kinds: Vec<(ExtensionKind, bool)>,
    kind: ExtensionKind,
    critical: bool,
) -> Vec<Extension> {
    kinds.push((kind, critical));
    list(&kinds)
}

fn without(mut kinds: Vec<(ExtensionKind, bool)>, index: usize) -> Vec<Extension> {
    kinds.remove(index);
    list(&kinds)
}

const PROFILES: [Profile; 3] = [Profile::Device, Profile::SelfSignedClient, Profile::Authority];

#[test]
fn each_profile_takes_its_own_and_no_other() {
    let lists = [device(), client(), authority()];
    for (i, profile) in PROFILES.iter().enumerate() {
        for (j, kinds) in lists.iter().enumerate() {
            assert_eq!(check_extensions(*profile, &list(kinds)).is_ok(), i == j);
        }
    }
}

#[test]
fn order_of_extensions_does_not_matter() {
    for (profile, mut kinds) in PROFILES.into_iter().zip([device(), client(), authority()]) {
        kinds.reverse();
        assert_eq!(check_extensions(profile, &list(&kinds)), Ok(()));
    }
}

#[test]
fn subject_key_identifiers_may_be_there() {
    let kind = ExtensionKind::SubjectKeyIdentifier;
    assert_eq!(check_extensions(Profile::Device, &with(device(), kind, false)), Ok(()));
    assert_eq!(check_extensions(Profile::SelfSignedClient, &with(client(), kind, false)), Ok(()));
    let error = Err(Violation::SubjectKeyIdentifierCritical);
    assert_eq!(check_extensions(Profile::Device, &with(device(), kind, true)), error);
    assert_eq!(check_extensions(Profile::SelfSignedClient, &with(client(), kind, true)), error);
    assert_eq!(check_extensions(Profile::Authority, &with(authority(), kind, true)), error);
}

#[test]
fn policy_mappings_are_rejected() {
    let kind = ExtensionKind::PolicyMappings;
    let error = Err(Violation::PolicyMappings);
    assert_eq!(check_extensions(Profile::Device, &with(device(), kind, false)), error);
    assert_eq!(check_extensions(Profile::SelfSignedClient, &with(client(), kind, true)), error);
    assert_eq!(
        check_extensions(Profile::Authority, &with(authority(), kind, true)),
        Err(Violation::UnexpectedExtension)
    );
}

#[test]
fn name_constraints_are_rejected() {
    let kind = ExtensionKind::NameConstraints;
    let error = Err(Violation::NameConstraints);
    assert_eq!(check_extensions(Profile::Device, &with(device(), kind, false)), error);
    assert_eq!(check_extensions(Profile::SelfSignedClient, &with(client(), kind, true)), error);
    assert_eq!(
        check_extensions(Profile::Authority, &with(authority(), kind, true)),
        Err(Violation::UnexpectedExtension)
    );
}

#[test]
fn other_extensions_are_unexpected() {
    let error = Err(Violation::UnexpectedExtension);
    let purposes = ExtendedKeyUsage { any: true, server_auth: true };
    for kind in [ExtensionKind::ExtendedKeyUsage(purposes), ExtensionKind::Other] {
        assert_eq!(check_extensions(Profile::Device, &with(device(), kind, false)), error);
        assert_eq!(check_extensions(Profile::SelfSignedClient, &with(client(), kind, false)), error);
        assert_eq!(check_extensions(Profile::Authority, &with(authority(), kind, false)), error);
    }
    assert_eq!(check_extensions(Profile::Device, &with(device(), AUTHORITY, true)), error);
    let kind = ExtensionKind::AuthorityKeyIdentifier;
    assert_eq!(check_extensions(Profile::SelfSignedClient, &with(client(), kind, false)), error);
}

#[test]
fn some_extensions_have_to_be_critical() {
    let kind = ExtensionKind::CertificatePolicies;
    let error = Err(Violation::CertificatePoliciesNotCritical);
    assert_eq!(check_extensions(Profile::Device, &with(device(), kind, false)), error);
    assert_eq!(check_extensions(Profile::SelfSignedClient, &with(client(), kind, false)), error);
    assert_eq!(check_extensions(Profile::Authority, &with(authority(), kind, false)), error);
    assert_eq!(
        check_extensions(Profile::Device, &with(device(), KEY_USAGE, false)),
        Err(Violation::KeyUsageNotCritical)
    );
    assert_eq!(
        check_extensions(Profile::SelfSignedClient, &with(client(), KEY_USAGE, false)),
        Err(Violation::KeyUsageNotCritical)
    );
    assert_eq!(
        check_extensions(
            Profile::Device,
            &with(device(), ExtensionKind::SubjectAlternativeName, false)
        ),
        Err(Violation::SubjectAlternativeNameNotCritical)
    );
    assert_eq!(
        check_extensions(
            Profile::Device,
            &with(device(), ExtensionKind::AuthorityKeyIdentifier, true)
        ),
        Err(Violation::AuthorityKeyIdentifierCritical)
    );
}

#[test]
fn authorities_have_to_sign_certificates_and_lists() {
    let error = Err(Violation::AuthorityKeyUsage);
    for (flags, critical) in [(0x20, true), (0x40, true), (0x60, false), (0x00, true)] {
        let kind = ExtensionKind::KeyUsage(KeyUsage { flags });
        assert_eq!(
            check_extensions(Profile::Authority, &with(authority(), kind, critical)),
            error
        );
    }
}

#[test]
fn authorities_have_no_longest_path() {
    let error = Err(Violation::AuthorityBasicConstraints);
    for (ca, path_len_constraint, critical) in
        [(true, Some(0), true), (false, None, true), (true, None, false)]
    {
        let kind = ExtensionKind::BasicConstraints(BasicConstraints { ca, path_len_constraint });
        assert_eq!(
            check_extensions(Profile::Authority, &with(authority(), kind, critical)),
            error
        );
    }
}

#[test]
fn missing_extensions_are_reported_in_order() {
    let missing = |profile, required| Err(Violation::Missing(profile, required));
    let device_order = [
        Required::KeyUsage,
        Required::CertificatePolicies,
        Required::SubjectAlternativeName,
        Required::AuthorityKeyIdentifier,
    ];
    for (i, required) in device_order.into_iter().enumerate() {
        assert_eq!(
            check_extensions(Profile::Device, &without(device(), i)),
            missing(Profile::Device, required)
        );
        assert_eq!(
            check_extensions(Profile::Device, &list(&device()[..i])),
            missing(Profile::Device, required)
        );
    }
    for (i, required) in device_order[..2].iter().enumerate() {
        assert_eq!(
            check_extensions(Profile::SelfSignedClient, &without(client(), i)),
            missing(Profile::SelfSignedClient, *required)
        );
    }
    let authority_order = [
        Required::KeyUsage,
        Required::CertificatePolicies,
        Required::BasicConstraints,
        Required::SubjectKeyIdentifier,
    ];
    for (i, required) in authority_order.into_iter().enumerate() {
        assert_eq!(
            check_extensions(Profile::Authority, &list(&authority()[..i])),
            missing(Profile::Authority, required)
        );
    }
}

#[test]
fn first_extension_at_fault_is_reported() {
    let kinds = [
        (ExtensionKind::SubjectKeyIdentifier, true),
        (ExtensionKind::PolicyMappings, true),
    ];
    assert_eq!(
        check_extensions(Profile::Device, &list(&kinds)),
        Err(Violation::SubjectKeyIdentifierCritical)
    );
}

#[test]
fn violations_have_texts() {
    let texts = [
        (Violation::PolicyMappings, "Device Certificates cannot contain policy mappings."),
        (Violation::NameConstraints, "Device Certificates cannot contain name constraints."),
        (
            Violation::CertificatePoliciesNotCritical,
            "CertificatePolicies extension must be critical.",
        ),
        (
            Violation::SubjectAlternativeNameNotCritical,
            "SubjectAlternativeName extension must be critical",
        ),
        (Violation::KeyUsageNotCritical, "KeyUsage extension must be critical."),
        (
            Violation::AuthorityKeyIdentifierCritical,
            "AuthorityKeyIdentifier extension cannot be critical.",
        ),
        (Violation::SubjectKeyIdentifierCritical, "SubjectKeyIdentifier cannot be critical"),
        (
            Violation::AuthorityKeyUsage,
            "KeyUsage extension must be critical and keyCertSign and crlSign must be true.",
        ),
        (
            Violation::AuthorityBasicConstraints,
            "BasicConstraints must be critical, cA must be true, and pathLen must be absent.",
        ),
        (
            Violation::UnexpectedExtension,
            "Unexpected extension or unparsed extension encountered.",
        ),
        (
            Violation::Missing(Profile::Device, Required::SubjectAlternativeName),
            "SubjectAlternativeName extension not present",
        ),
        (
            Violation::Missing(Profile::Device, Required::AuthorityKeyIdentifier),
            "AuthorityKeyIdentifier extension not present",
        ),
        (
            Violation::Missing(Profile::SelfSignedClient, Required::KeyUsage),
            "KeyUsage extension not present.",
        ),
        (
            Violation::Missing(Profile::SelfSignedClient, Required::CertificatePolicies),
            "CertificatePolicies extension not present.",
        ),
        (
            Violation::Missing(Profile::Authority, Required::BasicConstraints),
            "BasicConstraints extension not present.",
        ),
        (
            Violation::Missing(Profile::Authority, Required::SubjectKeyIdentifier),
            "SubjectKeyIdentifier extension not present.",
        ),
    ];
    for (violation, text) in texts {
        assert_eq!(violation.message(), text);
        assert_eq!(ProfileError::Violation(violation).message(), text);
    }
}
