//! The certificate profiles of IEEE 2030.5: device certificates, self-signed client certificates
//! and certificate authorities.

use vstd::prelude::*;

use crate::certificate::{
    extension_views, law_usages_are_single_bits, Extension, ExtensionKind, ExtensionView,
};
use crate::pem::{pem_first_block, read_first_block};
use crate::x509::{decode_certificate, decoded};

verus! {

/// What a certificate is meant for.
#[derive(Clone, Copy, Debug, PartialEq, Eq, Structural)]
pub enum Profile {
    /// A device, as a TLS server has to be.
    Device,
    /// A client that signed its own certificate.
    SelfSignedClient,
    /// A certificate authority.
    Authority,
}

/// An extension that some profile asks for.
#[derive(Clone, Copy, Debug, PartialEq, Eq, Structural)]
pub enum Required {
    KeyUsage,
    CertificatePolicies,
    BasicConstraints,
    SubjectAlternativeName,
    AuthorityKeyIdentifier,
    SubjectKeyIdentifier,
}

/// How a certificate falls short of a profile.
#[derive(Clone, Copy, Debug, PartialEq, Eq, Structural)]
pub enum Violation {
    PolicyMappings,
    NameConstraints,
    CertificatePoliciesNotCritical,
    SubjectAlternativeNameNotCritical,
    KeyUsageNotCritical,
    AuthorityKeyIdentifierCritical,
    SubjectKeyIdentifierCritical,
    /// The key usage of an authority is not critical or leaves out a signing right.
    AuthorityKeyUsage,
    /// The basic constraints of an authority are not critical, do not mark it as one, or limit the
    /// length of paths.
    AuthorityBasicConstraints,
    UnexpectedExtension,
    /// The profile asks for an extension that is not there.
    Missing(Profile, Required),
}

impl Required {
    /// The name of the extension.
    pub open spec fn name_text(self) -> Seq<char> {
        match self {
            Required::KeyUsage => "KeyUsage"@,
            Required::CertificatePolicies => "CertificatePolicies"@,
            Required::BasicConstraints => "BasicConstraints"@,
            Required::SubjectAlternativeName => "SubjectAlternativeName"@,
            Required::AuthorityKeyIdentifier => "AuthorityKeyIdentifier"@,
            Required::SubjectKeyIdentifier => "SubjectKeyIdentifier"@,
        }
    }

    /// The name of the extension.
    pub fn name(&self) -> (text: &'static str)
        ensures
            text@ == self.name_text(),
    {
        match self {
            Required::KeyUsage => "KeyUsage",
            Required::CertificatePolicies => "CertificatePolicies",
            Required::BasicConstraints => "BasicConstraints",
            Required::SubjectAlternativeName => "SubjectAlternativeName",
            Required::AuthorityKeyIdentifier => "AuthorityKeyIdentifier",
            Required::SubjectKeyIdentifier => "SubjectKeyIdentifier",
        }
    }
}

impl Violation {
    /// The text that reports the violation.
    pub open spec fn message_text(self) -> Seq<char> {
        match self {
            Violation::PolicyMappings => "Device Certificates cannot contain policy mappings."@,
            Violation::NameConstraints => "Device Certificates cannot contain name constraints."@,
            Violation::CertificatePoliciesNotCritical => {
                "CertificatePolicies extension must be critical."@
            },
            Violation::SubjectAlternativeNameNotCritical => {
                "SubjectAlternativeName extension must be critical"@
            },
            Violation::KeyUsageNotCritical => "KeyUsage extension must be critical."@,
            Violation::AuthorityKeyIdentifierCritical => {
                "AuthorityKeyIdentifier extension cannot be critical."@
            },
            Violation::SubjectKeyIdentifierCritical => "SubjectKeyIdentifier cannot be critical"@,
            Violation::AuthorityKeyUsage => {
                "KeyUsage extension must be critical and keyCertSign and crlSign must be true."@
            },
            Violation::AuthorityBasicConstraints => {
                "BasicConstraints must be critical, cA must be true, and pathLen must be absent."@
            },
            Violation::UnexpectedExtension => {
                "Unexpected extension or unparsed extension encountered."@
            },
            Violation::Missing(Profile::Device, extension) => extension.name_text()
                + " extension not present"@,
            Violation::Missing(_, extension) => extension.name_text()
                + " extension not present."@,
        }
    }

    /// The text that reports the violation.
    pub fn message(&self) -> (text: String)
        ensures
            text@ == self.message_text(),
    {
        match self {
            Violation::PolicyMappings => {
                "Device Certificates cannot contain policy mappings.".to_owned()
            },
            Violation::NameConstraints => {
                "Device Certificates cannot contain name constraints.".to_owned()
            },
            Violation::CertificatePoliciesNotCritical => {
                "CertificatePolicies extension must be critical.".to_owned()
            },
            Violation::SubjectAlternativeNameNotCritical => {
                "SubjectAlternativeName extension must be critical".to_owned()
            },
            Violation::KeyUsageNotCritical => "KeyUsage extension must be critical.".to_owned(),
            Violation::AuthorityKeyIdentifierCritical => {
                "AuthorityKeyIdentifier extension cannot be critical.".to_owned()
            },
            Violation::SubjectKeyIdentifierCritical => {
                "SubjectKeyIdentifier cannot be critical".to_owned()
            },
            Violation::AuthorityKeyUsage => {
                "KeyUsage extension must be critical and keyCertSign and crlSign must be true.".to_owned()
            },
            Violation::AuthorityBasicConstraints => {
                "BasicConstraints must be critical, cA must be true, and pathLen must be absent.".to_owned()
            },
            Violation::UnexpectedExtension => {
                "Unexpected extension or unparsed extension encountered.".to_owned()
            },
            Violation::Missing(Profile::Device, extension) => extension.name().to_owned().concat(
                " extension not present",
            ),
            Violation::Missing(_, extension) => extension.name().to_owned().concat(
                " extension not present.",
            ),
        }
    }
}

/// `violation`, unless `fine`.
pub open spec fn unless(fine: bool, violation: Violation) -> Option<Violation> {
    if fine {
        None
    } else {
        Some(violation)
    }
}

/// What is wrong with one extension of a device or client certificate, if anything.
pub open spec fn holder_fault(profile: Profile, extension: ExtensionView) -> Option<Violation> {
    match extension.kind {
        ExtensionKind::PolicyMappings => Some(Violation::PolicyMappings),
        ExtensionKind::NameConstraints => Some(Violation::NameConstraints),
        ExtensionKind::CertificatePolicies => unless(
            extension.critical,
            Violation::CertificatePoliciesNotCritical,
        ),
        ExtensionKind::KeyUsage(_) => unless(extension.critical, Violation::KeyUsageNotCritical),
        ExtensionKind::SubjectKeyIdentifier => unless(
            !extension.critical,
            Violation::SubjectKeyIdentifierCritical,
        ),
        ExtensionKind::SubjectAlternativeName if profile == Profile::Device => unless(
            extension.critical,
            Violation::SubjectAlternativeNameNotCritical,
        ),
        ExtensionKind::AuthorityKeyIdentifier if profile == Profile::Device => unless(
            !extension.critical,
            Violation::AuthorityKeyIdentifierCritical,
        ),
        _ => Some(Violation::UnexpectedExtension),
    }
}

/// What is wrong with one extension of an authority, if anything.
pub open spec fn authority_fault(extension: ExtensionView) -> Option<Violation> {
    match extension.kind {
        ExtensionKind::CertificatePolicies => unless(
            extension.critical,
            Violation::CertificatePoliciesNotCritical,
        ),
        ExtensionKind::KeyUsage(usage) => unless(
            extension.critical && usage.has_crl_sign() && usage.has_key_cert_sign(),
            Violation::AuthorityKeyUsage,
        ),
        ExtensionKind::BasicConstraints(constraints) => unless(
            extension.critical && constraints.path_len_constraint is None && constraints.ca,
            Violation::AuthorityBasicConstraints,
        ),
        ExtensionKind::SubjectKeyIdentifier => unless(
            !extension.critical,
            Violation::SubjectKeyIdentifierCritical,
        ),
        _ => Some(Violation::UnexpectedExtension),
    }
}

/// What is wrong with one extension, if anything.
pub open spec fn fault(profile: Profile, extension: ExtensionView) -> Option<Violation> {
    match profile {
        Profile::Authority => authority_fault(extension),
        _ => holder_fault(profile, extension),
    }
}

/// Whether an extension is the one that is asked for.
pub open spec fn is_required_one(kind: ExtensionKind, required: Required) -> bool {
    match required {
        Required::KeyUsage => kind is KeyUsage,
        Required::CertificatePolicies => kind is CertificatePolicies,
        Required::BasicConstraints => kind is BasicConstraints,
        Required::SubjectAlternativeName => kind is SubjectAlternativeName,
        Required::AuthorityKeyIdentifier => kind is AuthorityKeyIdentifier,
        Required::SubjectKeyIdentifier => kind is SubjectKeyIdentifier,
    }
}

/// Whether a profile asks for an extension.
pub open spec fn asks_for(profile: Profile, required: Required) -> bool {
    match required {
        Required::KeyUsage => true,
        Required::CertificatePolicies => true,
        Required::BasicConstraints => profile == Profile::Authority,
        Required::SubjectKeyIdentifier => profile == Profile::Authority,
        Required::SubjectAlternativeName => profile == Profile::Device,
        Required::AuthorityKeyIdentifier => profile == Profile::Device,
    }
}

/// Whether an extension is in a list.
pub open spec fn holds_one(extensions: Seq<ExtensionView>, required: Required) -> bool {
    exists|i: int|
        0 <= i < extensions.len() && is_required_one((#[trigger] extensions[i]).kind, required)
}

/// Whether a profile asks for an extension that is not in a list.
pub open spec fn lacks(
    profile: Profile,
    extensions: Seq<ExtensionView>,
    required: Required,
) -> bool {
    asks_for(profile, required) && !holds_one(extensions, required)
}

/// Whether the first extension at fault stands at `index`.
pub open spec fn first_fault(
    profile: Profile,
    extensions: Seq<ExtensionView>,
    index: int,
) -> bool {
    &&& 0 <= index < extensions.len()
    &&& fault(profile, extensions[index]) is Some
    &&& forall|i: int| 0 <= i < index ==> fault(profile, #[trigger] extensions[i]) is None
}

/// The extension to report among those that a profile asks for and a list lacks.
pub open spec fn first_lacking(profile: Profile, extensions: Seq<ExtensionView>) -> Option<
    Required,
> {
    if lacks(profile, extensions, Required::KeyUsage) {
        Some(Required::KeyUsage)
    } else if lacks(profile, extensions, Required::CertificatePolicies) {
        Some(Required::CertificatePolicies)
    } else if lacks(profile, extensions, Required::BasicConstraints) {
        Some(Required::BasicConstraints)
    } else if lacks(profile, extensions, Required::SubjectAlternativeName) {
        Some(Required::SubjectAlternativeName)
    } else if lacks(profile, extensions, Required::AuthorityKeyIdentifier) {
        Some(Required::AuthorityKeyIdentifier)
    } else if lacks(profile, extensions, Required::SubjectKeyIdentifier) {
        Some(Required::SubjectKeyIdentifier)
    } else {
        None
    }
}

/// Whether extensions fit a profile. The first extension at fault is reported; where there is none,
/// the first that is missing.
pub open spec fn verdict(profile: Profile, extensions: Seq<ExtensionView>) -> Result<
    (),
    Violation,
> {
    if exists|index: int| first_fault(profile, extensions, index) {
        let index = choose|index: int| first_fault(profile, extensions, index);
        Err(fault(profile, extensions[index])->0)
    } else {
        match first_lacking(profile, extensions) {
            Some(required) => Err(Violation::Missing(profile, required)),
            None => Ok(()),
        }
    }
}

fn find_holder_fault(profile: Profile, extension: &Extension) -> (found: Option<Violation>)
    ensures
        found == holder_fault(profile, extension@),
{
    let critical = extension.critical;
    match extension.kind {
        // "certificates containing policy mappings MUST be rejected"
        ExtensionKind::PolicyMappings => Some(Violation::PolicyMappings),
        // "Name-constraints are not supported and certificates containing name-constraints MUST be
        // rejected."
        ExtensionKind::NameConstraints => Some(Violation::NameConstraints),
        ExtensionKind::CertificatePolicies => {
            if critical {
                None
            } else {
                Some(Violation::CertificatePoliciesNotCritical)
            }
        },
        ExtensionKind::KeyUsage(_) => {
            if critical {
                None
            } else {
                Some(Violation::KeyUsageNotCritical)
            }
        },
        ExtensionKind::SubjectKeyIdentifier => {
            if critical {
                Some(Violation::SubjectKeyIdentifierCritical)
            } else {
                None
            }
        },
        ExtensionKind::SubjectAlternativeName if profile == Profile::Device => {
            if critical {
                None
            } else {
                Some(Violation::SubjectAlternativeNameNotCritical)
            }
        },
        ExtensionKind::AuthorityKeyIdentifier if profile == Profile::Device => {
            if critical {
                Some(Violation::AuthorityKeyIdentifierCritical)
            } else {
                None
            }
        },
        // All other extensions constitute an invalid certificate.
        _ => Some(Violation::UnexpectedExtension),
    }
}

fn find_authority_fault(extension: &Extension) -> (found: Option<Violation>)
    ensures
        found == authority_fault(extension@),
{
    let critical = extension.critical;
    match extension.kind {
        ExtensionKind::CertificatePolicies => {
            if critical {
                None
            } else {
                Some(Violation::CertificatePoliciesNotCritical)
            }
        },
        ExtensionKind::KeyUsage(usage) => {
            if critical && usage.crl_sign() && usage.key_cert_sign() {
                None
            } else {
                Some(Violation::AuthorityKeyUsage)
            }
        },
        ExtensionKind::BasicConstraints(constraints) => {
            if critical && constraints.path_len_constraint.is_none() && constraints.ca {
                None
            } else {
                Some(Violation::AuthorityBasicConstraints)
            }
        },
        ExtensionKind::SubjectKeyIdentifier => {
            if critical {
                Some(Violation::SubjectKeyIdentifierCritical)
            } else {
                None
            }
        },
        _ => Some(Violation::UnexpectedExtension),
    }
}

fn find_fault(profile: Profile, extension: &Extension) -> (found: Option<Violation>)
    ensures
        found == fault(profile, extension@),
{
    match profile {
        Profile::Authority => find_authority_fault(extension),
        _ => find_holder_fault(profile, extension),
    }
}

/// Which of the required extensions were seen so far.
struct Seen {
    key_usage: bool,
    certificate_policies: bool,
    basic_constraints: bool,
    subject_alternative_name: bool,
    authority_key_identifier: bool,
    subject_key_identifier: bool,
}

impl Seen {
    spec fn of(self, required: Required) -> bool {
        match required {
            Required::KeyUsage => self.key_usage,
            Required::CertificatePolicies => self.certificate_policies,
            Required::BasicConstraints => self.basic_constraints,
            Required::SubjectAlternativeName => self.subject_alternative_name,
            Required::AuthorityKeyIdentifier => self.authority_key_identifier,
            Required::SubjectKeyIdentifier => self.subject_key_identifier,
        }
    }

    fn note(&mut self, kind: ExtensionKind)
        ensures
            forall|required: Required| #[trigger]
                final(self).of(required) == (old(self).of(required) || is_required_one(
                    kind,
                    required,
                )),
    {
        match kind {
            ExtensionKind::KeyUsage(_) => self.key_usage = true,
            ExtensionKind::CertificatePolicies => self.certificate_policies = true,
            ExtensionKind::BasicConstraints(_) => self.basic_constraints = true,
            ExtensionKind::SubjectAlternativeName => self.subject_alternative_name = true,
            ExtensionKind::AuthorityKeyIdentifier => self.authority_key_identifier = true,
            ExtensionKind::SubjectKeyIdentifier => self.subject_key_identifier = true,
            _ => {},
        }
    }
}

/// Checks extensions against a profile.
pub fn check_extensions(profile: Profile, extensions: &[Extension]) -> (result: Result<
    (),
    Violation,
>)
    ensures
        result == verdict(profile, extension_views(extensions@)),
{
    let ghost views = extension_views(extensions@);
    let mut seen = Seen {
        key_usage: false,
        certificate_policies: false,
        basic_constraints: false,
        subject_alternative_name: false,
        authority_key_identifier: false,
        subject_key_identifier: false,
    };
    proof {
        assert forall|required: Required| #[trigger] seen.of(required) == holds_one(
            views.take(0),
            required,
        ) by {}
    }
    for i in 0..extensions.len()
        invariant
            views == extension_views(extensions@),
            forall|j: int| 0 <= j < i ==> fault(profile, #[trigger] views[j]) is None,
            forall|required: Required| #[trigger]
                seen.of(required) == holds_one(views.take(i as int), required),
    {
        let extension = &extensions[i];
        assert(views[i as int] == extension@);
        match find_fault(profile, extension) {
            Some(violation) => {
                assert(first_fault(profile, views, i as int));
                assert forall|k: int| first_fault(profile, views, k) implies k == i by {
                    if k > i {
                        assert(fault(profile, views[i as int]) is None);
                    }
                }
                return Err(violation);
            },
            None => {},
        }
        let ghost before = seen;
        seen.note(extension.kind);
        assert forall|required: Required| #[trigger] seen.of(required) == holds_one(
            views.take(i + 1),
            required,
        ) by {
            assert(before.of(required) == holds_one(views.take(i as int), required));
            lemma_has_one_more(views, i as int, required);
        }
    }
    assert(views.take(extensions.len() as int) == views);
    assert forall|k: int| !first_fault(profile, views, k) by {
        if first_fault(profile, views, k) {
            assert(fault(profile, views[k]) is None);
        }
    }
    assert(seen.of(Required::KeyUsage) == holds_one(views, Required::KeyUsage));
    assert(seen.of(Required::CertificatePolicies) == holds_one(views, Required::CertificatePolicies));
    assert(seen.of(Required::BasicConstraints) == holds_one(views, Required::BasicConstraints));
    assert(seen.of(Required::SubjectAlternativeName) == holds_one(
        views,
        Required::SubjectAlternativeName,
    ));
    assert(seen.of(Required::AuthorityKeyIdentifier) == holds_one(
        views,
        Required::AuthorityKeyIdentifier,
    ));
    assert(seen.of(Required::SubjectKeyIdentifier) == holds_one(views, Required::SubjectKeyIdentifier));
    let device = profile == Profile::Device;
    let authority = profile == Profile::Authority;
    if !seen.key_usage {
        return Err(Violation::Missing(profile, Required::KeyUsage));
    }
    if !seen.certificate_policies {
        return Err(Violation::Missing(profile, Required::CertificatePolicies));
    }
    if authority && !seen.basic_constraints {
        return Err(Violation::Missing(profile, Required::BasicConstraints));
    }
    if device && !seen.subject_alternative_name {
        return Err(Violation::Missing(profile, Required::SubjectAlternativeName));
    }
    if device && !seen.authority_key_identifier {
        return Err(Violation::Missing(profile, Required::AuthorityKeyIdentifier));
    }
    if authority && !seen.subject_key_identifier {
        return Err(Violation::Missing(profile, Required::SubjectKeyIdentifier));
    }
    Ok(())
}

proof fn lemma_has_one_more(extensions: Seq<ExtensionView>, index: int, required: Required)
    requires
        0 <= index < extensions.len(),
    ensures
        holds_one(extensions.take(index + 1), required) == (holds_one(extensions.take(index), required)
            || is_required_one(extensions[index].kind, required)),
{
    let before = extensions.take(index);
    let after = extensions.take(index + 1);
    if holds_one(before, required) {
        let i = choose|i: int|
            0 <= i < before.len() && is_required_one((#[trigger] before[i]).kind, required);
        assert(after[i] == before[i]);
    }
    if is_required_one(extensions[index].kind, required) {
        assert(after[index] == extensions[index]);
    }
    if holds_one(after, required) {
        let i = choose|i: int|
            0 <= i < after.len() && is_required_one((#[trigger] after[i]).kind, required);
        if i < index {
            assert(before[i] == after[i]);
        }
    }
}

/// Why a PEM file does not hold a certificate of a profile.
#[derive(Debug, PartialEq, Eq)]
pub enum ProfileError {
    /// The file cannot be read as PEM.
    Pem(String),
    /// The contents are no certificate.
    Certificate(String),
    /// The certificate does not fit the profile.
    Violation(Violation),
}

/// The mathematical content of a [`ProfileError`].
pub enum ProfileErrorView {
    Pem(Seq<char>),
    Certificate(Seq<char>),
    Violation(Violation),
}

impl View for ProfileError {
    type V = ProfileErrorView;

    open spec fn view(&self) -> ProfileErrorView {
        match self {
            ProfileError::Pem(text) => ProfileErrorView::Pem(text@),
            ProfileError::Certificate(text) => ProfileErrorView::Certificate(text@),
            ProfileError::Violation(violation) => ProfileErrorView::Violation(*violation),
        }
    }
}

impl ProfileErrorView {
    /// The text that reports the error.
    pub open spec fn message_text(self) -> Seq<char> {
        match self {
            ProfileErrorView::Pem(text) => text,
            ProfileErrorView::Certificate(text) => text,
            ProfileErrorView::Violation(violation) => violation.message_text(),
        }
    }
}

impl ProfileError {
    /// The text that reports the error.
    pub fn message(&self) -> (text: String)
        ensures
            text@ == self@.message_text(),
    {
        match self {
            ProfileError::Pem(text) => text.clone(),
            ProfileError::Certificate(text) => text.clone(),
            ProfileError::Violation(violation) => violation.message(),
        }
    }
}

/// What the result of a check against a profile says.
pub open spec fn profile_outcome(result: Result<(), ProfileError>) -> Result<
    (),
    ProfileErrorView,
> {
    match result {
        Ok(()) => Ok(()),
        Err(error) => Err(error@),
    }
}

/// Whether the certificate in the first block of a PEM file fits a profile.
pub open spec fn file_verdict(profile: Profile, contents: Seq<u8>) -> Result<
    (),
    ProfileErrorView,
> {
    match pem_first_block(contents) {
        Err(text) => Err(ProfileErrorView::Pem(text)),
        Ok(der) => match decoded(der) {
            Err(failure) => Err(ProfileErrorView::Certificate(failure.display)),
            Ok(certificate) => match verdict(profile, certificate.extensions) {
                Err(violation) => Err(ProfileErrorView::Violation(violation)),
                Ok(()) => Ok(()),
            },
        },
    }
}

/// Checks the certificate in the first block of a PEM file against a profile.
pub fn check_file(profile: Profile, contents: &[u8]) -> (result: Result<(), ProfileError>)
    ensures
        profile_outcome(result) == file_verdict(profile, contents@),
{
    let der = match read_first_block(contents) {
        Ok(der) => der,
        Err(text) => {
            return Err(ProfileError::Pem(text));
        },
    };
    match decode_certificate(der.as_slice()) {
        Err(failure) => Err(ProfileError::Certificate(failure.display)),
        Ok(certificate) => match check_extensions(profile, certificate.extensions.as_slice()) {
            Err(violation) => Err(ProfileError::Violation(violation)),
            Ok(()) => Ok(()),
        },
    }
}

/// Verifies that a PEM encoded certificate meets the requirements of IEEE 2030.5 on device
/// certificates.
///
/// Newly purchased or acquired certificates in an IEEE 2030.5 certificate chain satisfy these
/// requirements. A server has to use a device certificate, that is, not a self-signed one: "The use
/// of TLS (IETF RFC 5246) requires that all hosts implementing server functionality SHALL use a
/// device certificate whereby the server presents its device certificate as part of the TLS
/// handshake".
///
/// See section 6.11.8.3.3 of the standard.
pub fn check_device_cert(contents: &[u8]) -> (result: Result<(), ProfileError>)
    ensures
        profile_outcome(result) == file_verdict(Profile::Device, contents@),
{
    check_file(Profile::Device, contents)
}

/// Verifies that a PEM encoded certificate meets the requirements of IEEE 2030.5 on self-signed
/// client certificates.
///
/// See section 6.11.8.4.3 of the standard.
pub fn check_self_signed_client_cert(contents: &[u8]) -> (result: Result<(), ProfileError>)
    ensures
        profile_outcome(result) == file_verdict(Profile::SelfSignedClient, contents@),
{
    check_file(Profile::SelfSignedClient, contents)
}

/// Verifies that a PEM encoded certificate meets the requirements of IEEE 2030.5 on certificate
/// authorities.
pub fn check_ca(contents: &[u8]) -> (result: Result<(), ProfileError>)
    ensures
        profile_outcome(result) == file_verdict(Profile::Authority, contents@),
{
    check_file(Profile::Authority, contents)
}

/// Extensions fit a profile if and only if none is at fault and none that the profile asks for is
/// missing.
pub proof fn law_accepted_extensions(profile: Profile, extensions: Seq<ExtensionView>)
    ensures
        verdict(profile, extensions) is Ok <==> {
            &&& forall|i: int|
                0 <= i < extensions.len() ==> fault(profile, #[trigger] extensions[i]) is None
            &&& forall|required: Required| #[trigger]
                asks_for(profile, required) ==> holds_one(extensions, required)
        },
{
    if exists|i: int| 0 <= i < extensions.len() && fault(profile, #[trigger] extensions[i]) is Some {
        let i = choose|i: int|
            0 <= i < extensions.len() && fault(profile, #[trigger] extensions[i]) is Some;
        lemma_some_fault_is_first(profile, extensions, i);
        assert(verdict(profile, extensions) is Err);
    } else {
        assert forall|k: int| !first_fault(profile, extensions, k) by {
            if first_fault(profile, extensions, k) {
                assert(fault(profile, extensions[k]) is Some);
            }
        }
        assert forall|i: int| 0 <= i < extensions.len() implies fault(
            profile,
            #[trigger] extensions[i],
        ) is None by {}
        assert forall|required: Required| #[trigger]
            asks_for(profile, required) && first_lacking(profile, extensions) is None implies holds_one(
            extensions,
            required,
        ) by {
            assert(!lacks(profile, extensions, required));
        }
        if forall|required: Required| #[trigger]
            asks_for(profile, required) ==> holds_one(extensions, required) {
            assert forall|required: Required| !#[trigger] lacks(profile, extensions, required) by {
                if asks_for(profile, required) {
                    assert(holds_one(extensions, required));
                }
            }
        }
    }
}

proof fn lemma_some_fault_is_first(
    profile: Profile,
    extensions: Seq<ExtensionView>,
    index: int,
)
    requires
        0 <= index < extensions.len(),
        fault(profile, extensions[index]) is Some,
    ensures
        exists|k: int| first_fault(profile, extensions, k),
    decreases index,
{
    if exists|i: int| 0 <= i < index && fault(profile, #[trigger] extensions[i]) is Some {
        let i = choose|i: int| 0 <= i < index && fault(profile, #[trigger] extensions[i]) is Some;
        lemma_some_fault_is_first(profile, extensions, i);
    } else {
        assert(first_fault(profile, extensions, index));
    }
}

/// Whether extensions fit a profile does not depend on their order.
pub proof fn law_order_does_not_matter(
    profile: Profile,
    a: Seq<ExtensionView>,
    b: Seq<ExtensionView>,
)
    requires
        a.to_multiset() == b.to_multiset(),
    ensures
        verdict(profile, a) is Ok == verdict(profile, b) is Ok,
{
    if verdict(profile, a) is Ok {
        lemma_reordered_is_accepted(profile, a, b);
    }
    if verdict(profile, b) is Ok {
        lemma_reordered_is_accepted(profile, b, a);
    }
}

proof fn lemma_reordered_is_accepted(
    profile: Profile,
    a: Seq<ExtensionView>,
    b: Seq<ExtensionView>,
)
    requires
        a.to_multiset() == b.to_multiset(),
        verdict(profile, a) is Ok,
    ensures
        verdict(profile, b) is Ok,
{
    broadcast use vstd::seq_lib::group_to_multiset_ensures;

    law_accepted_extensions(profile, a);
    law_accepted_extensions(profile, b);
    assert forall|i: int| 0 <= i < b.len() implies fault(profile, #[trigger] b[i]) is None by {
        assert(b.contains(b[i]));
        assert(b.to_multiset().count(b[i]) > 0);
        assert(a.contains(b[i]));
        let j = choose|j: int| 0 <= j < a.len() && a[j] == b[i];
        assert(fault(profile, a[j]) is None);
    }
    assert forall|required: Required| #[trigger] asks_for(profile, required) implies holds_one(
        b,
        required,
    ) by {
        assert(holds_one(a, required));
        let i = choose|i: int|
            0 <= i < a.len() && is_required_one((#[trigger] a[i]).kind, required);
        assert(a.contains(a[i]));
        assert(a.to_multiset().count(a[i]) > 0);
        assert(b.contains(a[i]));
        let j = choose|j: int| 0 <= j < b.len() && b[j] == a[i];
        assert(is_required_one(b[j].kind, required));
    }
}

/// No extensions fit two profiles.
pub proof fn law_profiles_exclude_each_other(
    one: Profile,
    other: Profile,
    extensions: Seq<ExtensionView>,
)
    requires
        one != other,
    ensures
        !(verdict(one, extensions) is Ok && verdict(other, extensions) is Ok),
{
    law_accepted_extensions(one, extensions);
    law_accepted_extensions(other, extensions);
    if verdict(one, extensions) is Ok && verdict(other, extensions) is Ok {
        let required = if one == Profile::Device || other == Profile::Device {
            Required::SubjectAlternativeName
        } else {
            Required::BasicConstraints
        };
        assert(asks_for(one, required) || asks_for(other, required));
        let i = choose|i: int|
            0 <= i < extensions.len() && is_required_one(
                (#[trigger] extensions[i]).kind,
                required,
            );
        assert(fault(one, extensions[i]) is None);
        assert(fault(other, extensions[i]) is None);
    }
}

/// Certificates with policy mappings, with name constraints or with an extension that is not known
/// fit no profile.
pub proof fn law_some_extensions_are_always_rejected(
    profile: Profile,
    extensions: Seq<ExtensionView>,
    index: int,
)
    requires
        0 <= index < extensions.len(),
        match extensions[index].kind {
            ExtensionKind::PolicyMappings => true,
            ExtensionKind::NameConstraints => true,
            ExtensionKind::ExtendedKeyUsage(_) => true,
            ExtensionKind::Other => true,
            _ => false,
        },
    ensures
        verdict(profile, extensions) is Err,
{
    law_accepted_extensions(profile, extensions);
    assert(fault(profile, extensions[index]) is Some);
}

/// A device certificate is accepted if and only if it has no extensions but key usage, certificate
/// policies and alternative names, all critical, and the identifiers of the authority's and the
/// subject's key, neither critical, and has each of these but the last.
pub proof fn law_device_certificates_that_are_accepted(extensions: Seq<ExtensionView>)
    ensures
        verdict(Profile::Device, extensions) == Ok::<(), Violation>(()) <==> {
            &&& forall|i: int|
                0 <= i < extensions.len() ==> {
                    ||| (#[trigger] extensions[i]).kind is KeyUsage && extensions[i].critical
                    ||| extensions[i].kind is CertificatePolicies && extensions[i].critical
                    ||| extensions[i].kind is SubjectAlternativeName && extensions[i].critical
                    ||| extensions[i].kind is AuthorityKeyIdentifier && !extensions[i].critical
                    ||| extensions[i].kind is SubjectKeyIdentifier && !extensions[i].critical
                }
            &&& (exists|i: int|
            0 <= i < extensions.len() && (#[trigger] extensions[i]).kind is KeyUsage)
            &&& (exists|i: int|
            0 <= i < extensions.len() && (#[trigger] extensions[i]).kind is CertificatePolicies)
            &&& (exists|i: int|
            0 <= i < extensions.len() && (#[trigger] extensions[i]).kind is SubjectAlternativeName)
            &&& (exists|i: int|
            0 <= i < extensions.len() && (#[trigger] extensions[i]).kind is AuthorityKeyIdentifier)
        },
{
    law_accepted_extensions(Profile::Device, extensions);
    lemma_asked_for(Profile::Device, extensions);
    assert forall|i: int| 0 <= i < extensions.len() implies (fault(
        Profile::Device,
        #[trigger] extensions[i],
    ) is None) == {
        ||| extensions[i].kind is KeyUsage && extensions[i].critical
        ||| extensions[i].kind is CertificatePolicies && extensions[i].critical
        ||| extensions[i].kind is SubjectAlternativeName && extensions[i].critical
        ||| extensions[i].kind is AuthorityKeyIdentifier && !extensions[i].critical
        ||| extensions[i].kind is SubjectKeyIdentifier && !extensions[i].critical
    } by {
        law_faults_of_a_device(extensions[i]);
    }
}

/// A self-signed client certificate is accepted if and only if it has no extensions but key usage and
/// certificate policies, both critical, and the identifier of the subject's key, not critical, and
/// has each of these but the last.
pub proof fn law_client_certificates_that_are_accepted(extensions: Seq<ExtensionView>)
    ensures
        verdict(Profile::SelfSignedClient, extensions) == Ok::<(), Violation>(()) <==> {
            &&& forall|i: int|
                0 <= i < extensions.len() ==> {
                    ||| (#[trigger] extensions[i]).kind is KeyUsage && extensions[i].critical
                    ||| extensions[i].kind is CertificatePolicies && extensions[i].critical
                    ||| extensions[i].kind is SubjectKeyIdentifier && !extensions[i].critical
                }
            &&& (exists|i: int|
            0 <= i < extensions.len() && (#[trigger] extensions[i]).kind is KeyUsage)
            &&& (exists|i: int|
            0 <= i < extensions.len() && (#[trigger] extensions[i]).kind is CertificatePolicies)
        },
{
    law_accepted_extensions(Profile::SelfSignedClient, extensions);
    lemma_asked_for(Profile::SelfSignedClient, extensions);
    assert forall|i: int| 0 <= i < extensions.len() implies (fault(
        Profile::SelfSignedClient,
        #[trigger] extensions[i],
    ) is None) == {
        ||| extensions[i].kind is KeyUsage && extensions[i].critical
        ||| extensions[i].kind is CertificatePolicies && extensions[i].critical
        ||| extensions[i].kind is SubjectKeyIdentifier && !extensions[i].critical
    } by {
        law_faults_of_a_client(extensions[i]);
    }
}

/// An authority is accepted if and only if it has no extensions but certificate policies, a key usage
/// with the bits for signing certificates and revocation lists, and basic constraints that mark it as
/// an authority and limit no path, all critical, and the identifier of the subject's key, not
/// critical, and has each of these.
pub proof fn law_authorities_that_are_accepted(extensions: Seq<ExtensionView>)
    ensures
        verdict(Profile::Authority, extensions) == Ok::<(), Violation>(()) <==> {
            &&& forall|i: int|
                0 <= i < extensions.len() ==> {
                    ||| (#[trigger] extensions[i]).kind is CertificatePolicies
                        && extensions[i].critical
                    ||| extensions[i].kind is KeyUsage && extensions[i].critical
                        && extensions[i].kind->KeyUsage_0.flags & 0x20 != 0
                        && extensions[i].kind->KeyUsage_0.flags & 0x40 != 0
                    ||| extensions[i].kind is BasicConstraints && extensions[i].critical
                        && extensions[i].kind->BasicConstraints_0.ca
                        && extensions[i].kind->BasicConstraints_0.path_len_constraint is None
                    ||| extensions[i].kind is SubjectKeyIdentifier && !extensions[i].critical
                }
            &&& (exists|i: int|
            0 <= i < extensions.len() && (#[trigger] extensions[i]).kind is KeyUsage)
            &&& (exists|i: int|
            0 <= i < extensions.len() && (#[trigger] extensions[i]).kind is CertificatePolicies)
            &&& (exists|i: int|
            0 <= i < extensions.len() && (#[trigger] extensions[i]).kind is BasicConstraints)
            &&& (exists|i: int|
            0 <= i < extensions.len() && (#[trigger] extensions[i]).kind is SubjectKeyIdentifier)
        },
{
    law_accepted_extensions(Profile::Authority, extensions);
    lemma_asked_for(Profile::Authority, extensions);
    assert forall|i: int| 0 <= i < extensions.len() implies (fault(
        Profile::Authority,
        #[trigger] extensions[i],
    ) is None) == {
        ||| extensions[i].kind is CertificatePolicies && extensions[i].critical
        ||| extensions[i].kind is KeyUsage && extensions[i].critical
            && extensions[i].kind->KeyUsage_0.flags & 0x20 != 0
            && extensions[i].kind->KeyUsage_0.flags & 0x40 != 0
        ||| extensions[i].kind is BasicConstraints && extensions[i].critical
            && extensions[i].kind->BasicConstraints_0.ca
            && extensions[i].kind->BasicConstraints_0.path_len_constraint is None
        ||| extensions[i].kind is SubjectKeyIdentifier && !extensions[i].critical
    } by {
        law_faults_of_an_authority(extensions[i]);
    }
}

/// What a profile asks for, one by one.
proof fn lemma_asked_for(profile: Profile, extensions: Seq<ExtensionView>)
    ensures
        (forall|required: Required| #[trigger]
            asks_for(profile, required) ==> holds_one(extensions, required)) <==> {
            &&& holds_one(extensions, Required::KeyUsage)
            &&& holds_one(extensions, Required::CertificatePolicies)
            &&& profile == Profile::Device ==> {
                &&& holds_one(extensions, Required::SubjectAlternativeName)
                &&& holds_one(extensions, Required::AuthorityKeyIdentifier)
            }
            &&& profile == Profile::Authority ==> {
                &&& holds_one(extensions, Required::BasicConstraints)
                &&& holds_one(extensions, Required::SubjectKeyIdentifier)
            }
        },
        holds_one(extensions, Required::KeyUsage) == (exists|i: int|
            0 <= i < extensions.len() && (#[trigger] extensions[i]).kind is KeyUsage),
        holds_one(extensions, Required::CertificatePolicies) == (exists|i: int|
            0 <= i < extensions.len() && (#[trigger] extensions[i]).kind is CertificatePolicies),
        holds_one(extensions, Required::BasicConstraints) == (exists|i: int|
            0 <= i < extensions.len() && (#[trigger] extensions[i]).kind is BasicConstraints),
        holds_one(extensions, Required::SubjectAlternativeName) == (exists|i: int|
            0 <= i < extensions.len() && (#[trigger] extensions[i]).kind is SubjectAlternativeName),
        holds_one(extensions, Required::AuthorityKeyIdentifier) == (exists|i: int|
            0 <= i < extensions.len() && (#[trigger] extensions[i]).kind is AuthorityKeyIdentifier),
        holds_one(extensions, Required::SubjectKeyIdentifier) == (exists|i: int|
            0 <= i < extensions.len() && (#[trigger] extensions[i]).kind is SubjectKeyIdentifier),
{
    if forall|required: Required| #[trigger]
        asks_for(profile, required) ==> holds_one(extensions, required) {
        assert(asks_for(profile, Required::KeyUsage));
        assert(asks_for(profile, Required::CertificatePolicies));
        assert(profile == Profile::Device ==> asks_for(profile, Required::SubjectAlternativeName));
        assert(profile == Profile::Device ==> asks_for(profile, Required::AuthorityKeyIdentifier));
        assert(profile == Profile::Authority ==> asks_for(profile, Required::BasicConstraints));
        assert(profile == Profile::Authority ==> asks_for(profile, Required::SubjectKeyIdentifier));
    }
}

/// What is wrong with an extension of a device certificate goes by its kind and whether it is
/// critical, and by nothing that it says.
pub proof fn law_faults_of_a_device(extension: ExtensionView)
    ensures
        ({
            let found = fault(Profile::Device, extension);
            let kind = extension.kind;
            &&& kind is PolicyMappings ==> found == Some(Violation::PolicyMappings)
            &&& kind is NameConstraints ==> found == Some(Violation::NameConstraints)
            &&& kind is CertificatePolicies && !extension.critical ==> found == Some(
                Violation::CertificatePoliciesNotCritical,
            )
            &&& kind is SubjectAlternativeName && !extension.critical ==> found == Some(
                Violation::SubjectAlternativeNameNotCritical,
            )
            &&& kind is KeyUsage && !extension.critical ==> found == Some(
                Violation::KeyUsageNotCritical,
            )
            &&& kind is AuthorityKeyIdentifier && extension.critical ==> found == Some(
                Violation::AuthorityKeyIdentifierCritical,
            )
            &&& kind is SubjectKeyIdentifier && extension.critical ==> found == Some(
                Violation::SubjectKeyIdentifierCritical,
            )
            &&& kind is BasicConstraints || kind is ExtendedKeyUsage || kind is Other ==> found
                == Some(Violation::UnexpectedExtension)
            &&& extension.critical && (kind is CertificatePolicies || kind is SubjectAlternativeName
                || kind is KeyUsage) ==> found is None
            &&& !extension.critical && (kind is AuthorityKeyIdentifier
                || kind is SubjectKeyIdentifier) ==> found is None
        }),
{
}

/// What is wrong with an extension of a self-signed client certificate goes by its kind and whether
/// it is critical, and by nothing that it says.
pub proof fn law_faults_of_a_client(extension: ExtensionView)
    ensures
        ({
            let found = fault(Profile::SelfSignedClient, extension);
            let kind = extension.kind;
            &&& kind is PolicyMappings ==> found == Some(Violation::PolicyMappings)
            &&& kind is NameConstraints ==> found == Some(Violation::NameConstraints)
            &&& kind is CertificatePolicies && !extension.critical ==> found == Some(
                Violation::CertificatePoliciesNotCritical,
            )
            &&& kind is KeyUsage && !extension.critical ==> found == Some(
                Violation::KeyUsageNotCritical,
            )
            &&& kind is SubjectKeyIdentifier && extension.critical ==> found == Some(
                Violation::SubjectKeyIdentifierCritical,
            )
            &&& kind is BasicConstraints || kind is ExtendedKeyUsage || kind is Other
                || kind is SubjectAlternativeName || kind is AuthorityKeyIdentifier ==> found
                == Some(Violation::UnexpectedExtension)
            &&& extension.critical && (kind is CertificatePolicies || kind is KeyUsage) ==> found
                is None
            &&& !extension.critical && kind is SubjectKeyIdentifier ==> found is None
        }),
{
}

/// What is wrong with an extension of an authority goes by its kind, whether it is critical, two bits
/// of a key usage, and the two parts of basic constraints.
pub proof fn law_faults_of_an_authority(extension: ExtensionView)
    ensures
        ({
            let found = fault(Profile::Authority, extension);
            let kind = extension.kind;
            &&& kind is CertificatePolicies && !extension.critical ==> found == Some(
                Violation::CertificatePoliciesNotCritical,
            )
            &&& kind is CertificatePolicies && extension.critical ==> found is None
            &&& kind matches ExtensionKind::KeyUsage(usage) ==> {
                &&& extension.critical && usage.flags & 0x20 != 0 && usage.flags & 0x40 != 0
                    ==> found is None
                &&& !extension.critical || usage.flags & 0x20 == 0 || usage.flags & 0x40 == 0
                    ==> found == Some(Violation::AuthorityKeyUsage)
            }
            &&& kind matches ExtensionKind::BasicConstraints(constraints) ==> {
                &&& extension.critical && constraints.ca && constraints.path_len_constraint is None
                    ==> found is None
                &&& !extension.critical || !constraints.ca || constraints.path_len_constraint
                    is Some ==> found == Some(Violation::AuthorityBasicConstraints)
            }
            &&& kind is SubjectKeyIdentifier && extension.critical ==> found == Some(
                Violation::SubjectKeyIdentifierCritical,
            )
            &&& kind is SubjectKeyIdentifier && !extension.critical ==> found is None
            &&& kind is PolicyMappings || kind is NameConstraints || kind is ExtendedKeyUsage
                || kind is Other || kind is SubjectAlternativeName || kind is AuthorityKeyIdentifier
                ==> found == Some(Violation::UnexpectedExtension)
        }),
{
    if let ExtensionKind::KeyUsage(usage) = extension.kind {
        law_usages_are_single_bits(usage);
    }
}

/// The first extension at fault is reported, whatever comes behind it or is missing.
pub proof fn law_first_fault_is_reported(
    profile: Profile,
    extensions: Seq<ExtensionView>,
    index: int,
)
    requires
        0 <= index < extensions.len(),
        fault(profile, extensions[index]) is Some,
        forall|i: int| 0 <= i < index ==> fault(profile, #[trigger] extensions[i]) is None,
    ensures
        verdict(profile, extensions) == Err::<(), Violation>(
            fault(profile, extensions[index])->0,
        ),
{
    assert(first_fault(profile, extensions, index));
    assert forall|k: int| first_fault(profile, extensions, k) implies k == index by {
        if k > index {
            assert(fault(profile, extensions[index]) is None);
        }
    }
}

/// Where no extension is at fault, the missing ones are reported: key usage before certificate
/// policies, these before alternative names or basic constraints, and key identifiers last.
pub proof fn law_missing_extensions_are_reported(profile: Profile, extensions: Seq<ExtensionView>)
    requires
        forall|i: int|
            0 <= i < extensions.len() ==> fault(profile, #[trigger] extensions[i]) is None,
    ensures
        ({
            let missing = |required: Required|
                Err::<(), Violation>(Violation::Missing(profile, required));
            let key_usage = (exists|i: int|
            0 <= i < extensions.len() && (#[trigger] extensions[i]).kind is KeyUsage);
            let policies = (exists|i: int|
            0 <= i < extensions.len() && (#[trigger] extensions[i]).kind is CertificatePolicies);
            let constraints = (exists|i: int|
            0 <= i < extensions.len() && (#[trigger] extensions[i]).kind is BasicConstraints);
            let names = (exists|i: int|
            0 <= i < extensions.len() && (#[trigger] extensions[i]).kind is SubjectAlternativeName);
            let authority_key = (exists|i: int|
            0 <= i < extensions.len() && (#[trigger] extensions[i]).kind is AuthorityKeyIdentifier);
            let subject_key = (exists|i: int|
            0 <= i < extensions.len() && (#[trigger] extensions[i]).kind is SubjectKeyIdentifier);
            let device = profile == Profile::Device;
            let authority = profile == Profile::Authority;
            let result = verdict(profile, extensions);
            &&& !key_usage ==> result == missing(Required::KeyUsage)
            &&& key_usage && !policies ==> result == missing(Required::CertificatePolicies)
            &&& key_usage && policies ==> {
                &&& authority && !constraints ==> result == missing(Required::BasicConstraints)
                &&& authority && constraints && !subject_key ==> result == missing(
                    Required::SubjectKeyIdentifier,
                )
                &&& authority && constraints && subject_key ==> result is Ok
                &&& device && !names ==> result == missing(Required::SubjectAlternativeName)
                &&& device && names && !authority_key ==> result == missing(
                    Required::AuthorityKeyIdentifier,
                )
                &&& device && names && authority_key ==> result is Ok
                &&& !device && !authority ==> result is Ok
            }
        }),
{
    lemma_asked_for(profile, extensions);
    assert forall|k: int| !first_fault(profile, extensions, k) by {
        if first_fault(profile, extensions, k) {
            assert(fault(profile, extensions[k]) is None);
        }
    }
}

/// A file is judged by the certificate in its first block alone; where there is none, the reader's or
/// the parser's own words are the error.
pub proof fn law_files_are_judged_by_their_first_block(profile: Profile, contents: Seq<u8>)
    ensures
        pem_first_block(contents) matches Err(text) ==> file_verdict(profile, contents) == Err::<
            (),
            ProfileErrorView,
        >(ProfileErrorView::Pem(text)),
        pem_first_block(contents) matches Ok(der) ==> {
            &&& decoded(der) matches Err(failure) ==> file_verdict(profile, contents) == Err::<
                (),
                ProfileErrorView,
            >(ProfileErrorView::Certificate(failure.display))
            &&& decoded(der) matches Ok(certificate) ==> {
                &&& verdict(profile, certificate.extensions) is Ok <==> file_verdict(
                    profile,
                    contents,
                ) is Ok
                &&& verdict(profile, certificate.extensions) matches Err(violation)
                    ==> file_verdict(profile, contents) == Err::<(), ProfileErrorView>(
                    ProfileErrorView::Violation(violation),
                )
            }
        },
{
}

/// Each violation has words of its own, and a missing extension is named.
pub proof fn law_violations_in_words(profile: Profile)
    ensures
        Violation::PolicyMappings.message_text()
            == "Device Certificates cannot contain policy mappings."@,
        Violation::NameConstraints.message_text()
            == "Device Certificates cannot contain name constraints."@,
        Violation::CertificatePoliciesNotCritical.message_text()
            == "CertificatePolicies extension must be critical."@,
        Violation::SubjectAlternativeNameNotCritical.message_text()
            == "SubjectAlternativeName extension must be critical"@,
        Violation::KeyUsageNotCritical.message_text() == "KeyUsage extension must be critical."@,
        Violation::AuthorityKeyIdentifierCritical.message_text()
            == "AuthorityKeyIdentifier extension cannot be critical."@,
        Violation::SubjectKeyIdentifierCritical.message_text()
            == "SubjectKeyIdentifier cannot be critical"@,
        Violation::AuthorityKeyUsage.message_text()
            == "KeyUsage extension must be critical and keyCertSign and crlSign must be true."@,
        Violation::AuthorityBasicConstraints.message_text()
            == "BasicConstraints must be critical, cA must be true, and pathLen must be absent."@,
        Violation::UnexpectedExtension.message_text()
            == "Unexpected extension or unparsed extension encountered."@,
        ({
            let end = if profile is Device {
                " extension not present"@
            } else {
                " extension not present."@
            };
            &&& Violation::Missing(profile, Required::KeyUsage).message_text() == "KeyUsage"@ + end
            &&& Violation::Missing(profile, Required::CertificatePolicies).message_text()
                == "CertificatePolicies"@ + end
            &&& Violation::Missing(profile, Required::BasicConstraints).message_text()
                == "BasicConstraints"@ + end
            &&& Violation::Missing(profile, Required::SubjectAlternativeName).message_text()
                == "SubjectAlternativeName"@ + end
            &&& Violation::Missing(profile, Required::AuthorityKeyIdentifier).message_text()
                == "AuthorityKeyIdentifier"@ + end
            &&& Violation::Missing(profile, Required::SubjectKeyIdentifier).message_text()
                == "SubjectKeyIdentifier"@ + end
        }),
{
}

/// An error is put in the words of the reader, of the parser or of the violation, and the result of a
/// check says what came of it.
pub proof fn law_profile_errors_in_words(result: Result<(), ProfileError>)
    ensures
        result is Ok <==> profile_outcome(result) is Ok,
        result matches Err(ProfileError::Pem(text)) ==> {
            &&& profile_outcome(result)->Err_0 == ProfileErrorView::Pem(text@)
            &&& profile_outcome(result)->Err_0.message_text() == text@
        },
        result matches Err(ProfileError::Certificate(text)) ==> {
            &&& profile_outcome(result)->Err_0 == ProfileErrorView::Certificate(text@)
            &&& profile_outcome(result)->Err_0.message_text() == text@
        },
        result matches Err(ProfileError::Violation(violation)) ==> {
            &&& profile_outcome(result)->Err_0 == ProfileErrorView::Violation(violation)
            &&& profile_outcome(result)->Err_0.message_text() == violation.message_text()
        },
{
}

} // verus!
