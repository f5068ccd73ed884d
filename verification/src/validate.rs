//! The checks on a single certificate.

use vstd::prelude::*;

use crate::certificate::{
    law_usages_are_single_bits, lookup_view, BasicConstraints, Certificate, CertificateView,
    ExtendedKeyUsage, ExtensionKind, ExtensionView, KeyUsage,
};
use crate::error::{
    both, invalid, outcome, refused, CertificateError, Outcome, TlsError, TlsErrorView,
};
use crate::text::{decimal, decimal_text};

verus! {

/// Whether `now` lies in the validity period of a certificate, its two ends included.
pub open spec fn valid_at(certificate: CertificateView, now: i128) -> bool {
    certificate.not_before <= now <= certificate.not_after
}

/// What comes of checking the validity period of a certificate.
pub open spec fn time_outcome(
    certificate: CertificateView,
    now: i128,
    description: Seq<char>,
) -> Outcome {
    if valid_at(certificate, now) {
        Ok(())
    } else {
        refused(description + " is not valid at the current time"@)
    }
}

/// Checks that `now` lies in the validity period of a certificate.
pub fn validate_certificate_time(
    certificate: &Certificate,
    now: i128,
    description: &str,
) -> (result: Result<(), TlsError>)
    ensures
        outcome(result) == time_outcome(certificate@, now, description@),
{
    if certificate.not_before <= now && now <= certificate.not_after {
        Ok(())
    } else {
        Err(TlsError::General(description.to_owned().concat(" is not valid at the current time")))
    }
}

/// The extensions that may be critical.
pub open spec fn may_be_critical(kind: ExtensionKind) -> bool {
    match kind {
        ExtensionKind::BasicConstraints(_) => true,
        ExtensionKind::CertificatePolicies => true,
        ExtensionKind::ExtendedKeyUsage(_) => true,
        ExtensionKind::KeyUsage(_) => true,
        ExtensionKind::SubjectAlternativeName => true,
        _ => false,
    }
}

/// Whether an extension has to be understood and is not.
pub open spec fn is_unsupported(extension: ExtensionView) -> bool {
    extension.critical && !may_be_critical(extension.kind)
}

/// Whether the first extension that is critical and not supported stands at `index`.
pub open spec fn first_unsupported(extensions: Seq<ExtensionView>, index: int) -> bool {
    &&& 0 <= index < extensions.len()
    &&& is_unsupported(extensions[index])
    &&& forall|i: int| 0 <= i < index ==> !is_unsupported(#[trigger] extensions[i])
}

/// What comes of checking the critical extensions of a certificate: the first that is not
/// supported is reported.
pub open spec fn critical_extensions_outcome(
    certificate: CertificateView,
    description: Seq<char>,
) -> Outcome {
    if exists|index: int| first_unsupported(certificate.extensions, index) {
        let index = choose|index: int| first_unsupported(certificate.extensions, index);
        refused(
            "unsupported critical extension "@ + certificate.extensions[index].oid + " in "@
                + description,
        )
    } else {
        Ok(())
    }
}

/// Checks that all critical extensions of a certificate are supported.
pub fn validate_supported_critical_extensions(certificate: &Certificate, description: &str) -> (
    result: Result<(), TlsError>)
    ensures
        outcome(result) == critical_extensions_outcome(certificate@, description@),
{
    let ghost views = certificate@.extensions;
    for i in 0..certificate.extensions.len()
        invariant
            views == certificate@.extensions,
            forall|j: int| 0 <= j < i ==> !is_unsupported(#[trigger] views[j]),
    {
        let extension = &certificate.extensions[i];
        assert(views[i as int] == extension@);
        let supported = match extension.kind {
            ExtensionKind::BasicConstraints(_) => true,
            ExtensionKind::CertificatePolicies => true,
            ExtensionKind::ExtendedKeyUsage(_) => true,
            ExtensionKind::KeyUsage(_) => true,
            ExtensionKind::SubjectAlternativeName => true,
            _ => false,
        };
        if extension.critical && !supported {
            assert(first_unsupported(views, i as int));
            assert forall|k: int| first_unsupported(views, k) implies k == i by {
                if k > i {
                    assert(!is_unsupported(views[i as int]));
                }
            }
            return Err(
                TlsError::General(
                    "unsupported critical extension ".to_owned().concat(
                        extension.oid.as_str(),
                    ).concat(" in ").concat(description),
                ),
            );
        }
    }
    assert forall|k: int| !first_unsupported(views, k) by {
        if first_unsupported(views, k) {
            assert(is_unsupported(views[k]));
        }
    }
    Ok(())
}

/// Whether purposes include that of a TLS server.
pub open spec fn serves_tls(usage: ExtendedKeyUsage) -> bool {
    usage.any || usage.server_auth
}

/// What comes of checking the purposes in a certificate, where there are any; `complaint` starts
/// the report of an extension that cannot be used.
pub open spec fn purpose_outcome(
    found: Result<Option<ExtendedKeyUsage>, Seq<char>>,
    complaint: Seq<char>,
) -> Outcome {
    match found {
        Err(text) => refused(complaint + text),
        Ok(Some(usage)) => if serves_tls(usage) {
            Ok(())
        } else {
            invalid(CertificateError::InvalidPurpose)
        },
        Ok(None) => Ok(()),
    }
}

fn check_purpose(found: &Result<Option<ExtendedKeyUsage>, String>, complaint: &str) -> (result:
    Result<(), TlsError>)
    ensures
        outcome(result) == purpose_outcome(
            lookup_view(*found),
            complaint@,
        ),
{
    match found {
        Err(text) => Err(TlsError::General(complaint.to_owned().concat(text.as_str()))),
        Ok(Some(usage)) => {
            if !usage.any && !usage.server_auth {
                return Err(TlsError::InvalidCertificate(CertificateError::InvalidPurpose));
            }
            Ok(())
        },
        Ok(None) => Ok(()),
    }
}

/// What comes of checking that the key of a server may sign.
pub open spec fn server_key_usage_outcome(found: Result<Option<KeyUsage>, Seq<char>>) -> Outcome {
    match found {
        Err(text) => refused("invalid key usage extension: "@ + text),
        Ok(Some(usage)) => if usage.has_digital_signature() {
            Ok(())
        } else {
            refused("server certificate key usage does not permit digital signatures"@)
        },
        Ok(None) => Ok(()),
    }
}

/// What comes of checking what the key of a server may be used for.
pub open spec fn end_entity_outcome(certificate: CertificateView) -> Outcome {
    both(
        server_key_usage_outcome(certificate.key_usage),
        purpose_outcome(
            certificate.extended_key_usage,
            "invalid extended key usage extension: "@,
        ),
    )
}

/// Checks that the key of a server may be used as TLS uses it.
pub fn validate_end_entity_usages(certificate: &Certificate) -> (result: Result<(), TlsError>)
    ensures
        outcome(result) == end_entity_outcome(certificate@),
{
    match &certificate.key_usage {
        Err(text) => {
            return Err(
                TlsError::General(
                    "invalid key usage extension: ".to_owned().concat(text.as_str()),
                ),
            );
        },
        Ok(Some(usage)) => {
            if !usage.digital_signature() {
                return Err(
                    TlsError::General(
                        "server certificate key usage does not permit digital signatures".to_owned(),
                    ),
                );
            }
        },
        Ok(None) => {},
    }
    check_purpose(&certificate.extended_key_usage, "invalid extended key usage extension: ")
}

/// The report of a path that is too long.
pub open spec fn path_too_long(limit: u32, subordinate_ca_count: nat) -> Outcome {
    refused(
        "issuer certificate path length constraint "@ + decimal_text(limit as nat)
            + " exceeded by "@ + decimal_text(subordinate_ca_count)
            + " subordinate CA certificates"@,
    )
}

/// What comes of checking that an issuer is a certificate authority with room for that many
/// authorities below it.
pub open spec fn basic_constraints_outcome(
    found: Result<Option<BasicConstraints>, Seq<char>>,
    subordinate_ca_count: nat,
) -> Outcome {
    match found {
        Err(text) => refused("invalid basic constraints extension: "@ + text),
        Ok(None) => refused("issuer certificate is missing basic constraints"@),
        Ok(Some(constraints)) => if !constraints.ca {
            refused("issuer certificate is not marked as a CA certificate"@)
        } else {
            match constraints.path_len_constraint {
                Some(limit) => if subordinate_ca_count > limit {
                    path_too_long(limit, subordinate_ca_count)
                } else {
                    Ok(())
                },
                None => Ok(()),
            }
        },
    }
}

/// What comes of checking that the key of an issuer may sign certificates.
pub open spec fn issuer_key_usage_outcome(found: Result<Option<KeyUsage>, Seq<char>>) -> Outcome {
    match found {
        Err(text) => refused("invalid issuer key usage extension: "@ + text),
        Ok(Some(usage)) => if usage.has_key_cert_sign() {
            Ok(())
        } else {
            refused("issuer certificate key usage does not permit certificate signing"@)
        },
        Ok(None) => Ok(()),
    }
}

/// What comes of checking that a certificate may issue others, with that many authorities between
/// it and the end of the chain. The first check that fails is reported.
pub open spec fn ca_outcome(
    certificate: CertificateView,
    now: i128,
    subordinate_ca_count: nat,
) -> Outcome {
    both(
        time_outcome(certificate, now, "issuer certificate"@),
        both(
            critical_extensions_outcome(certificate, "issuer certificate"@),
            both(
                basic_constraints_outcome(certificate.basic_constraints, subordinate_ca_count),
                both(
                    issuer_key_usage_outcome(certificate.key_usage),
                    purpose_outcome(
                        certificate.extended_key_usage,
                        "invalid issuer extended key usage extension: "@,
                    ),
                ),
            ),
        ),
    )
}

fn check_basic_constraints(
    found: &Result<Option<BasicConstraints>, String>,
    subordinate_ca_count: usize,
) -> (result: Result<(), TlsError>)
    ensures
        outcome(result) == basic_constraints_outcome(
            lookup_view(*found),
            subordinate_ca_count as nat,
        ),
{
    match found {
        Err(text) => Err(
            TlsError::General(
                "invalid basic constraints extension: ".to_owned().concat(text.as_str()),
            ),
        ),
        Ok(None) => Err(
            TlsError::General("issuer certificate is missing basic constraints".to_owned()),
        ),
        Ok(Some(constraints)) => {
            if !constraints.ca {
                return Err(
                    TlsError::General(
                        "issuer certificate is not marked as a CA certificate".to_owned(),
                    ),
                );
            }
            match constraints.path_len_constraint {
                Some(limit) => {
                    if subordinate_ca_count > limit as usize {
                        return Err(
                            TlsError::General(
                                "issuer certificate path length constraint ".to_owned().concat(
                                    decimal(limit as u64).as_str(),
                                ).concat(" exceeded by ").concat(
                                    decimal(subordinate_ca_count as u64).as_str(),
                                ).concat(" subordinate CA certificates"),
                            ),
                        );
                    }
                },
                None => {},
            }
            Ok(())
        },
    }
}

fn check_issuer_key_usage(found: &Result<Option<KeyUsage>, String>) -> (result: Result<
    (),
    TlsError,
>)
    ensures
        outcome(result) == issuer_key_usage_outcome(lookup_view(*found)),
{
    match found {
        Err(text) => Err(
            TlsError::General(
                "invalid issuer key usage extension: ".to_owned().concat(text.as_str()),
            ),
        ),
        Ok(Some(usage)) => {
            if !usage.key_cert_sign() {
                return Err(
                    TlsError::General(
                        "issuer certificate key usage does not permit certificate signing".to_owned(),
                    ),
                );
            }
            Ok(())
        },
        Ok(None) => Ok(()),
    }
}

/// Checks that a certificate may issue others, with `subordinate_ca_count` authorities between it
/// and the end of the chain.
pub fn validate_ca_certificate(
    certificate: &Certificate,
    now: i128,
    subordinate_ca_count: usize,
) -> (result: Result<(), TlsError>)
    ensures
        outcome(result) == ca_outcome(certificate@, now, subordinate_ca_count as nat),
{
    validate_certificate_time(certificate, now, "issuer certificate")?;
    validate_supported_critical_extensions(certificate, "issuer certificate")?;
    check_basic_constraints(&certificate.basic_constraints, subordinate_ca_count)?;
    check_issuer_key_usage(&certificate.key_usage)?;
    check_purpose(
        &certificate.extended_key_usage,
        "invalid issuer extended key usage extension: ",
    )
}

/// An issuer that is accepted is within its validity period, is marked as an authority, has room
/// below it, and may sign certificates for TLS servers as far as its extensions say.
pub proof fn law_accepted_issuer(
    certificate: CertificateView,
    now: i128,
    subordinate_ca_count: nat,
)
    requires
        ca_outcome(certificate, now, subordinate_ca_count) is Ok,
    ensures
        valid_at(certificate, now),
        forall|i: int|
            0 <= i < certificate.extensions.len() && (#[trigger] certificate.extensions[i]).critical
                ==> may_be_critical(certificate.extensions[i].kind),
        certificate.basic_constraints matches Ok(Some(constraints)) && constraints.ca && (
        constraints.path_len_constraint matches Some(limit) ==> subordinate_ca_count <= limit),
        certificate.key_usage matches Ok(found) && (found matches Some(usage)
            ==> usage.has_key_cert_sign()),
        certificate.extended_key_usage matches Ok(found) && (found matches Some(usage)
            ==> serves_tls(usage)),
{
    law_critical_extensions_are_supported(certificate, "issuer certificate"@);
}

/// A certificate passes the check on critical extensions if and only if it has none that is not
/// supported.
pub proof fn law_critical_extensions_are_supported(
    certificate: CertificateView,
    description: Seq<char>,
)
    ensures
        critical_extensions_outcome(certificate, description) is Ok <==> forall|i: int|
            0 <= i < certificate.extensions.len() && (#[trigger] certificate.extensions[i]).critical
                ==> may_be_critical(certificate.extensions[i].kind),
{
    let extensions = certificate.extensions;
    if exists|i: int| 0 <= i < extensions.len() && is_unsupported(#[trigger] extensions[i]) {
        let i = choose|i: int| 0 <= i < extensions.len() && is_unsupported(#[trigger] extensions[i]);
        lemma_some_is_first(extensions, i);
    } else {
        assert forall|k: int| !first_unsupported(extensions, k) by {
            if first_unsupported(extensions, k) {
                assert(is_unsupported(extensions[k]));
            }
        }
        assert forall|i: int|
            0 <= i < extensions.len() && (
            #[trigger] extensions[i]).critical implies may_be_critical(extensions[i].kind) by {
            assert(!is_unsupported(extensions[i]));
        }
    }
}

proof fn lemma_some_is_first(extensions: Seq<ExtensionView>, index: int)
    requires
        0 <= index < extensions.len(),
        is_unsupported(extensions[index]),
    ensures
        exists|k: int| first_unsupported(extensions, k),
    decreases index,
{
    if exists|i: int| 0 <= i < index && is_unsupported(#[trigger] extensions[i]) {
        let i = choose|i: int| 0 <= i < index && is_unsupported(#[trigger] extensions[i]);
        lemma_some_is_first(extensions, i);
    } else {
        assert(first_unsupported(extensions, index));
    }
}

/// An authority accepted with some number of authorities below it is accepted with fewer as well.
pub proof fn law_shorter_paths_stay_accepted(
    certificate: CertificateView,
    now: i128,
    subordinate_ca_count: nat,
    fewer: nat,
)
    requires
        fewer <= subordinate_ca_count,
        ca_outcome(certificate, now, subordinate_ca_count) is Ok,
    ensures
        ca_outcome(certificate, now, fewer) is Ok,
{
}

/// The time is checked against both ends of the validity period, which belong to it.
pub proof fn law_validity_includes_both_ends(
    certificate: CertificateView,
    now: i128,
    description: Seq<char>,
)
    ensures
        certificate.not_before <= now && now <= certificate.not_after ==> time_outcome(
            certificate,
            now,
            description,
        ) == Ok::<(), TlsErrorView>(()),
        now < certificate.not_before || certificate.not_after < now ==> time_outcome(
            certificate,
            now,
            description,
        ) == Err::<(), TlsErrorView>(
            TlsErrorView::General(description + " is not valid at the current time"@),
        ),
{
}

/// Five kinds of extensions may be critical, whatever they say, and no other.
pub proof fn law_kinds_that_may_be_critical(kind: ExtensionKind)
    ensures
        may_be_critical(kind) <==> {
            ||| kind is BasicConstraints
            ||| kind is CertificatePolicies
            ||| kind is ExtendedKeyUsage
            ||| kind is KeyUsage
            ||| kind is SubjectAlternativeName
        },
{
}

/// A certificate passes the check on critical extensions if and only if each of them is of one of five
/// kinds, whatever it says.
pub proof fn law_critical_extensions_that_pass(
    certificate: CertificateView,
    description: Seq<char>,
)
    ensures
        critical_extensions_outcome(certificate, description) == Ok::<(), TlsErrorView>(())
            <==> forall|i: int|
            0 <= i < certificate.extensions.len() && (#[trigger] certificate.extensions[i]).critical
                ==> {
                ||| certificate.extensions[i].kind is BasicConstraints
                ||| certificate.extensions[i].kind is CertificatePolicies
                ||| certificate.extensions[i].kind is ExtendedKeyUsage
                ||| certificate.extensions[i].kind is KeyUsage
                ||| certificate.extensions[i].kind is SubjectAlternativeName
            },
{
    law_critical_extensions_are_supported(certificate, description);
    assert forall|kind: ExtensionKind| #[trigger] may_be_critical(kind) == {
        ||| kind is BasicConstraints
        ||| kind is CertificatePolicies
        ||| kind is ExtendedKeyUsage
        ||| kind is KeyUsage
        ||| kind is SubjectAlternativeName
    } by {
        law_kinds_that_may_be_critical(kind);
    }
    if critical_extensions_outcome(certificate, description) is Ok {
        assert forall|i: int|
            0 <= i < certificate.extensions.len() && (
            #[trigger] certificate.extensions[i]).critical implies {
            ||| certificate.extensions[i].kind is BasicConstraints
            ||| certificate.extensions[i].kind is CertificatePolicies
            ||| certificate.extensions[i].kind is ExtendedKeyUsage
            ||| certificate.extensions[i].kind is KeyUsage
            ||| certificate.extensions[i].kind is SubjectAlternativeName
        } by {
            assert(may_be_critical(certificate.extensions[i].kind));
        }
    }
}

/// A critical extension of another kind is reported by its object identifier, where those in front of
/// it are not critical or of the five kinds.
pub proof fn law_first_unsupported_extension_is_reported(
    certificate: CertificateView,
    description: Seq<char>,
    index: int,
)
    requires
        0 <= index < certificate.extensions.len(),
        certificate.extensions[index].critical,
        !(certificate.extensions[index].kind is BasicConstraints),
        !(certificate.extensions[index].kind is CertificatePolicies),
        !(certificate.extensions[index].kind is ExtendedKeyUsage),
        !(certificate.extensions[index].kind is KeyUsage),
        !(certificate.extensions[index].kind is SubjectAlternativeName),
        forall|i: int|
            0 <= i < index && (#[trigger] certificate.extensions[i]).critical ==> {
                ||| certificate.extensions[i].kind is BasicConstraints
                ||| certificate.extensions[i].kind is CertificatePolicies
                ||| certificate.extensions[i].kind is ExtendedKeyUsage
                ||| certificate.extensions[i].kind is KeyUsage
                ||| certificate.extensions[i].kind is SubjectAlternativeName
            },
    ensures
        critical_extensions_outcome(certificate, description) == Err::<(), TlsErrorView>(
            TlsErrorView::General(
                "unsupported critical extension "@ + certificate.extensions[index].oid + " in "@
                    + description,
            ),
        ),
{
    let extensions = certificate.extensions;
    assert forall|i: int| 0 <= i < index implies !is_unsupported(#[trigger] extensions[i]) by {
        law_kinds_that_may_be_critical(extensions[i].kind);
    }
    assert(first_unsupported(extensions, index));
    assert forall|k: int| first_unsupported(extensions, k) implies k == index by {
        if k > index {
            assert(!is_unsupported(extensions[index]));
        } else if k < index {
            assert(!is_unsupported(extensions[k]));
        }
    }
}

/// A certificate is accepted as an issuer if and only if the time is in its validity period, its
/// critical extensions are of five kinds, it is marked as an authority with room for those below it,
/// it has the bit for signing certificates where it has key usages, and it has the purpose of TLS
/// servers or any purpose where it has purposes. No other bit and no other purpose plays a part.
pub proof fn law_issuers_that_are_accepted(
    certificate: CertificateView,
    now: i128,
    subordinate_ca_count: nat,
)
    ensures
        ca_outcome(certificate, now, subordinate_ca_count) == Ok::<(), TlsErrorView>(()) <==> {
            &&& certificate.not_before <= now
            &&& now <= certificate.not_after
            &&& forall|i: int|
                0 <= i < certificate.extensions.len() && (
                #[trigger] certificate.extensions[i]).critical ==> {
                    ||| certificate.extensions[i].kind is BasicConstraints
                    ||| certificate.extensions[i].kind is CertificatePolicies
                    ||| certificate.extensions[i].kind is ExtendedKeyUsage
                    ||| certificate.extensions[i].kind is KeyUsage
                    ||| certificate.extensions[i].kind is SubjectAlternativeName
                }
            &&& certificate.basic_constraints matches Ok(Some(constraints))
            &&& constraints.ca
            &&& (constraints.path_len_constraint is None || subordinate_ca_count
                <= constraints.path_len_constraint->0)
            &&& certificate.key_usage matches Ok(key_usage)
            &&& (key_usage is None || key_usage->0.flags & 0x20 != 0)
            &&& certificate.extended_key_usage matches Ok(purposes)
            &&& (purposes is None || purposes->0.any || purposes->0.server_auth)
        },
{
    law_critical_extensions_that_pass(certificate, "issuer certificate"@);
    if let Ok(Some(usage)) = certificate.key_usage {
        law_usages_are_single_bits(usage);
    }
}

/// Of an issuer the validity period is checked first and the critical extensions after it; what either
/// finds is the result.
pub proof fn law_first_checks_of_an_issuer(
    certificate: CertificateView,
    now: i128,
    subordinate_ca_count: nat,
)
    ensures
        now < certificate.not_before || certificate.not_after < now ==> ca_outcome(
            certificate,
            now,
            subordinate_ca_count,
        ) == Err::<(), TlsErrorView>(
            TlsErrorView::General("issuer certificate"@ + " is not valid at the current time"@),
        ),
        certificate.not_before <= now && now <= certificate.not_after
            && critical_extensions_outcome(certificate, "issuer certificate"@) is Err
            ==> ca_outcome(certificate, now, subordinate_ca_count) == critical_extensions_outcome(
            certificate,
            "issuer certificate"@,
        ),
{
}

/// Of an issuer that is valid and has no unsupported extension, the basic constraints are checked, the
/// key usage after them, and the purposes last.
pub proof fn law_later_checks_of_an_issuer(
    certificate: CertificateView,
    now: i128,
    subordinate_ca_count: nat,
)
    requires
        certificate.not_before <= now,
        now <= certificate.not_after,
        critical_extensions_outcome(certificate, "issuer certificate"@) is Ok,
    ensures
        ({
            let result = ca_outcome(certificate, now, subordinate_ca_count);
            match certificate.basic_constraints {
                Err(text) => result == Err::<(), TlsErrorView>(
                    TlsErrorView::General("invalid basic constraints extension: "@ + text),
                ),
                Ok(None) => result == Err::<(), TlsErrorView>(
                    TlsErrorView::General("issuer certificate is missing basic constraints"@),
                ),
                Ok(Some(constraints)) => {
                    &&& !constraints.ca ==> result == Err::<(), TlsErrorView>(
                        TlsErrorView::General(
                            "issuer certificate is not marked as a CA certificate"@,
                        ),
                    )
                    &&& constraints.ca && constraints.path_len_constraint is Some
                        && constraints.path_len_constraint->0 < subordinate_ca_count ==> result
                        == Err::<(), TlsErrorView>(
                        TlsErrorView::General(
                            "issuer certificate path length constraint "@ + decimal_text(
                                constraints.path_len_constraint->0 as nat,
                            ) + " exceeded by "@ + decimal_text(subordinate_ca_count)
                                + " subordinate CA certificates"@,
                        ),
                    )
                    &&& constraints.ca && (constraints.path_len_constraint is None
                        || subordinate_ca_count <= constraints.path_len_constraint->0) ==> {
                        &&& certificate.key_usage matches Err(text) ==> result == Err::<
                            (),
                            TlsErrorView,
                        >(TlsErrorView::General("invalid issuer key usage extension: "@ + text))
                        &&& certificate.key_usage matches Ok(Some(usage)) ==> usage.flags & 0x20
                            == 0 ==> result == Err::<(), TlsErrorView>(
                            TlsErrorView::General(
                                "issuer certificate key usage does not permit certificate signing"@,
                            ),
                        )
                        &&& certificate.key_usage matches Ok(usage) ==> usage is None
                            || usage->0.flags & 0x20 != 0 ==> {
                            &&& certificate.extended_key_usage matches Err(text) ==> result
                                == Err::<(), TlsErrorView>(
                                TlsErrorView::General(
                                    "invalid issuer extended key usage extension: "@ + text,
                                ),
                            )
                            &&& certificate.extended_key_usage matches Ok(Some(purposes))
                                ==> !purposes.any && !purposes.server_auth ==> result == Err::<
                                (),
                                TlsErrorView,
                            >(TlsErrorView::InvalidCertificate(CertificateError::InvalidPurpose))
                        }
                    }
                },
            }
        }),
{
    if let Ok(Some(usage)) = certificate.key_usage {
        law_usages_are_single_bits(usage);
    }
}

/// The key of a server may be used if and only if it has the bit for signing where it has key usages,
/// and the purpose of TLS servers or any purpose where it has purposes. The key usages are checked
/// first.
pub proof fn law_usages_of_a_server(certificate: CertificateView)
    ensures
        end_entity_outcome(certificate) == Ok::<(), TlsErrorView>(()) <==> {
            &&& certificate.key_usage matches Ok(key_usage)
            &&& (key_usage is None || key_usage->0.flags & 0x01 != 0)
            &&& certificate.extended_key_usage matches Ok(purposes)
            &&& (purposes is None || purposes->0.any || purposes->0.server_auth)
        },
        certificate.key_usage matches Err(text) ==> end_entity_outcome(certificate) == Err::<
            (),
            TlsErrorView,
        >(TlsErrorView::General("invalid key usage extension: "@ + text)),
        certificate.key_usage matches Ok(Some(usage)) ==> usage.flags & 0x01 == 0
            ==> end_entity_outcome(certificate) == Err::<(), TlsErrorView>(
            TlsErrorView::General(
                "server certificate key usage does not permit digital signatures"@,
            ),
        ),
        certificate.key_usage matches Ok(usage) ==> usage is None || usage->0.flags & 0x01 != 0
            ==> {
            &&& certificate.extended_key_usage matches Err(text) ==> end_entity_outcome(certificate)
                == Err::<(), TlsErrorView>(
                TlsErrorView::General("invalid extended key usage extension: "@ + text),
            )
            &&& certificate.extended_key_usage matches Ok(Some(purposes)) ==> !purposes.any
                && !purposes.server_auth ==> end_entity_outcome(certificate) == Err::<
                (),
                TlsErrorView,
            >(TlsErrorView::InvalidCertificate(CertificateError::InvalidPurpose))
        },
{
    if let Ok(Some(usage)) = certificate.key_usage {
        law_usages_are_single_bits(usage);
    }
}

} // verus!
