//! The verifier of servers.

use vstd::prelude::*;

use crate::certificate::{byte_views, Certificate, CertificateView};
use crate::chain::{
    chain_search, is_chain_of_trust, law_accepted_means_trusted, lemma_unused_bound, positions,
    verify_chain_to_trust_anchor,
};
use crate::error::{
    both, invalid, outcome, refused, CertificateError, Outcome, TlsError, TlsErrorView,
};
use crate::load::{load_certificates, some_certificates, LoadError, LoadErrorView};
use crate::names::{
    server_identity_outcome, validate_server_identity, ServerName, ServerNameView,
};
use crate::pem::pem_certificates;
use crate::signature::{
    algorithm_text, handshake_outcome, meets_malformed_key, try_verify_handshake_signature,
    SignatureScheme,
};
use crate::time::{asn1_time_from_system, verification_time};
use crate::validate::{
    ca_outcome, critical_extensions_outcome, end_entity_outcome, law_critical_extensions_are_supported,
    law_critical_extensions_that_pass, law_usages_of_a_server, law_validity_includes_both_ends,
    may_be_critical, time_outcome, valid_at, validate_certificate_time,
    validate_end_entity_usages, validate_supported_critical_extensions,
};
use crate::x509::{
    decoded, decoded_all, extended_key_usage_oid, key_usage_oid,
    law_duplicate_extensions_are_an_error, parse_x509_certificate, parse_x509_certificates,
};

verus! {

/// Verifies servers against the certificate authorities of one file.
#[derive(Debug, PartialEq, Eq)]
pub struct PureRustServerCertVerifier {
    /// The path of the file, for reports.
    pub rootca_path: String,
    /// The certificates of the authorities, encoded.
    pub trust_anchors: Vec<Vec<u8>>,
}

/// What comes of checking the certificate of a server by itself.
pub open spec fn server_certificate_outcome(
    certificate: CertificateView,
    server_name: ServerNameView,
    now: i128,
) -> Outcome {
    both(
        time_outcome(certificate, now, "server certificate"@),
        both(
            critical_extensions_outcome(certificate, "server certificate"@),
            both(
                end_entity_outcome(certificate),
                server_identity_outcome(certificate, server_name),
            ),
        ),
    )
}

/// Checks the certificate of a server by itself: its validity period, its extensions, and that it
/// is for the server that was asked for.
pub fn check_server_certificate(
    certificate: &Certificate,
    server_name: &ServerName,
    now: i128,
) -> (result: Result<(), TlsError>)
    ensures
        outcome(result) == server_certificate_outcome(certificate@, server_name@, now),
{
    validate_certificate_time(certificate, now, "server certificate")?;
    validate_supported_critical_extensions(certificate, "server certificate")?;
    validate_end_entity_usages(certificate)?;
    validate_server_identity(certificate, server_name)
}

/// The report of a chain, with the file that the authorities come from.
pub open spec fn reported(rootca_path: Seq<char>, chain: Outcome) -> Outcome {
    match chain {
        Ok(()) => Ok(()),
        Err(error) => refused(
            "server certificate verification failed against "@ + rootca_path + ": "@
                + error.display_text(),
        ),
    }
}

/// Names the file that the authorities come from in the report of a chain.
pub fn report_chain(rootca_path: &str, chain: Result<(), TlsError>) -> (result: Result<
    (),
    TlsError,
>)
    ensures
        outcome(result) == reported(rootca_path@, outcome(chain)),
{
    match chain {
        Ok(()) => Ok(()),
        Err(error) => Err(
            TlsError::General(
                "server certificate verification failed against ".to_owned().concat(
                    rootca_path,
                ).concat(": ").concat(error.display().as_str()),
            ),
        ),
    }
}

/// What comes of verifying a server whose certificates could be parsed.
pub open spec fn parsed_server_outcome(
    rootca_path: Seq<char>,
    end_entity: CertificateView,
    intermediates: Seq<CertificateView>,
    trust_anchors: Seq<CertificateView>,
    server_name: ServerNameView,
    now: i128,
) -> Outcome {
    both(
        server_certificate_outcome(end_entity, server_name, now),
        reported(
            rootca_path,
            chain_search(end_entity, intermediates, trust_anchors, now).chain_outcome(
                0,
                0,
                Seq::empty(),
            ),
        ),
    )
}

/// What comes of verifying a server.
pub open spec fn server_outcome(
    rootca_path: Seq<char>,
    trust_anchors: Seq<Seq<u8>>,
    end_entity: Seq<u8>,
    intermediates: Seq<Seq<u8>>,
    server_name: ServerNameView,
    now: Option<u64>,
) -> Outcome {
    match (
        verification_time(now),
        decoded(end_entity),
        decoded_all(intermediates),
        decoded_all(trust_anchors),
    ) {
        (Err(error), _, _, _) => Err(error),
        (Ok(now), Ok(end_entity), Some(intermediates), Some(trust_anchors)) => {
            parsed_server_outcome(
                rootca_path,
                end_entity,
                intermediates,
                trust_anchors,
                server_name,
                now,
            )
        },
        _ => invalid(CertificateError::BadEncoding),
    }
}

impl PureRustServerCertVerifier {
    /// Trusts the certificates of the PEM file at `rootca_path`.
    pub fn new(rootca_path: &str, contents: &[u8]) -> (result: Result<Self, LoadError>)
        ensures
            match result {
                Ok(verifier) => {
                    &&& verifier.rootca_path@ == rootca_path@
                    &&& some_certificates(pem_certificates(contents@)) == Ok::<
                        Seq<Seq<u8>>,
                        LoadErrorView,
                    >(byte_views(verifier.trust_anchors@))
                },
                Err(error) => some_certificates(pem_certificates(contents@)) == Err::<
                    Seq<Seq<u8>>,
                    LoadErrorView,
                >(error@),
            },
    {
        match load_certificates(contents) {
            Ok(trust_anchors) => Ok(
                PureRustServerCertVerifier { rootca_path: rootca_path.to_owned(), trust_anchors },
            ),
            Err(error) => Err(error),
        }
    }

    /// Verifies the certificates that a server sent. `now` is the reading of the system clock in
    /// seconds since the start of 1970; there is none where the clock is set before that.
    pub fn verify_certificate_chain(
        &self,
        end_entity: &[u8],
        intermediates: &[Vec<u8>],
        server_name: &ServerName,
        now: Option<u64>,
    ) -> (result: Result<(), TlsError>)
        ensures
            outcome(result) == server_outcome(
                self.rootca_path@,
                byte_views(self.trust_anchors@),
                end_entity@,
                byte_views(intermediates@),
                server_name@,
                now,
            ),
    {
        let now = match asn1_time_from_system(now) {
            Ok(now) => now,
            Err(error) => {
                return Err(error);
            },
        };
        let end_entity = match parse_x509_certificate(end_entity) {
            Ok(end_entity) => end_entity,
            Err(error) => {
                return Err(error);
            },
        };
        let intermediates = match parse_x509_certificates(intermediates) {
            Ok(intermediates) => intermediates,
            Err(error) => {
                return Err(error);
            },
        };
        let trust_anchors = match parse_x509_certificates(self.trust_anchors.as_slice()) {
            Ok(trust_anchors) => trust_anchors,
            Err(error) => {
                return Err(error);
            },
        };
        match check_server_certificate(&end_entity, server_name, now) {
            Ok(()) => {},
            Err(error) => {
                return Err(error);
            },
        }
        let mut used_intermediates: Vec<usize> = Vec::new();
        proof {
            assert(positions(used_intermediates@) == Seq::<int>::empty());
            lemma_unused_bound(intermediates@.len(), Seq::empty());
            assert(intermediates.len() <= usize::MAX);
        }
        let chain = verify_chain_to_trust_anchor(
            &end_entity,
            intermediates.as_slice(),
            trust_anchors.as_slice(),
            now,
            0,
            &mut used_intermediates,
        );
        report_chain(self.rootca_path.as_str(), chain)
    }

    /// Verifies the certificates that a server sent in a handshake.
    pub fn verify_server_cert(
        &self,
        end_entity: &[u8],
        intermediates: &[Vec<u8>],
        server_name: &ServerName,
        now: Option<u64>,
    ) -> (result: Result<(), TlsError>)
        ensures
            outcome(result) == server_outcome(
                self.rootca_path@,
                byte_views(self.trust_anchors@),
                end_entity@,
                byte_views(intermediates@),
                server_name@,
                now,
            ),
    {
        self.verify_certificate_chain(end_entity, intermediates, server_name, now)
    }

    /// Checks the signature that a server made in a handshake of TLS 1.2, or gives nothing back
    /// where that would come to a key of a length that its algorithm does not have.
    pub fn verify_tls12_signature(
        &self,
        message: &[u8],
        der: &[u8],
        scheme: SignatureScheme,
        signature: &[u8],
    ) -> (result: Option<Result<(), TlsError>>)
        ensures
            match result {
                Some(result) => {
                    &&& !meets_malformed_key(der@, scheme, false)
                    &&& outcome(result) == handshake_outcome(
                        message@,
                        der@,
                        scheme,
                        signature@,
                        false,
                    )
                },
                None => meets_malformed_key(der@, scheme, false),
            },
    {
        try_verify_handshake_signature(message, der, scheme, signature, false)
    }

    /// Checks the signature that a server made in a handshake of TLS 1.3, or gives nothing back
    /// where that would come to a key of a length that its algorithm does not have.
    pub fn verify_tls13_signature(
        &self,
        message: &[u8],
        der: &[u8],
        scheme: SignatureScheme,
        signature: &[u8],
    ) -> (result: Option<Result<(), TlsError>>)
        ensures
            match result {
                Some(result) => {
                    &&& !meets_malformed_key(der@, scheme, true)
                    &&& outcome(result) == handshake_outcome(
                        message@,
                        der@,
                        scheme,
                        signature@,
                        true,
                    )
                },
                None => meets_malformed_key(der@, scheme, true),
            },
    {
        try_verify_handshake_signature(message, der, scheme, signature, true)
    }

    /// The schemes that the server is offered.
    pub fn supported_verify_schemes(&self) -> (schemes: Vec<SignatureScheme>)
        ensures
            schemes@ == offered_schemes(),
    {
        let schemes: Vec<SignatureScheme> = vec![
            SignatureScheme::ECDSA_NISTP256_SHA256,
            SignatureScheme::RSA_PKCS1_SHA256,
        ];
        assert(schemes@ =~= offered_schemes());
        schemes
    }

    /// Whether the server is asked for certificate timestamps.
    pub fn request_scts(&self) -> (asked: bool)
        ensures
            !asked,
    {
        false
    }
}

/// The schemes that a server is offered, the preferred one first.
pub open spec fn offered_schemes() -> Seq<SignatureScheme> {
    seq![SignatureScheme::ECDSA_NISTP256_SHA256, SignatureScheme::RSA_PKCS1_SHA256]
}

/// Every scheme that a server is offered is supported.
pub proof fn law_offered_schemes_are_supported(index: int)
    requires
        0 <= index < offered_schemes().len(),
    ensures
        algorithm_text(offered_schemes()[index]) is Some,
{
}

/// A server is accepted only with a certificate that is within its validity period, has no critical
/// extension that is not supported, may be used for TLS, is for the server that was asked for, and
/// has a chain of trust to an authority.
pub proof fn law_accepted_server(
    rootca_path: Seq<char>,
    trust_anchors: Seq<Seq<u8>>,
    end_entity: Seq<u8>,
    intermediates: Seq<Seq<u8>>,
    server_name: ServerNameView,
    now: Option<u64>,
)
    requires
        server_outcome(
            rootca_path,
            trust_anchors,
            end_entity,
            intermediates,
            server_name,
            now,
        ) is Ok,
    ensures
        verification_time(now) is Ok,
        decoded(end_entity) is Ok,
        decoded_all(intermediates) is Some,
        decoded_all(trust_anchors) is Some,
        ({
            let time = verification_time(now)->Ok_0;
            let certificate = decoded(end_entity)->Ok_0;
            &&& valid_at(certificate, time)
            &&& forall|i: int|
                0 <= i < certificate.extensions.len() && (
                #[trigger] certificate.extensions[i]).critical ==> may_be_critical(
                    certificate.extensions[i].kind,
                )
            &&& end_entity_outcome(certificate) is Ok
            &&& server_identity_outcome(certificate, server_name) is Ok
            &&& exists|path: Seq<int>, anchor: int|
                is_chain_of_trust(
                    certificate,
                    decoded_all(intermediates)->0,
                    decoded_all(trust_anchors)->0,
                    time,
                    0,
                    Seq::empty(),
                    path,
                    anchor,
                )
        }),
{
    let time = verification_time(now)->Ok_0;
    let certificate = decoded(end_entity)->Ok_0;
    law_critical_extensions_are_supported(certificate, "server certificate"@);
    law_accepted_means_trusted(
        certificate,
        decoded_all(intermediates)->0,
        decoded_all(trust_anchors)->0,
        time,
        0,
        Seq::empty(),
    );
}

/// A certificate that says twice what its key may be used for is refused, both for a server and for an
/// issuer.
pub proof fn law_duplicate_usages_are_refused(
    der: Seq<u8>,
    oid: Seq<u8>,
    i: int,
    j: int,
    now: i128,
    subordinate_ca_count: nat,
)
    requires
        decoded(der) is Ok,
        oid == key_usage_oid() || oid == extended_key_usage_oid(),
        0 <= i < j < decoded(der)->Ok_0.extensions.len(),
        decoded(der)->Ok_0.extensions[i].encoded_oid == oid,
        decoded(der)->Ok_0.extensions[j].encoded_oid == oid,
    ensures
        end_entity_outcome(decoded(der)->Ok_0) is Err,
        ca_outcome(decoded(der)->Ok_0, now, subordinate_ca_count) is Err,
{
    law_duplicate_extensions_are_an_error(decoded(der)->Ok_0.extensions, oid, i, j);
}

/// The path of the file of authorities plays no part in whether a server is accepted.
pub proof fn law_path_does_not_matter(
    rootca_path: Seq<char>,
    other_path: Seq<char>,
    trust_anchors: Seq<Seq<u8>>,
    end_entity: Seq<u8>,
    intermediates: Seq<Seq<u8>>,
    server_name: ServerNameView,
    now: Option<u64>,
)
    ensures
        server_outcome(
            rootca_path,
            trust_anchors,
            end_entity,
            intermediates,
            server_name,
            now,
        ) is Ok == server_outcome(
            other_path,
            trust_anchors,
            end_entity,
            intermediates,
            server_name,
            now,
        ) is Ok,
{
}

/// The certificate of a server passes by itself if and only if the time is in its validity period, its
/// critical extensions are of five kinds whatever they say, its key has the bit for signing where it
/// has key usages and the purpose of TLS servers or any purpose where it has purposes, and it is for
/// the server that was asked for.
pub proof fn law_server_certificates_that_pass(
    certificate: CertificateView,
    server_name: ServerNameView,
    now: i128,
)
    ensures
        server_certificate_outcome(certificate, server_name, now) == Ok::<(), TlsErrorView>(())
            <==> {
            &&& certificate.not_before <= now
            &&& now <= certificate.not_after
            &&& forall|i: int|
                0 <= i < certificate.extensions.len() && (
                #[trigger] certificate.extensions[i]).critical ==> {
                    ||| certificate.extensions[i].kind is BasicConstraints
                    ||| certificate.extensions[i].kind is CertificatePolicies
                    ||| certificate.extensions[i].kind is ExtendedKeyUsage
                    ||| certificate.extensions[i].kind is KeyUsage
                    ||| certificate.extensions[i].kind is SubjectAlternativeName
                }
            &&& certificate.key_usage matches Ok(key_usage)
            &&& (key_usage is None || key_usage->0.flags & 0x01 != 0)
            &&& certificate.extended_key_usage matches Ok(purposes)
            &&& (purposes is None || purposes->0.any || purposes->0.server_auth)
            &&& server_identity_outcome(certificate, server_name) is Ok
        },
{
    law_critical_extensions_that_pass(certificate, "server certificate"@);
    law_usages_of_a_server(certificate);
    law_validity_includes_both_ends(certificate, now, "server certificate"@);
}

/// The certificate of a server is checked for its validity period first, then for its critical
/// extensions, its usages and its names; the first of these that fails is the result.
pub proof fn law_order_of_the_checks_of_a_server(
    certificate: CertificateView,
    server_name: ServerNameView,
    now: i128,
)
    ensures
        ({
            let result = server_certificate_outcome(certificate, server_name, now);
            let valid = certificate.not_before <= now && now <= certificate.not_after;
            let critical = critical_extensions_outcome(certificate, "server certificate"@);
            let usages = end_entity_outcome(certificate);
            &&& !valid ==> result == Err::<(), TlsErrorView>(
                TlsErrorView::General("server certificate"@ + " is not valid at the current time"@),
            )
            &&& valid && critical is Err ==> result == critical
            &&& valid && critical is Ok && usages is Err ==> result == usages
            &&& valid && critical is Ok && usages is Ok ==> result == server_identity_outcome(
                certificate,
                server_name,
            )
        }),
{
    law_validity_includes_both_ends(certificate, now, "server certificate"@);
}

/// What came of the chain is reported with the file of the authorities, and success as it is.
pub proof fn law_chains_are_reported_with_the_file(rootca_path: Seq<char>, chain: Outcome)
    ensures
        chain is Ok ==> reported(rootca_path, chain) == Ok::<(), TlsErrorView>(()),
        chain matches Err(error) ==> reported(rootca_path, chain) == Err::<(), TlsErrorView>(
            TlsErrorView::General(
                "server certificate verification failed against "@ + rootca_path + ": "@
                    + error.display_text(),
            ),
        ),
{
}

/// A server is accepted if and only if the clock can be read, all certificates can be parsed, its own
/// passes by itself, and a chain leads from it to a trust anchor, with nothing below it and nothing
/// used.
pub proof fn law_servers_that_are_accepted(
    rootca_path: Seq<char>,
    trust_anchors: Seq<Seq<u8>>,
    end_entity: Seq<u8>,
    intermediates: Seq<Seq<u8>>,
    server_name: ServerNameView,
    now: Option<u64>,
)
    ensures
        server_outcome(
            rootca_path,
            trust_anchors,
            end_entity,
            intermediates,
            server_name,
            now,
        ) == Ok::<(), TlsErrorView>(()) <==> {
            &&& verification_time(now) matches Ok(time)
            &&& decoded(end_entity) matches Ok(certificate)
            &&& decoded_all(intermediates) matches Some(issuers)
            &&& decoded_all(trust_anchors) matches Some(anchors)
            &&& server_certificate_outcome(certificate, server_name, time) is Ok
            &&& chain_search(certificate, issuers, anchors, time).chain_outcome(
                0,
                0,
                Seq::empty(),
            ) is Ok
        },
{
}

/// The clock is looked at first; then all certificates have to be parsed; then the server's own
/// certificate is checked; the chain comes last and is reported with the file of the authorities.
pub proof fn law_order_of_verification(
    rootca_path: Seq<char>,
    trust_anchors: Seq<Seq<u8>>,
    end_entity: Seq<u8>,
    intermediates: Seq<Seq<u8>>,
    server_name: ServerNameView,
    now: Option<u64>,
)
    ensures
        ({
            let result = server_outcome(
                rootca_path,
                trust_anchors,
                end_entity,
                intermediates,
                server_name,
                now,
            );
            let parsed = decoded(end_entity) is Ok && decoded_all(intermediates) is Some
                && decoded_all(trust_anchors) is Some;
            &&& verification_time(now) matches Err(error) ==> result == Err::<(), TlsErrorView>(
                error,
            )
            &&& verification_time(now) is Ok && !parsed ==> result == Err::<(), TlsErrorView>(
                TlsErrorView::InvalidCertificate(CertificateError::BadEncoding),
            )
            &&& verification_time(now) matches Ok(time) ==> parsed ==> {
                let own = server_certificate_outcome(decoded(end_entity)->Ok_0, server_name, time);
                let chain = chain_search(
                    decoded(end_entity)->Ok_0,
                    decoded_all(intermediates)->0,
                    decoded_all(trust_anchors)->0,
                    time,
                ).chain_outcome(0, 0, Seq::empty());
                &&& own is Err ==> result == own
                &&& own is Ok && chain is Err ==> result == Err::<(), TlsErrorView>(
                    TlsErrorView::General(
                        "server certificate verification failed against "@ + rootca_path + ": "@
                            + chain->Err_0.display_text(),
                    ),
                )
            }
        }),
{
}

/// A server is offered two schemes, the one on elliptic curves first.
pub proof fn law_two_schemes_are_offered()
    ensures
        offered_schemes().len() == 2,
        offered_schemes()[0] is ECDSA_NISTP256_SHA256,
        offered_schemes()[1] is RSA_PKCS1_SHA256,
{
}

} // verus!
