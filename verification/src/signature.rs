//! The signature that a server makes in the handshake.

use vstd::prelude::*;
use x509_verify::der::asn1::ObjectIdentifier;
use x509_verify::spki::{AlgorithmIdentifierRef, SubjectPublicKeyInfoRef};
use x509_verify::{Message, Signature, VerifyInfo, VerifyingKey};

use crate::certificate::{bytes_view, Certificate, CertificateView};
use crate::error::{
    both, invalid, outcome, refused, CertificateError, Outcome, TlsError, TlsErrorView,
};
use crate::text::{decimal, decimal_text};
use crate::x509::{decoded, parse_x509_certificate, same_bytes};

verus! {

/// The signature schemes of TLS.
#[allow(non_camel_case_types)]
#[derive(Clone, Copy, Debug, PartialEq, Eq, Structural)]
pub enum SignatureScheme {
    RSA_PKCS1_SHA1,
    ECDSA_SHA1_Legacy,
    RSA_PKCS1_SHA256,
    ECDSA_NISTP256_SHA256,
    RSA_PKCS1_SHA384,
    ECDSA_NISTP384_SHA384,
    RSA_PKCS1_SHA512,
    ECDSA_NISTP521_SHA512,
    RSA_PSS_SHA256,
    RSA_PSS_SHA384,
    RSA_PSS_SHA512,
    ED25519,
    ED448,
    /// A scheme with no name here, by its number.
    Unknown(u16),
}

impl SignatureScheme {
    /// The name of the scheme.
    pub open spec fn name_text(self) -> Seq<char> {
        match self {
            SignatureScheme::RSA_PKCS1_SHA1 => "RSA_PKCS1_SHA1"@,
            SignatureScheme::ECDSA_SHA1_Legacy => "ECDSA_SHA1_Legacy"@,
            SignatureScheme::RSA_PKCS1_SHA256 => "RSA_PKCS1_SHA256"@,
            SignatureScheme::ECDSA_NISTP256_SHA256 => "ECDSA_NISTP256_SHA256"@,
            SignatureScheme::RSA_PKCS1_SHA384 => "RSA_PKCS1_SHA384"@,
            SignatureScheme::ECDSA_NISTP384_SHA384 => "ECDSA_NISTP384_SHA384"@,
            SignatureScheme::RSA_PKCS1_SHA512 => "RSA_PKCS1_SHA512"@,
            SignatureScheme::ECDSA_NISTP521_SHA512 => "ECDSA_NISTP521_SHA512"@,
            SignatureScheme::RSA_PSS_SHA256 => "RSA_PSS_SHA256"@,
            SignatureScheme::RSA_PSS_SHA384 => "RSA_PSS_SHA384"@,
            SignatureScheme::RSA_PSS_SHA512 => "RSA_PSS_SHA512"@,
            SignatureScheme::ED25519 => "ED25519"@,
            SignatureScheme::ED448 => "ED448"@,
            SignatureScheme::Unknown(number) => "Unknown("@ + decimal_text(number as nat) + ")"@,
        }
    }

    /// The name of the scheme.
    pub fn name(&self) -> (text: String)
        ensures
            text@ == self.name_text(),
    {
        match self {
            SignatureScheme::RSA_PKCS1_SHA1 => "RSA_PKCS1_SHA1".to_owned(),
            SignatureScheme::ECDSA_SHA1_Legacy => "ECDSA_SHA1_Legacy".to_owned(),
            SignatureScheme::RSA_PKCS1_SHA256 => "RSA_PKCS1_SHA256".to_owned(),
            SignatureScheme::ECDSA_NISTP256_SHA256 => "ECDSA_NISTP256_SHA256".to_owned(),
            SignatureScheme::RSA_PKCS1_SHA384 => "RSA_PKCS1_SHA384".to_owned(),
            SignatureScheme::ECDSA_NISTP384_SHA384 => "ECDSA_NISTP384_SHA384".to_owned(),
            SignatureScheme::RSA_PKCS1_SHA512 => "RSA_PKCS1_SHA512".to_owned(),
            SignatureScheme::ECDSA_NISTP521_SHA512 => "ECDSA_NISTP521_SHA512".to_owned(),
            SignatureScheme::RSA_PSS_SHA256 => "RSA_PSS_SHA256".to_owned(),
            SignatureScheme::RSA_PSS_SHA384 => "RSA_PSS_SHA384".to_owned(),
            SignatureScheme::RSA_PSS_SHA512 => "RSA_PSS_SHA512".to_owned(),
            SignatureScheme::ED25519 => "ED25519".to_owned(),
            SignatureScheme::ED448 => "ED448".to_owned(),
            SignatureScheme::Unknown(number) => "Unknown(".to_owned().concat(
                decimal(*number as u64).as_str(),
            ).concat(")"),
        }
    }
}

/// The object identifier of the algorithm of a scheme, for the schemes that are supported.
pub open spec fn algorithm_text(scheme: SignatureScheme) -> Option<Seq<char>> {
    match scheme {
        SignatureScheme::ECDSA_NISTP256_SHA256 => Some("1.2.840.10045.4.3.2"@),
        SignatureScheme::ECDSA_NISTP384_SHA384 => Some("1.2.840.10045.4.3.3"@),
        SignatureScheme::RSA_PKCS1_SHA256 => Some("1.2.840.113549.1.1.11"@),
        SignatureScheme::RSA_PKCS1_SHA384 => Some("1.2.840.113549.1.1.12"@),
        SignatureScheme::RSA_PKCS1_SHA512 => Some("1.2.840.113549.1.1.13"@),
        SignatureScheme::ED25519 => Some("1.3.101.112"@),
        _ => None,
    }
}

/// Whether a text is the object identifier of the algorithm of some scheme.
pub open spec fn is_algorithm(text: Seq<char>) -> bool {
    exists|scheme: SignatureScheme| #[trigger] algorithm_text(scheme) == Some(text)
}

/// The object identifier of the algorithm of a scheme.
pub fn tls_signature_algorithm_identifier(scheme: SignatureScheme) -> (result: Result<
    &'static str,
    TlsError,
>)
    ensures
        match result {
            Ok(text) => algorithm_text(scheme) == Some(text@),
            Err(error) => {
                &&& algorithm_text(scheme) is None
                &&& outcome(Err(error)) == refused(
                    "unsupported TLS signature scheme "@ + scheme.name_text(),
                )
            },
        },
{
    match scheme {
        SignatureScheme::ECDSA_NISTP256_SHA256 => Ok("1.2.840.10045.4.3.2"),
        SignatureScheme::ECDSA_NISTP384_SHA384 => Ok("1.2.840.10045.4.3.3"),
        SignatureScheme::RSA_PKCS1_SHA256 => Ok("1.2.840.113549.1.1.11"),
        SignatureScheme::RSA_PKCS1_SHA384 => Ok("1.2.840.113549.1.1.12"),
        SignatureScheme::RSA_PKCS1_SHA512 => Ok("1.2.840.113549.1.1.13"),
        SignatureScheme::ED25519 => Ok("1.3.101.112"),
        _ => Err(
            TlsError::General(
                "unsupported TLS signature scheme ".to_owned().concat(scheme.name().as_str()),
            ),
        ),
    }
}

/// The object identifier of the curve that TLS 1.3 ties a scheme to, encoded.
pub open spec fn required_curve(scheme: SignatureScheme) -> Option<Seq<u8>> {
    match scheme {
        // 1.2.840.10045.3.1.7
        SignatureScheme::ECDSA_NISTP256_SHA256 => Some(
            seq![0x2au8, 0x86, 0x48, 0xce, 0x3d, 0x03, 0x01, 0x07],
        ),
        // 1.3.132.0.34
        SignatureScheme::ECDSA_NISTP384_SHA384 => Some(seq![0x2bu8, 0x81, 0x04, 0x00, 0x22]),
        _ => None,
    }
}

fn expected_curve(scheme: SignatureScheme) -> (curve: Option<Vec<u8>>)
    ensures
        bytes_view(curve) == required_curve(scheme),
{
    match scheme {
        SignatureScheme::ECDSA_NISTP256_SHA256 => {
            let curve: Vec<u8> = vec![0x2a, 0x86, 0x48, 0xce, 0x3d, 0x03, 0x01, 0x07];
            assert(curve@ =~= seq![0x2au8, 0x86, 0x48, 0xce, 0x3d, 0x03, 0x01, 0x07]);
            Some(curve)
        },
        SignatureScheme::ECDSA_NISTP384_SHA384 => {
            let curve: Vec<u8> = vec![0x2b, 0x81, 0x04, 0x00, 0x22];
            assert(curve@ =~= seq![0x2bu8, 0x81, 0x04, 0x00, 0x22]);
            Some(curve)
        },
        _ => None,
    }
}

/// What comes of holding the curve of a key against a scheme. `parameters` are those of the
/// algorithm of the key, and `name` is the object identifier that they encode.
pub open spec fn curve_match(
    scheme: SignatureScheme,
    parameters: Option<Seq<u8>>,
    name: Option<Seq<char>>,
) -> Outcome {
    match required_curve(scheme) {
        None => Ok(()),
        Some(curve) => match parameters {
            None => refused("ECDSA certificate is missing named-curve parameters"@),
            Some(parameters) => match name {
                None => refused("failed to parse ECDSA named-curve parameters"@),
                Some(name) => if parameters == curve {
                    Ok(())
                } else {
                    refused(
                        "TLS 1.3 signature scheme "@ + scheme.name_text()
                            + " is incompatible with certificate curve "@ + name,
                    )
                },
            },
        },
    }
}

/// The mathematical content of a text that may be missing.
pub open spec fn text_view(text: Option<String>) -> Option<Seq<char>> {
    match text {
        Some(text) => Some(text@),
        None => None,
    }
}

/// Holds the curve of a key against a scheme.
pub fn match_curve(
    scheme: SignatureScheme,
    parameters: &Option<Vec<u8>>,
    name: Option<String>,
) -> (result: Result<(), TlsError>)
    ensures
        outcome(result) == curve_match(
            scheme,
            bytes_view(*parameters),
            text_view(name),
        ),
{
    let curve = match expected_curve(scheme) {
        None => {
            return Ok(());
        },
        Some(curve) => curve,
    };
    let parameters = match parameters {
        None => {
            return Err(
                TlsError::General(
                    "ECDSA certificate is missing named-curve parameters".to_owned(),
                ),
            );
        },
        Some(parameters) => parameters,
    };
    match name {
        None => Err(
            TlsError::General("failed to parse ECDSA named-curve parameters".to_owned()),
        ),
        Some(name) => {
            if same_bytes(parameters.as_slice(), curve.as_slice()) {
                Ok(())
            } else {
                Err(
                    TlsError::General(
                        "TLS 1.3 signature scheme ".to_owned().concat(
                            scheme.name().as_str(),
                        ).concat(" is incompatible with certificate curve ").concat(
                            name.as_str(),
                        ),
                    ),
                )
            }
        },
    }
}

/// What `ObjectIdentifier::from_bytes` makes of bytes, its arcs separated by dots.
pub uninterp spec fn oid_text(bytes: Seq<u8>) -> Option<Seq<char>>;

/// Calls `x509_verify::der::asn1::ObjectIdentifier::from_bytes`. Claimed: whether the bytes encode
/// an object identifier, and how it is written, depends on the bytes alone.
#[verifier::external_body]
pub(crate) fn read_oid(bytes: &[u8]) -> (text: Option<String>)
    ensures
        text_view(text) == oid_text(bytes@),
{
    ObjectIdentifier::from_bytes(bytes).ok().map(|oid| oid.to_string())
}

/// The object identifier that parameters encode.
pub open spec fn parameters_text(parameters: Option<Seq<u8>>) -> Option<Seq<char>> {
    match parameters {
        Some(bytes) => oid_text(bytes),
        None => None,
    }
}

/// What comes of checking that the curve of a key is the one that TLS 1.3 ties a scheme to.
pub open spec fn curve_outcome(certificate: CertificateView, scheme: SignatureScheme) -> Outcome {
    curve_match(scheme, certificate.key_parameters, parameters_text(certificate.key_parameters))
}

/// Checks that the curve of a key is the one that TLS 1.3 ties a scheme to.
pub fn ensure_tls13_signature_curve(certificate: &Certificate, scheme: SignatureScheme) -> (result:
    Result<(), TlsError>)
    ensures
        outcome(result) == curve_outcome(certificate@, scheme),
{
    let name = match &certificate.key_parameters {
        Some(parameters) => read_oid(parameters.as_slice()),
        None => None,
    };
    match_curve(scheme, &certificate.key_parameters, name)
}

/// A public key with the algorithm that it is for.
#[derive(Debug, PartialEq, Eq)]
pub struct KeyInfo {
    /// The object identifier of the algorithm, encoded.
    pub algorithm: Vec<u8>,
    pub key: Vec<u8>,
}

/// The mathematical content of a [`KeyInfo`].
#[verifier::ext_equal]
pub struct KeyInfoView {
    pub algorithm: Seq<u8>,
    pub key: Seq<u8>,
}

impl View for KeyInfo {
    type V = KeyInfoView;

    open spec fn view(&self) -> KeyInfoView {
        KeyInfoView { algorithm: self.algorithm@, key: self.key@ }
    }
}

impl KeyInfoView {
    /// Whether the key has the length that its algorithm has no other than: 32 bytes for Ed25519
    /// (1.3.101.112).
    pub open spec fn has_fixed_length(self) -> bool {
        self.algorithm == seq![0x2bu8, 0x65, 0x70] ==> self.key.len() == 32
    }
}

impl KeyInfo {
    /// Whether the key has the length that its algorithm has no other than.
    pub fn is_of_fixed_length(&self) -> (fits: bool)
        ensures
            fits == self@.has_fixed_length(),
    {
        let ed25519: Vec<u8> = vec![0x2b, 0x65, 0x70];
        assert(ed25519@ =~= seq![0x2bu8, 0x65, 0x70]);
        !same_bytes(self.algorithm.as_slice(), ed25519.as_slice()) || self.key.len() == 32
    }
}

/// The mathematical content of a public key, or of why there is none.
pub open spec fn key_info_view(result: Result<KeyInfo, String>) -> Result<
    KeyInfoView,
    Seq<char>,
> {
    match result {
        Ok(info) => Ok(info@),
        Err(text) => Err(text@),
    }
}

/// The mathematical content of a check, the error being in words.
pub open spec fn check_view(result: Result<(), String>) -> Result<(), Seq<char>> {
    match result {
        Ok(()) => Ok(()),
        Err(text) => Err(text@),
    }
}

/// What `SubjectPublicKeyInfoRef::try_from` makes of an encoded public key.
pub uninterp spec fn spki_key_info(spki: Seq<u8>) -> Result<KeyInfoView, Seq<char>>;

/// What `VerifyingKey::new` says of an encoded public key.
pub uninterp spec fn verifying_key(spki: Seq<u8>) -> Result<(), Seq<char>>;

/// What `VerifyingKey::verify` says of a signature on a message, made with an algorithm.
pub uninterp spec fn verified_signature(
    spki: Seq<u8>,
    algorithm: Seq<char>,
    message: Seq<u8>,
    signature: Seq<u8>,
) -> Result<(), Seq<char>>;

/// Calls `x509_verify::spki::SubjectPublicKeyInfoRef::try_from` and copies the algorithm and the key.
/// Claimed: they, or the error in words, depend on the bytes alone.
#[verifier::external_body]
pub(crate) fn read_key_info(spki: &[u8]) -> (result: Result<KeyInfo, String>)
    ensures
        key_info_view(result) == spki_key_info(spki@),
{
    match SubjectPublicKeyInfoRef::try_from(spki) {
        Ok(info) => Ok(KeyInfo {
            algorithm: info.algorithm.oid.as_bytes().to_vec(),
            key: info.subject_public_key.raw_bytes().to_vec(),
        }),
        Err(error) => Err(error.to_string()),
    }
}

/// Calls `x509_verify::VerifyingKey::new`, which panics on an Ed25519 key that is not 32 bytes long.
/// Claimed: whether it takes the key, or the error in words, depends on the bytes alone.
#[verifier::external_body]
pub(crate) fn check_key(spki: &[u8]) -> (result: Result<(), String>)
    requires
        spki_key_info(spki@) is Ok,
        spki_key_info(spki@)->Ok_0.has_fixed_length(),
    ensures
        check_view(result) == verifying_key(spki@),
{
    let info = SubjectPublicKeyInfoRef::try_from(spki).unwrap();
    VerifyingKey::new(info).map(|_| ()).map_err(|error| error.to_string())
}

/// Calls `x509_verify::VerifyingKey::verify`. Claimed: whether it accepts the signature, or the error
/// in words, depends on the key, the algorithm, the message and the signature alone.
#[verifier::external_body]
pub(crate) fn check_signature(
    spki: &[u8],
    algorithm: &str,
    message: &[u8],
    signature: &[u8],
) -> (result: Result<(), String>)
    requires
        spki_key_info(spki@) is Ok,
        spki_key_info(spki@)->Ok_0.has_fixed_length(),
        verifying_key(spki@) is Ok,
        is_algorithm(algorithm@),
    ensures
        check_view(result) == verified_signature(spki@, algorithm@, message@, signature@),
{
    let key = VerifyingKey::new(SubjectPublicKeyInfoRef::try_from(spki).unwrap()).unwrap();
    let oid = ObjectIdentifier::new_unwrap(algorithm);
    let signature = Signature::from_ref(AlgorithmIdentifierRef { oid, parameters: None }, signature);
    key.verify(VerifyInfo::new(Message::new(message), signature)).map_err(|e| e.to_string())
}

/// How far the check of a signature came.
#[derive(Debug, PartialEq, Eq)]
pub enum SignatureCheck {
    /// The public key cannot be read.
    NoKeyInfo(String),
    /// The public key is not of a kind that can be used.
    NoKey(String),
    /// There is no algorithm for the scheme.
    NoAlgorithm,
    /// The signature was checked.
    Checked(Result<(), String>),
}

/// The mathematical content of a [`SignatureCheck`].
pub enum SignatureCheckView {
    NoKeyInfo(Seq<char>),
    NoKey(Seq<char>),
    NoAlgorithm,
    Checked(Result<(), Seq<char>>),
}

impl View for SignatureCheck {
    type V = SignatureCheckView;

    open spec fn view(&self) -> SignatureCheckView {
        match self {
            SignatureCheck::NoKeyInfo(text) => SignatureCheckView::NoKeyInfo(text@),
            SignatureCheck::NoKey(text) => SignatureCheckView::NoKey(text@),
            SignatureCheck::NoAlgorithm => SignatureCheckView::NoAlgorithm,
            SignatureCheck::Checked(result) => SignatureCheckView::Checked(check_view(*result)),
        }
    }
}

/// What comes of the check of a signature.
pub open spec fn signature_outcome(scheme: SignatureScheme, check: SignatureCheckView) -> Outcome {
    match check {
        SignatureCheckView::NoKeyInfo(text) => refused(
            "invalid certificate subject public key info: "@ + text,
        ),
        SignatureCheckView::NoKey(text) => refused(
            "unsupported certificate public key for TLS signature verification: "@ + text,
        ),
        SignatureCheckView::NoAlgorithm => refused(
            "unsupported TLS signature scheme "@ + scheme.name_text(),
        ),
        SignatureCheckView::Checked(Err(text)) => refused(
            "invalid TLS handshake signature: "@ + text,
        ),
        SignatureCheckView::Checked(Ok(())) => Ok(()),
    }
}

/// Reports what came of the check of a signature.
pub fn signature_result(scheme: SignatureScheme, check: SignatureCheck) -> (result: Result<
    (),
    TlsError,
>)
    ensures
        outcome(result) == signature_outcome(scheme, check@),
{
    match check {
        SignatureCheck::NoKeyInfo(text) => Err(
            TlsError::General(
                "invalid certificate subject public key info: ".to_owned().concat(text.as_str()),
            ),
        ),
        SignatureCheck::NoKey(text) => Err(
            TlsError::General(
                "unsupported certificate public key for TLS signature verification: ".to_owned().concat(
                    text.as_str(),
                ),
            ),
        ),
        SignatureCheck::NoAlgorithm => Err(
            TlsError::General(
                "unsupported TLS signature scheme ".to_owned().concat(scheme.name().as_str()),
            ),
        ),
        SignatureCheck::Checked(Err(text)) => Err(
            TlsError::General("invalid TLS handshake signature: ".to_owned().concat(text.as_str())),
        ),
        SignatureCheck::Checked(Ok(())) => Ok(()),
    }
}

/// How far the check of a signature by a public key comes.
pub open spec fn signature_check(
    spki: Seq<u8>,
    scheme: SignatureScheme,
    message: Seq<u8>,
    signature: Seq<u8>,
) -> SignatureCheckView {
    match spki_key_info(spki) {
        Err(text) => SignatureCheckView::NoKeyInfo(text),
        Ok(_) => match verifying_key(spki) {
            Err(text) => SignatureCheckView::NoKey(text),
            Ok(()) => match algorithm_text(scheme) {
                None => SignatureCheckView::NoAlgorithm,
                Some(algorithm) => SignatureCheckView::Checked(
                    verified_signature(spki, algorithm, message, signature),
                ),
            },
        },
    }
}

/// What comes of checking the curve where it has to match.
pub open spec fn curve_outcome_if(
    required: bool,
    certificate: CertificateView,
    scheme: SignatureScheme,
) -> Outcome {
    if required {
        curve_outcome(certificate, scheme)
    } else {
        Ok(())
    }
}

/// What comes of checking the signature that a server made in the handshake.
pub open spec fn handshake_outcome(
    message: Seq<u8>,
    der: Seq<u8>,
    scheme: SignatureScheme,
    signature: Seq<u8>,
    require_tls13_curve_match: bool,
) -> Outcome {
    match decoded(der) {
        Err(_) => invalid(CertificateError::BadEncoding),
        Ok(certificate) => both(
            curve_outcome_if(require_tls13_curve_match, certificate, scheme),
            signature_outcome(
                scheme,
                signature_check(certificate.public_key, scheme, message, signature),
            ),
        ),
    }
}

/// Whether the check of a signature comes to a key of a length that its algorithm does not have.
pub open spec fn meets_malformed_key(
    der: Seq<u8>,
    scheme: SignatureScheme,
    require_tls13_curve_match: bool,
) -> bool {
    &&& decoded(der) matches Ok(certificate)
    &&& curve_outcome_if(require_tls13_curve_match, certificate, scheme) is Ok
    &&& spki_key_info(certificate.public_key) matches Ok(info)
    &&& !info.has_fixed_length()
}

fn check_by_key(
    spki: &[u8],
    scheme: SignatureScheme,
    message: &[u8],
    signature: &[u8],
) -> (check: SignatureCheck)
    requires
        spki_key_info(spki@) matches Ok(info) ==> info.has_fixed_length(),
    ensures
        check@ == signature_check(spki@, scheme, message@, signature@),
{
    match read_key_info(spki) {
        Err(text) => {
            return SignatureCheck::NoKeyInfo(text);
        },
        Ok(_) => {},
    }
    match check_key(spki) {
        Err(text) => {
            return SignatureCheck::NoKey(text);
        },
        Ok(()) => {},
    }
    match tls_signature_algorithm_identifier(scheme) {
        Err(_) => SignatureCheck::NoAlgorithm,
        Ok(algorithm) => {
            assert(algorithm_text(scheme) == Some(algorithm@));
            SignatureCheck::Checked(check_signature(spki, algorithm, message, signature))
        },
    }
}

/// Checks the signature that a server made in the handshake.
pub fn verify_handshake_signature(
    message: &[u8],
    der: &[u8],
    scheme: SignatureScheme,
    signature: &[u8],
    require_tls13_curve_match: bool,
) -> (result: Result<(), TlsError>)
    requires
        !meets_malformed_key(der@, scheme, require_tls13_curve_match),
    ensures
        outcome(result) == handshake_outcome(
            message@,
            der@,
            scheme,
            signature@,
            require_tls13_curve_match,
        ),
{
    let certificate = match parse_x509_certificate(der) {
        Ok(certificate) => certificate,
        Err(error) => {
            return Err(error);
        },
    };
    if require_tls13_curve_match {
        match ensure_tls13_signature_curve(&certificate, scheme) {
            Ok(()) => {},
            Err(error) => {
                return Err(error);
            },
        }
    }
    let check = check_by_key(certificate.public_key.as_slice(), scheme, message, signature);
    signature_result(scheme, check)
}

/// Whether the check of a signature comes to a key of a length that its algorithm does not have.
pub fn comes_to_malformed_key(
    der: &[u8],
    scheme: SignatureScheme,
    require_tls13_curve_match: bool,
) -> (malformed: bool)
    ensures
        malformed == meets_malformed_key(der@, scheme, require_tls13_curve_match),
{
    let certificate = match parse_x509_certificate(der) {
        Ok(certificate) => certificate,
        Err(_) => {
            return false;
        },
    };
    if require_tls13_curve_match {
        match ensure_tls13_signature_curve(&certificate, scheme) {
            Ok(()) => {},
            Err(_) => {
                return false;
            },
        }
    }
    match read_key_info(certificate.public_key.as_slice()) {
        Ok(info) => !info.is_of_fixed_length(),
        Err(_) => false,
    }
}

/// Checks the signature that a server made in the handshake, or gives nothing back where that would
/// come to a key of a length that its algorithm does not have.
pub fn try_verify_handshake_signature(
    message: &[u8],
    der: &[u8],
    scheme: SignatureScheme,
    signature: &[u8],
    require_tls13_curve_match: bool,
) -> (result: Option<Result<(), TlsError>>)
    ensures
        match result {
            Some(result) => {
                &&& !meets_malformed_key(der@, scheme, require_tls13_curve_match)
                &&& outcome(result) == handshake_outcome(
                    message@,
                    der@,
                    scheme,
                    signature@,
                    require_tls13_curve_match,
                )
            },
            None => meets_malformed_key(der@, scheme, require_tls13_curve_match),
        },
{
    if comes_to_malformed_key(der, scheme, require_tls13_curve_match) {
        None
    } else {
        Some(
            verify_handshake_signature(
                message,
                der,
                scheme,
                signature,
                require_tls13_curve_match,
            ),
        )
    }
}

/// A signature is accepted if and only if the certificate can be parsed, the curve matches where it
/// has to, the key is good, and the key accepts the signature under the algorithm of the scheme.
pub proof fn law_accepted_signature(
    message: Seq<u8>,
    der: Seq<u8>,
    scheme: SignatureScheme,
    signature: Seq<u8>,
    require_tls13_curve_match: bool,
)
    ensures
        handshake_outcome(
            message,
            der,
            scheme,
            signature,
            require_tls13_curve_match,
        ) is Ok <==> {
            &&& decoded(der) matches Ok(certificate)
            &&& require_tls13_curve_match ==> curve_outcome(certificate, scheme) is Ok
            &&& spki_key_info(certificate.public_key) is Ok
            &&& verifying_key(certificate.public_key) is Ok
            &&& algorithm_text(scheme) matches Some(algorithm)
            &&& verified_signature(certificate.public_key, algorithm, message, signature) is Ok
        },
{
}

/// What TLS 1.3 accepts, TLS 1.2 accepts as well.
pub proof fn law_tls13_is_stricter(
    message: Seq<u8>,
    der: Seq<u8>,
    scheme: SignatureScheme,
    signature: Seq<u8>,
)
    requires
        handshake_outcome(message, der, scheme, signature, true) is Ok,
    ensures
        handshake_outcome(message, der, scheme, signature, false) is Ok,
{
}

/// All that TLS 1.3 adds is the check of the curve, which comes before the others.
pub proof fn law_tls13_adds_the_curve_check(
    message: Seq<u8>,
    der: Seq<u8>,
    scheme: SignatureScheme,
    signature: Seq<u8>,
)
    requires
        decoded(der) is Ok,
    ensures
        handshake_outcome(message, der, scheme, signature, true) == both(
            curve_outcome(decoded(der)->Ok_0, scheme),
            handshake_outcome(message, der, scheme, signature, false),
        ),
{
}

/// Under TLS 1.3 a scheme that is tied to a curve is accepted only with a key on that curve.
pub proof fn law_tls13_ties_the_curve(
    message: Seq<u8>,
    der: Seq<u8>,
    scheme: SignatureScheme,
    signature: Seq<u8>,
)
    requires
        handshake_outcome(message, der, scheme, signature, true) is Ok,
    ensures
        required_curve(scheme) matches Some(curve) ==> decoded(der)->Ok_0.key_parameters == Some(
            curve,
        ),
{
}

/// No two schemes share an algorithm.
pub proof fn law_algorithms_differ(a: SignatureScheme, b: SignatureScheme)
    requires
        algorithm_text(a) is Some,
        algorithm_text(a) == algorithm_text(b),
    ensures
        a == b,
{
    reveal_strlit("1.2.840.10045.4.3.2");
    reveal_strlit("1.2.840.10045.4.3.3");
    reveal_strlit("1.2.840.113549.1.1.11");
    reveal_strlit("1.2.840.113549.1.1.12");
    reveal_strlit("1.2.840.113549.1.1.13");
    reveal_strlit("1.3.101.112");
    let x = algorithm_text(a)->0;
    let y = algorithm_text(b)->0;
    assert(x.last() == y.last() && x.len() == y.len());
}

/// Six schemes have an algorithm, each its own, and no other scheme has one.
pub proof fn law_schemes_with_an_algorithm(scheme: SignatureScheme)
    ensures
        scheme is ECDSA_NISTP256_SHA256 ==> algorithm_text(scheme) == Some("1.2.840.10045.4.3.2"@),
        scheme is ECDSA_NISTP384_SHA384 ==> algorithm_text(scheme) == Some("1.2.840.10045.4.3.3"@),
        scheme is RSA_PKCS1_SHA256 ==> algorithm_text(scheme) == Some("1.2.840.113549.1.1.11"@),
        scheme is RSA_PKCS1_SHA384 ==> algorithm_text(scheme) == Some("1.2.840.113549.1.1.12"@),
        scheme is RSA_PKCS1_SHA512 ==> algorithm_text(scheme) == Some("1.2.840.113549.1.1.13"@),
        scheme is ED25519 ==> algorithm_text(scheme) == Some("1.3.101.112"@),
        algorithm_text(scheme) is Some ==> {
            ||| scheme is ECDSA_NISTP256_SHA256
            ||| scheme is ECDSA_NISTP384_SHA384
            ||| scheme is RSA_PKCS1_SHA256
            ||| scheme is RSA_PKCS1_SHA384
            ||| scheme is RSA_PKCS1_SHA512
            ||| scheme is ED25519
        },
{
}

/// Two schemes are tied to a curve each, and no other scheme is tied to any.
pub proof fn law_schemes_with_a_curve(scheme: SignatureScheme)
    ensures
        scheme is ECDSA_NISTP256_SHA256 ==> required_curve(scheme) == Some(
            seq![0x2au8, 0x86, 0x48, 0xce, 0x3d, 0x03, 0x01, 0x07],
        ),
        scheme is ECDSA_NISTP384_SHA384 ==> required_curve(scheme) == Some(
            seq![0x2bu8, 0x81, 0x04, 0x00, 0x22],
        ),
        required_curve(scheme) is Some ==> scheme is ECDSA_NISTP256_SHA256
            || scheme is ECDSA_NISTP384_SHA384,
{
}

/// A scheme is named as it is written, and one without a name by its number.
pub proof fn law_scheme_names(number: u16)
    ensures
        SignatureScheme::RSA_PKCS1_SHA1.name_text() == "RSA_PKCS1_SHA1"@,
        SignatureScheme::ECDSA_SHA1_Legacy.name_text() == "ECDSA_SHA1_Legacy"@,
        SignatureScheme::RSA_PKCS1_SHA256.name_text() == "RSA_PKCS1_SHA256"@,
        SignatureScheme::ECDSA_NISTP256_SHA256.name_text() == "ECDSA_NISTP256_SHA256"@,
        SignatureScheme::RSA_PKCS1_SHA384.name_text() == "RSA_PKCS1_SHA384"@,
        SignatureScheme::ECDSA_NISTP384_SHA384.name_text() == "ECDSA_NISTP384_SHA384"@,
        SignatureScheme::RSA_PKCS1_SHA512.name_text() == "RSA_PKCS1_SHA512"@,
        SignatureScheme::ECDSA_NISTP521_SHA512.name_text() == "ECDSA_NISTP521_SHA512"@,
        SignatureScheme::RSA_PSS_SHA256.name_text() == "RSA_PSS_SHA256"@,
        SignatureScheme::RSA_PSS_SHA384.name_text() == "RSA_PSS_SHA384"@,
        SignatureScheme::RSA_PSS_SHA512.name_text() == "RSA_PSS_SHA512"@,
        SignatureScheme::ED25519.name_text() == "ED25519"@,
        SignatureScheme::ED448.name_text() == "ED448"@,
        SignatureScheme::Unknown(number).name_text() == "Unknown("@ + decimal_text(number as nat)
            + ")"@,
{
}

/// A key fits a scheme if and only if the scheme is tied to no curve or the key has parameters that
/// are an object identifier, namely that of the curve.
pub proof fn law_keys_that_fit_a_scheme(
    scheme: SignatureScheme,
    parameters: Option<Seq<u8>>,
    name: Option<Seq<char>>,
)
    ensures
        curve_match(scheme, parameters, name) == Ok::<(), TlsErrorView>(()) <==> {
            ||| !(scheme is ECDSA_NISTP256_SHA256) && !(scheme is ECDSA_NISTP384_SHA384)
            ||| scheme is ECDSA_NISTP256_SHA256 && name is Some && parameters == Some(
                seq![0x2au8, 0x86, 0x48, 0xce, 0x3d, 0x03, 0x01, 0x07],
            )
            ||| scheme is ECDSA_NISTP384_SHA384 && name is Some && parameters == Some(
                seq![0x2bu8, 0x81, 0x04, 0x00, 0x22],
            )
        },
        curve_match(scheme, parameters, name) is Err ==> curve_match(scheme, parameters, name)
            == Err::<(), TlsErrorView>(
            TlsErrorView::General(
                if parameters is None {
                    "ECDSA certificate is missing named-curve parameters"@
                } else if name is None {
                    "failed to parse ECDSA named-curve parameters"@
                } else {
                    "TLS 1.3 signature scheme "@ + scheme.name_text()
                        + " is incompatible with certificate curve "@ + name->0
                },
            ),
        ),
{
}

/// The curve of a certificate is read from the parameters of its key, where it has any.
pub proof fn law_curves_are_read_from_the_parameters(
    certificate: CertificateView,
    scheme: SignatureScheme,
)
    ensures
        certificate.key_parameters matches Some(bytes) ==> curve_outcome(certificate, scheme)
            == curve_match(scheme, Some(bytes), oid_text(bytes)),
        certificate.key_parameters is None ==> curve_outcome(certificate, scheme) == curve_match(
            scheme,
            None,
            None,
        ),
{
}

/// A check of a signature succeeds if and only if the signature was checked and found good, and each
/// other end of it has an error of its own.
pub proof fn law_checks_that_succeed(scheme: SignatureScheme, check: SignatureCheckView)
    ensures
        signature_outcome(scheme, check) is Ok <==> check is Checked && check->Checked_0 is Ok,
        check matches SignatureCheckView::NoKeyInfo(text) ==> signature_outcome(scheme, check)
            == Err::<(), TlsErrorView>(
            TlsErrorView::General("invalid certificate subject public key info: "@ + text),
        ),
        check matches SignatureCheckView::NoKey(text) ==> signature_outcome(scheme, check) == Err::<
            (),
            TlsErrorView,
        >(
            TlsErrorView::General(
                "unsupported certificate public key for TLS signature verification: "@ + text,
            ),
        ),
        check is NoAlgorithm ==> signature_outcome(scheme, check) == Err::<(), TlsErrorView>(
            TlsErrorView::General("unsupported TLS signature scheme "@ + scheme.name_text()),
        ),
        check matches SignatureCheckView::Checked(Err(text)) ==> signature_outcome(scheme, check)
            == Err::<(), TlsErrorView>(
            TlsErrorView::General("invalid TLS handshake signature: "@ + text),
        ),
{
}

/// The signature of a handshake is checked in this order: the certificate is parsed, under TLS 1.3 the
/// curve is checked, the key is read, the key is taken, an algorithm is found for the scheme, and the
/// key is asked about the signature under that algorithm; the first that fails is the result.
pub proof fn law_order_of_the_signature_checks(
    message: Seq<u8>,
    der: Seq<u8>,
    scheme: SignatureScheme,
    signature: Seq<u8>,
    tls13: bool,
)
    ensures
        ({
            let result = handshake_outcome(message, der, scheme, signature, tls13);
            let certificate = decoded(der)->Ok_0;
            let key = certificate.public_key;
            let fits = !tls13 || curve_outcome(certificate, scheme) is Ok;
            let algorithm = algorithm_text(scheme);
            &&& decoded(der) is Err ==> result == Err::<(), TlsErrorView>(
                TlsErrorView::InvalidCertificate(CertificateError::BadEncoding),
            )
            &&& decoded(der) is Ok && !fits ==> result == curve_outcome(certificate, scheme)
            &&& decoded(der) is Ok && fits ==> {
                &&& spki_key_info(key) matches Err(text) ==> result == Err::<(), TlsErrorView>(
                    TlsErrorView::General("invalid certificate subject public key info: "@ + text),
                )
                &&& spki_key_info(key) is Ok ==> {
                    &&& verifying_key(key) matches Err(text) ==> result == Err::<(), TlsErrorView>(
                        TlsErrorView::General(
                            "unsupported certificate public key for TLS signature verification: "@
                                + text,
                        ),
                    )
                    &&& verifying_key(key) is Ok && algorithm is None ==> result == Err::<
                        (),
                        TlsErrorView,
                    >(
                        TlsErrorView::General(
                            "unsupported TLS signature scheme "@ + scheme.name_text(),
                        ),
                    )
                    &&& verifying_key(key) is Ok && algorithm is Some ==> {
                        let checked = verified_signature(key, algorithm->0, message, signature);
                        &&& checked is Ok ==> result == Ok::<(), TlsErrorView>(())
                        &&& checked matches Err(text) ==> result == Err::<(), TlsErrorView>(
                            TlsErrorView::General("invalid TLS handshake signature: "@ + text),
                        )
                    }
                }
            }
        }),
{
}

/// The check comes to a malformed key if and only if it comes to a key at all and that is an Ed25519
/// key that is not 32 bytes long.
pub proof fn law_malformed_keys(der: Seq<u8>, scheme: SignatureScheme, tls13: bool)
    ensures
        meets_malformed_key(der, scheme, tls13) <==> {
            &&& decoded(der) is Ok
            &&& !tls13 || curve_outcome(decoded(der)->Ok_0, scheme) is Ok
            &&& spki_key_info(decoded(der)->Ok_0.public_key) is Ok
            &&& spki_key_info(decoded(der)->Ok_0.public_key)->Ok_0.algorithm
                == seq![0x2bu8, 0x65, 0x70]
            &&& spki_key_info(decoded(der)->Ok_0.public_key)->Ok_0.key.len() != 32
        },
{
}

/// The content of a key is its algorithm and its bytes, and how far a check came stays what it is, with
/// its words.
pub proof fn law_check_content(
    info: Result<KeyInfo, String>,
    check: SignatureCheck,
    result: Result<(), String>,
    text: Option<String>,
)
    ensures
        info is Ok <==> key_info_view(info) is Ok,
        info matches Ok(key) ==> {
            &&& key_info_view(info)->Ok_0.algorithm == key.algorithm@
            &&& key_info_view(info)->Ok_0.key == key.key@
        },
        info matches Err(words) ==> key_info_view(info)->Err_0 == words@,
        check matches SignatureCheck::NoKeyInfo(words) ==> check@ == SignatureCheckView::NoKeyInfo(
            words@,
        ),
        check matches SignatureCheck::NoKey(words) ==> check@ == SignatureCheckView::NoKey(words@),
        check is NoAlgorithm <==> check@ is NoAlgorithm,
        check matches SignatureCheck::Checked(Ok(())) ==> check@ == SignatureCheckView::Checked(
            Ok::<(), Seq<char>>(()),
        ),
        check matches SignatureCheck::Checked(Err(words)) ==> check@ == SignatureCheckView::Checked(
            Err::<(), Seq<char>>(words@),
        ),
        result is Ok <==> check_view(result) is Ok,
        result matches Err(words) ==> check_view(result)->Err_0 == words@,
        text is Some <==> text_view(text) is Some,
        text matches Some(words) ==> text_view(text)->0 == words@,
{
}

/// A key has a length that its algorithm does not have if and only if it is an Ed25519 key that is not
/// 32 bytes long; keys of other algorithms may have any length.
pub proof fn law_lengths_of_keys(info: KeyInfoView)
    ensures
        info.algorithm == seq![0x2bu8, 0x65, 0x70] ==> (info.has_fixed_length()
            <==> info.key.len() == 32),
        info.algorithm != seq![0x2bu8, 0x65, 0x70] ==> info.has_fixed_length(),
{
}

} // verus!
