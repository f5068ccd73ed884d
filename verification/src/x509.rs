//! Reading certificates with the `x509_parser` crate.
//!
//! Each trusted function here makes one call into that crate and hands out plain values. What the
//! crate reports of given bytes has a name, so that contracts can speak of it.

use vstd::prelude::*;
use x509_parser::extensions::GeneralName as ParsedName;
use x509_parser::extensions::ParsedExtension as Parsed;
use x509_parser::parse_x509_certificate as parse_der;

use crate::certificate::{
    byte_views, bytes_view, certificate_views, extension_views, lookup_view, names_lookup_view,
    present, text_views, BasicConstraints, Certificate, CertificateView, ExtendedKeyUsage, Extension,
    ExtensionKind, ExtensionView, GeneralName, GeneralNameView, KeyUsage,
};
use crate::error::{CertificateError, TlsError};

verus! {

/// The fields of a certificate outside its extensions.
pub struct Fields {
    pub issuer: Vec<u8>,
    pub subject: Vec<u8>,
    pub public_key: Vec<u8>,
    pub key_parameters: Option<Vec<u8>>,
    pub not_before: i128,
    pub not_after: i128,
}

/// The mathematical content of [`Fields`].
#[verifier::ext_equal]
pub struct FieldsView {
    pub issuer: Seq<u8>,
    pub subject: Seq<u8>,
    pub public_key: Seq<u8>,
    pub key_parameters: Option<Seq<u8>>,
    pub not_before: i128,
    pub not_after: i128,
}

impl View for Fields {
    type V = FieldsView;

    open spec fn view(&self) -> FieldsView {
        FieldsView {
            issuer: self.issuer@,
            subject: self.subject@,
            public_key: self.public_key@,
            key_parameters: bytes_view(self.key_parameters),
            not_before: self.not_before,
            not_after: self.not_after,
        }
    }
}

/// Why bytes are not a certificate, in two wordings.
#[derive(Debug, PartialEq, Eq)]
pub struct ParseFailure {
    /// The wording for users.
    pub display: String,
    /// The wording for developers.
    pub debug: String,
}

/// The mathematical content of a [`ParseFailure`].
#[verifier::ext_equal]
pub struct ParseFailureView {
    pub display: Seq<char>,
    pub debug: Seq<char>,
}

impl View for ParseFailure {
    type V = ParseFailureView;

    open spec fn view(&self) -> ParseFailureView {
        ParseFailureView { display: self.display@, debug: self.debug@ }
    }
}

/// An extension, without what it was understood as.
pub struct ExtensionHeader {
    pub encoded_oid: Vec<u8>,
    pub oid: String,
    pub critical: bool,
    pub value: Vec<u8>,
}

/// The mathematical content of an [`ExtensionHeader`].
#[verifier::ext_equal]
pub struct ExtensionHeaderView {
    pub encoded_oid: Seq<u8>,
    pub oid: Seq<char>,
    pub critical: bool,
    pub value: Seq<u8>,
}

impl View for ExtensionHeader {
    type V = ExtensionHeaderView;

    open spec fn view(&self) -> ExtensionHeaderView {
        ExtensionHeaderView {
            encoded_oid: self.encoded_oid@,
            oid: self.oid@,
            critical: self.critical,
            value: self.value@,
        }
    }
}

/// The mathematical content of a list of extensions, without what they were understood as.
pub open spec fn header_views(headers: Seq<ExtensionHeader>) -> Seq<ExtensionHeaderView> {
    headers.map_values(|header: ExtensionHeader| header@)
}

/// The mathematical content of the fields of a certificate, or of why there are none.
pub open spec fn fields_result_view(result: Result<Fields, ParseFailure>) -> Result<
    FieldsView,
    ParseFailureView,
> {
    match result {
        Ok(fields) => Ok(fields@),
        Err(failure) => Err(failure@),
    }
}

/// The mathematical content of a list of texts of which some are missing.
pub open spec fn optional_text_views(texts: Seq<Option<String>>) -> Seq<Option<Seq<char>>> {
    texts.map_values(
        |text: Option<String>|
            match text {
                Some(text) => Some(text@),
                None => None,
            },
    )
}

/// What `x509_parser::parse_x509_certificate` finds outside the extensions.
pub uninterp spec fn x509_fields(der: Seq<u8>) -> Result<FieldsView, ParseFailureView>;

/// What `X509Certificate::extensions` lists, in order.
pub uninterp spec fn x509_extension_headers(der: Seq<u8>) -> Seq<ExtensionHeaderView>;

/// What `X509Extension::parsed_extension` makes of each extension, in order.
pub uninterp spec fn x509_extension_kinds(der: Seq<u8>) -> Seq<ExtensionKind>;

/// What `TbsCertificate::subject_alternative_name` finds.
pub uninterp spec fn x509_subject_alternative_name(der: Seq<u8>) -> Result<
    Option<Seq<GeneralNameView>>,
    Seq<char>,
>;

/// The extensions of a certificate, in order.
pub open spec fn x509_extensions(der: Seq<u8>) -> Seq<ExtensionView> {
    Seq::new(
        x509_extension_headers(der).len(),
        |i: int|
            ExtensionView {
                encoded_oid: x509_extension_headers(der)[i].encoded_oid,
                oid: x509_extension_headers(der)[i].oid,
                critical: x509_extension_headers(der)[i].critical,
                value: x509_extension_headers(der)[i].value,
                kind: x509_extension_kinds(der)[i],
            },
    )
}

/// The object identifier of the key usage extension (2.5.29.15), encoded.
pub open spec fn key_usage_oid() -> Seq<u8> {
    seq![0x55u8, 0x1d, 0x0f]
}

/// The object identifier of the subject alternative name extension (2.5.29.17), encoded.
pub open spec fn subject_alternative_name_oid() -> Seq<u8> {
    seq![0x55u8, 0x1d, 0x11]
}

/// The object identifier of the basic constraints extension (2.5.29.19), encoded.
pub open spec fn basic_constraints_oid() -> Seq<u8> {
    seq![0x55u8, 0x1d, 0x13]
}

/// The object identifier of the extended key usage extension (2.5.29.37), encoded.
pub open spec fn extended_key_usage_oid() -> Seq<u8> {
    seq![0x55u8, 0x1d, 0x25]
}

/// The one extension with an object identifier; more than one is an error.
pub open spec fn unique_extension(extensions: Seq<ExtensionView>, oid: Seq<u8>) -> Result<
    Option<ExtensionKind>,
    Seq<char>,
> {
    let found = extensions.filter(|extension: ExtensionView| extension.encoded_oid == oid);
    if found.len() == 0 {
        Ok(None)
    } else if found.len() == 1 {
        Ok(Some(found[0].kind))
    } else {
        Err("duplicate extensions"@)
    }
}

/// The key usage among some extensions.
pub open spec fn unique_key_usage(extensions: Seq<ExtensionView>) -> Result<
    Option<KeyUsage>,
    Seq<char>,
> {
    match unique_extension(extensions, key_usage_oid()) {
        Err(text) => Err(text),
        Ok(None) => Ok(None),
        Ok(Some(ExtensionKind::KeyUsage(usage))) => Ok(Some(usage)),
        Ok(Some(_)) => Err("invalid extensions"@),
    }
}

/// The extended key usage among some extensions.
pub open spec fn unique_extended_key_usage(extensions: Seq<ExtensionView>) -> Result<
    Option<ExtendedKeyUsage>,
    Seq<char>,
> {
    match unique_extension(extensions, extended_key_usage_oid()) {
        Err(text) => Err(text),
        Ok(None) => Ok(None),
        Ok(Some(ExtensionKind::ExtendedKeyUsage(usage))) => Ok(Some(usage)),
        Ok(Some(_)) => Err("invalid extensions"@),
    }
}

/// The basic constraints among some extensions; any that cannot be parsed count for none.
pub open spec fn unique_basic_constraints(extensions: Seq<ExtensionView>) -> Result<
    Option<BasicConstraints>,
    Seq<char>,
> {
    match unique_extension(extensions, basic_constraints_oid()) {
        Err(text) => Err(text),
        Ok(Some(ExtensionKind::BasicConstraints(constraints))) => Ok(Some(constraints)),
        Ok(_) => Ok(None),
    }
}

/// Whether the search for subject alternative names among some extensions can come to `found`.
pub open spec fn is_alternative_names_of(
    extensions: Seq<ExtensionView>,
    found: Result<Option<Seq<GeneralNameView>>, Seq<char>>,
) -> bool {
    match unique_extension(extensions, subject_alternative_name_oid()) {
        Err(text) => found == Err::<Option<Seq<GeneralNameView>>, Seq<char>>(text),
        Ok(None) => found == Ok::<Option<Seq<GeneralNameView>>, Seq<char>>(None),
        Ok(Some(ExtensionKind::SubjectAlternativeName)) => found matches Ok(Some(_)),
        Ok(Some(_)) => found == Err::<Option<Seq<GeneralNameView>>, Seq<char>>(
            "invalid extensions"@,
        ),
    }
}

/// What `X509Name::iter_common_name` walks through in the subject; an entry that is not text is
/// missing.
pub uninterp spec fn x509_common_names(der: Seq<u8>) -> Seq<Option<Seq<char>>>;

/// Whether both are certificates, and `X509Certificate::verify_signature` accepts the signature on
/// the first under the public key of the second.
pub uninterp spec fn x509_signature_verifies(der: Seq<u8>, issuer_der: Seq<u8>) -> bool;

/// Calls `x509_parser::parse_x509_certificate` and copies the names, the public key and the
/// validity out of the certificate. Claimed: what comes back depends on the bytes alone.
#[verifier::external_body]
pub(crate) fn parse_fields(der: &[u8]) -> (result: Result<Fields, ParseFailure>)
    ensures
        fields_result_view(result) == x509_fields(der@),
{
    let cert = match parse_der(der) {
        Ok((_, cert)) => cert,
        Err(e) => return Err(ParseFailure { display: e.to_string(), debug: format!("{:?}", e) }),
    };
    Ok(Fields {
        issuer: cert.issuer().as_raw().to_vec(),
        subject: cert.subject().as_raw().to_vec(),
        public_key: cert.public_key().raw.to_vec(),
        key_parameters: cert.public_key().algorithm.parameters.as_ref().map(|p| p.data.to_vec()),
        not_before: cert.validity.not_before.to_datetime().unix_timestamp_nanos(),
        not_after: cert.validity.not_after.to_datetime().unix_timestamp_nanos(),
    })
}

/// Calls `X509Certificate::extensions` and copies each extension. Claimed: the list depends on the
/// bytes alone.
#[verifier::external_body]
pub(crate) fn list_extensions(der: &[u8]) -> (headers: Vec<ExtensionHeader>)
    requires
        x509_fields(der@) is Ok,
    ensures
        header_views(headers@) == x509_extension_headers(der@),
{
    let cert = parse_der(der).unwrap().1;
    cert.extensions().iter().map(|ext| ExtensionHeader {
        encoded_oid: ext.oid.as_bytes().to_vec(),
        oid: ext.oid.to_string(),
        critical: ext.critical,
        value: ext.value.to_vec(),
    }).collect()
}

/// Calls `X509Extension::parsed_extension` on each extension. Claimed: what they are understood as
/// depends on the bytes alone, and there is one answer for each extension.
#[verifier::external_body]
pub(crate) fn classify_extensions(der: &[u8]) -> (kinds: Vec<ExtensionKind>)
    requires
        x509_fields(der@) is Ok,
    ensures
        kinds@ == x509_extension_kinds(der@),
        kinds@.len() == x509_extension_headers(der@).len(),
{
    let cert = parse_der(der).unwrap().1;
    cert.extensions().iter().map(|ext| match ext.parsed_extension() {
        Parsed::AuthorityKeyIdentifier(_) => ExtensionKind::AuthorityKeyIdentifier,
        Parsed::SubjectKeyIdentifier(_) => ExtensionKind::SubjectKeyIdentifier,
        Parsed::KeyUsage(k) => ExtensionKind::KeyUsage(KeyUsage { flags: k.flags }),
        Parsed::CertificatePolicies(_) => ExtensionKind::CertificatePolicies,
        Parsed::PolicyMappings(_) => ExtensionKind::PolicyMappings,
        Parsed::SubjectAlternativeName(_) => ExtensionKind::SubjectAlternativeName,
        Parsed::BasicConstraints(b) => ExtensionKind::BasicConstraints(
            BasicConstraints { ca: b.ca, path_len_constraint: b.path_len_constraint }),
        Parsed::NameConstraints(_) => ExtensionKind::NameConstraints,
        Parsed::ExtendedKeyUsage(e) => ExtensionKind::ExtendedKeyUsage(
            ExtendedKeyUsage { any: e.any, server_auth: e.server_auth }),
        _ => ExtensionKind::Other,
    }).collect()
}

/// Calls `TbsCertificate::subject_alternative_name` and copies the names that it finds. Claimed: it
/// finds names where just one extension is meant for them, they depend on the bytes alone, and
/// otherwise it reports that there are several such extensions or that the one cannot be parsed.
#[verifier::external_body]
pub(crate) fn find_subject_alternative_name(der: &[u8]) -> (found: Result<
    Option<Vec<GeneralName>>,
    String,
>)
    requires
        x509_fields(der@) is Ok,
    ensures
        names_lookup_view(found) == x509_subject_alternative_name(der@),
        is_alternative_names_of(x509_extensions(der@), names_lookup_view(found)),
{
    let cert = parse_der(der).unwrap().1;
    let convert = |name: &ParsedName| match name {
        ParsedName::DNSName(name) => GeneralName::DnsName(name.to_string()),
        ParsedName::IPAddress(bytes) => GeneralName::IpAddress(bytes.to_vec()),
        _ => GeneralName::Other,
    };
    match cert.subject_alternative_name() {
        Ok(found) => Ok(found.map(|ext| ext.value.general_names.iter().map(convert).collect())),
        Err(error) => Err(error.to_string()),
    }
}

/// Calls `X509Name::iter_common_name` on the subject and reads each entry with
/// `AttributeTypeAndValue::as_str`. Claimed: the entries depend on the bytes alone.
#[verifier::external_body]
pub(crate) fn list_common_names(der: &[u8]) -> (names: Vec<Option<String>>)
    requires
        x509_fields(der@) is Ok,
    ensures
        optional_text_views(names@) == x509_common_names(der@),
{
    let cert = parse_der(der).unwrap().1;
    let names = cert.subject().iter_common_name();
    names.map(|name| name.as_str().ok().map(|text| text.to_string())).collect()
}

/// Calls `X509Certificate::verify_signature` with the public key of the issuer. Claimed: whether
/// both can be parsed and the signature is accepted depends on the bytes of the two alone.
#[verifier::external_body]
pub(crate) fn signature_verifies(der: &[u8], issuer_der: &[u8]) -> (verifies: bool)
    ensures
        verifies == x509_signature_verifies(der@, issuer_der@),
{
    match (parse_der(der), parse_der(issuer_der)) {
        (Ok((_, cert)), Ok((_, issuer))) => {
            cert.verify_signature(Some(issuer.public_key())).is_ok()
        }
        _ => false,
    }
}

/// Leaves the texts out that are missing.
pub fn present_texts(texts: Vec<Option<String>>) -> (kept: Vec<String>)
    ensures
        text_views(kept@) == present(optional_text_views(texts@)),
{
    let mut kept: Vec<String> = Vec::new();
    let ghost views = optional_text_views(texts@);
    for i in 0..texts.len()
        invariant
            views == optional_text_views(texts@),
            text_views(kept@) == present(views.take(i as int)),
    {
        assert(views.take(i + 1).drop_last() == views.take(i as int));
        assert(views.take(i + 1).last() == views[i as int]);
        match &texts[i] {
            Some(text) => {
                let ghost before = kept@;
                kept.push(text.clone());
                assert(text_views(kept@) == text_views(before).push(text@));
            },
            None => {},
        }
    }
    assert(views.take(texts.len() as int) == views);
    kept
}

/// Lists the extensions of a certificate.
fn parse_extensions(der: &[u8]) -> (extensions: Vec<Extension>)
    requires
        x509_fields(der@) is Ok,
    ensures
        extension_views(extensions@) == x509_extensions(der@),
{
    let headers = list_extensions(der);
    let kinds = classify_extensions(der);
    let ghost views = x509_extension_headers(der@);
    assert(headers.len() == views.len());
    let mut extensions: Vec<Extension> = Vec::new();
    for i in 0..headers.len()
        invariant
            views == header_views(headers@),
            views == x509_extension_headers(der@),
            kinds@ == x509_extension_kinds(der@),
            kinds.len() == headers.len(),
            extensions.len() == i,
            forall|j: int|
                0 <= j < i ==> (#[trigger] extensions@[j])@ == x509_extensions(der@)[j],
    {
        let header = &headers[i];
        assert(views[i as int] == header@);
        extensions.push(
            Extension {
                encoded_oid: vstd::slice::slice_to_vec(header.encoded_oid.as_slice()),
                oid: header.oid.clone(),
                critical: header.critical,
                value: vstd::slice::slice_to_vec(header.value.as_slice()),
                kind: kinds[i],
            },
        );
    }
    assert(extension_views(extensions@) =~= x509_extensions(der@));
    extensions
}

/// Looks for the one extension with an object identifier.
pub fn find_unique_extension(extensions: &[Extension], oid: &[u8]) -> (found: Result<
    Option<ExtensionKind>,
    String,
>)
    ensures
        lookup_view(found) == unique_extension(extension_views(extensions@), oid@),
{
    let ghost views = extension_views(extensions@);
    let ghost wanted = |extension: ExtensionView| extension.encoded_oid == oid@;
    let ghost mut position: int = 0;
    let mut found: Option<ExtensionKind> = None;
    proof {
        reveal(Seq::filter);
    }
    for i in 0..extensions.len()
        invariant
            views == extension_views(extensions@),
            wanted == (|extension: ExtensionView| extension.encoded_oid == oid@),
            match found {
                None => views.take(i as int).filter(wanted).len() == 0,
                Some(kind) => {
                    &&& views.take(i as int).filter(wanted).len() == 1
                    &&& views.take(i as int).filter(wanted)[0].kind == kind
                    &&& 0 <= position < i
                    &&& wanted(views[position])
                },
            },
    {
        let extension = &extensions[i];
        assert(views[i as int] == extension@);
        proof {
            reveal(Seq::filter);
            assert(views.take(i + 1).drop_last() == views.take(i as int));
            assert(views.take(i + 1).last() == views[i as int]);
        }
        if same_bytes(extension.encoded_oid.as_slice(), oid) {
            if found.is_some() {
                proof {
                    law_duplicate_extensions_are_an_error(views, oid@, position, i as int);
                }
                return Err("duplicate extensions".to_owned());
            }
            found = Some(extension.kind);
            proof {
                position = i as int;
            }
        }
    }
    assert(views.take(extensions.len() as int) == views);
    Ok(found)
}

/// Looks for the key usage among some extensions.
pub fn find_key_usage(extensions: &[Extension]) -> (found: Result<Option<KeyUsage>, String>)
    ensures
        lookup_view(found) == unique_key_usage(extension_views(extensions@)),
{
    let oid: Vec<u8> = vec![0x55, 0x1d, 0x0f];
    assert(oid@ =~= key_usage_oid());
    match find_unique_extension(extensions, oid.as_slice()) {
        Err(text) => Err(text),
        Ok(None) => Ok(None),
        Ok(Some(ExtensionKind::KeyUsage(usage))) => Ok(Some(usage)),
        Ok(Some(_)) => Err("invalid extensions".to_owned()),
    }
}

/// Looks for the extended key usage among some extensions.
pub fn find_extended_key_usage(extensions: &[Extension]) -> (found: Result<
    Option<ExtendedKeyUsage>,
    String,
>)
    ensures
        lookup_view(found) == unique_extended_key_usage(extension_views(extensions@)),
{
    let oid: Vec<u8> = vec![0x55, 0x1d, 0x25];
    assert(oid@ =~= extended_key_usage_oid());
    match find_unique_extension(extensions, oid.as_slice()) {
        Err(text) => Err(text),
        Ok(None) => Ok(None),
        Ok(Some(ExtensionKind::ExtendedKeyUsage(usage))) => Ok(Some(usage)),
        Ok(Some(_)) => Err("invalid extensions".to_owned()),
    }
}

/// Looks for the basic constraints among some extensions.
pub fn find_basic_constraints(extensions: &[Extension]) -> (found: Result<
    Option<BasicConstraints>,
    String,
>)
    ensures
        lookup_view(found) == unique_basic_constraints(extension_views(extensions@)),
{
    let oid: Vec<u8> = vec![0x55, 0x1d, 0x13];
    assert(oid@ =~= basic_constraints_oid());
    match find_unique_extension(extensions, oid.as_slice()) {
        Err(text) => Err(text),
        Ok(Some(ExtensionKind::BasicConstraints(constraints))) => Ok(Some(constraints)),
        Ok(_) => Ok(None),
    }
}

/// The certificate that `der` encodes, where its fields are known.
pub open spec fn certificate_with(der: Seq<u8>, fields: FieldsView) -> CertificateView {
    CertificateView {
        der,
        issuer: fields.issuer,
        subject: fields.subject,
        public_key: fields.public_key,
        key_parameters: fields.key_parameters,
        not_before: fields.not_before,
        not_after: fields.not_after,
        extensions: x509_extensions(der),
        key_usage: unique_key_usage(x509_extensions(der)),
        extended_key_usage: unique_extended_key_usage(x509_extensions(der)),
        basic_constraints: unique_basic_constraints(x509_extensions(der)),
        subject_alternative_name: x509_subject_alternative_name(der),
        common_names: present(x509_common_names(der)),
    }
}

/// The certificate that `der` encodes, or why it encodes none.
pub open spec fn decoded(der: Seq<u8>) -> Result<CertificateView, ParseFailureView> {
    match x509_fields(der) {
        Ok(fields) => Ok(certificate_with(der, fields)),
        Err(failure) => Err(failure),
    }
}

/// Takes a certificate apart.
pub fn decode_certificate(der: &[u8]) -> (result: Result<Certificate, ParseFailure>)
    ensures
        match result {
            Ok(certificate) => {
                &&& decoded(der@) == Ok::<CertificateView, ParseFailureView>(certificate@)
                &&& is_alternative_names_of(
                    certificate@.extensions,
                    certificate@.subject_alternative_name,
                )
            },
            Err(failure) => decoded(der@) == Err::<CertificateView, ParseFailureView>(failure@),
        },
{
    let fields = match parse_fields(der) {
        Ok(fields) => fields,
        Err(failure) => {
            return Err(failure);
        },
    };
    let extensions = parse_extensions(der);
    let key_usage = find_key_usage(extensions.as_slice());
    let extended_key_usage = find_extended_key_usage(extensions.as_slice());
    let basic_constraints = find_basic_constraints(extensions.as_slice());
    let certificate = Certificate {
        der: vstd::slice::slice_to_vec(der),
        issuer: fields.issuer,
        subject: fields.subject,
        public_key: fields.public_key,
        key_parameters: fields.key_parameters,
        not_before: fields.not_before,
        not_after: fields.not_after,
        extensions,
        key_usage,
        extended_key_usage,
        basic_constraints,
        subject_alternative_name: find_subject_alternative_name(der),
        common_names: present_texts(list_common_names(der)),
    };
    Ok(certificate)
}

/// Takes a certificate that a peer sent apart.
pub fn parse_x509_certificate(der: &[u8]) -> (result: Result<Certificate, TlsError>)
    ensures
        match result {
            Ok(certificate) => {
                &&& decoded(der@) == Ok::<CertificateView, ParseFailureView>(certificate@)
                &&& is_alternative_names_of(
                    certificate@.extensions,
                    certificate@.subject_alternative_name,
                )
            },
            Err(error) => {
                &&& decoded(der@) is Err
                &&& error == TlsError::InvalidCertificate(CertificateError::BadEncoding)
            },
        },
{
    match decode_certificate(der) {
        Ok(certificate) => Ok(certificate),
        Err(_) => Err(TlsError::InvalidCertificate(CertificateError::BadEncoding)),
    }
}

/// The certificates that a list encodes, or nothing where one entry is no certificate.
pub open spec fn decoded_all(ders: Seq<Seq<u8>>) -> Option<Seq<CertificateView>> {
    if forall|i: int| 0 <= i < ders.len() ==> decoded(#[trigger] ders[i]) is Ok {
        Some(ders.map_values(|der: Seq<u8>| decoded(der)->Ok_0))
    } else {
        None
    }
}

/// Takes a list of certificates apart; one that cannot be parsed spoils the list.
pub fn parse_x509_certificates(ders: &[Vec<u8>]) -> (result: Result<Vec<Certificate>, TlsError>)
    ensures
        match result {
            Ok(certificates) => decoded_all(byte_views(ders@)) == Some(
                certificate_views(certificates@),
            ),
            Err(error) => {
                &&& decoded_all(byte_views(ders@)) is None
                &&& error == TlsError::InvalidCertificate(CertificateError::BadEncoding)
            },
        },
{
    let mut certificates: Vec<Certificate> = Vec::new();
    let ghost views = byte_views(ders@);
    for i in 0..ders.len()
        invariant
            views == byte_views(ders@),
            certificates.len() == i,
            forall|j: int|
                0 <= j < i ==> decoded(#[trigger] views[j]) == Ok::<
                    CertificateView,
                    ParseFailureView,
                >(certificates@[j]@),
    {
        assert(views[i as int] == ders@[i as int]@);
        match parse_x509_certificate(ders[i].as_slice()) {
            Ok(certificate) => {
                certificates.push(certificate);
            },
            Err(error) => {
                return Err(error);
            },
        }
    }
    assert(decoded_all(views).unwrap() =~= certificate_views(certificates@));
    Ok(certificates)
}

/// Whether the issuer that a certificate names is the subject of another, and the key of that
/// other one accepts the signature.
pub open spec fn issued_by(certificate: CertificateView, issuer: CertificateView) -> bool {
    &&& certificate.issuer == issuer.subject
    &&& x509_signature_verifies(certificate.der, issuer.der)
}

/// Whether two byte strings are the same.
pub fn same_bytes(a: &[u8], b: &[u8]) -> (same: bool)
    ensures
        same == (a@ == b@),
{
    if a.len() != b.len() {
        return false;
    }
    for i in 0..a.len()
        invariant
            a.len() == b.len(),
            forall|j: int| 0 <= j < i ==> a@[j] == b@[j],
    {
        if a[i] != b[i] {
            return false;
        }
    }
    assert(a@ =~= b@);
    true
}

/// Whether `issuer` issued `certificate`.
pub fn certificate_is_issued_by(certificate: &Certificate, issuer: &Certificate) -> (issued: bool)
    ensures
        issued == issued_by(certificate@, issuer@),
{
    same_bytes(certificate.issuer.as_slice(), issuer.subject.as_slice()) && signature_verifies(
        certificate.der.as_slice(),
        issuer.der.as_slice(),
    )
}

/// Two extensions with one object identifier are an error.
pub proof fn law_duplicate_extensions_are_an_error(
    extensions: Seq<ExtensionView>,
    oid: Seq<u8>,
    i: int,
    j: int,
)
    requires
        0 <= i < j < extensions.len(),
        extensions[i].encoded_oid == oid,
        extensions[j].encoded_oid == oid,
    ensures
        unique_extension(extensions, oid) is Err,
    decreases extensions.len(),
{
    reveal(Seq::filter);
    let wanted = |extension: ExtensionView| extension.encoded_oid == oid;
    let front = extensions.drop_last();
    if j < extensions.len() - 1 {
        law_duplicate_extensions_are_an_error(front, oid, i, j);
        assert(front.filter(wanted).len() >= 2);
    } else {
        lemma_filter_keeps_one(front, wanted, i);
    }
}

proof fn lemma_filter_keeps_one<T>(items: Seq<T>, wanted: spec_fn(T) -> bool, index: int)
    requires
        0 <= index < items.len(),
        wanted(items[index]),
    ensures
        items.filter(wanted).len() > 0,
    decreases items.len(),
{
    reveal(Seq::filter);
    if index < items.len() - 1 {
        lemma_filter_keeps_one(items.drop_last(), wanted, index);
    }
}

proof fn lemma_filter_keeps_none<T>(items: Seq<T>, wanted: spec_fn(T) -> bool)
    requires
        forall|i: int| 0 <= i < items.len() ==> !wanted(#[trigger] items[i]),
    ensures
        items.filter(wanted).len() == 0,
    decreases items.len(),
{
    reveal(Seq::filter);
    if items.len() > 0 {
        let front = items.drop_last();
        assert forall|i: int| 0 <= i < front.len() implies !wanted(#[trigger] front[i]) by {
            assert(front[i] == items[i]);
        }
        lemma_filter_keeps_none(front, wanted);
        assert(!wanted(items[items.len() - 1]));
    }
}

proof fn lemma_filter_keeps_the_one<T>(items: Seq<T>, wanted: spec_fn(T) -> bool, index: int)
    requires
        0 <= index < items.len(),
        wanted(items[index]),
        forall|i: int| 0 <= i < items.len() && i != index ==> !wanted(#[trigger] items[i]),
    ensures
        items.filter(wanted) == seq![items[index]],
    decreases items.len(),
{
    reveal(Seq::filter);
    let front = items.drop_last();
    if index == items.len() - 1 {
        assert forall|i: int| 0 <= i < front.len() implies !wanted(#[trigger] front[i]) by {
            assert(front[i] == items[i]);
        }
        lemma_filter_keeps_none(front, wanted);
        assert(items.filter(wanted) =~= seq![items[index]]);
    } else {
        assert(!wanted(items[items.len() - 1]));
        assert forall|i: int| 0 <= i < front.len() && i != index implies !wanted(
            #[trigger] front[i],
        ) by {
            assert(front[i] == items[i]);
        }
        lemma_filter_keeps_the_one(front, wanted, index);
    }
}

/// Where no extension has an object identifier, none is found.
pub proof fn law_missing_extensions_are_not_found(extensions: Seq<ExtensionView>, oid: Seq<u8>)
    requires
        forall|i: int|
            0 <= i < extensions.len() ==> (#[trigger] extensions[i]).encoded_oid != oid,
    ensures
        unique_extension(extensions, oid) == Ok::<Option<ExtensionKind>, Seq<char>>(None),
        oid == seq![0x55u8, 0x1d, 0x0f] ==> unique_key_usage(extensions) == Ok::<
            Option<KeyUsage>,
            Seq<char>,
        >(None),
        oid == seq![0x55u8, 0x1d, 0x25] ==> unique_extended_key_usage(extensions) == Ok::<
            Option<ExtendedKeyUsage>,
            Seq<char>,
        >(None),
        oid == seq![0x55u8, 0x1d, 0x13] ==> unique_basic_constraints(extensions) == Ok::<
            Option<BasicConstraints>,
            Seq<char>,
        >(None),
{
    lemma_filter_keeps_none(extensions, |extension: ExtensionView| extension.encoded_oid == oid);
}

/// Where just one extension has an object identifier, it is found, whatever it is understood as; the
/// usages have to be understood as such, while other basic constraints count for none.
pub proof fn law_single_extensions_are_found(
    extensions: Seq<ExtensionView>,
    oid: Seq<u8>,
    index: int,
)
    requires
        0 <= index < extensions.len(),
        extensions[index].encoded_oid == oid,
        forall|i: int|
            0 <= i < extensions.len() && i != index ==> (#[trigger] extensions[i]).encoded_oid
                != oid,
    ensures
        unique_extension(extensions, oid) == Ok::<Option<ExtensionKind>, Seq<char>>(
            Some(extensions[index].kind),
        ),
        oid == seq![0x55u8, 0x1d, 0x0f] ==> {
            &&& extensions[index].kind matches ExtensionKind::KeyUsage(usage) ==> unique_key_usage(
                extensions,
            ) == Ok::<Option<KeyUsage>, Seq<char>>(Some(usage))
            &&& !(extensions[index].kind is KeyUsage) ==> unique_key_usage(extensions) == Err::<
                Option<KeyUsage>,
                Seq<char>,
            >("invalid extensions"@)
        },
        oid == seq![0x55u8, 0x1d, 0x25] ==> {
            &&& extensions[index].kind matches ExtensionKind::ExtendedKeyUsage(usage)
                ==> unique_extended_key_usage(extensions) == Ok::<
                Option<ExtendedKeyUsage>,
                Seq<char>,
            >(Some(usage))
            &&& !(extensions[index].kind is ExtendedKeyUsage) ==> unique_extended_key_usage(
                extensions,
            ) == Err::<Option<ExtendedKeyUsage>, Seq<char>>("invalid extensions"@)
        },
        oid == seq![0x55u8, 0x1d, 0x13] ==> {
            &&& extensions[index].kind matches ExtensionKind::BasicConstraints(constraints)
                ==> unique_basic_constraints(extensions) == Ok::<
                Option<BasicConstraints>,
                Seq<char>,
            >(Some(constraints))
            &&& !(extensions[index].kind is BasicConstraints) ==> unique_basic_constraints(
                extensions,
            ) == Ok::<Option<BasicConstraints>, Seq<char>>(None)
        },
{
    lemma_filter_keeps_the_one(
        extensions,
        |extension: ExtensionView| extension.encoded_oid == oid,
        index,
    );
}

/// Where two extensions have the object identifier of a usage or of basic constraints, that is an
/// error, whatever they are understood as.
pub proof fn law_repeated_extensions_are_reported(
    extensions: Seq<ExtensionView>,
    oid: Seq<u8>,
    i: int,
    j: int,
)
    requires
        0 <= i < j < extensions.len(),
        extensions[i].encoded_oid == oid,
        extensions[j].encoded_oid == oid,
    ensures
        unique_extension(extensions, oid) == Err::<Option<ExtensionKind>, Seq<char>>(
            "duplicate extensions"@,
        ),
        oid == seq![0x55u8, 0x1d, 0x0f] ==> unique_key_usage(extensions) == Err::<
            Option<KeyUsage>,
            Seq<char>,
        >("duplicate extensions"@),
        oid == seq![0x55u8, 0x1d, 0x25] ==> unique_extended_key_usage(extensions) == Err::<
            Option<ExtendedKeyUsage>,
            Seq<char>,
        >("duplicate extensions"@),
        oid == seq![0x55u8, 0x1d, 0x13] ==> unique_basic_constraints(extensions) == Err::<
            Option<BasicConstraints>,
            Seq<char>,
        >("duplicate extensions"@),
{
    law_duplicate_extensions_are_an_error(extensions, oid, i, j);
}

/// Bytes are a certificate if and only if the parser takes them, and the certificate has the names,
/// the key and the validity that the parser reports, the extensions in their order, and those common
/// names that are text; its usages and constraints are found among its own extensions.
pub proof fn law_decoded_certificate(der: Seq<u8>)
    ensures
        decoded(der) is Ok <==> x509_fields(der) is Ok,
        x509_fields(der) matches Err(failure) ==> decoded(der) == Err::<
            CertificateView,
            ParseFailureView,
        >(failure),
        decoded(der) matches Ok(certificate) ==> {
            &&& certificate.der == der
            &&& certificate.issuer == x509_fields(der)->Ok_0.issuer
            &&& certificate.subject == x509_fields(der)->Ok_0.subject
            &&& certificate.public_key == x509_fields(der)->Ok_0.public_key
            &&& certificate.key_parameters == x509_fields(der)->Ok_0.key_parameters
            &&& certificate.not_before == x509_fields(der)->Ok_0.not_before
            &&& certificate.not_after == x509_fields(der)->Ok_0.not_after
            &&& certificate.extensions.len() == x509_extension_headers(der).len()
            &&& forall|i: int|
                0 <= i < certificate.extensions.len() ==> {
                    &&& (#[trigger] certificate.extensions[i]).encoded_oid
                        == x509_extension_headers(der)[i].encoded_oid
                    &&& certificate.extensions[i].oid == x509_extension_headers(der)[i].oid
                    &&& certificate.extensions[i].critical == x509_extension_headers(
                        der,
                    )[i].critical
                    &&& certificate.extensions[i].value == x509_extension_headers(der)[i].value
                    &&& certificate.extensions[i].kind == x509_extension_kinds(der)[i]
                }
            &&& certificate.key_usage == unique_key_usage(certificate.extensions)
            &&& certificate.extended_key_usage == unique_extended_key_usage(certificate.extensions)
            &&& certificate.basic_constraints == unique_basic_constraints(certificate.extensions)
            &&& certificate.subject_alternative_name == x509_subject_alternative_name(der)
            &&& certificate.common_names == present(x509_common_names(der))
        },
{
}

/// A list of certificates is decoded if and only if each entry is, one by one and in order.
pub proof fn law_decoded_list(ders: Seq<Seq<u8>>)
    ensures
        decoded_all(ders) is None <==> exists|i: int|
            0 <= i < ders.len() && decoded(#[trigger] ders[i]) is Err,
        decoded_all(ders) matches Some(certificates) ==> {
            &&& certificates.len() == ders.len()
            &&& forall|i: int|
                0 <= i < ders.len() ==> decoded(ders[i]) == Ok::<CertificateView, ParseFailureView>(
                    #[trigger] certificates[i],
                )
        },
{
    if let Some(certificates) = decoded_all(ders) {
        assert forall|i: int| 0 <= i < ders.len() implies decoded(ders[i]) == Ok::<
            CertificateView,
            ParseFailureView,
        >(#[trigger] certificates[i]) by {
            assert(decoded(ders[i]) is Ok);
        }
    }
}

/// A certificate issued another if and only if the other names its subject as the issuer, byte for
/// byte, and its key accepts the signature on the other. Nothing else of the two plays a part.
pub proof fn law_issuers_are_known_by_name_and_signature(
    certificate: CertificateView,
    issuer: CertificateView,
)
    ensures
        issued_by(certificate, issuer) <==> certificate.issuer == issuer.subject
            && x509_signature_verifies(certificate.der, issuer.der),
{
}

/// What the parser reports stays what it is, field by field.
pub proof fn law_content_of_what_was_parsed(
    result: Result<Fields, ParseFailure>,
    headers: Seq<ExtensionHeader>,
    texts: Seq<Option<String>>,
    i: int,
)
    ensures
        result is Ok <==> fields_result_view(result) is Ok,
        result matches Ok(fields) ==> {
            let view = fields_result_view(result)->Ok_0;
            &&& view.issuer == fields.issuer@
            &&& view.subject == fields.subject@
            &&& view.public_key == fields.public_key@
            &&& view.key_parameters is Some <==> fields.key_parameters is Some
            &&& fields.key_parameters matches Some(bytes) ==> view.key_parameters->0 == bytes@
            &&& view.not_before == fields.not_before
            &&& view.not_after == fields.not_after
        },
        result matches Err(failure) ==> {
            &&& fields_result_view(result)->Err_0.display == failure.display@
            &&& fields_result_view(result)->Err_0.debug == failure.debug@
        },
        header_views(headers).len() == headers.len(),
        0 <= i < headers.len() ==> {
            &&& header_views(headers)[i].encoded_oid == headers[i].encoded_oid@
            &&& header_views(headers)[i].oid == headers[i].oid@
            &&& header_views(headers)[i].critical == headers[i].critical
            &&& header_views(headers)[i].value == headers[i].value@
        },
        optional_text_views(texts).len() == texts.len(),
        0 <= i < texts.len() ==> {
            &&& optional_text_views(texts)[i] is Some <==> texts[i] is Some
            &&& texts[i] matches Some(text) ==> optional_text_views(texts)[i]->0 == text@
        },
{
}

} // verus!
