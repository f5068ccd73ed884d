//! What a certificate says, as far as verification reads it.

use vstd::prelude::*;

verus! {

/// The key usage bits, the first bit of the encoding being the lowest.
#[derive(Clone, Copy, Debug, PartialEq, Eq, Structural)]
pub struct KeyUsage {
    pub flags: u16,
}

impl KeyUsage {
    /// Whether the bit for signing anything but certificates and revocation lists is set.
    pub open spec fn has_digital_signature(self) -> bool {
        self.flags % 2 == 1
    }

    /// Whether the bit for signing certificates is set.
    pub open spec fn has_key_cert_sign(self) -> bool {
        (self.flags / 32) % 2 == 1
    }

    /// Whether the bit for signing revocation lists is set.
    pub open spec fn has_crl_sign(self) -> bool {
        (self.flags / 64) % 2 == 1
    }

    /// Whether the key may sign anything but certificates and revocation lists.
    pub fn digital_signature(&self) -> (set: bool)
        ensures
            set == self.has_digital_signature(),
    {
        let flags: u16 = self.flags;
        assert((flags & 1 == 1) == (flags % 2 == 1)) by (bit_vector);
        flags & 1 == 1
    }

    /// Whether the key may sign certificates.
    pub fn key_cert_sign(&self) -> (set: bool)
        ensures
            set == self.has_key_cert_sign(),
    {
        let flags: u16 = self.flags;
        assert(((flags >> 5u16) & 1 == 1) == ((flags / 32) % 2 == 1)) by (bit_vector);
        (flags >> 5u16) & 1 == 1
    }

    /// Whether the key may sign revocation lists.
    pub fn crl_sign(&self) -> (set: bool)
        ensures
            set == self.has_crl_sign(),
    {
        let flags: u16 = self.flags;
        assert(((flags >> 6u16) & 1 == 1) == ((flags / 64) % 2 == 1)) by (bit_vector);
        (flags >> 6u16) & 1 == 1
    }
}

/// The purposes that matter to a TLS client.
#[derive(Clone, Copy, Debug, PartialEq, Eq, Structural)]
pub struct ExtendedKeyUsage {
    pub any: bool,
    pub server_auth: bool,
}

/// Whether the subject is a certificate authority, and how many more may follow it.
#[derive(Clone, Copy, Debug, PartialEq, Eq, Structural)]
pub struct BasicConstraints {
    pub ca: bool,
    pub path_len_constraint: Option<u32>,
}

/// What an extension was understood as.
#[derive(Clone, Copy, Debug, PartialEq, Eq, Structural)]
pub enum ExtensionKind {
    AuthorityKeyIdentifier,
    SubjectKeyIdentifier,
    KeyUsage(KeyUsage),
    CertificatePolicies,
    PolicyMappings,
    SubjectAlternativeName,
    BasicConstraints(BasicConstraints),
    NameConstraints,
    ExtendedKeyUsage(ExtendedKeyUsage),
    /// Any other extension, and one that could not be parsed.
    Other,
}

/// One extension of a certificate.
#[derive(Debug, PartialEq, Eq)]
pub struct Extension {
    /// The object identifier, encoded.
    pub encoded_oid: Vec<u8>,
    /// The object identifier, its arcs separated by dots.
    pub oid: String,
    pub critical: bool,
    /// The value, encoded.
    pub value: Vec<u8>,
    pub kind: ExtensionKind,
}

/// The mathematical content of an [`Extension`].
#[verifier::ext_equal]
pub struct ExtensionView {
    pub encoded_oid: Seq<u8>,
    pub oid: Seq<char>,
    pub critical: bool,
    pub value: Seq<u8>,
    pub kind: ExtensionKind,
}

impl View for Extension {
    type V = ExtensionView;

    open spec fn view(&self) -> ExtensionView {
        ExtensionView {
            encoded_oid: self.encoded_oid@,
            oid: self.oid@,
            critical: self.critical,
            value: self.value@,
            kind: self.kind,
        }
    }
}

/// The mathematical content of a list of extensions.
pub open spec fn extension_views(extensions: Seq<Extension>) -> Seq<ExtensionView> {
    extensions.map_values(|extension: Extension| extension@)
}

/// A name in a subject alternative name extension.
#[derive(Debug, PartialEq, Eq)]
pub enum GeneralName {
    DnsName(String),
    /// The bytes of an address, in network order.
    IpAddress(Vec<u8>),
    /// Any other kind of name.
    Other,
}

/// The mathematical content of a [`GeneralName`].
pub enum GeneralNameView {
    DnsName(Seq<char>),
    IpAddress(Seq<u8>),
    Other,
}

impl View for GeneralName {
    type V = GeneralNameView;

    open spec fn view(&self) -> GeneralNameView {
        match self {
            GeneralName::DnsName(name) => GeneralNameView::DnsName(name@),
            GeneralName::IpAddress(bytes) => GeneralNameView::IpAddress(bytes@),
            GeneralName::Other => GeneralNameView::Other,
        }
    }
}

/// The mathematical content of a list of names.
pub open spec fn name_views(names: Seq<GeneralName>) -> Seq<GeneralNameView> {
    names.map_values(|name: GeneralName| name@)
}

/// The mathematical content of a list of texts.
pub open spec fn text_views(texts: Seq<String>) -> Seq<Seq<char>> {
    texts.map_values(|text: String| text@)
}

/// The mathematical content of what a search for one extension found: the extension, nothing, or
/// an error in words.
pub open spec fn lookup_view<T>(found: Result<Option<T>, String>) -> Result<Option<T>, Seq<char>> {
    match found {
        Ok(value) => Ok(value),
        Err(text) => Err(text@),
    }
}

/// [`lookup_view`] for a list of names.
pub open spec fn names_lookup_view(found: Result<Option<Vec<GeneralName>>, String>) -> Result<
    Option<Seq<GeneralNameView>>,
    Seq<char>,
> {
    match found {
        Ok(Some(names)) => Ok(Some(name_views(names@))),
        Ok(None) => Ok(None),
        Err(text) => Err(text@),
    }
}

/// The mathematical content of a list of byte strings.
pub open spec fn byte_views(strings: Seq<Vec<u8>>) -> Seq<Seq<u8>> {
    strings.map_values(|bytes: Vec<u8>| bytes@)
}

/// The mathematical content of bytes that may be missing.
pub open spec fn bytes_view(bytes: Option<Vec<u8>>) -> Option<Seq<u8>> {
    match bytes {
        Some(bytes) => Some(bytes@),
        None => None,
    }
}

/// The items of a list that are not missing, in order.
pub open spec fn present<T>(items: Seq<Option<T>>) -> Seq<T>
    decreases items.len(),
{
    if items.len() == 0 {
        Seq::empty()
    } else {
        match items.last() {
            Some(item) => present(items.drop_last()).push(item),
            None => present(items.drop_last()),
        }
    }
}

/// A certificate, taken apart.
///
/// Times are nanoseconds since the start of 1970 (UTC).
#[derive(Debug, PartialEq, Eq)]
pub struct Certificate {
    /// The certificate as it was encoded.
    pub der: Vec<u8>,
    /// The name of the issuer, encoded.
    pub issuer: Vec<u8>,
    /// The name of the subject, encoded.
    pub subject: Vec<u8>,
    /// The public key of the subject with its algorithm, encoded.
    pub public_key: Vec<u8>,
    /// The contents of the parameters of the key's algorithm; for an elliptic curve its identifier.
    pub key_parameters: Option<Vec<u8>>,
    pub not_before: i128,
    pub not_after: i128,
    pub extensions: Vec<Extension>,
    pub key_usage: Result<Option<KeyUsage>, String>,
    pub extended_key_usage: Result<Option<ExtendedKeyUsage>, String>,
    pub basic_constraints: Result<Option<BasicConstraints>, String>,
    pub subject_alternative_name: Result<Option<Vec<GeneralName>>, String>,
    /// The common names of the subject that are text.
    pub common_names: Vec<String>,
}

/// The mathematical content of a [`Certificate`].
#[verifier::ext_equal]
pub struct CertificateView {
    pub der: Seq<u8>,
    pub issuer: Seq<u8>,
    pub subject: Seq<u8>,
    pub public_key: Seq<u8>,
    pub key_parameters: Option<Seq<u8>>,
    pub not_before: i128,
    pub not_after: i128,
    pub extensions: Seq<ExtensionView>,
    pub key_usage: Result<Option<KeyUsage>, Seq<char>>,
    pub extended_key_usage: Result<Option<ExtendedKeyUsage>, Seq<char>>,
    pub basic_constraints: Result<Option<BasicConstraints>, Seq<char>>,
    pub subject_alternative_name: Result<Option<Seq<GeneralNameView>>, Seq<char>>,
    pub common_names: Seq<Seq<char>>,
}

impl View for Certificate {
    type V = CertificateView;

    open spec fn view(&self) -> CertificateView {
        CertificateView {
            der: self.der@,
            issuer: self.issuer@,
            subject: self.subject@,
            public_key: self.public_key@,
            key_parameters: bytes_view(self.key_parameters),
            not_before: self.not_before,
            not_after: self.not_after,
            extensions: extension_views(self.extensions@),
            key_usage: lookup_view(self.key_usage),
            extended_key_usage: lookup_view(self.extended_key_usage),
            basic_constraints: lookup_view(self.basic_constraints),
            subject_alternative_name: names_lookup_view(self.subject_alternative_name),
            common_names: text_views(self.common_names@),
        }
    }
}

/// The mathematical content of a list of certificates.
pub open spec fn certificate_views(certificates: Seq<Certificate>) -> Seq<CertificateView> {
    certificates.map_values(|certificate: Certificate| certificate@)
}

/// Each usage is one bit of the flags, and no other bit plays a part in it.
pub proof fn law_usages_are_single_bits(usage: KeyUsage)
    ensures
        usage.has_digital_signature() <==> usage.flags & 0x01 != 0,
        usage.has_key_cert_sign() <==> usage.flags & 0x20 != 0,
        usage.has_crl_sign() <==> usage.flags & 0x40 != 0,
{
    let flags = usage.flags;
    assert((flags % 2 == 1) == (flags & 0x01 != 0)) by (bit_vector);
    assert(((flags / 32) % 2 == 1) == (flags & 0x20 != 0)) by (bit_vector);
    assert(((flags / 64) % 2 == 1) == (flags & 0x40 != 0)) by (bit_vector);
}

/// The items of two lists that are there are those of the one and then those of the other.
pub proof fn law_present_items_keep_their_order<T>(a: Seq<Option<T>>, b: Seq<Option<T>>)
    ensures
        present(a + b) == present(a) + present(b),
    decreases b.len(),
{
    if b.len() == 0 {
        assert(a + b == a);
    } else {
        law_present_items_keep_their_order(a, b.drop_last());
        assert((a + b).drop_last() == a + b.drop_last());
    }
}

/// An item that is there is kept, and one that is missing leaves nothing.
pub proof fn law_present_items_are_kept<T>(item: T)
    ensures
        present(seq![Some(item)]) == seq![item],
        present(seq![None::<T>]) == Seq::<T>::empty(),
{
    reveal_with_fuel(present, 2);
    assert(seq![Some(item)].drop_last() == Seq::<Option<T>>::empty());
    assert(seq![None::<T>].drop_last() == Seq::<Option<T>>::empty());
}

/// The content of an extension is each of its fields.
pub proof fn law_extension_content(extensions: Seq<Extension>, i: int)
    requires
        0 <= i < extensions.len(),
    ensures
        extension_views(extensions).len() == extensions.len(),
        extension_views(extensions)[i].encoded_oid == extensions[i].encoded_oid@,
        extension_views(extensions)[i].oid == extensions[i].oid@,
        extension_views(extensions)[i].critical == extensions[i].critical,
        extension_views(extensions)[i].value == extensions[i].value@,
        extension_views(extensions)[i].kind == extensions[i].kind,
{
}

/// The content of a certificate is each of its fields.
pub proof fn law_certificate_content(certificate: Certificate)
    ensures
        certificate@.der == certificate.der@,
        certificate@.issuer == certificate.issuer@,
        certificate@.subject == certificate.subject@,
        certificate@.public_key == certificate.public_key@,
        match certificate.key_parameters {
            Some(bytes) => certificate@.key_parameters == Some(bytes@),
            None => certificate@.key_parameters == None::<Seq<u8>>,
        },
        certificate@.not_before == certificate.not_before,
        certificate@.not_after == certificate.not_after,
        certificate@.extensions.len() == certificate.extensions@.len(),
        forall|i: int|
            0 <= i < certificate.extensions@.len() ==> #[trigger] certificate@.extensions[i]
                == certificate.extensions@[i]@,
        match certificate.key_usage {
            Ok(found) => certificate@.key_usage == Ok::<Option<KeyUsage>, Seq<char>>(found),
            Err(text) => certificate@.key_usage == Err::<Option<KeyUsage>, Seq<char>>(text@),
        },
        match certificate.extended_key_usage {
            Ok(found) => certificate@.extended_key_usage == Ok::<
                Option<ExtendedKeyUsage>,
                Seq<char>,
            >(found),
            Err(text) => certificate@.extended_key_usage == Err::<
                Option<ExtendedKeyUsage>,
                Seq<char>,
            >(text@),
        },
        match certificate.basic_constraints {
            Ok(found) => certificate@.basic_constraints == Ok::<
                Option<BasicConstraints>,
                Seq<char>,
            >(found),
            Err(text) => certificate@.basic_constraints == Err::<
                Option<BasicConstraints>,
                Seq<char>,
            >(text@),
        },
        match certificate.subject_alternative_name {
            Ok(Some(names)) => {
                &&& certificate@.subject_alternative_name matches Ok(Some(views))
                &&& views.len() == names@.len()
                &&& forall|i: int| 0 <= i < names@.len() ==> #[trigger] views[i] == names@[i]@
            },
            Ok(None) => certificate@.subject_alternative_name == Ok::<
                Option<Seq<GeneralNameView>>,
                Seq<char>,
            >(None),
            Err(text) => certificate@.subject_alternative_name == Err::<
                Option<Seq<GeneralNameView>>,
                Seq<char>,
            >(text@),
        },
        certificate@.common_names.len() == certificate.common_names@.len(),
        forall|i: int|
            0 <= i < certificate.common_names@.len() ==> #[trigger] certificate@.common_names[i]
                == certificate.common_names@[i]@,
{
}

/// The content of a name is its text or its bytes.
pub proof fn law_name_content(name: GeneralName)
    ensures
        match name {
            GeneralName::DnsName(text) => name@ == GeneralNameView::DnsName(text@),
            GeneralName::IpAddress(bytes) => name@ == GeneralNameView::IpAddress(bytes@),
            GeneralName::Other => name@ == GeneralNameView::Other,
        },
{
}

/// The content of a list is that of its entries, one by one and in order, and nothing stays nothing.
pub proof fn law_content_of_lists(
    strings: Seq<Vec<u8>>,
    texts: Seq<String>,
    names: Seq<GeneralName>,
    certificates: Seq<Certificate>,
    bytes: Option<Vec<u8>>,
    i: int,
)
    ensures
        byte_views(strings).len() == strings.len(),
        0 <= i < strings.len() ==> byte_views(strings)[i] == strings[i]@,
        text_views(texts).len() == texts.len(),
        0 <= i < texts.len() ==> text_views(texts)[i] == texts[i]@,
        name_views(names).len() == names.len(),
        0 <= i < names.len() ==> name_views(names)[i] == names[i]@,
        certificate_views(certificates).len() == certificates.len(),
        0 <= i < certificates.len() ==> certificate_views(certificates)[i] == certificates[i]@,
        bytes is Some <==> bytes_view(bytes) is Some,
        bytes matches Some(string) ==> bytes_view(bytes)->0 == string@,
{
}

} // verus!
