//! Reading PEM files: certificates and private keys.

use vstd::prelude::*;

use crate::certificate::{byte_views, present};

verus! {

/// One section of a PEM file.
#[derive(Debug, PartialEq, Eq)]
pub enum PemItem {
    X509Certificate(Vec<u8>),
    RsaKey(Vec<u8>),
    Pkcs8Key(Vec<u8>),
    EcKey(Vec<u8>),
    /// A section of any other kind.
    Other,
}

/// The mathematical content of a [`PemItem`].
pub enum PemItemView {
    X509Certificate(Seq<u8>),
    RsaKey(Seq<u8>),
    Pkcs8Key(Seq<u8>),
    EcKey(Seq<u8>),
    Other,
}

impl View for PemItem {
    type V = PemItemView;

    open spec fn view(&self) -> PemItemView {
        match self {
            PemItem::X509Certificate(der) => PemItemView::X509Certificate(der@),
            PemItem::RsaKey(der) => PemItemView::RsaKey(der@),
            PemItem::Pkcs8Key(der) => PemItemView::Pkcs8Key(der@),
            PemItem::EcKey(der) => PemItemView::EcKey(der@),
            PemItem::Other => PemItemView::Other,
        }
    }
}

/// The mathematical content of a list of sections, or of why there is none.
pub open spec fn items_view(result: Result<Vec<PemItem>, String>) -> Result<
    Seq<PemItemView>,
    Seq<char>,
> {
    match result {
        Ok(items) => Ok(items@.map_values(|item: PemItem| item@)),
        Err(text) => Err(text@),
    }
}

/// The mathematical content of a list of certificates, or of why there is none.
pub open spec fn ders_view(result: Result<Vec<Vec<u8>>, String>) -> Result<
    Seq<Seq<u8>>,
    Seq<char>,
> {
    match result {
        Ok(ders) => Ok(byte_views(ders@)),
        Err(text) => Err(text@),
    }
}

/// The mathematical content of bytes, or of why there are none.
pub open spec fn block_view(result: Result<Vec<u8>, String>) -> Result<Seq<u8>, Seq<char>> {
    match result {
        Ok(bytes) => Ok(bytes@),
        Err(text) => Err(text@),
    }
}

/// What `rustls_pemfile::read_all` reads out of a file.
pub uninterp spec fn pem_items(contents: Seq<u8>) -> Result<Seq<PemItemView>, Seq<char>>;

/// The certificate in a section of a file, if it is one.
pub open spec fn certificate_in(item: PemItemView) -> Option<Seq<u8>> {
    match item {
        PemItemView::X509Certificate(der) => Some(der),
        _ => None,
    }
}

/// The certificates of a file, in order.
pub open spec fn pem_certificates(contents: Seq<u8>) -> Result<Seq<Seq<u8>>, Seq<char>> {
    match pem_items(contents) {
        Ok(items) => Ok(present(items.map_values(|item: PemItemView| certificate_in(item)))),
        Err(text) => Err(text),
    }
}

/// What `x509_parser::pem::parse_x509_pem` decodes of the first block of a file.
pub uninterp spec fn pem_first_block(contents: Seq<u8>) -> Result<Seq<u8>, Seq<char>>;

/// Calls `rustls_pemfile::certs`. Claimed: it gives those sections of the file that are certificates,
/// or the error that reading all sections comes to.
#[verifier::external_body]
pub(crate) fn read_certificates(contents: &[u8]) -> (result: Result<Vec<Vec<u8>>, String>)
    ensures
        ders_view(result) == pem_certificates(contents@),
{
    let mut reader: &[u8] = contents;
    rustls_pemfile::certs(&mut reader).map_err(|error| error.to_string())
}

/// Calls `rustls_pemfile::read_all`. Claimed: the sections, or the error in words, depend on the
/// contents of the file alone.
#[verifier::external_body]
pub(crate) fn read_items(contents: &[u8]) -> (result: Result<Vec<PemItem>, String>)
    ensures
        items_view(result) == pem_items(contents@),
{
    let mut reader: &[u8] = contents;
    let convert = |item: rustls_pemfile::Item| match item {
        rustls_pemfile::Item::X509Certificate(der) => PemItem::X509Certificate(der),
        rustls_pemfile::Item::RSAKey(der) => PemItem::RsaKey(der),
        rustls_pemfile::Item::PKCS8Key(der) => PemItem::Pkcs8Key(der),
        rustls_pemfile::Item::ECKey(der) => PemItem::EcKey(der),
        _ => PemItem::Other,
    };
    match rustls_pemfile::read_all(&mut reader) {
        Ok(items) => Ok(items.into_iter().map(convert).collect()),
        Err(error) => Err(error.to_string()),
    }
}

/// Calls `x509_parser::pem::parse_x509_pem`. Claimed: the bytes of the first block, or the error in
/// words, depend on the contents of the file alone.
#[verifier::external_body]
pub(crate) fn read_first_block(contents: &[u8]) -> (result: Result<Vec<u8>, String>)
    ensures
        block_view(result) == pem_first_block(contents@),
{
    match x509_parser::pem::parse_x509_pem(contents) {
        Ok((_, pem)) => Ok(pem.contents),
        Err(error) => Err(error.to_string()),
    }
}

/// A file of which sections are certificates in just these places gives these certificates in this
/// order: each section of another kind leaves nothing, and an error stays an error.
pub proof fn law_certificates_of_a_file(
    contents: Seq<u8>,
    front: Seq<PemItemView>,
    item: PemItemView,
)
    ensures
        pem_items(contents) matches Err(text) ==> pem_certificates(contents) == Err::<
            Seq<Seq<u8>>,
            Seq<char>,
        >(text),
        pem_items(contents) matches Ok(items) ==> pem_certificates(contents) == Ok::<
            Seq<Seq<u8>>,
            Seq<char>,
        >(certificates_among(items)),
        certificates_among(Seq::empty()) == Seq::<Seq<u8>>::empty(),
        certificates_among(front.push(item)) == match item {
            PemItemView::X509Certificate(der) => certificates_among(front).push(der),
            PemItemView::RsaKey(_) => certificates_among(front),
            PemItemView::Pkcs8Key(_) => certificates_among(front),
            PemItemView::EcKey(_) => certificates_among(front),
            PemItemView::Other => certificates_among(front),
        },
{
    let pick = |item: PemItemView| certificate_in(item);
    assert(front.push(item).map_values(pick).drop_last() == front.map_values(pick));
    assert(Seq::<PemItemView>::empty().map_values(pick) == Seq::<Option<Seq<u8>>>::empty());
}

/// The certificates among some sections, in order.
pub open spec fn certificates_among(items: Seq<PemItemView>) -> Seq<Seq<u8>> {
    present(items.map_values(|item: PemItemView| certificate_in(item)))
}

/// The content of a section is its kind and its bytes.
pub proof fn law_section_content(item: PemItem)
    ensures
        match item {
            PemItem::X509Certificate(der) => item@ == PemItemView::X509Certificate(der@),
            PemItem::RsaKey(der) => item@ == PemItemView::RsaKey(der@),
            PemItem::Pkcs8Key(der) => item@ == PemItemView::Pkcs8Key(der@),
            PemItem::EcKey(der) => item@ == PemItemView::EcKey(der@),
            PemItem::Other => item@ == PemItemView::Other,
        },
{
}

/// What was read stays what it is, entry by entry, and an error keeps its words.
pub proof fn law_content_of_what_was_read(
    items: Result<Vec<PemItem>, String>,
    ders: Result<Vec<Vec<u8>>, String>,
    block: Result<Vec<u8>, String>,
    i: int,
)
    ensures
        items is Ok <==> items_view(items) is Ok,
        items matches Ok(list) ==> items_view(items)->Ok_0.len() == list@.len(),
        items matches Ok(list) ==> 0 <= i < list@.len() ==> items_view(items)->Ok_0[i]
            == list@[i]@,
        items matches Err(text) ==> items_view(items)->Err_0 == text@,
        ders is Ok <==> ders_view(ders) is Ok,
        ders matches Ok(list) ==> ders_view(ders)->Ok_0.len() == list@.len(),
        ders matches Ok(list) ==> 0 <= i < list@.len() ==> ders_view(ders)->Ok_0[i] == list@[i]@,
        ders matches Err(text) ==> ders_view(ders)->Err_0 == text@,
        block is Ok <==> block_view(block) is Ok,
        block matches Ok(bytes) ==> block_view(block)->Ok_0 == bytes@,
        block matches Err(text) ==> block_view(block)->Err_0 == text@,
{
}

} // verus!
