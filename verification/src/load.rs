//! Loading certificates, private keys and trust anchors from PEM files.

use rustls::RootCertStore;
use vstd::prelude::*;
use vstd::slice::slice_to_vec;

use crate::certificate::{
    byte_views, bytes_view, extension_views, present, Certificate, CertificateView, Extension,
    ExtensionKind, ExtensionView,
};
use crate::der::{der_sequence_contents, sequence_contents, DerError};
use crate::pem::{
    ders_view, items_view, pem_certificates, pem_items, read_certificates, read_items, PemItem,
    PemItemView,
};
use crate::x509::{decode_certificate, decoded};

verus! {

/// Why a file does not yield what it should.
#[derive(Debug, PartialEq, Eq)]
pub enum LoadError {
    /// The file cannot be read.
    Unreadable(String),
    /// The file cannot be read as PEM.
    Pem(String),
    /// There is no certificate in the file.
    NoCertificates,
    /// A certificate in the file cannot be parsed.
    InvalidAuthority(String),
    /// The subject of a certificate in the file is not encoded as it should be.
    SubjectName(DerError),
    /// No certificate in the file can be parsed.
    NothingParsed,
    /// There is no private key in the file.
    NoPrivateKey,
}

/// The mathematical content of a [`LoadError`].
pub enum LoadErrorView {
    Unreadable(Seq<char>),
    Pem(Seq<char>),
    NoCertificates,
    InvalidAuthority(Seq<char>),
    SubjectName(DerError),
    NothingParsed,
    NoPrivateKey,
}

impl View for LoadError {
    type V = LoadErrorView;

    open spec fn view(&self) -> LoadErrorView {
        match self {
            LoadError::Unreadable(text) => LoadErrorView::Unreadable(text@),
            LoadError::Pem(text) => LoadErrorView::Pem(text@),
            LoadError::NoCertificates => LoadErrorView::NoCertificates,
            LoadError::InvalidAuthority(text) => LoadErrorView::InvalidAuthority(text@),
            LoadError::SubjectName(error) => LoadErrorView::SubjectName(*error),
            LoadError::NothingParsed => LoadErrorView::NothingParsed,
            LoadError::NoPrivateKey => LoadErrorView::NoPrivateKey,
        }
    }
}

impl LoadErrorView {
    /// The text that reports the error of the file at `path`.
    pub open spec fn message_text(self, path: Seq<char>) -> Seq<char> {
        match self {
            LoadErrorView::Unreadable(text) => text,
            LoadErrorView::Pem(text) => text,
            LoadErrorView::NoCertificates => "No certificates found in "@ + path,
            LoadErrorView::InvalidAuthority(text) => "Invalid CA certificate in "@ + path + ": "@
                + text,
            LoadErrorView::SubjectName(error) => error.message_text(),
            LoadErrorView::NothingParsed => "Failed to parse any root certificates from "@ + path,
            LoadErrorView::NoPrivateKey => "No private key found in "@ + path,
        }
    }
}

impl LoadError {
    /// The text that reports the error of the file at `path`.
    pub fn message(&self, path: &str) -> (text: String)
        ensures
            text@ == self@.message_text(path@),
    {
        match self {
            LoadError::Unreadable(text) => text.clone(),
            LoadError::Pem(text) => text.clone(),
            LoadError::NoCertificates => "No certificates found in ".to_owned().concat(path),
            LoadError::InvalidAuthority(text) => "Invalid CA certificate in ".to_owned().concat(
                path,
            ).concat(": ").concat(text.as_str()),
            LoadError::SubjectName(error) => error.message(),
            LoadError::NothingParsed => "Failed to parse any root certificates from ".to_owned().concat(
                path,
            ),
            LoadError::NoPrivateKey => "No private key found in ".to_owned().concat(path),
        }
    }
}

/// What a file yields: `value`, or an error.
pub open spec fn yields<T, V>(
    result: Result<T, LoadError>,
    expected: Result<V, LoadErrorView>,
    view: spec_fn(T) -> V,
) -> bool {
    match result {
        Ok(value) => expected == Ok::<V, LoadErrorView>(view(value)),
        Err(error) => expected == Err::<V, LoadErrorView>(error@),
    }
}

/// The certificates among what was read out of a file; there has to be one.
pub open spec fn some_certificates(read: Result<Seq<Seq<u8>>, Seq<char>>) -> Result<
    Seq<Seq<u8>>,
    LoadErrorView,
> {
    match read {
        Err(text) => Err(LoadErrorView::Pem(text)),
        Ok(ders) => if ders.len() == 0 {
            Err(LoadErrorView::NoCertificates)
        } else {
            Ok(ders)
        },
    }
}

/// Checks that there is a certificate in what was read out of a file.
pub fn require_certificates(read: Result<Vec<Vec<u8>>, String>) -> (result: Result<
    Vec<Vec<u8>>,
    LoadError,
>)
    ensures
        yields(result, some_certificates(ders_view(read)), |ders: Vec<Vec<u8>>| byte_views(ders@)),
{
    match read {
        Err(text) => Err(LoadError::Pem(text)),
        Ok(ders) => {
            if ders.len() == 0 {
                return Err(LoadError::NoCertificates);
            }
            Ok(ders)
        },
    }
}

/// Loads all certificates of a PEM file.
pub fn load_certificates(contents: &[u8]) -> (result: Result<Vec<Vec<u8>>, LoadError>)
    ensures
        yields(
            result,
            some_certificates(pem_certificates(contents@)),
            |ders: Vec<Vec<u8>>| byte_views(ders@),
        ),
{
    require_certificates(read_certificates(contents))
}

/// The first certificate of a PEM file.
pub open spec fn first_certificate(contents: Seq<u8>) -> Result<Seq<u8>, LoadErrorView> {
    match some_certificates(pem_certificates(contents)) {
        Ok(ders) => Ok(ders[0]),
        Err(error) => Err(error),
    }
}

/// Loads the first certificate of a PEM file.
pub fn read_certificate_der(contents: &[u8]) -> (result: Result<Vec<u8>, LoadError>)
    ensures
        yields(result, first_certificate(contents@), |der: Vec<u8>| der@),
{
    match load_certificates(contents) {
        Ok(ders) => {
            assert(byte_views(ders@)[0] == ders@[0]@);
            Ok(slice_to_vec(ders[0].as_slice()))
        },
        Err(error) => Err(error),
    }
}

/// The private key in a section of a PEM file, if it is one.
pub open spec fn key_in(item: PemItemView) -> Option<Seq<u8>> {
    match item {
        PemItemView::Pkcs8Key(der) => Some(der),
        PemItemView::RsaKey(der) => Some(der),
        PemItemView::EcKey(der) => Some(der),
        _ => None,
    }
}

/// Whether the first private key stands at `index`.
pub open spec fn first_key_at(items: Seq<PemItemView>, index: int) -> bool {
    &&& 0 <= index < items.len()
    &&& key_in(items[index]) is Some
    &&& forall|i: int| 0 <= i < index ==> key_in(#[trigger] items[i]) is None
}

/// The first private key among the sections of a PEM file.
pub open spec fn first_key(items: Seq<PemItemView>) -> Option<Seq<u8>> {
    if exists|index: int| first_key_at(items, index) {
        key_in(items[choose|index: int| first_key_at(items, index)])
    } else {
        None
    }
}

/// Finds the first private key among the sections of a PEM file.
pub fn first_private_key(items: &[PemItem]) -> (key: Option<Vec<u8>>)
    ensures
        bytes_view(key) == first_key(items@.map_values(|item: PemItem| item@)),
{
    let ghost views = items@.map_values(|item: PemItem| item@);
    for i in 0..items.len()
        invariant
            views == items@.map_values(|item: PemItem| item@),
            forall|j: int| 0 <= j < i ==> key_in(#[trigger] views[j]) is None,
    {
        assert(views[i as int] == items@[i as int]@);
        let found = match &items[i] {
            PemItem::Pkcs8Key(der) => Some(slice_to_vec(der.as_slice())),
            PemItem::RsaKey(der) => Some(slice_to_vec(der.as_slice())),
            PemItem::EcKey(der) => Some(slice_to_vec(der.as_slice())),
            _ => None,
        };
        if found.is_some() {
            assert(first_key_at(views, i as int));
            assert forall|k: int| first_key_at(views, k) implies k == i by {
                if k > i {
                    assert(key_in(views[i as int]) is None);
                }
            }
            return found;
        }
    }
    assert forall|k: int| !first_key_at(views, k) by {
        if first_key_at(views, k) {
            assert(key_in(views[k]) is None);
        }
    }
    None
}

/// The first private key of a PEM file.
pub open spec fn private_key(contents: Seq<u8>) -> Result<Seq<u8>, LoadErrorView> {
    match pem_items(contents) {
        Err(text) => Err(LoadErrorView::Pem(text)),
        Ok(items) => match first_key(items) {
            Some(key) => Ok(key),
            None => Err(LoadErrorView::NoPrivateKey),
        },
    }
}

/// Loads the first private key of a PEM file.
pub fn load_private_key(contents: &[u8]) -> (result: Result<Vec<u8>, LoadError>)
    ensures
        yields(result, private_key(contents@), |der: Vec<u8>| der@),
{
    match read_items(contents) {
        Err(text) => Err(LoadError::Pem(text)),
        Ok(items) => match first_private_key(items.as_slice()) {
            Some(key) => Ok(key),
            None => Err(LoadError::NoPrivateKey),
        },
    }
}

/// An authority that is trusted as it stands.
#[derive(Debug, PartialEq, Eq)]
pub struct TrustAnchor {
    /// The name of the authority, encoded, without the outer SEQUENCE.
    pub subject: Vec<u8>,
    /// The public key of the authority, encoded.
    pub spki: Vec<u8>,
    /// The constraints on names that it may issue certificates for, encoded.
    pub name_constraints: Option<Vec<u8>>,
}

/// The mathematical content of a [`TrustAnchor`].
#[verifier::ext_equal]
pub struct TrustAnchorView {
    pub subject: Seq<u8>,
    pub spki: Seq<u8>,
    pub name_constraints: Option<Seq<u8>>,
}

impl View for TrustAnchor {
    type V = TrustAnchorView;

    open spec fn view(&self) -> TrustAnchorView {
        TrustAnchorView {
            subject: self.subject@,
            spki: self.spki@,
            name_constraints: bytes_view(self.name_constraints),
        }
    }
}

/// The mathematical content of a list of trust anchors.
pub open spec fn anchor_views(anchors: Seq<TrustAnchor>) -> Seq<TrustAnchorView> {
    anchors.map_values(|anchor: TrustAnchor| anchor@)
}

/// The store of trust anchors of `rustls`.
#[verifier::external_type_specification]
#[verifier::external_body]
pub struct ExRootCertStore(rustls::RootCertStore);

/// The trust anchors in a store, in order.
pub uninterp spec fn root_store_anchors(store: rustls::RootCertStore) -> Seq<TrustAnchorView>;

/// The trust anchor that `webpki::TrustAnchor::try_from_cert_der` makes of a certificate, if it can
/// parse it.
pub uninterp spec fn webpki_anchor(der: Seq<u8>) -> Option<TrustAnchorView>;

/// Calls `rustls::RootCertStore::empty`. Claimed: the store has no trust anchor in it.
#[verifier::external_body]
pub(crate) fn empty_store() -> (store: RootCertStore)
    ensures
        root_store_anchors(store) == Seq::<TrustAnchorView>::empty(),
{
    RootCertStore::empty()
}

/// Calls `rustls::RootCertStore::add_trust_anchors` with what
/// `rustls::OwnedTrustAnchor::from_subject_spki_name_constraints` makes of each anchor. Claimed: the
/// store has these anchors behind those that it had.
#[verifier::external_body]
pub(crate) fn add_anchors(store: &mut RootCertStore, anchors: Vec<TrustAnchor>)
    ensures
        root_store_anchors(*final(store)) == root_store_anchors(*old(store)) + anchor_views(
            anchors@,
        ),
{
    store.add_trust_anchors(anchors.into_iter().map(|anchor| {
        rustls::OwnedTrustAnchor::from_subject_spki_name_constraints(
            anchor.subject,
            anchor.spki,
            anchor.name_constraints,
        )
    }))
}

/// Calls `rustls::RootCertStore::add_parsable_certificates`. Claimed: of the certificates, those that
/// `webpki` can parse are in the store behind what it had, and the numbers are how many of them
/// there are and how many others.
#[verifier::external_body]
pub(crate) fn add_parsable(store: &mut RootCertStore, ders: &Vec<Vec<u8>>) -> (counts: (
    usize,
    usize,
))
    ensures
        root_store_anchors(*final(store)) == root_store_anchors(*old(store)) + present(
            byte_views(ders@).map_values(|der: Seq<u8>| webpki_anchor(der)),
        ),
        counts.0 == present(byte_views(ders@).map_values(|der: Seq<u8>| webpki_anchor(der))).len(),
        counts.0 + counts.1 == ders@.len(),
{
    store.add_parsable_certificates(ders)
}

/// Whether the first extension with name constraints stands at `index`.
pub open spec fn first_name_constraints_at(extensions: Seq<ExtensionView>, index: int) -> bool {
    &&& 0 <= index < extensions.len()
    &&& extensions[index].kind is NameConstraints
    &&& forall|i: int| 0 <= i < index ==> !((#[trigger] extensions[i]).kind is NameConstraints)
}

/// The value of the first extension with name constraints.
pub open spec fn name_constraints(extensions: Seq<ExtensionView>) -> Option<Seq<u8>> {
    if exists|index: int| first_name_constraints_at(extensions, index) {
        Some(extensions[choose|index: int| first_name_constraints_at(extensions, index)].value)
    } else {
        None
    }
}

/// Finds the value of the first extension with name constraints.
pub fn find_name_constraints(extensions: &[Extension]) -> (value: Option<Vec<u8>>)
    ensures
        bytes_view(value) == name_constraints(extension_views(extensions@)),
{
    let ghost views = extension_views(extensions@);
    for i in 0..extensions.len()
        invariant
            views == extension_views(extensions@),
            forall|j: int| 0 <= j < i ==> !((#[trigger] views[j]).kind is NameConstraints),
    {
        assert(views[i as int] == extensions@[i as int]@);
        match extensions[i].kind {
            ExtensionKind::NameConstraints => {
                assert(first_name_constraints_at(views, i as int));
                assert forall|k: int| first_name_constraints_at(views, k) implies k == i by {
                    if k > i {
                        assert(!(views[i as int].kind is NameConstraints));
                    }
                }
                return Some(slice_to_vec(extensions[i].value.as_slice()));
            },
            _ => {},
        }
    }
    None
}

/// The trust anchor that a certificate makes.
pub open spec fn anchor_of(certificate: CertificateView) -> Result<TrustAnchorView, DerError> {
    match sequence_contents(certificate.subject) {
        Ok(subject) => Ok(
            TrustAnchorView {
                subject,
                spki: certificate.public_key,
                name_constraints: name_constraints(certificate.extensions),
            },
        ),
        Err(error) => Err(error),
    }
}

/// Makes a trust anchor of a certificate.
pub fn trust_anchor_of(certificate: &Certificate) -> (result: Result<TrustAnchor, DerError>)
    ensures
        match result {
            Ok(anchor) => anchor_of(certificate@) == Ok::<TrustAnchorView, DerError>(anchor@),
            Err(error) => anchor_of(certificate@) == Err::<TrustAnchorView, DerError>(error),
        },
{
    match der_sequence_contents(certificate.subject.as_slice()) {
        Ok(subject) => Ok(
            TrustAnchor {
                subject: slice_to_vec(subject),
                spki: slice_to_vec(certificate.public_key.as_slice()),
                name_constraints: find_name_constraints(certificate.extensions.as_slice()),
            },
        ),
        Err(error) => Err(error),
    }
}

/// The trust anchor that an encoded certificate makes.
pub open spec fn anchor_from(der: Seq<u8>) -> Result<TrustAnchorView, LoadErrorView> {
    match decoded(der) {
        Err(failure) => Err(LoadErrorView::InvalidAuthority(failure.debug)),
        Ok(certificate) => match anchor_of(certificate) {
            Err(error) => Err(LoadErrorView::SubjectName(error)),
            Ok(anchor) => Ok(anchor),
        },
    }
}

fn read_anchor(der: &[u8]) -> (result: Result<TrustAnchor, LoadError>)
    ensures
        yields(result, anchor_from(der@), |anchor: TrustAnchor| anchor@),
{
    match decode_certificate(der) {
        Err(failure) => Err(LoadError::InvalidAuthority(failure.debug)),
        Ok(certificate) => match trust_anchor_of(&certificate) {
            Err(error) => Err(LoadError::SubjectName(error)),
            Ok(anchor) => Ok(anchor),
        },
    }
}

/// Whether the first certificate that makes no trust anchor stands at `index`.
pub open spec fn first_refused(ders: Seq<Seq<u8>>, index: int) -> bool {
    &&& 0 <= index < ders.len()
    &&& anchor_from(ders[index]) is Err
    &&& forall|i: int| 0 <= i < index ==> anchor_from(#[trigger] ders[i]) is Ok
}

/// The trust anchors that encoded certificates make; the first that makes none is reported.
pub open spec fn anchors_from(ders: Seq<Seq<u8>>) -> Result<Seq<TrustAnchorView>, LoadErrorView> {
    if exists|index: int| first_refused(ders, index) {
        Err(anchor_from(ders[choose|index: int| first_refused(ders, index)])->Err_0)
    } else {
        Ok(ders.map_values(|der: Seq<u8>| anchor_from(der)->Ok_0))
    }
}

fn read_anchors(ders: &Vec<Vec<u8>>) -> (result: Result<Vec<TrustAnchor>, LoadError>)
    ensures
        yields(
            result,
            anchors_from(byte_views(ders@)),
            |anchors: Vec<TrustAnchor>| anchor_views(anchors@),
        ),
{
    let ghost views = byte_views(ders@);
    let mut anchors: Vec<TrustAnchor> = Vec::new();
    for i in 0..ders.len()
        invariant
            views == byte_views(ders@),
            anchors.len() == i,
            forall|j: int|
                0 <= j < i ==> anchor_from(#[trigger] views[j]) == Ok::<
                    TrustAnchorView,
                    LoadErrorView,
                >(anchors@[j]@),
    {
        assert(views[i as int] == ders@[i as int]@);
        match read_anchor(ders[i].as_slice()) {
            Ok(anchor) => {
                anchors.push(anchor);
            },
            Err(error) => {
                assert(first_refused(views, i as int));
                assert forall|k: int| first_refused(views, k) implies k == i by {
                    if k > i {
                        assert(anchor_from(views[i as int]) is Ok);
                    }
                }
                return Err(error);
            },
        }
    }
    assert forall|k: int| !first_refused(views, k) by {
        if first_refused(views, k) {
            assert(anchor_from(views[k]) is Ok);
        }
    }
    assert(views.map_values(|der: Seq<u8>| anchor_from(der)->Ok_0) =~= anchor_views(anchors@));
    Ok(anchors)
}

/// The trust anchors that the certificates of a PEM file make.
pub open spec fn root_anchors(contents: Seq<u8>) -> Result<Seq<TrustAnchorView>, LoadErrorView> {
    match some_certificates(pem_certificates(contents)) {
        Err(error) => Err(error),
        Ok(ders) => anchors_from(ders),
    }
}

/// Makes a store of the certificates of a PEM file. All of them have to be good.
pub fn load_root_cert_store(contents: &[u8]) -> (result: Result<RootCertStore, LoadError>)
    ensures
        yields(result, root_anchors(contents@), |store: RootCertStore| root_store_anchors(store)),
{
    let ders = match load_certificates(contents) {
        Ok(ders) => ders,
        Err(error) => {
            return Err(error);
        },
    };
    match read_anchors(&ders) {
        Err(error) => Err(error),
        Ok(anchors) => {
            let mut store = empty_store();
            add_anchors(&mut store, anchors);
            assert(root_store_anchors(store) =~= root_anchors(contents@)->Ok_0);
            Ok(store)
        },
    }
}

/// The trust anchors that `webpki` makes of the certificates of a PEM file; there has to be one.
pub open spec fn lenient_root_anchors(contents: Seq<u8>) -> Result<
    Seq<TrustAnchorView>,
    LoadErrorView,
> {
    match some_certificates(pem_certificates(contents)) {
        Err(error) => Err(error),
        Ok(ders) => {
            let anchors = present(ders.map_values(|der: Seq<u8>| webpki_anchor(der)));
            if anchors.len() == 0 {
                Err(LoadErrorView::NothingParsed)
            } else {
                Ok(anchors)
            }
        },
    }
}

/// Makes a store of those certificates of a PEM file that `webpki` can parse.
pub fn load_parsable_root_cert_store(contents: &[u8]) -> (result: Result<
    RootCertStore,
    LoadError,
>)
    ensures
        yields(
            result,
            lenient_root_anchors(contents@),
            |store: RootCertStore| root_store_anchors(store),
        ),
{
    let ders = match load_certificates(contents) {
        Ok(ders) => ders,
        Err(error) => {
            return Err(error);
        },
    };
    let mut store = empty_store();
    let counts = add_parsable(&mut store, &ders);
    if counts.0 == 0 {
        return Err(LoadError::NothingParsed);
    }
    assert(root_store_anchors(store) =~= lenient_root_anchors(contents@)->Ok_0);
    Ok(store)
}

/// A store that was loaded holds one trust anchor for each certificate of the file, and at least one.
pub proof fn law_each_certificate_is_an_anchor(contents: Seq<u8>)
    ensures
        root_anchors(contents) matches Ok(anchors) ==> {
            &&& pem_certificates(contents) matches Ok(ders)
            &&& 0 < anchors.len() == ders.len()
            &&& forall|i: int|
                0 <= i < ders.len() ==> anchor_from(ders[i]) == Ok::<
                    TrustAnchorView,
                    LoadErrorView,
                >(#[trigger] anchors[i])
        },
{
    if let Ok(anchors) = root_anchors(contents) {
        let ders = pem_certificates(contents)->Ok_0;
        assert forall|i: int| 0 <= i < ders.len() implies anchor_from(ders[i]) == Ok::<
            TrustAnchorView,
            LoadErrorView,
        >(#[trigger] anchors[i]) by {
            if anchor_from(ders[i]) is Err {
                lemma_some_refused_is_first(ders, i);
            }
        }
    }
}

proof fn lemma_some_refused_is_first(ders: Seq<Seq<u8>>, index: int)
    requires
        0 <= index < ders.len(),
        anchor_from(ders[index]) is Err,
    ensures
        exists|k: int| first_refused(ders, k),
    decreases index,
{
    if exists|i: int| 0 <= i < index && anchor_from(#[trigger] ders[i]) is Err {
        let i = choose|i: int| 0 <= i < index && anchor_from(#[trigger] ders[i]) is Err;
        lemma_some_refused_is_first(ders, i);
    } else {
        assert(first_refused(ders, index));
    }
}

/// A store that leaves certificates out still holds a trust anchor, and no more of them than there
/// are certificates in the file.
pub proof fn law_lenient_store_is_not_empty(contents: Seq<u8>)
    ensures
        lenient_root_anchors(contents) matches Ok(anchors) ==> {
            &&& pem_certificates(contents) matches Ok(ders)
            &&& 0 < anchors.len() <= ders.len()
        },
{
    if let Ok(ders) = pem_certificates(contents) {
        lemma_present_is_no_longer(ders.map_values(|der: Seq<u8>| webpki_anchor(der)));
    }
}

proof fn lemma_present_is_no_longer<T>(items: Seq<Option<T>>)
    ensures
        present(items).len() <= items.len(),
    decreases items.len(),
{
    if items.len() > 0 {
        lemma_present_is_no_longer(items.drop_last());
    }
}

/// Sections without a key in front of the others do not change which private key is loaded.
pub proof fn law_sections_before_the_key_do_not_matter(
    front: Seq<PemItemView>,
    items: Seq<PemItemView>,
)
    requires
        forall|i: int| 0 <= i < front.len() ==> key_in(#[trigger] front[i]) is None,
    ensures
        first_key(front + items) == first_key(items),
{
    let all = front + items;
    assert forall|k: int| first_key_at(all, k) implies first_key_at(items, k - front.len()) by {
        if k < front.len() {
            assert(key_in(front[k]) is None);
        }
        assert forall|i: int| 0 <= i < k - front.len() implies key_in(
            #[trigger] items[i],
        ) is None by {
            assert(all[i + front.len()] == items[i]);
        }
    }
    assert forall|k: int| first_key_at(items, k) implies first_key_at(all, k + front.len()) by {
        assert forall|i: int| 0 <= i < k + front.len() implies key_in(#[trigger] all[i]) is None by {
            if i < front.len() {
                assert(all[i] == front[i]);
            } else {
                assert(all[i] == items[i - front.len()]);
            }
        }
    }
    if exists|k: int| first_key_at(items, k) {
        let k = choose|k: int| first_key_at(items, k);
        assert(first_key_at(all, k + front.len()));
        let j = choose|j: int| first_key_at(all, j);
        assert(first_key_at(items, j - front.len()));
        lemma_first_key_is_unique(items, k, j - front.len());
    }
}

proof fn lemma_first_key_is_unique(items: Seq<PemItemView>, a: int, b: int)
    requires
        first_key_at(items, a),
        first_key_at(items, b),
    ensures
        a == b,
{
    if a < b {
        assert(key_in(items[a]) is None);
    } else if b < a {
        assert(key_in(items[b]) is None);
    }
}

/// Whatever stands behind the first private key does not change which one is loaded.
pub proof fn law_sections_behind_the_key_do_not_matter(
    items: Seq<PemItemView>,
    back: Seq<PemItemView>,
)
    requires
        first_key(items) is Some,
    ensures
        first_key(items + back) == first_key(items),
{
    let all = items + back;
    let k = choose|k: int| first_key_at(items, k);
    assert(first_key_at(all, k)) by {
        assert forall|i: int| 0 <= i < k implies key_in(#[trigger] all[i]) is None by {
            assert(all[i] == items[i]);
        }
    }
    let j = choose|j: int| first_key_at(all, j);
    lemma_first_key_is_unique(all, k, j);
}

/// What was loaded is what was expected, or the error is the expected one.
pub proof fn law_loading_yields_what_is_expected<T, V>(
    result: Result<T, LoadError>,
    expected: Result<V, LoadErrorView>,
    view: spec_fn(T) -> V,
)
    requires
        yields(result, expected, view),
    ensures
        result is Ok <==> expected is Ok,
        result matches Ok(value) ==> expected->Ok_0 == view(value),
        result matches Err(error) ==> expected->Err_0 == error@,
{
}

/// Each error says what is wrong and, where the file is what is wrong, with which file.
pub proof fn law_load_errors_in_words(text: Seq<char>, error: DerError, path: Seq<char>)
    ensures
        LoadErrorView::Unreadable(text).message_text(path) == text,
        LoadErrorView::Pem(text).message_text(path) == text,
        LoadErrorView::NoCertificates.message_text(path) == "No certificates found in "@ + path,
        LoadErrorView::InvalidAuthority(text).message_text(path) == "Invalid CA certificate in "@
            + path + ": "@ + text,
        LoadErrorView::SubjectName(error).message_text(path) == error.message_text(),
        LoadErrorView::NothingParsed.message_text(path)
            == "Failed to parse any root certificates from "@ + path,
        LoadErrorView::NoPrivateKey.message_text(path) == "No private key found in "@ + path,
{
}

/// The content of an error is the error with the content of its text.
pub proof fn law_load_error_content(error: LoadError)
    ensures
        error matches LoadError::Unreadable(text) ==> error@ == LoadErrorView::Unreadable(text@),
        error matches LoadError::Pem(text) ==> error@ == LoadErrorView::Pem(text@),
        error is NoCertificates <==> error@ is NoCertificates,
        error matches LoadError::InvalidAuthority(text) ==> error@
            == LoadErrorView::InvalidAuthority(text@),
        error matches LoadError::SubjectName(der) ==> error@ == LoadErrorView::SubjectName(der),
        error is NothingParsed <==> error@ is NothingParsed,
        error is NoPrivateKey <==> error@ is NoPrivateKey,
{
}

/// A file that can be read as PEM yields all its certificates, in order, if it has one; that it has
/// none and that it cannot be read are errors.
pub proof fn law_certificates_that_are_loaded(contents: Seq<u8>)
    ensures
        ({
            let loaded = some_certificates(pem_certificates(contents));
            &&& pem_certificates(contents) matches Err(text) ==> loaded == Err::<
                Seq<Seq<u8>>,
                LoadErrorView,
            >(LoadErrorView::Pem(text))
            &&& pem_certificates(contents) matches Ok(ders) ==> ders.len() == 0 ==> loaded == Err::<
                Seq<Seq<u8>>,
                LoadErrorView,
            >(LoadErrorView::NoCertificates)
            &&& pem_certificates(contents) matches Ok(ders) ==> ders.len() > 0 ==> loaded == Ok::<
                Seq<Seq<u8>>,
                LoadErrorView,
            >(ders)
        }),
{
}

/// The first certificate of a file is the one in front of all that the file yields, and there is an
/// error where these cannot be loaded.
pub proof fn law_first_certificate_is_in_front(contents: Seq<u8>)
    ensures
        pem_certificates(contents) matches Ok(ders) ==> ders.len() > 0 ==> first_certificate(
            contents,
        ) == Ok::<Seq<u8>, LoadErrorView>(ders.first()),
        pem_certificates(contents) matches Ok(ders) ==> ders.len() == 0 ==> first_certificate(
            contents,
        ) == Err::<Seq<u8>, LoadErrorView>(LoadErrorView::NoCertificates),
        pem_certificates(contents) matches Err(text) ==> first_certificate(contents) == Err::<
            Seq<u8>,
            LoadErrorView,
        >(LoadErrorView::Pem(text)),
{
}

/// A section has a private key in it if and only if it is of one of three kinds, and the key is all
/// of it.
pub proof fn law_sections_with_a_key(item: PemItemView)
    ensures
        key_in(item) is Some <==> item is Pkcs8Key || item is RsaKey || item is EcKey,
        item matches PemItemView::Pkcs8Key(der) ==> key_in(item) == Some(der),
        item matches PemItemView::RsaKey(der) ==> key_in(item) == Some(der),
        item matches PemItemView::EcKey(der) ==> key_in(item) == Some(der),
{
}

/// The key of the first section that has one is loaded, of whichever of the three kinds it is.
pub proof fn law_first_key_is_loaded(contents: Seq<u8>, index: int)
    requires
        pem_items(contents) is Ok,
        0 <= index < pem_items(contents)->Ok_0.len(),
        forall|i: int|
            0 <= i < index ==> {
                let item = #[trigger] pem_items(contents)->Ok_0[i];
                !(item is Pkcs8Key) && !(item is RsaKey) && !(item is EcKey)
            },
    ensures
        pem_items(contents)->Ok_0[index] matches PemItemView::Pkcs8Key(der) ==> private_key(
            contents,
        ) == Ok::<Seq<u8>, LoadErrorView>(der),
        pem_items(contents)->Ok_0[index] matches PemItemView::RsaKey(der) ==> private_key(contents)
            == Ok::<Seq<u8>, LoadErrorView>(der),
        pem_items(contents)->Ok_0[index] matches PemItemView::EcKey(der) ==> private_key(contents)
            == Ok::<Seq<u8>, LoadErrorView>(der),
{
    let items = pem_items(contents)->Ok_0;
    if key_in(items[index]) is Some {
        assert forall|i: int| 0 <= i < index implies key_in(#[trigger] items[i]) is None by {}
        assert(first_key_at(items, index));
        lemma_first_key_is_unique(items, index, choose|k: int| first_key_at(items, k));
    }
}

/// Where no section of a file has a private key, or the file cannot be read, none is loaded.
pub proof fn law_files_without_a_key(contents: Seq<u8>)
    ensures
        pem_items(contents) matches Err(text) ==> private_key(contents) == Err::<
            Seq<u8>,
            LoadErrorView,
        >(LoadErrorView::Pem(text)),
        pem_items(contents) matches Ok(items) ==> (forall|i: int|
            0 <= i < items.len() ==> {
                &&& !((#[trigger] items[i]) is Pkcs8Key)
                &&& !(items[i] is RsaKey)
                &&& !(items[i] is EcKey)
            }) ==> private_key(contents) == Err::<Seq<u8>, LoadErrorView>(
            LoadErrorView::NoPrivateKey,
        ),
{
}

/// The constraints on names are the value of the first extension with such constraints, critical or
/// not.
pub proof fn law_first_name_constraints_count(extensions: Seq<ExtensionView>, index: int)
    requires
        0 <= index < extensions.len(),
        extensions[index].kind is NameConstraints,
        forall|i: int| 0 <= i < index ==> !((#[trigger] extensions[i]).kind is NameConstraints),
    ensures
        name_constraints(extensions) == Some(extensions[index].value),
{
    assert(first_name_constraints_at(extensions, index));
    let k = choose|k: int| first_name_constraints_at(extensions, k);
    if k < index {
        assert(!(extensions[k].kind is NameConstraints));
    } else if index < k {
        assert(!(extensions[index].kind is NameConstraints));
    }
}

/// There are no constraints on names where no extension has any.
pub proof fn law_no_name_constraints(extensions: Seq<ExtensionView>)
    requires
        forall|i: int|
            0 <= i < extensions.len() ==> !((#[trigger] extensions[i]).kind is NameConstraints),
    ensures
        name_constraints(extensions) is None,
{
}

/// A trust anchor has the public key of the certificate as it is, its subject without the outer
/// SEQUENCE, and its constraints on names; nothing else of the certificate matters.
pub proof fn law_anchor_of_a_certificate(certificate: CertificateView, other: CertificateView)
    ensures
        anchor_of(certificate) is Ok <==> sequence_contents(certificate.subject) is Ok,
        anchor_of(certificate) matches Ok(anchor) ==> {
            &&& anchor.subject == sequence_contents(certificate.subject)->Ok_0
            &&& anchor.spki == certificate.public_key
            &&& anchor.name_constraints == name_constraints(certificate.extensions)
        },
        anchor_of(certificate) matches Err(error) ==> sequence_contents(certificate.subject)
            == Err::<Seq<u8>, DerError>(error),
        certificate.subject == other.subject && certificate.public_key == other.public_key
            && certificate.extensions == other.extensions ==> anchor_of(certificate) == anchor_of(
            other,
        ),
{
}

/// An encoded certificate makes the trust anchor of what it is decoded to; where it cannot be decoded
/// the error is another than where its subject is not as it should be.
pub proof fn law_anchor_of_an_encoded_certificate(der: Seq<u8>)
    ensures
        decoded(der) matches Err(failure) ==> anchor_from(der) == Err::<
            TrustAnchorView,
            LoadErrorView,
        >(LoadErrorView::InvalidAuthority(failure.debug)),
        decoded(der) matches Ok(certificate) ==> {
            &&& sequence_contents(certificate.subject) matches Err(error) ==> anchor_from(der)
                == Err::<TrustAnchorView, LoadErrorView>(LoadErrorView::SubjectName(error))
            &&& sequence_contents(certificate.subject) matches Ok(subject) ==> {
                &&& anchor_from(der) matches Ok(anchor)
                &&& anchor.subject == subject
                &&& anchor.spki == certificate.public_key
                &&& anchor.name_constraints == name_constraints(certificate.extensions)
            }
        },
{
}

/// The first certificate of a file that makes no trust anchor decides the error.
pub proof fn law_first_bad_authority_is_reported(contents: Seq<u8>, index: int)
    requires
        pem_certificates(contents) is Ok,
        0 <= index < pem_certificates(contents)->Ok_0.len(),
        anchor_from(pem_certificates(contents)->Ok_0[index]) is Err,
        forall|i: int|
            0 <= i < index ==> anchor_from(#[trigger] pem_certificates(contents)->Ok_0[i]) is Ok,
    ensures
        root_anchors(contents) == Err::<Seq<TrustAnchorView>, LoadErrorView>(
            anchor_from(pem_certificates(contents)->Ok_0[index])->Err_0,
        ),
{
    let ders = pem_certificates(contents)->Ok_0;
    assert(first_refused(ders, index));
    let k = choose|k: int| first_refused(ders, k);
    if k < index {
        assert(anchor_from(ders[k]) is Ok);
    } else if index < k {
        assert(anchor_from(ders[index]) is Ok);
    }
}

/// A store can be made of all certificates of a file if and only if the file can be read, there is
/// one, and each of them makes a trust anchor.
pub proof fn law_files_of_good_authorities(contents: Seq<u8>)
    ensures
        root_anchors(contents) is Ok <==> {
            &&& pem_certificates(contents) matches Ok(ders)
            &&& ders.len() > 0
            &&& forall|i: int| 0 <= i < ders.len() ==> anchor_from(#[trigger] ders[i]) is Ok
        },
        pem_certificates(contents) matches Err(text) ==> root_anchors(contents) == Err::<
            Seq<TrustAnchorView>,
            LoadErrorView,
        >(LoadErrorView::Pem(text)),
        pem_certificates(contents) matches Ok(ders) ==> ders.len() == 0 ==> root_anchors(contents)
            == Err::<Seq<TrustAnchorView>, LoadErrorView>(LoadErrorView::NoCertificates),
{
    if let Ok(ders) = pem_certificates(contents) {
        if root_anchors(contents) is Ok {
            law_each_certificate_is_an_anchor(contents);
            assert forall|i: int| 0 <= i < ders.len() implies anchor_from(
                #[trigger] ders[i],
            ) is Ok by {
                assert(anchor_from(ders[i]) == Ok::<TrustAnchorView, LoadErrorView>(
                    root_anchors(contents)->Ok_0[i],
                ));
            }
        }
    }
}

/// A store that leaves certificates out holds what is made of each certificate that can be parsed, and
/// can be made if and only if there is one of these; each way to fail has an error of its own.
pub proof fn law_files_of_parsable_authorities(contents: Seq<u8>)
    ensures
        pem_certificates(contents) matches Err(text) ==> lenient_root_anchors(contents) == Err::<
            Seq<TrustAnchorView>,
            LoadErrorView,
        >(LoadErrorView::Pem(text)),
        pem_certificates(contents) matches Ok(ders) ==> {
            &&& ders.len() == 0 ==> lenient_root_anchors(contents) == Err::<
                Seq<TrustAnchorView>,
                LoadErrorView,
            >(LoadErrorView::NoCertificates)
            &&& ders.len() > 0 && (forall|i: int|
                0 <= i < ders.len() ==> webpki_anchor(#[trigger] ders[i]) is None)
                ==> lenient_root_anchors(contents) == Err::<Seq<TrustAnchorView>, LoadErrorView>(
                LoadErrorView::NothingParsed,
            )
            &&& forall|i: int|
                0 <= i < ders.len() && webpki_anchor(#[trigger] ders[i]) is Some ==> {
                    &&& lenient_root_anchors(contents) matches Ok(anchors)
                    &&& anchors.contains(webpki_anchor(ders[i])->0)
                }
            &&& lenient_root_anchors(contents) matches Ok(anchors) ==> forall|k: int|
                0 <= k < anchors.len() ==> exists|i: int|
                    0 <= i < ders.len() && webpki_anchor(#[trigger] ders[i]) == Some(
                        #[trigger] anchors[k],
                    )
        },
{
    if let Ok(ders) = pem_certificates(contents) {
        let parsed = ders.map_values(|der: Seq<u8>| webpki_anchor(der));
        let anchors = present(parsed);
        assert forall|i: int| 0 <= i < ders.len() && webpki_anchor(
            #[trigger] ders[i],
        ) is Some implies anchors.contains(webpki_anchor(ders[i])->0) by {
            assert(parsed[i] is Some);
            lemma_present_contains(parsed, i);
        }
        assert forall|k: int| 0 <= k < anchors.len() implies exists|i: int|
            0 <= i < ders.len() && webpki_anchor(#[trigger] ders[i]) == Some(
                #[trigger] anchors[k],
            ) by {
            let i = lemma_present_comes_from(parsed, k);
            assert(webpki_anchor(ders[i]) == Some(anchors[k]));
        }
        if anchors.len() > 0 {
            let i = lemma_present_comes_from(parsed, 0);
            assert(webpki_anchor(ders[i]) is Some);
        }
    }
}

proof fn lemma_present_contains<T>(items: Seq<Option<T>>, index: int)
    requires
        0 <= index < items.len(),
        items[index] is Some,
    ensures
        present(items).contains(items[index]->0),
    decreases items.len(),
{
    let front = items.drop_last();
    if index == items.len() - 1 {
        assert(present(items).last() == items[index]->0);
    } else {
        assert(front[index] == items[index]);
        lemma_present_contains(front, index);
        let k = choose|k: int|
            0 <= k < present(front).len() && present(front)[k] == items[index]->0;
        assert(present(items)[k] == items[index]->0);
    }
}

proof fn lemma_present_comes_from<T>(items: Seq<Option<T>>, k: int) -> (index: int)
    requires
        0 <= k < present(items).len(),
    ensures
        0 <= index < items.len(),
        items[index] == Some(present(items)[k]),
    decreases items.len(),
{
    let front = items.drop_last();
    if k < present(front).len() {
        let index = lemma_present_comes_from(front, k);
        assert(items[index] == front[index]);
        index
    } else {
        items.len() - 1
    }
}

/// The content of a trust anchor is its three parts.
pub proof fn law_anchor_content(anchor: TrustAnchor)
    ensures
        anchor@.subject == anchor.subject@,
        anchor@.spki == anchor.spki@,
        anchor.name_constraints matches Some(value) ==> anchor@.name_constraints == Some(value@),
        anchor.name_constraints is None ==> anchor@.name_constraints is None,
{
}

} // verus!
