//! What a peer presents itself with, and how it talks TLS.

use rustls::RootCertStore;
use vstd::prelude::*;

use crate::certificate::byte_views;
use crate::load::{
    first_certificate, lenient_root_anchors, load_certificates, load_parsable_root_cert_store,
    load_private_key, load_root_cert_store, private_key, read_certificate_der, root_anchors,
    root_store_anchors, some_certificates, yields, LoadError, LoadErrorView, TrustAnchorView,
};
use crate::pem::{block_view, pem_certificates};
use crate::server_cert::PureRustServerCertVerifier;

verus! {

/// The number of the cipher suite that IEEE 2030.5 asks for,
/// `TLS_ECDHE_ECDSA_WITH_AES_128_GCM_SHA256`.
pub const DEFAULT_TLS_CLIENT_CIPHER_SUITE: u16 = 0xc02b;

/// The number of the elliptic curve `x25519`.
pub const X25519: u16 = 0x001d;

/// The number of the elliptic curve `secp256r1`.
pub const SECP256R1: u16 = 0x0017;

/// The number of the elliptic curve `secp384r1`.
pub const SECP384R1: u16 = 0x0018;

/// The number of TLS 1.2.
pub const TLS12: u16 = 0x0303;

/// The choices that a client has.
#[derive(Clone, Copy, Debug, PartialEq, Eq, Structural)]
pub struct ClientTlsOptions {
    /// The number of the one cipher suite to use.
    pub cipher_suite: u16,
    /// Whether to present all certificates of the file, not only the first.
    pub use_certificate_chain_file: bool,
}

impl Default for ClientTlsOptions {
    fn default() -> (options: Self)
        ensures
            options.cipher_suite == DEFAULT_TLS_CLIENT_CIPHER_SUITE,
            !options.use_certificate_chain_file,
    {
        ClientTlsOptions {
            cipher_suite: DEFAULT_TLS_CLIENT_CIPHER_SUITE,
            use_certificate_chain_file: false,
        }
    }
}

/// What a peer is ready to negotiate, by number.
#[derive(Debug, PartialEq, Eq)]
pub struct TlsParameters {
    pub cipher_suites: Vec<u16>,
    pub kx_groups: Vec<u16>,
    pub versions: Vec<u16>,
}

/// What a client is ready to negotiate: the one cipher suite of its options over `secp256r1`, in TLS
/// 1.2.
pub fn client_tls_parameters(options: &ClientTlsOptions) -> (parameters: TlsParameters)
    ensures
        parameters.cipher_suites@ == seq![options.cipher_suite],
        parameters.kx_groups@ == seq![SECP256R1],
        parameters.versions@ == seq![TLS12],
{
    let parameters = TlsParameters {
        cipher_suites: vec![options.cipher_suite],
        kx_groups: vec![SECP256R1],
        versions: vec![TLS12],
    };
    assert(parameters.cipher_suites@ =~= seq![options.cipher_suite]);
    assert(parameters.kx_groups@ =~= seq![SECP256R1]);
    assert(parameters.versions@ =~= seq![TLS12]);
    parameters
}

/// What a server is ready to negotiate: the default cipher suite over any of the curves, in TLS 1.2.
pub fn server_tls_parameters() -> (parameters: TlsParameters)
    ensures
        parameters.cipher_suites@ == seq![DEFAULT_TLS_CLIENT_CIPHER_SUITE],
        parameters.kx_groups@ == seq![X25519, SECP256R1, SECP384R1],
        parameters.versions@ == seq![TLS12],
{
    let parameters = TlsParameters {
        cipher_suites: vec![DEFAULT_TLS_CLIENT_CIPHER_SUITE],
        kx_groups: vec![X25519, SECP256R1, SECP384R1],
        versions: vec![TLS12],
    };
    assert(parameters.cipher_suites@ =~= seq![DEFAULT_TLS_CLIENT_CIPHER_SUITE]);
    assert(parameters.kx_groups@ =~= seq![X25519, SECP256R1, SECP384R1]);
    assert(parameters.versions@ =~= seq![TLS12]);
    parameters
}

/// The files that an identity is made of.
#[derive(Clone, Copy, Debug, PartialEq, Eq, Structural)]
pub enum IdentityFile {
    Authorities,
    Certificate,
    PrivateKey,
}

/// Why an identity cannot be loaded, and which file is to blame.
#[derive(Debug, PartialEq, Eq)]
pub struct IdentityError {
    pub file: IdentityFile,
    pub error: LoadError,
}

/// The mathematical content of an [`IdentityError`].
pub struct IdentityErrorView {
    pub file: IdentityFile,
    pub error: LoadErrorView,
}

impl View for IdentityError {
    type V = IdentityErrorView;

    open spec fn view(&self) -> IdentityErrorView {
        IdentityErrorView { file: self.file, error: self.error@ }
    }
}

/// What loading yields where reading the file may fail.
pub open spec fn read_and_load<V>(
    file: Result<Seq<u8>, Seq<char>>,
    load: spec_fn(Seq<u8>) -> Result<V, LoadErrorView>,
) -> Result<V, LoadErrorView> {
    match file {
        Err(text) => Err(LoadErrorView::Unreadable(text)),
        Ok(contents) => load(contents),
    }
}

/// The certificates that a client presents: all that are in the file, or the first.
pub open spec fn client_chain(options: ClientTlsOptions, contents: Seq<u8>) -> Result<
    Seq<Seq<u8>>,
    LoadErrorView,
> {
    if options.use_certificate_chain_file {
        some_certificates(pem_certificates(contents))
    } else {
        match first_certificate(contents) {
            Ok(der) => Ok(seq![der]),
            Err(error) => Err(error),
        }
    }
}

/// Loads the certificates that a client presents.
pub fn load_client_chain(options: &ClientTlsOptions, contents: &[u8]) -> (result: Result<
    Vec<Vec<u8>>,
    LoadError,
>)
    ensures
        yields(
            result,
            client_chain(*options, contents@),
            |ders: Vec<Vec<u8>>| byte_views(ders@),
        ),
{
    if options.use_certificate_chain_file {
        load_certificates(contents)
    } else {
        match read_certificate_der(contents) {
            Ok(der) => {
                let ghost view = der@;
                let chain: Vec<Vec<u8>> = vec![der];
                assert(byte_views(chain@) =~= seq![view]);
                Ok(chain)
            },
            Err(error) => Err(error),
        }
    }
}

/// What a client presents itself with, and whom it trusts.
pub struct ClientIdentity {
    pub root_store: RootCertStore,
    pub verifier: PureRustServerCertVerifier,
    pub cert_chain: Vec<Vec<u8>>,
    pub private_key: Vec<u8>,
}

/// The mathematical content of a [`ClientIdentity`].
#[verifier::ext_equal]
pub struct ClientIdentityView {
    pub anchors: Seq<TrustAnchorView>,
    pub rootca_path: Seq<char>,
    pub authorities: Seq<Seq<u8>>,
    pub cert_chain: Seq<Seq<u8>>,
    pub private_key: Seq<u8>,
}

impl View for ClientIdentity {
    type V = ClientIdentityView;

    open spec fn view(&self) -> ClientIdentityView {
        ClientIdentityView {
            anchors: root_store_anchors(self.root_store),
            rootca_path: self.verifier.rootca_path@,
            authorities: byte_views(self.verifier.trust_anchors@),
            cert_chain: byte_views(self.cert_chain@),
            private_key: self.private_key@,
        }
    }
}

/// An error with the file that is to blame.
pub open spec fn blamed<V>(file: IdentityFile, error: LoadErrorView) -> Result<
    V,
    IdentityErrorView,
> {
    Err(IdentityErrorView { file, error })
}

/// What a client presents itself with, and whom it trusts. The authorities come first, the private
/// key last, and the first error is reported.
pub open spec fn client_identity(
    options: ClientTlsOptions,
    rootca_path: Seq<char>,
    rootca: Result<Seq<u8>, Seq<char>>,
    certificate: Result<Seq<u8>, Seq<char>>,
    key: Result<Seq<u8>, Seq<char>>,
) -> Result<ClientIdentityView, IdentityErrorView> {
    match (
        read_and_load(rootca, |contents: Seq<u8>| root_anchors(contents)),
        read_and_load(certificate, |contents: Seq<u8>| client_chain(options, contents)),
        read_and_load(key, |contents: Seq<u8>| private_key(contents)),
    ) {
        (Err(error), _, _) => blamed(IdentityFile::Authorities, error),
        (_, Err(error), _) => blamed(IdentityFile::Certificate, error),
        (_, _, Err(error)) => blamed(IdentityFile::PrivateKey, error),
        (Ok(anchors), Ok(cert_chain), Ok(private_key)) => Ok(
            ClientIdentityView {
                anchors,
                rootca_path,
                authorities: some_certificates(pem_certificates(rootca->Ok_0))->Ok_0,
                cert_chain,
                private_key,
            },
        ),
    }
}

/// Loads what a client presents itself with, from what reading the three files gave.
pub fn load_client_identity(
    options: &ClientTlsOptions,
    rootca_path: &str,
    rootca: Result<Vec<u8>, String>,
    certificate: Result<Vec<u8>, String>,
    key: Result<Vec<u8>, String>,
) -> (result: Result<ClientIdentity, IdentityError>)
    ensures
        match result {
            Ok(identity) => client_identity(
                *options,
                rootca_path@,
                block_view(rootca),
                block_view(certificate),
                block_view(key),
            ) == Ok::<ClientIdentityView, IdentityErrorView>(identity@),
            Err(error) => client_identity(
                *options,
                rootca_path@,
                block_view(rootca),
                block_view(certificate),
                block_view(key),
            ) == Err::<ClientIdentityView, IdentityErrorView>(error@),
        },
{
    let rootca = match rootca {
        Ok(rootca) => rootca,
        Err(text) => {
            return Err(
                IdentityError {
                    file: IdentityFile::Authorities,
                    error: LoadError::Unreadable(text),
                },
            );
        },
    };
    let root_store = match load_root_cert_store(rootca.as_slice()) {
        Ok(root_store) => root_store,
        Err(error) => {
            return Err(IdentityError { file: IdentityFile::Authorities, error });
        },
    };
    let verifier = match PureRustServerCertVerifier::new(rootca_path, rootca.as_slice()) {
        Ok(verifier) => verifier,
        Err(error) => {
            return Err(IdentityError { file: IdentityFile::Authorities, error });
        },
    };
    let certificate = match certificate {
        Ok(certificate) => certificate,
        Err(text) => {
            return Err(
                IdentityError {
                    file: IdentityFile::Certificate,
                    error: LoadError::Unreadable(text),
                },
            );
        },
    };
    let cert_chain = match load_client_chain(options, certificate.as_slice()) {
        Ok(cert_chain) => cert_chain,
        Err(error) => {
            return Err(IdentityError { file: IdentityFile::Certificate, error });
        },
    };
    let key = match key {
        Ok(key) => key,
        Err(text) => {
            return Err(
                IdentityError {
                    file: IdentityFile::PrivateKey,
                    error: LoadError::Unreadable(text),
                },
            );
        },
    };
    match load_private_key(key.as_slice()) {
        Ok(private_key) => Ok(ClientIdentity { root_store, verifier, cert_chain, private_key }),
        Err(error) => Err(IdentityError { file: IdentityFile::PrivateKey, error }),
    }
}

/// How a server takes the certificates of its file of authorities.
#[derive(Clone, Copy, Debug, PartialEq, Eq, Structural)]
pub enum AnchorPolicy {
    /// All of them have to be good.
    AllGood,
    /// Those that cannot be parsed are left out.
    SomeParsable,
}

/// What a server presents itself with, and whose clients it trusts.
pub struct ServerIdentity {
    pub root_store: RootCertStore,
    pub cert_chain: Vec<Vec<u8>>,
    pub private_key: Vec<u8>,
}

/// The mathematical content of a [`ServerIdentity`].
#[verifier::ext_equal]
pub struct ServerIdentityView {
    pub anchors: Seq<TrustAnchorView>,
    pub cert_chain: Seq<Seq<u8>>,
    pub private_key: Seq<u8>,
}

impl View for ServerIdentity {
    type V = ServerIdentityView;

    open spec fn view(&self) -> ServerIdentityView {
        ServerIdentityView {
            anchors: root_store_anchors(self.root_store),
            cert_chain: byte_views(self.cert_chain@),
            private_key: self.private_key@,
        }
    }
}

/// The trust anchors of a server.
pub open spec fn server_anchors(policy: AnchorPolicy, contents: Seq<u8>) -> Result<
    Seq<TrustAnchorView>,
    LoadErrorView,
> {
    match policy {
        AnchorPolicy::AllGood => root_anchors(contents),
        AnchorPolicy::SomeParsable => lenient_root_anchors(contents),
    }
}

/// What a server presents itself with, and whose clients it trusts. The authorities come first, the
/// private key last, and the first error is reported.
pub open spec fn server_identity(
    policy: AnchorPolicy,
    rootca: Result<Seq<u8>, Seq<char>>,
    certificate: Result<Seq<u8>, Seq<char>>,
    key: Result<Seq<u8>, Seq<char>>,
) -> Result<ServerIdentityView, IdentityErrorView> {
    match (
        read_and_load(rootca, |contents: Seq<u8>| server_anchors(policy, contents)),
        read_and_load(
            certificate,
            |contents: Seq<u8>| some_certificates(pem_certificates(contents)),
        ),
        read_and_load(key, |contents: Seq<u8>| private_key(contents)),
    ) {
        (Err(error), _, _) => blamed(IdentityFile::Authorities, error),
        (_, Err(error), _) => blamed(IdentityFile::Certificate, error),
        (_, _, Err(error)) => blamed(IdentityFile::PrivateKey, error),
        (Ok(anchors), Ok(cert_chain), Ok(private_key)) => Ok(
            ServerIdentityView { anchors, cert_chain, private_key },
        ),
    }
}

/// Loads what a server presents itself with, from what reading the three files gave.
pub fn load_server_identity(
    policy: AnchorPolicy,
    rootca: Result<Vec<u8>, String>,
    certificate: Result<Vec<u8>, String>,
    key: Result<Vec<u8>, String>,
) -> (result: Result<ServerIdentity, IdentityError>)
    ensures
        match result {
            Ok(identity) => server_identity(
                policy,
                block_view(rootca),
                block_view(certificate),
                block_view(key),
            ) == Ok::<ServerIdentityView, IdentityErrorView>(identity@),
            Err(error) => server_identity(
                policy,
                block_view(rootca),
                block_view(certificate),
                block_view(key),
            ) == Err::<ServerIdentityView, IdentityErrorView>(error@),
        },
{
    let rootca = match rootca {
        Ok(rootca) => rootca,
        Err(text) => {
            return Err(
                IdentityError {
                    file: IdentityFile::Authorities,
                    error: LoadError::Unreadable(text),
                },
            );
        },
    };
    let loaded = match policy {
        AnchorPolicy::AllGood => load_root_cert_store(rootca.as_slice()),
        AnchorPolicy::SomeParsable => load_parsable_root_cert_store(rootca.as_slice()),
    };
    let root_store = match loaded {
        Ok(root_store) => root_store,
        Err(error) => {
            return Err(IdentityError { file: IdentityFile::Authorities, error });
        },
    };
    let certificate = match certificate {
        Ok(certificate) => certificate,
        Err(text) => {
            return Err(
                IdentityError {
                    file: IdentityFile::Certificate,
                    error: LoadError::Unreadable(text),
                },
            );
        },
    };
    let cert_chain = match load_certificates(certificate.as_slice()) {
        Ok(cert_chain) => cert_chain,
        Err(error) => {
            return Err(IdentityError { file: IdentityFile::Certificate, error });
        },
    };
    let key = match key {
        Ok(key) => key,
        Err(text) => {
            return Err(
                IdentityError {
                    file: IdentityFile::PrivateKey,
                    error: LoadError::Unreadable(text),
                },
            );
        },
    };
    match load_private_key(key.as_slice()) {
        Ok(private_key) => Ok(ServerIdentity { root_store, cert_chain, private_key }),
        Err(error) => Err(IdentityError { file: IdentityFile::PrivateKey, error }),
    }
}

/// A client that is to present the whole file presents all certificates in it, in order, and any other
/// presents the first alone; a file without certificates and one that cannot be read are errors for
/// both.
pub proof fn law_certificates_that_a_client_presents(options: ClientTlsOptions, contents: Seq<u8>)
    ensures
        pem_certificates(contents) matches Err(text) ==> client_chain(options, contents) == Err::<
            Seq<Seq<u8>>,
            LoadErrorView,
        >(LoadErrorView::Pem(text)),
        pem_certificates(contents) matches Ok(ders) ==> {
            &&& ders.len() == 0 ==> client_chain(options, contents) == Err::<
                Seq<Seq<u8>>,
                LoadErrorView,
            >(LoadErrorView::NoCertificates)
            &&& ders.len() > 0 ==> {
                &&& client_chain(options, contents) matches Ok(chain)
                &&& options.use_certificate_chain_file ==> chain == ders
                &&& !options.use_certificate_chain_file ==> chain.len() == 1 && chain[0] == ders[0]
            }
        },
{
}

/// A client gets an identity if and only if all three files can be read and yield what they should,
/// and the identity holds what they yield and the path of the authorities.
pub proof fn law_identity_of_a_client(
    options: ClientTlsOptions,
    rootca_path: Seq<char>,
    rootca: Result<Seq<u8>, Seq<char>>,
    certificate: Result<Seq<u8>, Seq<char>>,
    key: Result<Seq<u8>, Seq<char>>,
)
    ensures
        ({
            let loaded = client_identity(options, rootca_path, rootca, certificate, key);
            &&& loaded is Ok <==> {
                &&& rootca is Ok && root_anchors(rootca->Ok_0) is Ok
                &&& certificate is Ok && client_chain(options, certificate->Ok_0) is Ok
                &&& key is Ok && private_key(key->Ok_0) is Ok
            }
            &&& loaded matches Ok(identity) ==> {
                &&& identity.anchors == root_anchors(rootca->Ok_0)->Ok_0
                &&& identity.rootca_path == rootca_path
                &&& pem_certificates(rootca->Ok_0) == Ok::<Seq<Seq<u8>>, Seq<char>>(
                    identity.authorities,
                )
                &&& client_chain(options, certificate->Ok_0) == Ok::<Seq<Seq<u8>>, LoadErrorView>(
                    identity.cert_chain,
                )
                &&& private_key(key->Ok_0) == Ok::<Seq<u8>, LoadErrorView>(identity.private_key)
            }
        }),
{
}

/// What is wrong with the authorities of a client is reported before what is wrong with its
/// certificate, and that before what is wrong with its private key, each with the file to blame.
pub proof fn law_first_file_of_a_client_is_blamed(
    options: ClientTlsOptions,
    rootca_path: Seq<char>,
    rootca: Result<Seq<u8>, Seq<char>>,
    certificate: Result<Seq<u8>, Seq<char>>,
    key: Result<Seq<u8>, Seq<char>>,
)
    ensures
        ({
            let loaded = client_identity(options, rootca_path, rootca, certificate, key);
            let anchored = rootca is Ok && root_anchors(rootca->Ok_0) is Ok;
            let chained = certificate is Ok && client_chain(options, certificate->Ok_0) is Ok;
            &&& rootca matches Err(text) ==> {
                &&& loaded matches Err(error)
                &&& error.file is Authorities
                &&& error.error == LoadErrorView::Unreadable(text)
            }
            &&& rootca matches Ok(contents) ==> root_anchors(contents) is Err ==> {
                &&& loaded matches Err(error)
                &&& error.file is Authorities
                &&& error.error == root_anchors(contents)->Err_0
            }
            &&& certificate matches Err(text) ==> anchored ==> {
                &&& loaded matches Err(error)
                &&& error.file is Certificate
                &&& error.error == LoadErrorView::Unreadable(text)
            }
            &&& certificate matches Ok(contents) ==> anchored ==> client_chain(
                options,
                contents,
            ) is Err ==> {
                &&& loaded matches Err(error)
                &&& error.file is Certificate
                &&& error.error == client_chain(options, contents)->Err_0
            }
            &&& key matches Err(text) ==> anchored && chained ==> {
                &&& loaded matches Err(error)
                &&& error.file is PrivateKey
                &&& error.error == LoadErrorView::Unreadable(text)
            }
            &&& key matches Ok(contents) ==> anchored && chained ==> private_key(contents) is Err
                ==> {
                &&& loaded matches Err(error)
                &&& error.file is PrivateKey
                &&& error.error == private_key(contents)->Err_0
            }
        }),
{
}

/// A server that takes good authorities only goes by all certificates of the file, and one that leaves
/// some out by those that can be parsed.
pub proof fn law_anchors_of_a_server(policy: AnchorPolicy, contents: Seq<u8>)
    ensures
        policy is AllGood ==> server_anchors(policy, contents) == root_anchors(contents),
        policy is SomeParsable ==> server_anchors(policy, contents) == lenient_root_anchors(
            contents,
        ),
{
}

/// A server gets an identity if and only if all three files can be read and yield what they should,
/// and the identity holds what they yield, with all certificates of its own file.
pub proof fn law_identity_of_a_server(
    policy: AnchorPolicy,
    rootca: Result<Seq<u8>, Seq<char>>,
    certificate: Result<Seq<u8>, Seq<char>>,
    key: Result<Seq<u8>, Seq<char>>,
)
    ensures
        ({
            let loaded = server_identity(policy, rootca, certificate, key);
            &&& loaded is Ok <==> {
                &&& rootca is Ok && server_anchors(policy, rootca->Ok_0) is Ok
                &&& certificate is Ok && pem_certificates(certificate->Ok_0) is Ok
                    && pem_certificates(certificate->Ok_0)->Ok_0.len() > 0
                &&& key is Ok && private_key(key->Ok_0) is Ok
            }
            &&& loaded matches Ok(identity) ==> {
                &&& identity.anchors == server_anchors(policy, rootca->Ok_0)->Ok_0
                &&& identity.cert_chain == pem_certificates(certificate->Ok_0)->Ok_0
                &&& identity.private_key == private_key(key->Ok_0)->Ok_0
            }
        }),
{
}

/// What is wrong with the authorities of a server is reported before what is wrong with its
/// certificate, and that before what is wrong with its private key, each with the file to blame.
pub proof fn law_first_file_of_a_server_is_blamed(
    policy: AnchorPolicy,
    rootca: Result<Seq<u8>, Seq<char>>,
    certificate: Result<Seq<u8>, Seq<char>>,
    key: Result<Seq<u8>, Seq<char>>,
)
    ensures
        ({
            let loaded = server_identity(policy, rootca, certificate, key);
            let anchored = rootca is Ok && server_anchors(policy, rootca->Ok_0) is Ok;
            let chained = certificate is Ok && pem_certificates(certificate->Ok_0) is Ok
                && pem_certificates(certificate->Ok_0)->Ok_0.len() > 0;
            &&& rootca matches Err(text) ==> {
                &&& loaded matches Err(error)
                &&& error.file is Authorities
                &&& error.error == LoadErrorView::Unreadable(text)
            }
            &&& rootca matches Ok(contents) ==> server_anchors(policy, contents) is Err ==> {
                &&& loaded matches Err(error)
                &&& error.file is Authorities
                &&& error.error == server_anchors(policy, contents)->Err_0
            }
            &&& certificate matches Err(text) ==> anchored ==> {
                &&& loaded matches Err(error)
                &&& error.file is Certificate
                &&& error.error == LoadErrorView::Unreadable(text)
            }
            &&& certificate matches Ok(contents) ==> pem_certificates(contents) matches Err(text)
                ==> anchored ==> {
                &&& loaded matches Err(error)
                &&& error.file is Certificate
                &&& error.error == LoadErrorView::Pem(text)
            }
            &&& certificate matches Ok(contents) ==> pem_certificates(contents) matches Ok(ders)
                ==> anchored && ders.len() == 0 ==> {
                &&& loaded matches Err(error)
                &&& error.file is Certificate
                &&& error.error is NoCertificates
            }
            &&& key matches Err(text) ==> anchored && chained ==> {
                &&& loaded matches Err(error)
                &&& error.file is PrivateKey
                &&& error.error == LoadErrorView::Unreadable(text)
            }
            &&& key matches Ok(contents) ==> anchored && chained ==> private_key(contents) is Err
                ==> {
                &&& loaded matches Err(error)
                &&& error.file is PrivateKey
                &&& error.error == private_key(contents)->Err_0
            }
        }),
{
}

/// The numbers that TLS gives to what peers negotiate.
pub proof fn law_numbers_of_tls()
    ensures
        DEFAULT_TLS_CLIENT_CIPHER_SUITE == 0xc02b,
        X25519 == 29,
        SECP256R1 == 23,
        SECP384R1 == 24,
        TLS12 == 0x0303,
{
}

/// The content of an identity is that of its parts.
pub proof fn law_identity_content(
    client: ClientIdentity,
    server: ServerIdentity,
    error: IdentityError,
)
    ensures
        client@.anchors == root_store_anchors(client.root_store),
        client@.rootca_path == client.verifier.rootca_path@,
        client@.authorities == byte_views(client.verifier.trust_anchors@),
        client@.cert_chain == byte_views(client.cert_chain@),
        client@.private_key == client.private_key@,
        server@.anchors == root_store_anchors(server.root_store),
        server@.cert_chain == byte_views(server.cert_chain@),
        server@.private_key == server.private_key@,
        error@.file == error.file,
        error@.error == error.error@,
{
}

} // verus!
