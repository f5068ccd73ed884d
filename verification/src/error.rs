//! Why a peer is refused.

use vstd::prelude::*;

verus! {

/// A fault of a certificate that the TLS alert protocol has a word for.
#[derive(Clone, Copy, Debug, PartialEq, Eq, Structural)]
pub enum CertificateError {
    /// The certificate cannot be parsed.
    BadEncoding,
    /// No trust anchor stands behind the certificate.
    UnknownIssuer,
    /// The certificate is not for the server that was asked for.
    NotValidForName,
    /// The extended key usage of the certificate does not include TLS servers.
    InvalidPurpose,
}

impl CertificateError {
    /// The name of the error.
    pub open spec fn name_text(self) -> Seq<char> {
        match self {
            CertificateError::BadEncoding => "BadEncoding"@,
            CertificateError::UnknownIssuer => "UnknownIssuer"@,
            CertificateError::NotValidForName => "NotValidForName"@,
            CertificateError::InvalidPurpose => "InvalidPurpose"@,
        }
    }

    /// The name of the error.
    pub fn name(&self) -> (text: &'static str)
        ensures
            text@ == self.name_text(),
    {
        match self {
            CertificateError::BadEncoding => "BadEncoding",
            CertificateError::UnknownIssuer => "UnknownIssuer",
            CertificateError::NotValidForName => "NotValidForName",
            CertificateError::InvalidPurpose => "InvalidPurpose",
        }
    }
}

/// Why a certificate, a chain or a handshake signature is refused.
#[derive(Debug, PartialEq, Eq)]
pub enum TlsError {
    /// The certificate has a fault that has a name of its own.
    InvalidCertificate(CertificateError),
    /// Any other reason, in words.
    General(String),
}

/// The mathematical content of a [`TlsError`].
pub enum TlsErrorView {
    /// See [`TlsError::InvalidCertificate`].
    InvalidCertificate(CertificateError),
    /// See [`TlsError::General`].
    General(Seq<char>),
}

/// What a check comes to.
pub type Outcome = Result<(), TlsErrorView>;

impl View for TlsError {
    type V = TlsErrorView;

    open spec fn view(&self) -> TlsErrorView {
        match self {
            TlsError::InvalidCertificate(error) => TlsErrorView::InvalidCertificate(*error),
            TlsError::General(text) => TlsErrorView::General(text@),
        }
    }
}

impl TlsErrorView {
    /// The error in words.
    pub open spec fn display_text(self) -> Seq<char> {
        match self {
            TlsErrorView::InvalidCertificate(error) => "invalid peer certificate: "@
                + error.name_text(),
            TlsErrorView::General(text) => "unexpected error: "@ + text,
        }
    }
}

impl TlsError {
    /// The error in words.
    pub fn display(&self) -> (text: String)
        ensures
            text@ == self@.display_text(),
    {
        match self {
            TlsError::InvalidCertificate(error) => "invalid peer certificate: ".to_owned().concat(
                error.name(),
            ),
            TlsError::General(text) => "unexpected error: ".to_owned().concat(text.as_str()),
        }
    }
}

/// A check that failed for a reason given in words.
pub open spec fn refused(text: Seq<char>) -> Outcome {
    Err(TlsErrorView::General(text))
}

/// A check that failed on a fault with a name of its own.
pub open spec fn invalid(error: CertificateError) -> Outcome {
    Err(TlsErrorView::InvalidCertificate(error))
}

/// What the result of a check says.
pub open spec fn outcome(result: Result<(), TlsError>) -> Outcome {
    match result {
        Ok(()) => Ok(()),
        Err(error) => Err(error@),
    }
}

/// One check after another: the first that fails decides.
pub open spec fn both(first: Outcome, second: Outcome) -> Outcome {
    match first {
        Ok(()) => second,
        Err(error) => Err(error),
    }
}

/// A result says what came of a check: success for success, and each error for itself.
pub proof fn law_results_say_what_came_of_a_check(result: Result<(), TlsError>)
    ensures
        match result {
            Ok(()) => outcome(result) == Ok::<(), TlsErrorView>(()),
            Err(TlsError::InvalidCertificate(error)) => outcome(result) == Err::<(), TlsErrorView>(
                TlsErrorView::InvalidCertificate(error),
            ),
            Err(TlsError::General(text)) => outcome(result) == Err::<(), TlsErrorView>(
                TlsErrorView::General(text@),
            ),
        },
{
}

/// A named fault is put in words by its name, any other reason by its own words.
pub proof fn law_errors_in_words(text: Seq<char>)
    ensures
        TlsErrorView::General(text).display_text() == "unexpected error: "@ + text,
        TlsErrorView::InvalidCertificate(CertificateError::BadEncoding).display_text()
            == "invalid peer certificate: "@ + "BadEncoding"@,
        TlsErrorView::InvalidCertificate(CertificateError::UnknownIssuer).display_text()
            == "invalid peer certificate: "@ + "UnknownIssuer"@,
        TlsErrorView::InvalidCertificate(CertificateError::NotValidForName).display_text()
            == "invalid peer certificate: "@ + "NotValidForName"@,
        TlsErrorView::InvalidCertificate(CertificateError::InvalidPurpose).display_text()
            == "invalid peer certificate: "@ + "InvalidPurpose"@,
{
}

} // verus!
