use sep2_tls::certificate::{
    BasicConstraints, ExtendedKeyUsage, Extension, ExtensionKind, GeneralName, KeyUsage,
};
use sep2_tls::chain::{issuance_table, search_chain, verify_chain_to_trust_anchor};
use sep2_tls::der::DerError;
use sep2_tls::error::{CertificateError, TlsError};
use sep2_tls::identity::{
    client_tls_parameters, load_client_chain, load_client_identity, load_server_identity,
    server_tls_parameters, AnchorPolicy, ClientTlsOptions, IdentityFile,
    DEFAULT_TLS_CLIENT_CIPHER_SUITE,
};
use sep2_tls::load::{
    find_name_constraints, first_private_key, load_certificates, load_parsable_root_cert_store,
    load_private_key, load_root_cert_store, read_certificate_der, require_certificates,
    trust_anchor_of, LoadError,
};
use sep2_tls::names::{IpAddress, ServerName};
use sep2_tls::pem::PemItem;
use sep2_tls::profile::{
    check_ca, check_device_cert, check_self_signed_client_cert, Profile, ProfileError, Required,
    Violation,
};
use sep2_tls::server_cert::{check_server_certificate, report_chain, PureRustServerCertVerifier};
use sep2_tls::signature::{
    comes_to_malformed_key, ensure_tls13_signature_curve, try_verify_handshake_signature,
    verify_handshake_signature, SignatureScheme,
};
use sep2_tls::x509::{
    certificate_is_issued_by, decode_certificate, find_basic_constraints, find_extended_key_usage,
    find_key_usage, find_unique_extension, parse_x509_certificate, parse_x509_certificates,
};

/// A certificate authority that fits its profile.
const ROOT: &str = "\
-----BEGIN CERTIFICATE-----
MIIBdTCCARygAwIBAgICA+kwCgYIKoZIzj0EAwIwFDESMBAGA1UEAwwJVGVzdCBS
b290MB4XDTIwMDEwMTAwMDAwMFoXDTQwMDEwMTAwMDAwMFowFDESMBAGA1UEAwwJ
VGVzdCBSb290MFkwEwYHKoZIzj0CAQYIKoZIzj0DAQcDQgAEuRcqYOQZHIM1E8cy
E7FrQa4seOuFz74sg52BSUlzr7DXgBm6Gh0F4SsssB4Q07ArsEndayKOQhg0E8pT
2UJckKNeMFwwDwYDVR0TAQH/BAUwAwEB/zAOBgNVHQ8BAf8EBAMCAQYwGgYDVR0g
AQH/BBAwDjAMBgorBgEEAYK+HAIBMB0GA1UdDgQWBBR4F+zPhqSKU8FZ2zQMjTI6
gK2FtzAKBggqhkjOPQQDAgNHADBEAiAerucb4TnTp2fKGyQid8reoxRz3HvTdCW0
HD9Ntzn0VwIgIMz0iV4dEUO1UHzk7b7HizmryM8WwavG22CEkETARRI=
-----END CERTIFICATE-----
";

/// An authority below the root with room for none below itself.
const ISSUER: &str = "\
-----BEGIN CERTIFICATE-----
MIIBPjCB5qADAgECAgID6jAKBggqhkjOPQQDAjAUMRIwEAYDVQQDDAlUZXN0IFJv
b3QwHhcNMjAwMTAxMDAwMDAwWhcNNDAwMTAxMDAwMDAwWjAWMRQwEgYDVQQDDAtU
ZXN0IElzc3VlcjBZMBMGByqGSM49AgEGCCqGSM49AwEHA0IABBJuDKwC3SSilIzb
oR88NqUSBgvAaX640pN6TUaCjWy+6tqSHwQmEU34meizYNaCLnK1JgtP8mOYS5VK
dpuWxnGjJjAkMBIGA1UdEwEB/wQIMAYBAf8CAQAwDgYDVR0PAQH/BAQDAgIEMAoG
CCqGSM49BAMCA0cAMEQCIH57/I3QgYSpJ1ZFls7N9E8WDXx82M1WwqvSLZs70OrE
AiB/bKtbBRzY4occgT1BPiUBXxu2yBg9gVv+Z3AsGuEWyg==
-----END CERTIFICATE-----
";

/// An authority below the issuer, for which there is no room.
const SUBORDINATE: &str = "\
-----BEGIN CERTIFICATE-----
MIIBQjCB6qADAgECAgID6zAKBggqhkjOPQQDAjAWMRQwEgYDVQQDDAtUZXN0IElz
c3VlcjAeFw0yMDAxMDEwMDAwMDBaFw00MDAxMDEwMDAwMDBaMBsxGTAXBgNVBAMM
EFRlc3QgU3Vib3JkaW5hdGUwWTATBgcqhkjOPQIBBggqhkjOPQMBBwNCAATnWCuo
IKavrsszD0DbZpij+jVGaYfrYpYeJWcMM3YLxC6owPctcp9P7iM8QxtDahONnQq/
a3pr5J1ZVsDOfiTnoyMwITAPBgNVHRMBAf8EBTADAQH/MA4GA1UdDwEB/wQEAwIC
BDAKBggqhkjOPQQDAgNHADBEAiBmne96SbbWvjnXSsS6ZNnt69RhyznehoneuKr3
SZ1fpQIgBtQMDyRoWZ3Pi1tH0q/Vc8s1YMcdRrbFUVYT8HtVZiU=
-----END CERTIFICATE-----
";

/// A server for `server.example`, `*.grid.example` and 127.0.0.1, below the issuer.
const SERVER: &str = "\
-----BEGIN CERTIFICATE-----
MIIBeDCCAR6gAwIBAgICA+wwCgYIKoZIzj0EAwIwFjEUMBIGA1UEAwwLVGVzdCBJ
c3N1ZXIwHhcNMjAwMTAxMDAwMDAwWhcNNDAwMTAxMDAwMDAwWjAaMRgwFgYDVQQD
DA9pZ25vcmVkLmV4YW1wbGUwWTATBgcqhkjOPQIBBggqhkjOPQMBBwNCAASOjTkg
ntrsngqmXQtjyKZH7LEnsGDXyA9d7v+LsT4RKV8Hk4OWuytF6rzsp2w4oc92wi+m
Ba7fuNCgI439UBRbo1gwVjAvBgNVHREEKDAmgg5zZXJ2ZXIuZXhhbXBsZYIOKi5n
cmlkLmV4YW1wbGWHBH8AAAEwEwYDVR0lBAwwCgYIKwYBBQUHAwEwDgYDVR0PAQH/
BAQDAgeAMAoGCCqGSM49BAMCA0gAMEUCIQC2L6NxejyTANHSkaf2F4AmVsk6J7Ap
n/RWko3x0pQOBwIgZsZiD9AV3i116ro0YG68omAxyWJZGCmHV5xFoLc6THo=
-----END CERTIFICATE-----
";

/// The same server, below the subordinate.
const SERVER_BELOW: &str = "\
-----BEGIN CERTIFICATE-----
MIIBfTCCASOgAwIBAgICA+0wCgYIKoZIzj0EAwIwGzEZMBcGA1UEAwwQVGVzdCBT
dWJvcmRpbmF0ZTAeFw0yMDAxMDEwMDAwMDBaFw00MDAxMDEwMDAwMDBaMBoxGDAW
BgNVBAMMD2lnbm9yZWQuZXhhbXBsZTBZMBMGByqGSM49AgEGCCqGSM49AwEHA0IA
BI6NOSCe2uyeCqZdC2PIpkfssSewYNfID13u/4uxPhEpXweTg5a7K0XqvOynbDih
z3bCL6YFrt+40KAjjf1QFFujWDBWMC8GA1UdEQQoMCaCDnNlcnZlci5leGFtcGxl
gg4qLmdyaWQuZXhhbXBsZYcEfwAAATATBgNVHSUEDDAKBggrBgEFBQcDATAOBgNV
HQ8BAf8EBAMCB4AwCgYIKoZIzj0EAwIDSAAwRQIhAOOJmll7KBKrIKmVhjdQ2S2r
uvDSwjfPyq1WG4XkdYOrAiAoKAUoT0uqD1gsz49NLT1vDpddjDiOt/tx0nFAGU7C
LQ==
-----END CERTIFICATE-----
";

/// A server without extensions, below the root; its common name is `plain.example`.
const SERVER_PLAIN: &str = "\
-----BEGIN CERTIFICATE-----
MIIBGjCBwKADAgECAgID7jAKBggqhkjOPQQDAjAUMRIwEAYDVQQDDAlUZXN0IFJv
b3QwHhcNMjAwMTAxMDAwMDAwWhcNNDAwMTAxMDAwMDAwWjAYMRYwFAYDVQQDDA1w
bGFpbi5leGFtcGxlMFkwEwYHKoZIzj0CAQYIKoZIzj0DAQcDQgAEjo05IJ7a7J4K
pl0LY8imR+yxJ7Bg18gPXe7/i7E+ESlfB5ODlrsrReq87KdsOKHPdsIvpgWu37jQ
oCON/VAUWzAKBggqhkjOPQQDAgNJADBGAiEA4XDs0FsBLltOgw7hbtn1JlRXCiHj
YK7Qh7LBxf34FTcCIQCS2ijFalQqmkBq2BOy0pxImXXljGlstw826ClCDzgyBw==
-----END CERTIFICATE-----
";

/// A server with critical name constraints.
const SERVER_CONSTRAINED: &str = "\
-----BEGIN CERTIFICATE-----
MIIBODCB36ADAgECAgID7zAKBggqhkjOPQQDAjAUMRIwEAYDVQQDDAlUZXN0IFJv
b3QwHhcNMjAwMTAxMDAwMDAwWhcNNDAwMTAxMDAwMDAwWjAYMRYwFAYDVQQDDA1w
bGFpbi5leGFtcGxlMFkwEwYHKoZIzj0CAQYIKoZIzj0DAQcDQgAEjo05IJ7a7J4K
pl0LY8imR+yxJ7Bg18gPXe7/i7E+ESlfB5ODlrsrReq87KdsOKHPdsIvpgWu37jQ
oCON/VAUW6MdMBswGQYDVR0eAQH/BA8wDaALMAmCB2V4YW1wbGUwCgYIKoZIzj0E
AwIDSAAwRQIgElUViJajV2ZKMK8sOKlycQ7bjWyV1RWUXr4nnpploJICIQCqBaBs
ARUF3lW/smNBVEfFBPiGsCPQsqlS/PsvVgsOqQ==
-----END CERTIFICATE-----
";

/// A server whose key may not sign.
const SERVER_NO_SIGN: &str = "\
-----BEGIN CERTIFICATE-----
MIIBLTCB1KADAgECAgID8DAKBggqhkjOPQQDAjAUMRIwEAYDVQQDDAlUZXN0IFJv
b3QwHhcNMjAwMTAxMDAwMDAwWhcNNDAwMTAxMDAwMDAwWjAYMRYwFAYDVQQDDA1w
bGFpbi5leGFtcGxlMFkwEwYHKoZIzj0CAQYIKoZIzj0DAQcDQgAEjo05IJ7a7J4K
pl0LY8imR+yxJ7Bg18gPXe7/i7E+ESlfB5ODlrsrReq87KdsOKHPdsIvpgWu37jQ
oCON/VAUW6MSMBAwDgYDVR0PAQH/BAQDAgMIMAoGCCqGSM49BAMCA0gAMEUCIQCV
5t/7geEzSHR8BUn1FRMu3Pv2wBu+VPja/grupGkQfwIgfW+ACiWCsrBYUfjuoHO7
Q1YHEuhX6z0/JF0TwpoThL4=
-----END CERTIFICATE-----
";

/// A server whose key is for clients only.
const SERVER_CLIENT_ONLY: &str = "\
-----BEGIN CERTIFICATE-----
MIIBMTCB2aADAgECAgID8TAKBggqhkjOPQQDAjAUMRIwEAYDVQQDDAlUZXN0IFJv
b3QwHhcNMjAwMTAxMDAwMDAwWhcNNDAwMTAxMDAwMDAwWjAYMRYwFAYDVQQDDA1w
bGFpbi5leGFtcGxlMFkwEwYHKoZIzj0CAQYIKoZIzj0DAQcDQgAEjo05IJ7a7J4K
pl0LY8imR+yxJ7Bg18gPXe7/i7E+ESlfB5ODlrsrReq87KdsOKHPdsIvpgWu37jQ
oCON/VAUW6MXMBUwEwYDVR0lBAwwCgYIKwYBBQUHAwIwCgYIKoZIzj0EAwIDRwAw
RAIgSazOdKBUj3LDsnq7G4wEJHYrQsgLPlqao/pOqiDPtKsCIEvgyKU2N39ch/Uz
sESeNMId/7wc3xPtwaAw3SJEqzxr
-----END CERTIFICATE-----
";

/// A server whose issuer is not known.
const STRANGER: &str = "\
-----BEGIN CERTIFICATE-----
MIIBFjCBvaADAgECAgID8jAKBggqhkjOPQQDAjARMQ8wDQYDVQQDDAZOb2JvZHkw
HhcNMjAwMTAxMDAwMDAwWhcNNDAwMTAxMDAwMDAwWjAYMRYwFAYDVQQDDA1wbGFp
bi5leGFtcGxlMFkwEwYHKoZIzj0CAQYIKoZIzj0DAQcDQgAEjo05IJ7a7J4Kpl0L
Y8imR+yxJ7Bg18gPXe7/i7E+ESlfB5ODlrsrReq87KdsOKHPdsIvpgWu37jQoCON
/VAUWzAKBggqhkjOPQQDAgNIADBFAiEAh/pUZ+rJDyPzLSOUGbzJPPRg4Cn9cyuH
d/mEHH3BHKgCIFsCnw7FnCwrZ9LGkUwgmaGACJheHTaA7M7gq0o3q7a8
-----END CERTIFICATE-----
";

/// A server that another server issued.
const BELOW_PLAIN: &str = "\
-----BEGIN CERTIFICATE-----
MIIBHDCBxKADAgECAgID8zAKBggqhkjOPQQDAjAYMRYwFAYDVQQDDA1wbGFpbi5l
eGFtcGxlMB4XDTIwMDEwMTAwMDAwMFoXDTQwMDEwMTAwMDAwMFowGDEWMBQGA1UE
AwwNcGxhaW4uZXhhbXBsZTBZMBMGByqGSM49AgEGCCqGSM49AwEHA0IABFtmAaO6
+ORL37XlK5jCa9JUfTta37vP3E54HUgDZTWC4DjtdXDZh1NOZO6gcl578KMS3+qv
LxvR7KlEAhgkpq4wCgYIKoZIzj0EAwIDRwAwRAIgBKxMp8Ag+H+tjgaF7iurdbSq
HbAM0Lg2dwA1A7S7UrwCIFUqmH1XGTr/NLhPjWVorYmbNdeskB5cMZbzbPNOcuo9
-----END CERTIFICATE-----
";

/// A device that fits its profile, below the issuer.
const DEVICE: &str = "\
-----BEGIN CERTIFICATE-----
MIIBkTCCATigAwIBAgICA/QwCgYIKoZIzj0EAwIwFjEUMBIGA1UEAwwLVGVzdCBJ
c3N1ZXIwHhcNMjAwMTAxMDAwMDAwWhcNNDAwMTAxMDAwMDAwWjARMQ8wDQYDVQQD
DAZkZXZpY2UwWTATBgcqhkjOPQIBBggqhkjOPQMBBwNCAARbZgGjuvjkS9+15SuY
wmvSVH07Wt+7z9xOeB1IA2U1guA47XVw2YdTTmTuoHJee/CjEt/qry8b0eypRAIY
JKauo3sweTAOBgNVHQ8BAf8EBAMCA4gwGgYDVR0gAQH/BBAwDjAMBgorBgEEAYK+
HAIBMCoGA1UdEQEB/wQgMB6gHAYIKwYBBQUHCASgEDAOBgkrBgEEAYK+HAEEAaow
HwYDVR0jBBgwFoAUReHxo/l7bNeEFCFc+Bpck0TKX/8wCgYIKoZIzj0EAwIDRwAw
RAIgU1rZI6hWXeod1oWSXhQ2UhMr9q+YUqezH3+NL1++R44CIFgVXqcxP2a/oG2z
M1rBD4Bc9ViH3mDqi982KGtferuF
-----END CERTIFICATE-----
";

/// A client that signed its own certificate and fits its profile.
const CLIENT: &str = "\
-----BEGIN CERTIFICATE-----
MIIBXzCCAQWgAwIBAgICA/UwCgYIKoZIzj0EAwIwETEPMA0GA1UEAwwGY2xpZW50
MB4XDTIwMDEwMTAwMDAwMFoXDTQwMDEwMTAwMDAwMFowETEPMA0GA1UEAwwGY2xp
ZW50MFkwEwYHKoZIzj0CAQYIKoZIzj0DAQcDQgAEQ+1Nf8Fuw96mOHLQFr+ZKfjr
hPx/LeL+m+AjUySvmoWJxQRojVHzHEE42a1iZOhdWG4RTklpqUmpNJzQF0NLqKNN
MEswDgYDVR0PAQH/BAQDAgeAMBoGA1UdIAEB/wQQMA4wDAYKKwYBBAGCvhwCATAd
BgNVHQ4EFgQUt6yDaJts1VdPCis0xZzUh5+rRVQwCgYIKoZIzj0EAwIDSAAwRQIh
AK6uFf34jdMtpeD+JhiJTBGQ2Lg5xFMotjY0wE4mj829AiB8oU0FDtGwEEod7VDK
mH3QfHdBLJJFmK7ZFchGtmETbA==
-----END CERTIFICATE-----
";

/// A server with an RSA key.
const RSA_SERVER: &str = "\
-----BEGIN CERTIFICATE-----
MIIB4jCCAYmgAwIBAgICA/YwCgYIKoZIzj0EAwIwFDESMBAGA1UEAwwJVGVzdCBS
b290MB4XDTIwMDEwMTAwMDAwMFoXDTQwMDEwMTAwMDAwMFowFjEUMBIGA1UEAwwL
cnNhLmV4YW1wbGUwggEiMA0GCSqGSIb3DQEBAQUAA4IBDwAwggEKAoIBAQCvRnSy
Xm2HMEiKAqPGm8S66vkjrH4J+rdkK2wKDXSZO1VBTvwIO4YRbbYMaBKUMaZwlwVx
bxMjhTNegIXHuD/pHATdWRZiUO4/KEML3sZY9cx1JV9K62dRPWMDAHQXqfymVI7a
KDtItHpc/j5kdqu9B4QScrR7mxR3On9cvta1So3HgNkfLGCX08pMCVh0FiKsgjiE
Zwmy6Tr0Ke0hv7q25SDtzYBhM2qKA1TO/DDVsfQlyyNc5Ouj4OwEWYOrKvnuxKaY
p6WfoBiwQPeIYAU9Fdzlovt1on4Or+BJop0V/j2FgEt3AL1g0N66Ki1NOISMRRsU
V21joSp67yG40uhPAgMBAAEwCgYIKoZIzj0EAwIDRwAwRAIgBv+Y+y8mwT78Ak/4
rbdh6rmVA+iGSGUle6Xt5ZTqwhwCIAvQ4o1uKF2IMEB8h+58CykS7U3QKLY76uuu
PWFJm1jD
-----END CERTIFICATE-----
";

/// A server with an Ed25519 key.
const ED_SERVER: &str = "\
-----BEGIN CERTIFICATE-----
MIHnMIGOoAMCAQICAgP3MAoGCCqGSM49BAMCMBQxEjAQBgNVBAMMCVRlc3QgUm9v
dDAeFw0yMDAxMDEwMDAwMDBaFw00MDAxMDEwMDAwMDBaMBUxEzARBgNVBAMMCmVk
LmV4YW1wbGUwKjAFBgMrZXADIQArcNQ3ZfN+cQOuLwQfXVg8za6ePzDS4gGrqIVX
p3biAjAKBggqhkjOPQQDAgNIADBFAiEAt3iCkDJj9W0/sJZ2pIXbNSbwmD3dLOal
UUOg7g0imAkCIGwNyekr7uniqpKCvMiuC7TosqQOzAvaFcYGO/OtYs9K
-----END CERTIFICATE-----
";

/// A server with an Ed448 key.
const ED448_SERVER: &str = "\
-----BEGIN CERTIFICATE-----
MIIBAzCBqqADAgECAgID+DAKBggqhkjOPQQDAjAUMRIwEAYDVQQDDAlUZXN0IFJv
b3QwHhcNMjAwMTAxMDAwMDAwWhcNNDAwMTAxMDAwMDAwWjAYMRYwFAYDVQQDDA1l
ZDQ0OC5leGFtcGxlMEMwBQYDK2VxAzoAxrRbkvaTBDDikPAzb9EbUmwgrZYAMYR8
9sXc4yhzIUuOQgGMVHVyzWLT2t3eFSAKmI0QqtlzVbsAMAoGCCqGSM49BAMCA0gA
MEUCIQCtaT3vapIZaqutCsWBQ2wIXxbQqVeR4IlTl/+iP4IkEgIgFYq+PLFJjpIX
tuWO1zDljDgNjLAzrHJP70EIWBNFgbw=
-----END CERTIFICATE-----
";

/// A server with a key on the curve secp384r1.
const P384_SERVER: &str = "\
-----BEGIN CERTIFICATE-----
MIIBNTCB3KADAgECAgID+TAKBggqhkjOPQQDAjAUMRIwEAYDVQQDDAlUZXN0IFJv
b3QwHhcNMjAwMTAxMDAwMDAwWhcNNDAwMTAxMDAwMDAwWjAXMRUwEwYDVQQDDAxw
Mzg0LmV4YW1wbGUwdjAQBgcqhkjOPQIBBgUrgQQAIgNiAASInOD9CMlCC1R6XwbW
jCXQNpSsiofouP+Vu3X2rgs7PFIasXCudgdevumOvzoMIcyeb30dl6M49cDDrfPd
JySYsDvnMri19y9it9TeGbGsvaQfTLLbytnVggOgMBlMhmUwCgYIKoZIzj0EAwID
SAAwRQIgFkIrGi9sSZCC393IvyFKRAjAh5Vp6KhvWQ/AdKwIpcwCIQC3kU0Nr3on
4Od3rxXtwub5Yt2pxU1NznKswk+plTUmdQ==
-----END CERTIFICATE-----
";

/// A server with an Ed25519 key of 31 bytes.
const MALFORMED_ED_SERVER: &str = "\
-----BEGIN CERTIFICATE-----
MIHmMIGNoAMCAQICAgP3MAoGCCqGSM49BAMCMBQxEjAQBgNVBAMMCVRlc3QgUm9v
dDAeFw0yMDAxMDEwMDAwMDBaFw00MDAxMDEwMDAwMDBaMBUxEzARBgNVBAMMCmVk
LmV4YW1wbGUwKTAFBgMrZXADIAArcNQ3ZfN+cQOuLwQfXVg8za6ePzDS4gGrqIVX
p3biMAoGCCqGSM49BAMCA0gAMEUCIQC3eIKQMmP1bT+wlnakhds1JvCYPd0s5qVR
Q6DuDSKYCQIgbA3J6Svu6eKqkoK8yK4LtOiypA7MC9oVxgY7861iz0o=
-----END CERTIFICATE-----
";

/// A server with each of four extensions twice.
const TWICE: &str = "\
-----BEGIN CERTIFICATE-----
MIIBtTCCAVqgAwIBAgICA+4wCgYIKoZIzj0EAwIwFDESMBAGA1UEAwwJVGVzdCBS
b290MB4XDTIwMDEwMTAwMDAwMFoXDTQwMDEwMTAwMDAwMFowGDEWMBQGA1UEAwwN
cGxhaW4uZXhhbXBsZTBZMBMGByqGSM49AgEGCCqGSM49AwEHA0IABI6NOSCe2uye
CqZdC2PIpkfssSewYNfID13u/4uxPhEpXweTg5a7K0XqvOynbDihz3bCL6YFrt+4
0KAjjf1QFFujgZcwgZQwCwYDVR0PBAQDAgeAMBgGA1UdEQQRMA+CDXBsYWluLmV4
YW1wbGUwDAYDVR0TBAUwAwEB/zATBgNVHSUEDDAKBggrBgEFBQcDATALBgNVHQ8E
BAMCB4AwGAYDVR0RBBEwD4INcGxhaW4uZXhhbXBsZTAMBgNVHRMEBTADAQH/MBMG
A1UdJQQMMAoGCCsGAQUFBwMBMAoGCCqGSM49BAMCA0kAMEYCIQDhcOzQWwEuW06D
DuFu2fUmVFcKIeNgrtCHssHF/fgVNwIhAJLaKMVqVCqaQGrYE7LSnEiZdeWMaWy3
DzboKUIPODIH
-----END CERTIFICATE-----
";

/// A server with four extensions that cannot be parsed.
const BROKEN: &str = "\
-----BEGIN CERTIFICATE-----
MIIBSjCB8KADAgECAgID7jAKBggqhkjOPQQDAjAUMRIwEAYDVQQDDAlUZXN0IFJv
b3QwHhcNMjAwMTAxMDAwMDAwWhcNNDAwMTAxMDAwMDAwWjAYMRYwFAYDVQQDDA1w
bGFpbi5leGFtcGxlMFkwEwYHKoZIzj0CAQYIKoZIzj0DAQcDQgAEjo05IJ7a7J4K
pl0LY8imR+yxJ7Bg18gPXe7/i7E+ESlfB5ODlrsrReq87KdsOKHPdsIvpgWu37jQ
oCON/VAUW6MuMCwwCQYDVR0PBAIFADAJBgNVHREEAgUAMAkGA1UdEwQCBQAwCQYD
VR0lBAIFADAKBggqhkjOPQQDAgNJADBGAiEA4XDs0FsBLltOgw7hbtn1JlRXCiHj
YK7Qh7LBxf34FTcCIQCS2ijFalQqmkBq2BOy0pxImXXljGlstw826ClCDzgyBw==
-----END CERTIFICATE-----
";

/// The signature of the server on the transcript.
const P256_SIGNATURE: &str = "304402205d9bc2c8e48cbbc6bfca5db51faaf3598f067db8c31a76c5abf80a8e438218ec022020edf79885fe2ffb73255099705ee5bfb880205164e16f9507aacfda8cb4dfa1";

/// The signature of the server with the RSA key.
const RSA_SIGNATURE: &str = "358b6556db0e36743bcb7e914cb55252053d86644e9fda3e90f11226cce804959df2a03ddd2b7f12fa6a9e92f4a1f5f85137c7632542c7038840128b69e2c6549822cfeaf28a6b1f2db5247eecf92f65d728adcce7ac24a9ace52baada19fb4f7a894eaed27eb235fc3a923a08e910f2ae716278d06d772e374bd71c6770d03b429e9a5fe5a7e480241916a81c6027a1184a89ea7e7ffb6c7a0249b790b5b71f4d81d623b1caf198bab578d6549c817dce502fe14c9215e9cecb5bac2198b6cdc5e6a91014bc8c8a3a11b61d5d44860d5aa491f8ffdbee4a7fa03557d67545f1ae68517a4a939ad0fec7a70adbc3b875194afde4146bb2f85b9a5a4693ae81fc";

/// The signature of the server with the Ed25519 key.
const ED_SIGNATURE: &str = "7f802a3b5670136cc87fe92bf352ae1b6cceb25cee24f0a467da3aed22411bd62ac6dac84549aa0c2a97119dad07f3fc2bab189834cf39200b71f276967a5100";

/// The signature of the server with the key on secp384r1.
const P384_SIGNATURE: &str = "306402306e3d4ec82d266005306be7d253b0f6cf9b7232b18deaf2395b7739adcd35ddafaf44baa8f8cc5406b8ae17d6c18eea4702300d78c0fec652a954a597903629f9c7bea52dc13436b7e45586ab3846649a8a81eef85ac06bad039430e4bae08d40fb96";

const TRANSCRIPT: &[u8] = b"the transcript of a handshake";

/// A moment in 2030, in seconds since the start of 1970.
const NOW: u64 = 1_893_456_000;

fn der(pem: &str) -> Vec<u8> {
    read_certificate_der(pem.as_bytes()).unwrap()
}

fn bytes(hex: &str) -> Vec<u8> {
    (0..hex.len() / 2).map(|i| u8::from_str_radix(&hex[2 * i..2 * i + 2], 16).unwrap()).collect()
}

fn section(label: &str, base64: &str) -> String {
    format!("-----BEGIN {}-----\n{}\n-----END {}-----\n", label, base64, label)
}

fn general(text: &str) -> Result<(), TlsError> {
    Err(TlsError::General(text.to_string()))
}

fn host(name: &str) -> ServerName {
    ServerName::DnsName(name.to_string())
}

fn root_verifier() -> PureRustServerCertVerifier {
    PureRustServerCertVerifier::new("root.pem", ROOT.as_bytes()).unwrap()
}

fn verify(server: &str, intermediates: &[&str], name: &ServerName) -> Result<(), TlsError> {
    let intermediates: Vec<Vec<u8>> = intermediates.iter().map(|pem| der(pem)).collect();
    root_verifier().verify_server_cert(&der(server), &intermediates, name, Some(NOW))
}

// Certificates

#[test]
fn certificates_are_taken_apart() {
    let issuer = parse_x509_certificate(&der(ISSUER)).unwrap();
    let server = parse_x509_certificate(&der(SERVER)).unwrap();
    assert_eq!(server.der, der(SERVER));
    assert_eq!(server.issuer, issuer.subject);
    assert_ne!(server.issuer, server.subject);
    assert_eq!(server.not_before, 1_577_836_800_000_000_000);
    assert_eq!(server.not_after, 2_208_988_800_000_000_000);
    assert_eq!(server.key_usage, Ok(Some(KeyUsage { flags: 1 })));
    let purposes = server.extended_key_usage.unwrap().unwrap();
    assert!(purposes.server_auth && !purposes.any);
    assert_eq!(server.basic_constraints, Ok(None));
    assert_eq!(
        server.subject_alternative_name,
        Ok(Some(vec![
            GeneralName::DnsName("server.example".to_string()),
            GeneralName::DnsName("*.grid.example".to_string()),
            GeneralName::IpAddress(vec![127, 0, 0, 1]),
        ]))
    );
    assert_eq!(server.common_names, vec!["ignored.example".to_string()]);
    // The identifier of the curve secp256r1.
    assert_eq!(server.key_parameters, Some(vec![0x2a, 0x86, 0x48, 0xce, 0x3d, 3, 1, 7]));
    assert_eq!(server.public_key[..2], [0x30, 0x59]);
}

#[test]
fn extensions_are_listed_in_order() {
    let issuer = parse_x509_certificate(&der(ISSUER)).unwrap();
    let constraints = BasicConstraints { ca: true, path_len_constraint: Some(0) };
    assert_eq!(issuer.basic_constraints, Ok(Some(constraints)));
    assert_eq!(issuer.extensions.len(), 2);
    assert_eq!(issuer.extensions[0].encoded_oid, vec![0x55, 0x1d, 0x13]);
    assert_eq!(issuer.extensions[0].oid, "2.5.29.19");
    assert!(issuer.extensions[0].critical);
    assert_eq!(issuer.extensions[0].value, vec![0x30, 6, 1, 1, 0xff, 2, 1, 0]);
    assert_eq!(issuer.extensions[0].kind, ExtensionKind::BasicConstraints(constraints));
    assert_eq!(issuer.extensions[1].oid, "2.5.29.15");
    assert_eq!(
        issuer.extensions[1].kind,
        ExtensionKind::KeyUsage(KeyUsage { flags: 0x20 })
    );
}

#[test]
fn extensions_may_not_be_repeated() {
    let cert = parse_x509_certificate(&der(TWICE)).unwrap();
    assert_eq!(cert.extensions.len(), 8);
    let error = "duplicate extensions".to_string();
    assert_eq!(cert.key_usage, Err(error.clone()));
    assert_eq!(cert.extended_key_usage, Err(error.clone()));
    assert_eq!(cert.basic_constraints, Err(error.clone()));
    assert_eq!(cert.subject_alternative_name, Err(error));
    assert_eq!(
        verify(TWICE, &[], &host("plain.example")),
        general("invalid key usage extension: duplicate extensions")
    );
}

#[test]
fn extensions_have_to_be_well_formed() {
    let cert = parse_x509_certificate(&der(BROKEN)).unwrap();
    assert!(cert.extensions.iter().all(|extension| extension.kind == ExtensionKind::Other));
    let error = "invalid extensions".to_string();
    assert_eq!(cert.key_usage, Err(error.clone()));
    assert_eq!(cert.extended_key_usage, Err(error.clone()));
    assert_eq!(cert.basic_constraints, Ok(None));
    assert_eq!(cert.subject_alternative_name, Err(error));
}

#[test]
fn extensions_are_found_by_their_identifier() {
    let extension = |last: u8, kind: ExtensionKind| Extension {
        encoded_oid: vec![0x55, 0x1d, last],
        oid: String::new(),
        critical: false,
        value: vec![],
        kind,
    };
    let usage = KeyUsage { flags: 5 };
    let purposes = ExtendedKeyUsage { any: true, server_auth: false };
    let constraints = BasicConstraints { ca: false, path_len_constraint: Some(2) };
    let list = [
        extension(0x0f, ExtensionKind::KeyUsage(usage)),
        extension(0x25, ExtensionKind::ExtendedKeyUsage(purposes)),
        extension(0x13, ExtensionKind::BasicConstraints(constraints)),
        extension(0x20, ExtensionKind::Other),
        extension(0x20, ExtensionKind::Other),
    ];
    assert_eq!(find_key_usage(&list), Ok(Some(usage)));
    assert_eq!(find_extended_key_usage(&list), Ok(Some(purposes)));
    assert_eq!(find_basic_constraints(&list), Ok(Some(constraints)));
    assert_eq!(find_key_usage(&list[1..]), Ok(None));
    assert_eq!(find_extended_key_usage(&list[2..]), Ok(None));
    assert_eq!(find_basic_constraints(&list[3..]), Ok(None));
    assert_eq!(find_unique_extension(&list[..4], &[0x55, 0x1d, 0x20]), Ok(Some(ExtensionKind::Other)));
    assert_eq!(
        find_unique_extension(&list, &[0x55, 0x1d, 0x20]),
        Err("duplicate extensions".to_string())
    );
    // What counts is the identifier, not what an extension was understood as.
    let stray = [extension(0x20, ExtensionKind::KeyUsage(usage))];
    assert_eq!(find_key_usage(&stray), Ok(None));
    let wrong = [extension(0x0f, ExtensionKind::Other), extension(0x25, ExtensionKind::Other)];
    assert_eq!(find_key_usage(&wrong), Err("invalid extensions".to_string()));
    assert_eq!(find_extended_key_usage(&wrong), Err("invalid extensions".to_string()));
}

#[test]
fn extensions_are_told_apart() {
    let kinds = |pem: &str| {
        let cert = parse_x509_certificate(&der(pem)).unwrap();
        cert.extensions.iter().map(|extension| extension.kind).collect::<Vec<ExtensionKind>>()
    };
    assert_eq!(
        kinds(SERVER),
        vec![
            ExtensionKind::SubjectAlternativeName,
            ExtensionKind::ExtendedKeyUsage(ExtendedKeyUsage { any: false, server_auth: true }),
            ExtensionKind::KeyUsage(KeyUsage { flags: 1 }),
        ]
    );
    assert_eq!(
        kinds(ROOT)[2..],
        [ExtensionKind::CertificatePolicies, ExtensionKind::SubjectKeyIdentifier]
    );
    assert_eq!(kinds(DEVICE)[3], ExtensionKind::AuthorityKeyIdentifier);
    assert_eq!(kinds(SERVER_CONSTRAINED), vec![ExtensionKind::NameConstraints]);
}

#[test]
fn bytes_that_are_no_certificate_are_refused() {
    let bad = TlsError::InvalidCertificate(CertificateError::BadEncoding);
    assert_eq!(parse_x509_certificate(&[0x30, 0]), Err(bad));
    let failure = decode_certificate(&[]).unwrap_err();
    assert!(!failure.display.is_empty() && !failure.debug.is_empty());
    let bad = TlsError::InvalidCertificate(CertificateError::BadEncoding);
    assert_eq!(parse_x509_certificates(&[der(ROOT), vec![]]), Err(bad));
    assert_eq!(parse_x509_certificates(&[der(ROOT), der(ISSUER)]).unwrap().len(), 2);
    assert_eq!(parse_x509_certificates(&[]), Ok(vec![]));
}

#[test]
fn issuers_are_known_by_name_and_signature() {
    let parse = |pem: &str| parse_x509_certificate(&der(pem)).unwrap();
    let root = parse(ROOT);
    assert!(certificate_is_issued_by(&root, &root));
    assert!(certificate_is_issued_by(&parse(ISSUER), &root));
    assert!(certificate_is_issued_by(&parse(SERVER), &parse(ISSUER)));
    assert!(!certificate_is_issued_by(&parse(SERVER), &root));
    assert!(!certificate_is_issued_by(&root, &parse(ISSUER)));
    // The name is right, the signature is not.
    let mut forged = parse(ISSUER);
    forged.subject = parse(STRANGER).issuer;
    assert!(!certificate_is_issued_by(&parse(STRANGER), &forged));
}

// Chains

#[test]
fn tables_say_who_issued_whom() {
    let parse = |pem: &str| parse_x509_certificate(&der(pem)).unwrap();
    let table = issuance_table(
        &parse(SERVER_BELOW),
        &[parse(ISSUER), parse(SUBORDINATE)],
        &[parse(ROOT)],
    );
    assert_eq!(table.by_anchor, vec![vec![false], vec![true], vec![false]]);
    assert_eq!(
        table.by_intermediate,
        vec![vec![false, true], vec![false, false], vec![true, false]]
    );
}

#[test]
fn chains_lead_to_an_anchor() {
    let parse = |pem: &str| parse_x509_certificate(&der(pem)).unwrap();
    let now: i128 = 1_893_456_000_000_000_000;
    let mut used: Vec<usize> = vec![];
    let result = verify_chain_to_trust_anchor(
        &parse(SERVER),
        &[parse(SUBORDINATE), parse(ISSUER)],
        &[parse(ROOT)],
        now,
        0,
        &mut used,
    );
    assert_eq!(result, Ok(()));
    assert!(used.is_empty());
    let result = verify_chain_to_trust_anchor(
        &parse(SERVER),
        &[parse(SUBORDINATE), parse(ISSUER)],
        &[parse(ROOT)],
        now,
        1,
        &mut used,
    );
    assert_eq!(
        result,
        general(
            "issuer certificate path length constraint 0 exceeded by 1 subordinate CA certificates"
        )
    );
}

#[test]
fn going_on_is_a_search_of_its_own() {
    let parse = |pem: &str| parse_x509_certificate(&der(pem)).unwrap();
    let intermediates = [parse(ISSUER), parse(SUBORDINATE)];
    let anchors = [parse(ROOT)];
    let now: i128 = 1_893_456_000_000_000_000;
    let table = issuance_table(&parse(SERVER_BELOW), &intermediates, &anchors);
    for (index, start) in [ISSUER, SUBORDINATE].into_iter().enumerate() {
        for count in 0..3 {
            for used in [vec![], vec![0], vec![1]] {
                let (mut one, mut other) = (used.clone(), used);
                assert_eq!(
                    search_chain(
                        &table,
                        index + 1,
                        &intermediates,
                        &anchors,
                        now,
                        count,
                        &mut one
                    ),
                    verify_chain_to_trust_anchor(
                        &parse(start),
                        &intermediates,
                        &anchors,
                        now,
                        count,
                        &mut other
                    )
                );
            }
        }
    }
}

#[test]
fn more_intermediates_do_not_hurt_at_any_count() {
    let parse = |pem: &str| parse_x509_certificate(&der(pem)).unwrap();
    let now: i128 = 1_893_456_000_000_000_000;
    let search = |current: &str, intermediates: &[&str], count: usize| {
        let intermediates: Vec<_> = intermediates.iter().map(|pem| parse(pem)).collect();
        let mut used: Vec<usize> = vec![];
        verify_chain_to_trust_anchor(
            &parse(current),
            &intermediates,
            &[parse(ROOT)],
            now,
            count,
            &mut used,
        )
    };
    // The root has no longest path, so the issuer may stand below it at any count.
    for count in [0, 1, 7] {
        assert_eq!(search(ISSUER, &[], count), Ok(()));
        assert_eq!(search(ISSUER, &[DEVICE, ISSUER, SUBORDINATE], count), Ok(()));
    }
    assert_eq!(search(SERVER, &[ISSUER], 0), Ok(()));
    assert_eq!(search(SERVER, &[DEVICE, SUBORDINATE, ISSUER, ISSUER], 0), Ok(()));
}

// Servers

#[test]
fn server_is_verified() {
    assert_eq!(verify(SERVER, &[ISSUER], &host("server.example")), Ok(()));
    assert_eq!(verify(SERVER, &[SUBORDINATE, ISSUER], &host("a.grid.example.")), Ok(()));
    let address = ServerName::IpAddress(IpAddress::V4([127, 0, 0, 1]));
    assert_eq!(verify(SERVER, &[ISSUER], &address), Ok(()));
    assert_eq!(verify(SERVER_PLAIN, &[], &host("plain.example")), Ok(()));
}

#[test]
fn order_of_intermediates_does_not_matter() {
    let name = host("server.example");
    assert_eq!(verify(SERVER, &[ROOT, ISSUER, SUBORDINATE, DEVICE], &name), Ok(()));
    assert_eq!(verify(SERVER, &[DEVICE, SUBORDINATE, ISSUER, ROOT], &name), Ok(()));
}

#[test]
fn server_needs_an_issuer() {
    let unknown = general(
        "server certificate verification failed against root.pem: invalid peer certificate: UnknownIssuer",
    );
    assert_eq!(verify(SERVER, &[], &host("server.example")), unknown);
    assert_eq!(verify(STRANGER, &[ISSUER], &host("plain.example")), unknown);
}

#[test]
fn server_needs_authorities_above_it() {
    // Issued by a certificate that marks no authority.
    assert_eq!(
        verify(BELOW_PLAIN, &[SERVER_PLAIN], &host("plain.example")),
        general(
            "server certificate verification failed against root.pem: unexpected error: issuer certificate is missing basic constraints"
        )
    );
}

#[test]
fn server_is_too_far_below() {
    assert_eq!(
        verify(SERVER_BELOW, &[SUBORDINATE, ISSUER], &host("server.example")),
        general(
            "server certificate verification failed against root.pem: unexpected error: issuer certificate path length constraint 0 exceeded by 1 subordinate CA certificates"
        )
    );
}

#[test]
fn server_goes_by_its_name() {
    let wrong = TlsError::InvalidCertificate(CertificateError::NotValidForName);
    assert_eq!(verify(SERVER, &[ISSUER], &host("ignored.example")), Err(wrong));
}

#[test]
fn server_has_supported_extensions() {
    assert_eq!(
        verify(SERVER_CONSTRAINED, &[], &host("plain.example")),
        general("unsupported critical extension 2.5.29.30 in server certificate")
    );
    assert_eq!(
        verify(SERVER_NO_SIGN, &[], &host("plain.example")),
        general("server certificate key usage does not permit digital signatures")
    );
    let wrong = TlsError::InvalidCertificate(CertificateError::InvalidPurpose);
    assert_eq!(verify(SERVER_CLIENT_ONLY, &[], &host("plain.example")), Err(wrong));
}

#[test]
fn server_is_verified_at_a_time() {
    let check = |now: Option<u64>| {
        root_verifier().verify_certificate_chain(
            &der(SERVER_PLAIN),
            &[],
            &host("plain.example"),
            now,
        )
    };
    let expired = general("server certificate is not valid at the current time");
    assert_eq!(check(Some(1_577_836_799)), expired);
    assert_eq!(check(Some(1_577_836_800)), Ok(()));
    assert_eq!(check(Some(2_208_988_800)), Ok(()));
    assert_eq!(check(Some(2_208_988_801)), expired);
    assert_eq!(check(None), general("system time predates UNIX_EPOCH"));
}

#[test]
fn server_certificates_have_to_be_parsed() {
    let bad = || Err(TlsError::InvalidCertificate(CertificateError::BadEncoding));
    let name = host("plain.example");
    let verifier = root_verifier();
    assert_eq!(verifier.verify_server_cert(&[1], &[], &name, Some(NOW)), bad());
    assert_eq!(verifier.verify_server_cert(&der(SERVER_PLAIN), &[vec![]], &name, Some(NOW)), bad());
    let broken = PureRustServerCertVerifier {
        rootca_path: String::new(),
        trust_anchors: vec![der(ROOT), vec![1, 2, 3]],
    };
    assert_eq!(broken.verify_server_cert(&der(SERVER_PLAIN), &[], &name, Some(NOW)), bad());
    // The clock is looked at first.
    assert_eq!(
        verifier.verify_server_cert(&[1], &[], &name, None),
        general("system time predates UNIX_EPOCH")
    );
}

#[test]
fn server_is_checked_by_itself_first() {
    let server = parse_x509_certificate(&der(SERVER)).unwrap();
    let now: i128 = 1_893_456_000_000_000_000;
    assert_eq!(check_server_certificate(&server, &host("server.example"), now), Ok(()));
    assert_eq!(
        check_server_certificate(&server, &host("other"), 0),
        general("server certificate is not valid at the current time")
    );
}

#[test]
fn chain_reports_name_the_file() {
    assert_eq!(report_chain("ca.pem", Ok(())), Ok(()));
    assert_eq!(
        report_chain("ca.pem", general("no")),
        general("server certificate verification failed against ca.pem: unexpected error: no")
    );
}

#[test]
fn path_of_the_authorities_does_not_matter() {
    for path in ["", "other.pem"] {
        let verifier = PureRustServerCertVerifier::new(path, ROOT.as_bytes()).unwrap();
        assert_eq!(verifier.rootca_path, path);
        let name = host("plain.example");
        let result = verifier.verify_server_cert(&der(SERVER_PLAIN), &[], &name, Some(NOW));
        assert_eq!(result, Ok(()));
    }
}

#[test]
fn verifier_needs_certificates() {
    assert_eq!(
        PureRustServerCertVerifier::new("none.pem", b"nothing"),
        Err(LoadError::NoCertificates)
    );
}

// Handshake signatures

#[test]
fn signatures_are_verified() {
    let verifier = root_verifier();
    let accepted = [
        (SERVER, SignatureScheme::ECDSA_NISTP256_SHA256, P256_SIGNATURE),
        (RSA_SERVER, SignatureScheme::RSA_PKCS1_SHA256, RSA_SIGNATURE),
        (ED_SERVER, SignatureScheme::ED25519, ED_SIGNATURE),
        (P384_SERVER, SignatureScheme::ECDSA_NISTP384_SHA384, P384_SIGNATURE),
    ];
    for (server, scheme, signature) in accepted {
        let der = der(server);
        let signature = bytes(signature);
        let result = verifier.verify_tls12_signature(TRANSCRIPT, &der, scheme, &signature);
        assert_eq!(result, Some(Ok(())));
        let result = verifier.verify_tls13_signature(TRANSCRIPT, &der, scheme, &signature);
        assert_eq!(result, Some(Ok(())));
        assert_eq!(
            verify_handshake_signature(b"another transcript", &der, scheme, &signature, false),
            general("invalid TLS handshake signature: Verification failure")
        );
    }
}

#[test]
fn signatures_have_to_be_signatures() {
    assert_eq!(
        try_verify_handshake_signature(
            TRANSCRIPT,
            &der(SERVER),
            SignatureScheme::ECDSA_NISTP256_SHA256,
            b"not one",
            true
        ),
        Some(general("invalid TLS handshake signature: Invalid signature"))
    );
}

#[test]
fn schemes_have_to_be_supported() {
    assert_eq!(
        try_verify_handshake_signature(
            TRANSCRIPT,
            &der(SERVER),
            SignatureScheme::RSA_PSS_SHA256,
            &bytes(P256_SIGNATURE),
            true
        ),
        Some(general("unsupported TLS signature scheme RSA_PSS_SHA256"))
    );
}

#[test]
fn keys_have_to_be_supported() {
    assert_eq!(
        try_verify_handshake_signature(
            TRANSCRIPT,
            &der(ED448_SERVER),
            SignatureScheme::ED448,
            &[],
            true
        ),
        Some(general(
            "unsupported certificate public key for TLS signature verification: Unknown OID: 1.3.101.113"
        ))
    );
}

#[test]
fn curves_matter_to_tls13_alone() {
    let verifier = root_verifier();
    let (scheme, key, signature) =
        (SignatureScheme::ECDSA_NISTP384_SHA384, der(SERVER), bytes(P256_SIGNATURE));
    assert_eq!(
        verifier.verify_tls13_signature(TRANSCRIPT, &key, scheme, &signature),
        Some(general(
            "TLS 1.3 signature scheme ECDSA_NISTP384_SHA384 is incompatible with certificate curve 1.2.840.10045.3.1.7"
        ))
    );
    assert_eq!(
        verifier.verify_tls12_signature(TRANSCRIPT, &key, scheme, &signature),
        Some(general("invalid TLS handshake signature: Verification failure"))
    );
    let server = parse_x509_certificate(&key).unwrap();
    let scheme = SignatureScheme::ECDSA_NISTP256_SHA256;
    assert_eq!(ensure_tls13_signature_curve(&server, scheme), Ok(()));
    let server = parse_x509_certificate(&der(ED_SERVER)).unwrap();
    assert_eq!(
        ensure_tls13_signature_curve(&server, scheme),
        general("ECDSA certificate is missing named-curve parameters")
    );
    let mut server = parse_x509_certificate(&key).unwrap();
    server.key_parameters = Some(vec![1]);
    assert_eq!(
        ensure_tls13_signature_curve(&server, scheme),
        general("failed to parse ECDSA named-curve parameters")
    );
}

#[test]
fn signatures_need_a_certificate() {
    assert_eq!(
        try_verify_handshake_signature(TRANSCRIPT, &[], SignatureScheme::ED25519, &[], false),
        Some(Err(TlsError::InvalidCertificate(CertificateError::BadEncoding)))
    );
}

#[test]
fn malformed_keys_are_noticed() {
    let key = der(MALFORMED_ED_SERVER);
    let verifier = root_verifier();
    let scheme = SignatureScheme::ED25519;
    assert!(comes_to_malformed_key(&key, scheme, false));
    assert!(!comes_to_malformed_key(&der(ED_SERVER), scheme, true));
    assert_eq!(verifier.verify_tls12_signature(TRANSCRIPT, &key, scheme, &[]), None);
    assert_eq!(verifier.verify_tls13_signature(TRANSCRIPT, &key, scheme, &[]), None);
    // The curve is looked at before the key.
    let scheme = SignatureScheme::ECDSA_NISTP256_SHA256;
    assert_eq!(
        verifier.verify_tls13_signature(TRANSCRIPT, &key, scheme, &[]),
        Some(general("ECDSA certificate is missing named-curve parameters"))
    );
}

// Profiles

#[test]
fn certificates_fit_their_profiles() {
    assert_eq!(check_device_cert(DEVICE.as_bytes()), Ok(()));
    assert_eq!(check_self_signed_client_cert(CLIENT.as_bytes()), Ok(()));
    assert_eq!(check_ca(ROOT.as_bytes()), Ok(()));
}

#[test]
fn certificates_do_not_fit_other_profiles() {
    let violation = |violation| Err(ProfileError::Violation(violation));
    assert_eq!(
        check_device_cert(CLIENT.as_bytes()),
        violation(Violation::Missing(Profile::Device, Required::SubjectAlternativeName))
    );
    assert_eq!(check_device_cert(ROOT.as_bytes()), violation(Violation::UnexpectedExtension));
    assert_eq!(
        check_self_signed_client_cert(DEVICE.as_bytes()),
        violation(Violation::UnexpectedExtension)
    );
    assert_eq!(check_ca(ISSUER.as_bytes()), violation(Violation::AuthorityBasicConstraints));
    assert_eq!(check_ca(CLIENT.as_bytes()), violation(Violation::AuthorityKeyUsage));
    assert_eq!(
        check_device_cert(SERVER_CONSTRAINED.as_bytes()),
        violation(Violation::NameConstraints)
    );
    assert_eq!(
        check_ca(SERVER_PLAIN.as_bytes()),
        violation(Violation::Missing(Profile::Authority, Required::KeyUsage))
    );
}

#[test]
fn profiles_look_at_the_first_block() {
    let both = format!("{}{}", CLIENT, DEVICE);
    assert_eq!(check_self_signed_client_cert(both.as_bytes()), Ok(()));
    assert!(check_device_cert(both.as_bytes()).is_err());
}

#[test]
fn profiles_need_a_certificate() {
    let error = check_ca(b"nothing").unwrap_err();
    assert_eq!(error, ProfileError::Pem("Parsing Error: MissingHeader".to_string()));
    assert_eq!(error.message(), "Parsing Error: MissingHeader");
    let empty = section("CERTIFICATE", "MAA=");
    let error = check_ca(empty.as_bytes()).unwrap_err();
    assert!(matches!(error, ProfileError::Certificate(_)));
    assert_eq!(error.message(), "Parsing requires 1 bytes/chars");
}

// Files

#[test]
fn certificates_are_loaded() {
    let file = format!("some words\n{}{}", ROOT, ISSUER);
    assert_eq!(load_certificates(file.as_bytes()), Ok(vec![der(ROOT), der(ISSUER)]));
    assert_eq!(read_certificate_der(file.as_bytes()), Ok(der(ROOT)));
    assert_eq!(load_certificates(b""), Err(LoadError::NoCertificates));
    assert_eq!(read_certificate_der(b""), Err(LoadError::NoCertificates));
}

#[test]
fn files_that_are_cut_short_are_refused() {
    let cut = &ROOT[..100];
    let error = load_certificates(cut.as_bytes()).unwrap_err();
    assert_eq!(
        error.message("cut.pem"),
        "section end \"-----END CERTIFICATE-----\" missing"
    );
    let error = load_private_key(cut.as_bytes()).unwrap_err();
    assert!(matches!(error, LoadError::Pem(_)));
}

#[test]
fn certificates_are_required() {
    assert_eq!(require_certificates(Ok(vec![vec![1]])), Ok(vec![vec![1]]));
    assert_eq!(require_certificates(Ok(vec![])), Err(LoadError::NoCertificates));
    assert_eq!(
        require_certificates(Err("why".to_string())),
        Err(LoadError::Pem("why".to_string()))
    );
}

#[test]
fn first_private_key_is_loaded() {
    for label in ["PRIVATE KEY", "RSA PRIVATE KEY", "EC PRIVATE KEY"] {
        let file = format!("{}{}{}", ROOT, section(label, "AQID"), section("PRIVATE KEY", "BAUG"));
        assert_eq!(load_private_key(file.as_bytes()), Ok(vec![1, 2, 3]));
    }
    assert_eq!(load_private_key(ROOT.as_bytes()), Err(LoadError::NoPrivateKey));
    let list = section("X509 CRL", "AQID");
    assert_eq!(load_private_key(list.as_bytes()), Err(LoadError::NoPrivateKey));
}

#[test]
fn private_keys_are_found_among_sections() {
    let sections = [
        PemItem::Other,
        PemItem::X509Certificate(vec![1]),
        PemItem::EcKey(vec![2]),
        PemItem::RsaKey(vec![3]),
    ];
    assert_eq!(first_private_key(&sections), Some(vec![2]));
    assert_eq!(first_private_key(&sections[1..]), Some(vec![2]));
    assert_eq!(first_private_key(&sections[3..]), Some(vec![3]));
    assert_eq!(first_private_key(&sections[..2]), None);
    assert_eq!(first_private_key(&[PemItem::Pkcs8Key(vec![4])]), Some(vec![4]));
}

#[test]
fn anchors_are_made_of_certificates() {
    let root = parse_x509_certificate(&der(ROOT)).unwrap();
    let anchor = trust_anchor_of(&root).unwrap();
    assert_eq!([&[0x30u8, 0x14][..], &anchor.subject].concat(), root.subject);
    assert_eq!(anchor.spki, root.public_key);
    assert_eq!(anchor.name_constraints, None);
    let constrained = parse_x509_certificate(&der(SERVER_CONSTRAINED)).unwrap();
    let constraints = Some(constrained.extensions[0].value.clone());
    assert_eq!(find_name_constraints(&constrained.extensions), constraints);
    assert_eq!(trust_anchor_of(&constrained).unwrap().name_constraints, constraints);
    let mut nameless = parse_x509_certificate(&der(ROOT)).unwrap();
    nameless.subject = vec![];
    assert_eq!(trust_anchor_of(&nameless), Err(DerError::NotASequence));
}

#[test]
fn stores_hold_the_anchors() {
    let file = format!("{}{}", ROOT, ISSUER);
    let store = load_root_cert_store(file.as_bytes()).unwrap();
    assert_eq!(store.roots.len(), 2);
    let root = parse_x509_certificate(&der(ROOT)).unwrap();
    let issuer = parse_x509_certificate(&der(ISSUER)).unwrap();
    assert_eq!(store.roots[0].subject().as_ref(), &root.subject[..]);
    assert_eq!(store.roots[1].subject().as_ref(), &issuer.subject[..]);
}

#[test]
fn stores_need_good_certificates() {
    assert_eq!(load_root_cert_store(b"").unwrap_err(), LoadError::NoCertificates);
    let file = format!("{}{}", ROOT, section("CERTIFICATE", "MAA="));
    let error = load_root_cert_store(file.as_bytes()).unwrap_err();
    assert!(matches!(error, LoadError::InvalidAuthority(_)));
    assert_eq!(error.message("ca.pem"), "Invalid CA certificate in ca.pem: Incomplete(Size(1))");
}

#[test]
fn stores_may_leave_certificates_out() {
    let file = format!("{}{}", section("CERTIFICATE", "MAA="), ISSUER);
    let store = load_parsable_root_cert_store(file.as_bytes()).unwrap();
    assert_eq!(store.roots.len(), 1);
    let issuer = parse_x509_certificate(&der(ISSUER)).unwrap();
    assert_eq!(store.roots[0].subject().as_ref(), &issuer.subject[..]);
    let file = section("CERTIFICATE", "MAA=");
    assert_eq!(
        load_parsable_root_cert_store(file.as_bytes()).unwrap_err(),
        LoadError::NothingParsed
    );
    assert_eq!(load_parsable_root_cert_store(b"").unwrap_err(), LoadError::NoCertificates);
}

#[test]
fn load_errors_have_texts() {
    let text = || "why".to_string();
    let texts = [
        (LoadError::Unreadable(text()), "why"),
        (LoadError::Pem(text()), "why"),
        (LoadError::NoCertificates, "No certificates found in a.pem"),
        (LoadError::InvalidAuthority(text()), "Invalid CA certificate in a.pem: why"),
        (LoadError::SubjectName(DerError::InvalidLength), "invalid DER length in subject name"),
        (LoadError::NothingParsed, "Failed to parse any root certificates from a.pem"),
        (LoadError::NoPrivateKey, "No private key found in a.pem"),
    ];
    for (error, message) in texts {
        assert_eq!(error.message("a.pem"), message);
    }
}

// Identities

#[test]
fn options_have_defaults() {
    let options = ClientTlsOptions::default();
    assert_eq!(options.cipher_suite, DEFAULT_TLS_CLIENT_CIPHER_SUITE);
    assert!(!options.use_certificate_chain_file);
    let suite = rustls::cipher_suite::TLS_ECDHE_ECDSA_WITH_AES_128_GCM_SHA256;
    assert_eq!(suite.suite().get_u16(), DEFAULT_TLS_CLIENT_CIPHER_SUITE);
}

#[test]
fn parameters_are_numbers_of_tls() {
    let options = ClientTlsOptions { cipher_suite: 0x1301, use_certificate_chain_file: true };
    let parameters = client_tls_parameters(&options);
    assert_eq!(parameters.cipher_suites, vec![0x1301]);
    assert_eq!(parameters.kx_groups, vec![rustls::NamedGroup::secp256r1.get_u16()]);
    assert_eq!(parameters.versions, vec![rustls::ProtocolVersion::TLSv1_2.get_u16()]);
    let parameters = server_tls_parameters();
    assert_eq!(parameters.cipher_suites, vec![0xc02b]);
    let groups: Vec<u16> = rustls::ALL_KX_GROUPS.iter().map(|group| group.name.get_u16()).collect();
    assert_eq!(parameters.kx_groups, groups);
    assert_eq!(parameters.versions, vec![0x0303]);
}

#[test]
fn clients_present_one_certificate_or_all() {
    let file = format!("{}{}", DEVICE, ISSUER);
    let mut options = ClientTlsOptions::default();
    assert_eq!(load_client_chain(&options, file.as_bytes()), Ok(vec![der(DEVICE)]));
    options.use_certificate_chain_file = true;
    assert_eq!(load_client_chain(&options, file.as_bytes()), Ok(vec![der(DEVICE), der(ISSUER)]));
    assert_eq!(load_client_chain(&options, b""), Err(LoadError::NoCertificates));
}

#[test]
fn clients_have_an_identity() {
    let identity = load_client_identity(
        &ClientTlsOptions::default(),
        "root.pem",
        Ok(ROOT.as_bytes().to_vec()),
        Ok(DEVICE.as_bytes().to_vec()),
        Ok(section("EC PRIVATE KEY", "AQID").into_bytes()),
    )
    .ok()
    .unwrap();
    assert_eq!(identity.root_store.roots.len(), 1);
    assert_eq!(identity.verifier, root_verifier());
    assert_eq!(identity.cert_chain, vec![der(DEVICE)]);
    assert_eq!(identity.private_key, vec![1, 2, 3]);
}

#[test]
fn first_file_at_fault_is_blamed() {
    let good = |text: &str| Ok(text.as_bytes().to_vec());
    let gone = || Err("no such file".to_string());
    let load = |rootca, certificate, key| {
        let options = ClientTlsOptions::default();
        let error =
            load_client_identity(&options, "root.pem", rootca, certificate, key).err().unwrap();
        (error.file, error.error)
    };
    let unreadable = || LoadError::Unreadable("no such file".to_string());
    assert_eq!(load(gone(), gone(), gone()), (IdentityFile::Authorities, unreadable()));
    assert_eq!(
        load(good(""), gone(), gone()),
        (IdentityFile::Authorities, LoadError::NoCertificates)
    );
    assert_eq!(load(good(ROOT), gone(), gone()), (IdentityFile::Certificate, unreadable()));
    assert_eq!(
        load(good(ROOT), good(""), gone()),
        (IdentityFile::Certificate, LoadError::NoCertificates)
    );
    assert_eq!(load(good(ROOT), good(ROOT), gone()), (IdentityFile::PrivateKey, unreadable()));
    assert_eq!(
        load(good(ROOT), good(ROOT), good(ROOT)),
        (IdentityFile::PrivateKey, LoadError::NoPrivateKey)
    );
}

#[test]
fn servers_have_an_identity() {
    let authorities = format!("{}{}", ISSUER, section("CERTIFICATE", "MAA="));
    let chain = format!("{}{}", SERVER, ISSUER);
    let load = |policy| {
        load_server_identity(
            policy,
            Ok(authorities.as_bytes().to_vec()),
            Ok(chain.as_bytes().to_vec()),
            Ok(section("RSA PRIVATE KEY", "AQID").into_bytes()),
        )
    };
    let identity = load(AnchorPolicy::SomeParsable).ok().unwrap();
    assert_eq!(identity.root_store.roots.len(), 1);
    assert_eq!(identity.cert_chain, vec![der(SERVER), der(ISSUER)]);
    assert_eq!(identity.private_key, vec![1, 2, 3]);
    let error = load(AnchorPolicy::AllGood).err().unwrap();
    assert_eq!(error.file, IdentityFile::Authorities);
    assert!(matches!(error.error, LoadError::InvalidAuthority(_)));
}

#[test]
fn servers_blame_the_first_file_at_fault() {
    let good = |text: &str| Ok(text.as_bytes().to_vec());
    let gone = || Err("no such file".to_string());
    let blame = |rootca, certificate, key| {
        load_server_identity(AnchorPolicy::AllGood, rootca, certificate, key).err().unwrap().file
    };
    assert_eq!(blame(gone(), gone(), gone()), IdentityFile::Authorities);
    assert_eq!(blame(good(ROOT), gone(), gone()), IdentityFile::Certificate);
    assert_eq!(blame(good(ROOT), good(""), gone()), IdentityFile::Certificate);
    assert_eq!(blame(good(ROOT), good(ROOT), gone()), IdentityFile::PrivateKey);
    assert_eq!(blame(good(ROOT), good(ROOT), good("")), IdentityFile::PrivateKey);
}
