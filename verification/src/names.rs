//! Whether a certificate is for the server that was asked for.

use vstd::prelude::*;

use crate::certificate::{name_views, Certificate, CertificateView, GeneralName, GeneralNameView};
use crate::error::{
    invalid, outcome, refused, CertificateError, Outcome, TlsError, TlsErrorView,
};
use crate::text::{
    folded, law_trailing_dots_are_dropped, law_trimming_respects_case, same_ignoring_case,
    tails_match, trim_trailing_dots, without_trailing_dots,
};
use crate::x509::same_bytes;

verus! {

/// The address of a host, in network order.
#[derive(Clone, Copy, Debug, PartialEq, Eq)]
pub enum IpAddress {
    V4([u8; 4]),
    V6([u8; 16]),
}

impl View for IpAddress {
    type V = Seq<u8>;

    open spec fn view(&self) -> Seq<u8> {
        match self {
            IpAddress::V4(octets) => octets@,
            IpAddress::V6(octets) => octets@,
        }
    }
}

/// The server that a client means to talk to.
#[derive(Debug, PartialEq, Eq)]
pub enum ServerName {
    DnsName(String),
    IpAddress(IpAddress),
    /// A name of another kind, as it is shown to developers.
    Unsupported(String),
}

/// The mathematical content of a [`ServerName`].
pub enum ServerNameView {
    DnsName(Seq<char>),
    IpAddress(Seq<u8>),
    Unsupported(Seq<char>),
}

impl View for ServerName {
    type V = ServerNameView;

    open spec fn view(&self) -> ServerNameView {
        match self {
            ServerName::DnsName(name) => ServerNameView::DnsName(name@),
            ServerName::IpAddress(address) => ServerNameView::IpAddress(address@),
            ServerName::Unsupported(text) => ServerNameView::Unsupported(text@),
        }
    }
}

/// Whether `hostname` is some label, a dot, and the text that follows `*.` in `pattern`, where
/// that text holds no further `*`.
pub open spec fn wildcard_covers(pattern: Seq<char>, hostname: Seq<char>) -> bool {
    &&& pattern.len() >= 2
    &&& pattern[0] == '*'
    &&& pattern[1] == '.'
    &&& !pattern.skip(2).contains('*')
    &&& exists|dot: int| #[trigger]
        ends_first_label(hostname, dot) && same_ignoring_case(
            hostname.skip(dot + 1),
            pattern.skip(2),
        )
}

/// Whether the first dot of `hostname` stands at `dot`.
pub open spec fn ends_first_label(hostname: Seq<char>, dot: int) -> bool {
    &&& 0 <= dot < hostname.len()
    &&& hostname[dot] == '.'
    &&& !hostname.take(dot).contains('.')
}

/// Whether a DNS name in a certificate covers a host name, dots at the end of either aside.
pub open spec fn dns_name_covers(pattern: Seq<char>, hostname: Seq<char>) -> bool {
    let pattern = without_trailing_dots(pattern);
    let hostname = without_trailing_dots(hostname);
    same_ignoring_case(pattern, hostname) || wildcard_covers(pattern, hostname)
}

/// Finds the first `wanted` in `chars` from position `from` on; the length where there is none.
fn position_of(chars: &Vec<char>, from: usize, wanted: char) -> (position: usize)
    requires
        from <= chars.len(),
    ensures
        from <= position <= chars.len(),
        forall|i: int| from <= i < position ==> chars@[i] != wanted,
        position < chars.len() ==> chars@[position as int] == wanted,
{
    let mut i: usize = from;
    while i < chars.len() && chars[i] != wanted
        invariant
            from <= i <= chars.len(),
            forall|j: int| from <= j < i ==> chars@[j] != wanted,
        decreases chars.len() - i,
    {
        i = i + 1;
    }
    i
}

/// Whether a DNS name in a certificate, which may start with a wildcard label, covers a host name.
pub fn dns_name_matches(pattern: &str, hostname: &str) -> (covers: bool)
    ensures
        covers == dns_name_covers(pattern@, hostname@),
{
    let pattern = trim_trailing_dots(pattern);
    let hostname = trim_trailing_dots(hostname);
    assert(pattern@.skip(0) == pattern@);
    assert(hostname@.skip(0) == hostname@);
    if tails_match(&pattern, 0, &hostname, 0) {
        return true;
    }
    if pattern.len() < 2 || pattern[0] != '*' || pattern[1] != '.' {
        return false;
    }
    let star = position_of(&pattern, 2, '*');
    if star < pattern.len() {
        assert(pattern@.skip(2)[star - 2] == '*');
        return false;
    }
    assert(!pattern@.skip(2).contains('*'));
    let dot = position_of(&hostname, 0, '.');
    if dot == hostname.len() {
        assert forall|k: int| !ends_first_label(hostname@, k) by {
            if ends_first_label(hostname@, k) {
                assert(hostname@[k] == '.');
            }
        }
        return false;
    }
    assert(ends_first_label(hostname@, dot as int));
    assert forall|k: int| ends_first_label(hostname@, k) implies k == dot by {
        if k < dot {
            assert(hostname@[k] == '.');
        } else if dot < k {
            assert(hostname@.take(k)[dot as int] == '.');
        }
    }
    tails_match(&hostname, dot + 1, &pattern, 2)
}

/// Whether the bytes of an address in a certificate are those of `ip`.
pub fn ip_address_matches(bytes: &[u8], ip: IpAddress) -> (matches: bool)
    ensures
        matches == (bytes@ == ip@),
{
    match ip {
        IpAddress::V4(octets) => same_bytes(bytes, octets.as_slice()),
        IpAddress::V6(octets) => same_bytes(bytes, octets.as_slice()),
    }
}

/// Whether a name in a certificate covers a host name.
pub open spec fn covers_host(name: GeneralNameView, hostname: Seq<char>) -> bool {
    match name {
        GeneralNameView::DnsName(pattern) => dns_name_covers(pattern, hostname),
        _ => false,
    }
}

/// Whether one of the names in a certificate covers a host name.
pub open spec fn some_name_covers(names: Seq<GeneralNameView>, hostname: Seq<char>) -> bool {
    exists|i: int| 0 <= i < names.len() && covers_host(#[trigger] names[i], hostname)
}

/// Whether one of the patterns covers a host name.
pub open spec fn some_pattern_covers(patterns: Seq<Seq<char>>, hostname: Seq<char>) -> bool {
    exists|i: int| 0 <= i < patterns.len() && dns_name_covers(#[trigger] patterns[i], hostname)
}

/// What comes of checking a certificate against a host name: the subject alternative names decide
/// where there are any, and the common names of the subject otherwise.
pub open spec fn dns_name_outcome(certificate: CertificateView, hostname: Seq<char>) -> Outcome {
    match certificate.subject_alternative_name {
        Err(text) => refused("invalid subject alternative name extension: "@ + text),
        Ok(Some(names)) => if some_name_covers(names, hostname) {
            Ok(())
        } else {
            invalid(CertificateError::NotValidForName)
        },
        Ok(None) => if some_pattern_covers(certificate.common_names, hostname) {
            Ok(())
        } else {
            invalid(CertificateError::NotValidForName)
        },
    }
}

/// Checks a certificate against a host name.
pub fn validate_dns_name(certificate: &Certificate, hostname: &str) -> (result: Result<
    (),
    TlsError,
>)
    ensures
        outcome(result) == dns_name_outcome(certificate@, hostname@),
{
    match &certificate.subject_alternative_name {
        Err(text) => Err(
            TlsError::General(
                "invalid subject alternative name extension: ".to_owned().concat(text.as_str()),
            ),
        ),
        Ok(Some(names)) => {
            let ghost views = name_views(names@);
            for i in 0..names.len()
                invariant
                    views == name_views(names@),
                    certificate@.subject_alternative_name == Ok::<
                        Option<Seq<GeneralNameView>>,
                        Seq<char>,
                    >(Some(views)),
                    forall|j: int| 0 <= j < i ==> !covers_host(#[trigger] views[j], hostname@),
            {
                assert(views[i as int] == names@[i as int]@);
                match &names[i] {
                    GeneralName::DnsName(pattern) => {
                        if dns_name_matches(pattern.as_str(), hostname) {
                            assert(covers_host(views[i as int], hostname@));
                            assert(some_name_covers(views, hostname@));
                            return Ok(());
                        }
                    },
                    _ => {},
                }
            }
            Err(TlsError::InvalidCertificate(CertificateError::NotValidForName))
        },
        Ok(None) => {
            let ghost views = certificate@.common_names;
            for i in 0..certificate.common_names.len()
                invariant
                    views == certificate@.common_names,
                    certificate@.subject_alternative_name == Ok::<
                        Option<Seq<GeneralNameView>>,
                        Seq<char>,
                    >(None),
                    forall|j: int| 0 <= j < i ==> !dns_name_covers(#[trigger] views[j], hostname@),
            {
                assert(views[i as int] == certificate.common_names@[i as int]@);
                if dns_name_matches(certificate.common_names[i].as_str(), hostname) {
                    return Ok(());
                }
            }
            Err(TlsError::InvalidCertificate(CertificateError::NotValidForName))
        },
    }
}

/// What comes of checking a certificate against an address: only a subject alternative name can
/// hold one.
pub open spec fn ip_address_outcome(certificate: CertificateView, ip: Seq<u8>) -> Outcome {
    match certificate.subject_alternative_name {
        Err(text) => refused("invalid subject alternative name extension: "@ + text),
        Ok(Some(names)) => if names.contains(GeneralNameView::IpAddress(ip)) {
            Ok(())
        } else {
            invalid(CertificateError::NotValidForName)
        },
        Ok(None) => invalid(CertificateError::NotValidForName),
    }
}

/// Checks a certificate against an address.
pub fn validate_ip_address(certificate: &Certificate, ip: IpAddress) -> (result: Result<
    (),
    TlsError,
>)
    ensures
        outcome(result) == ip_address_outcome(certificate@, ip@),
{
    match &certificate.subject_alternative_name {
        Err(text) => Err(
            TlsError::General(
                "invalid subject alternative name extension: ".to_owned().concat(text.as_str()),
            ),
        ),
        Ok(Some(names)) => {
            let ghost views = name_views(names@);
            let ghost wanted = GeneralNameView::IpAddress(ip@);
            for i in 0..names.len()
                invariant
                    views == name_views(names@),
                    wanted == GeneralNameView::IpAddress(ip@),
                    certificate@.subject_alternative_name == Ok::<
                        Option<Seq<GeneralNameView>>,
                        Seq<char>,
                    >(Some(views)),
                    forall|j: int| 0 <= j < i ==> views[j] != wanted,
            {
                assert(views[i as int] == names@[i as int]@);
                match &names[i] {
                    GeneralName::IpAddress(bytes) => {
                        if ip_address_matches(bytes.as_slice(), ip) {
                            assert(views[i as int] == wanted);
                            return Ok(());
                        }
                    },
                    _ => {},
                }
            }
            Err(TlsError::InvalidCertificate(CertificateError::NotValidForName))
        },
        Ok(None) => Err(TlsError::InvalidCertificate(CertificateError::NotValidForName)),
    }
}

/// What comes of checking a certificate against the server that was asked for.
pub open spec fn server_identity_outcome(
    certificate: CertificateView,
    server_name: ServerNameView,
) -> Outcome {
    match server_name {
        ServerNameView::DnsName(name) => dns_name_outcome(certificate, name),
        ServerNameView::IpAddress(address) => ip_address_outcome(certificate, address),
        ServerNameView::Unsupported(text) => refused("unsupported server name variant: "@ + text),
    }
}

/// Checks a certificate against the server that was asked for.
pub fn validate_server_identity(certificate: &Certificate, server_name: &ServerName) -> (result:
    Result<(), TlsError>)
    ensures
        outcome(result) == server_identity_outcome(certificate@, server_name@),
{
    match server_name {
        ServerName::DnsName(name) => validate_dns_name(certificate, name.as_str()),
        ServerName::IpAddress(address) => validate_ip_address(certificate, *address),
        ServerName::Unsupported(text) => Err(
            TlsError::General(
                "unsupported server name variant: ".to_owned().concat(text.as_str()),
            ),
        ),
    }
}

/// The length of the first label of `s`: the number of characters in front of its first dot.
pub open spec fn first_label_len(s: Seq<char>) -> nat
    decreases s.len(),
{
    if s.len() == 0 || s[0] == '.' {
        0
    } else {
        1 + first_label_len(s.drop_first())
    }
}

/// The labels of `s`, which single dots separate.
pub open spec fn labels(s: Seq<char>) -> Seq<Seq<char>>
    decreases s.len(),
{
    let len = first_label_len(s) as int;
    if len < s.len() {
        seq![s.take(len)] + labels(s.skip(len + 1))
    } else {
        seq![s]
    }
}

/// Whether two lists of labels agree one by one, ASCII case aside.
pub open spec fn same_labels(a: Seq<Seq<char>>, b: Seq<Seq<char>>) -> bool {
    &&& a.len() == b.len()
    &&& forall|i: int| 0 <= i < a.len() ==> same_ignoring_case(#[trigger] a[i], b[i])
}

proof fn lemma_first_label(s: Seq<char>)
    ensures
        first_label_len(s) <= s.len(),
        forall|i: int| 0 <= i < first_label_len(s) ==> s[i] != '.',
        first_label_len(s) < s.len() ==> s[first_label_len(s) as int] == '.',
    decreases s.len(),
{
    if s.len() > 0 && s[0] != '.' {
        let rest = s.drop_first();
        lemma_first_label(rest);
        assert forall|i: int| 0 <= i < first_label_len(s) implies s[i] != '.' by {
            if i > 0 {
                assert(s[i] == rest[i - 1]);
            }
        }
    }
}

proof fn lemma_first_label_ends(s: Seq<char>, dot: int)
    ensures
        ends_first_label(s, dot) == (dot == first_label_len(s) && dot < s.len()),
{
    lemma_first_label(s);
    let len = first_label_len(s) as int;
    if ends_first_label(s, dot) {
        if len < dot {
            assert(s.take(dot)[len] == '.');
        }
    }
}

proof fn lemma_labels_not_empty(s: Seq<char>)
    ensures
        labels(s).len() > 0,
{
}

/// Two texts are the same up to case where their labels are.
proof fn lemma_same_labels(a: Seq<char>, b: Seq<char>)
    ensures
        same_ignoring_case(a, b) == same_labels(labels(a), labels(b)),
    decreases a.len(),
{
    lemma_first_label(a);
    lemma_first_label(b);
    let m = first_label_len(a) as int;
    let n = first_label_len(b) as int;
    let a_rest = a.skip(m + 1);
    let b_rest = b.skip(n + 1);
    if m < a.len() && n < b.len() {
        lemma_same_labels(a_rest, b_rest);
        if same_ignoring_case(a, b) {
            if m < n {
                assert(folded_at(a, m) == folded_at(b, m));
            } else if n < m {
                assert(folded_at(a, n) == folded_at(b, n));
            }
            assert forall|i: int| 0 <= i < a_rest.len() implies folded(
                #[trigger] a_rest[i],
            ) == folded(b_rest[i]) by {
                assert(folded_at(a, m + 1 + i) == folded_at(b, m + 1 + i));
            }
            assert forall|i: int| 0 <= i < a.take(m).len() implies folded(
                #[trigger] a.take(m)[i],
            ) == folded(b.take(n)[i]) by {
                assert(folded_at(a, i) == folded_at(b, i));
            }
            assert forall|i: int| 0 <= i < labels(a).len() implies same_ignoring_case(
                #[trigger] labels(a)[i],
                labels(b)[i],
            ) by {
                if i > 0 {
                    assert(labels(a)[i] == labels(a_rest)[i - 1]);
                    assert(labels(b)[i] == labels(b_rest)[i - 1]);
                }
            }
        }
        if same_labels(labels(a), labels(b)) {
            assert(same_ignoring_case(labels(a)[0], labels(b)[0]));
            assert(m == n);
            assert forall|i: int| 0 <= i < labels(a_rest).len() implies same_ignoring_case(
                #[trigger] labels(a_rest)[i],
                labels(b_rest)[i],
            ) by {
                assert(labels(a)[i + 1] == labels(a_rest)[i]);
                assert(labels(b)[i + 1] == labels(b_rest)[i]);
            }
            assert(same_ignoring_case(a_rest, b_rest));
            assert forall|i: int| 0 <= i < a.len() implies folded(#[trigger] a[i])
                == folded(b[i]) by {
                if i < m {
                    assert(a[i] == a.take(m)[i] && b[i] == b.take(n)[i]);
                } else if i > m {
                    assert(a[i] == a_rest[i - m - 1] && b[i] == b_rest[i - m - 1]);
                }
            }
        }
    } else if m < a.len() {
        lemma_labels_not_empty(a_rest);
        if same_ignoring_case(a, b) {
            assert(folded_at(a, m) == folded_at(b, m));
        }
    } else if n < b.len() {
        lemma_labels_not_empty(b_rest);
        if same_ignoring_case(a, b) {
            assert(folded_at(a, n) == folded_at(b, n));
        }
    } else {
        assert(labels(a)[0] == a);
        assert(labels(b)[0] == b);
        if same_labels(labels(a), labels(b)) {
            assert(same_ignoring_case(labels(a)[0], labels(b)[0]));
        }
    }
}

spec fn folded_at(s: Seq<char>, i: int) -> int {
    folded(s[i])
}

/// A wildcard name covers a host name label by label: the host name has one label more than the
/// text behind the wildcard, and all its labels but the first are those of that text.
pub proof fn law_wildcard_stands_for_one_label(pattern: Seq<char>, hostname: Seq<char>)
    requires
        pattern.len() >= 2,
        pattern[0] == '*',
        pattern[1] == '.',
        !pattern.skip(2).contains('*'),
    ensures
        wildcard_covers(pattern, hostname) == {
            &&& labels(hostname).len() == labels(pattern.skip(2)).len() + 1
            &&& same_labels(labels(hostname).skip(1), labels(pattern.skip(2)))
        },
{
    lemma_first_label(hostname);
    let suffix = pattern.skip(2);
    let dot = first_label_len(hostname) as int;
    assert forall|k: int| #[trigger] ends_first_label(hostname, k) implies k == dot by {
        lemma_first_label_ends(hostname, k);
    }
    lemma_first_label_ends(hostname, dot);
    lemma_labels_not_empty(suffix);
    if dot < hostname.len() {
        let rest = hostname.skip(dot + 1);
        assert(labels(hostname).skip(1) == labels(rest));
        lemma_same_labels(rest, suffix);
        assert(ends_first_label(hostname, dot));
    }
}

/// A name in a certificate covers only host names with as many labels as it has itself.
pub proof fn law_names_have_as_many_labels(pattern: Seq<char>, hostname: Seq<char>)
    requires
        dns_name_covers(pattern, hostname),
    ensures
        labels(without_trailing_dots(pattern)).len() == labels(
            without_trailing_dots(hostname),
        ).len(),
{
    let pattern = without_trailing_dots(pattern);
    let hostname = without_trailing_dots(hostname);
    if same_ignoring_case(pattern, hostname) {
        lemma_same_labels(pattern, hostname);
    } else {
        law_wildcard_stands_for_one_label(pattern, hostname);
        reveal_with_fuel(first_label_len, 2);
        assert(pattern.drop_first()[0] == '.');
        assert(first_label_len(pattern) == 1);
    }
}

/// Dots at the end of a name in a certificate, or of a host name, do not matter.
pub proof fn law_trailing_dots_do_not_matter(pattern: Seq<char>, hostname: Seq<char>)
    ensures
        dns_name_covers(pattern.push('.'), hostname) == dns_name_covers(pattern, hostname),
        dns_name_covers(pattern, hostname.push('.')) == dns_name_covers(pattern, hostname),
{
    law_trailing_dots_are_dropped(pattern);
    law_trailing_dots_are_dropped(hostname);
}

proof fn lemma_same_symmetric(a: Seq<char>, b: Seq<char>)
    requires
        same_ignoring_case(a, b),
    ensures
        same_ignoring_case(b, a),
{
    assert forall|i: int| 0 <= i < b.len() implies folded(#[trigger] b[i])
        == folded(a[i]) by {
        assert(folded_at(a, i) == folded_at(b, i));
        assert(a[i] == a[i]);
    }
}

proof fn lemma_same_transitive(a: Seq<char>, b: Seq<char>, c: Seq<char>)
    requires
        same_ignoring_case(a, b),
        same_ignoring_case(b, c),
    ensures
        same_ignoring_case(a, c),
{
    assert forall|i: int| 0 <= i < a.len() implies folded(#[trigger] a[i])
        == folded(c[i]) by {
        assert(b[i] == b[i]);
        assert(folded_at(b, i) == folded_at(c, i));
    }
}

proof fn lemma_same_skip(a: Seq<char>, b: Seq<char>, from: int)
    requires
        same_ignoring_case(a, b),
        0 <= from <= a.len(),
    ensures
        same_ignoring_case(a.skip(from), b.skip(from)),
{
    assert forall|i: int| 0 <= i < a.skip(from).len() implies folded(
        #[trigger] a.skip(from)[i],
    ) == folded(b.skip(from)[i]) by {
        assert(a[from + i] == a[from + i]);
        assert(folded_at(a, from + i) == folded_at(b, from + i));
    }
}

proof fn lemma_wildcard_ignores_case(
    pattern: Seq<char>,
    other_pattern: Seq<char>,
    hostname: Seq<char>,
    other_hostname: Seq<char>,
)
    requires
        same_ignoring_case(pattern, other_pattern),
        same_ignoring_case(hostname, other_hostname),
        wildcard_covers(pattern, hostname),
    ensures
        wildcard_covers(other_pattern, other_hostname),
{
    assert(folded_at(pattern, 0) == folded_at(other_pattern, 0) && pattern[0] == '*');
    assert(folded_at(pattern, 1) == folded_at(other_pattern, 1) && pattern[1] == '.');
    let suffix = pattern.skip(2);
    let other_suffix = other_pattern.skip(2);
    lemma_same_skip(pattern, other_pattern, 2);
    if other_suffix.contains('*') {
        let i = choose|i: int| 0 <= i < other_suffix.len() && other_suffix[i] == '*';
        assert(folded_at(suffix, i) == folded_at(other_suffix, i));
        assert(suffix[i] == '*');
    }
    let dot = choose|dot: int| #[trigger]
        ends_first_label(hostname, dot) && same_ignoring_case(hostname.skip(dot + 1), suffix);
    assert(folded_at(hostname, dot) == folded_at(other_hostname, dot));
    if other_hostname.take(dot).contains('.') {
        let i = choose|i: int|
            0 <= i < other_hostname.take(dot).len() && other_hostname.take(dot)[i] == '.';
        assert(folded_at(hostname, i) == folded_at(other_hostname, i));
        assert(hostname.take(dot)[i] == '.');
    }
    assert(ends_first_label(other_hostname, dot));
    lemma_same_symmetric(hostname, other_hostname);
    lemma_same_skip(other_hostname, hostname, dot + 1);
    lemma_same_transitive(other_hostname.skip(dot + 1), hostname.skip(dot + 1), suffix);
    lemma_same_transitive(other_hostname.skip(dot + 1), suffix, other_suffix);
}

/// The case of ASCII letters does not matter, neither in a certificate nor in a host name.
pub proof fn law_case_does_not_matter(
    pattern: Seq<char>,
    other_pattern: Seq<char>,
    hostname: Seq<char>,
    other_hostname: Seq<char>,
)
    requires
        same_ignoring_case(pattern, other_pattern),
        same_ignoring_case(hostname, other_hostname),
    ensures
        dns_name_covers(pattern, hostname) == dns_name_covers(other_pattern, other_hostname),
{
    law_trimming_respects_case(pattern, other_pattern);
    law_trimming_respects_case(hostname, other_hostname);
    let p = without_trailing_dots(pattern);
    let q = without_trailing_dots(other_pattern);
    let h = without_trailing_dots(hostname);
    let g = without_trailing_dots(other_hostname);
    lemma_same_symmetric(p, q);
    lemma_same_symmetric(h, g);
    if same_ignoring_case(p, h) {
        lemma_same_transitive(q, p, h);
        lemma_same_transitive(q, h, g);
    }
    if same_ignoring_case(q, g) {
        lemma_same_transitive(p, q, g);
        lemma_same_transitive(p, g, h);
    }
    if wildcard_covers(p, h) {
        lemma_wildcard_ignores_case(p, q, h, g);
    }
    if wildcard_covers(q, g) {
        lemma_wildcard_ignores_case(q, p, g, h);
    }
}

/// A name covers itself.
pub proof fn law_name_covers_itself(name: Seq<char>)
    ensures
        dns_name_covers(name, name),
{
}

/// Where a certificate has subject alternative names, its common names play no part.
pub proof fn law_alternative_names_decide(
    certificate: CertificateView,
    other: CertificateView,
    server_name: ServerNameView,
)
    requires
        certificate.subject_alternative_name == other.subject_alternative_name,
        certificate.subject_alternative_name != Ok::<Option<Seq<GeneralNameView>>, Seq<char>>(
            None,
        ),
    ensures
        server_identity_outcome(certificate, server_name) == server_identity_outcome(
            other,
            server_name,
        ),
{
}

/// A name that does not end in a dot covers a host name that does not if and only if the two agree at
/// each position up to case, or the name is `*.` and a text without `*` that agrees up to case with
/// all that stands behind the first dot of the host name.
pub proof fn law_names_that_match(pattern: Seq<char>, hostname: Seq<char>)
    requires
        pattern.len() > 0 ==> pattern[pattern.len() - 1] != '.',
        hostname.len() > 0 ==> hostname[hostname.len() - 1] != '.',
    ensures
        dns_name_covers(pattern, hostname) <==> {
            ||| pattern.len() == hostname.len() && forall|i: int|
                0 <= i < pattern.len() ==> folded(#[trigger] pattern[i]) == folded(hostname[i])
            ||| {
                &&& pattern.len() >= 2
                &&& pattern[0] == '*'
                &&& pattern[1] == '.'
                &&& forall|i: int| 2 <= i < pattern.len() ==> #[trigger] pattern[i] != '*'
                &&& exists|dot: int|
                    {
                        &&& 0 <= dot < hostname.len()
                        &&& #[trigger] hostname[dot] == '.'
                        &&& forall|i: int| 0 <= i < dot ==> #[trigger] hostname[i] != '.'
                        &&& hostname.len() - (dot + 1) == pattern.len() - 2
                        &&& forall|i: int|
                            dot < i < hostname.len() ==> folded(#[trigger] hostname[i]) == folded(
                                pattern[i - dot + 1],
                            )
                    }
            }
        },
{
    lemma_nothing_to_cut_off(pattern);
    lemma_nothing_to_cut_off(hostname);
    let suffix = pattern.skip(2);
    if pattern.len() >= 2 {
        assert(suffix.contains('*') == exists|i: int|
            2 <= i < pattern.len() && #[trigger] pattern[i] == '*') by {
            if suffix.contains('*') {
                let k = choose|k: int| 0 <= k < suffix.len() && suffix[k] == '*';
                assert(pattern[k + 2] == '*');
            }
            if exists|i: int| 2 <= i < pattern.len() && #[trigger] pattern[i] == '*' {
                let i = choose|i: int| 2 <= i < pattern.len() && #[trigger] pattern[i] == '*';
                assert(suffix[i - 2] == '*');
            }
        }
        if wildcard_covers(pattern, hostname) {
            let dot = choose|dot: int| #[trigger]
                ends_first_label(hostname, dot) && same_ignoring_case(
                    hostname.skip(dot + 1),
                    suffix,
                );
            assert(hostname[dot] == '.');
            lemma_first_dot(hostname, dot);
            lemma_rest_agrees(pattern, hostname, dot);
        }
        if exists|dot: int|
            {
                &&& 0 <= dot < hostname.len()
                &&& #[trigger] hostname[dot] == '.'
                &&& forall|i: int| 0 <= i < dot ==> #[trigger] hostname[i] != '.'
                &&& hostname.len() - (dot + 1) == pattern.len() - 2
                &&& forall|i: int|
                    dot < i < hostname.len() ==> folded(#[trigger] hostname[i]) == folded(
                        pattern[i - dot + 1],
                    )
            } {
            let dot = choose|dot: int|
                {
                    &&& 0 <= dot < hostname.len()
                    &&& #[trigger] hostname[dot] == '.'
                    &&& forall|i: int| 0 <= i < dot ==> #[trigger] hostname[i] != '.'
                    &&& hostname.len() - (dot + 1) == pattern.len() - 2
                    &&& forall|i: int|
                        dot < i < hostname.len() ==> folded(#[trigger] hostname[i]) == folded(
                            pattern[i - dot + 1],
                        )
                };
            lemma_first_dot(hostname, dot);
            lemma_rest_agrees(pattern, hostname, dot);
            assert(ends_first_label(hostname, dot));
        }
    }
}

proof fn lemma_first_dot(hostname: Seq<char>, dot: int)
    requires
        0 <= dot < hostname.len(),
    ensures
        ends_first_label(hostname, dot) == {
            &&& hostname[dot] == '.'
            &&& forall|i: int| 0 <= i < dot ==> #[trigger] hostname[i] != '.'
        },
{
    let front = hostname.take(dot);
    if front.contains('.') {
        let k = choose|k: int| 0 <= k < front.len() && front[k] == '.';
        assert(hostname[k] == '.');
    } else {
        assert forall|i: int| 0 <= i < dot implies #[trigger] hostname[i] != '.' by {
            assert(front[i] == hostname[i]);
        }
    }
}

proof fn lemma_rest_agrees(pattern: Seq<char>, hostname: Seq<char>, dot: int)
    requires
        pattern.len() >= 2,
        0 <= dot < hostname.len(),
    ensures
        same_ignoring_case(hostname.skip(dot + 1), pattern.skip(2)) == {
            &&& hostname.len() - (dot + 1) == pattern.len() - 2
            &&& forall|i: int|
                dot < i < hostname.len() ==> folded(#[trigger] hostname[i]) == folded(
                    pattern[i - dot + 1],
                )
        },
{
    let rest = hostname.skip(dot + 1);
    let suffix = pattern.skip(2);
    if same_ignoring_case(rest, suffix) {
        assert forall|i: int| dot < i < hostname.len() implies folded(#[trigger] hostname[i])
            == folded(pattern[i - dot + 1]) by {
            assert(folded(rest[i - dot - 1]) == folded(suffix[i - dot - 1]));
        }
    }
    if hostname.len() - (dot + 1) == pattern.len() - 2 && forall|i: int|
        dot < i < hostname.len() ==> folded(#[trigger] hostname[i]) == folded(
            pattern[i - dot + 1],
        ) {
        assert forall|k: int| 0 <= k < rest.len() implies folded(#[trigger] rest[k]) == folded(
            suffix[k],
        ) by {
            assert(rest[k] == hostname[dot + 1 + k]);
        }
    }
}

proof fn lemma_nothing_to_cut_off(s: Seq<char>)
    requires
        s.len() > 0 ==> s[s.len() - 1] != '.',
    ensures
        without_trailing_dots(s) == s,
{
}

/// A host name is covered by a certificate if and only if one of its DNS names covers it, or, where it
/// has no alternative names at all, one of its common names does. No name of another kind plays a
/// part.
pub proof fn law_hosts_that_are_covered(certificate: CertificateView, hostname: Seq<char>)
    ensures
        dns_name_outcome(certificate, hostname) == Ok::<(), TlsErrorView>(()) <==> {
            ||| certificate.subject_alternative_name matches Ok(Some(names)) && exists|i: int|
                {
                    &&& 0 <= i < names.len()
                    &&& #[trigger] names[i] is DnsName
                    &&& dns_name_covers(names[i]->DnsName_0, hostname)
                }
            ||| certificate.subject_alternative_name matches Ok(names) && names is None && exists|i: int|
                0 <= i < certificate.common_names.len() && dns_name_covers(
                    #[trigger] certificate.common_names[i],
                    hostname,
                )
        },
        certificate.subject_alternative_name matches Err(text) ==> dns_name_outcome(
            certificate,
            hostname,
        ) == Err::<(), TlsErrorView>(
            TlsErrorView::General("invalid subject alternative name extension: "@ + text),
        ),
        certificate.subject_alternative_name is Ok && dns_name_outcome(certificate, hostname) is Err
            ==> dns_name_outcome(certificate, hostname) == Err::<(), TlsErrorView>(
            TlsErrorView::InvalidCertificate(CertificateError::NotValidForName),
        ),
{
    if let Ok(Some(names)) = certificate.subject_alternative_name {
        if some_name_covers(names, hostname) {
            let i = choose|i: int|
                0 <= i < names.len() && covers_host(#[trigger] names[i], hostname);
            assert(names[i] is DnsName);
        }
        if exists|i: int|
            {
                &&& 0 <= i < names.len()
                &&& #[trigger] names[i] is DnsName
                &&& dns_name_covers(names[i]->DnsName_0, hostname)
            } {
            let i = choose|i: int|
                {
                    &&& 0 <= i < names.len()
                    &&& #[trigger] names[i] is DnsName
                    &&& dns_name_covers(names[i]->DnsName_0, hostname)
                };
            assert(covers_host(names[i], hostname));
        }
    }
}

/// An address is covered by a certificate if and only if one of its alternative names is an address
/// with the same bytes. Its common names play no part.
pub proof fn law_addresses_that_are_covered(certificate: CertificateView, ip: Seq<u8>)
    ensures
        ip_address_outcome(certificate, ip) == Ok::<(), TlsErrorView>(()) <==> {
            &&& certificate.subject_alternative_name matches Ok(Some(names))
            &&& exists|i: int|
                {
                    &&& 0 <= i < names.len()
                    &&& #[trigger] names[i] is IpAddress
                    &&& names[i]->IpAddress_0 == ip
                }
        },
        certificate.subject_alternative_name matches Err(text) ==> ip_address_outcome(
            certificate,
            ip,
        ) == Err::<(), TlsErrorView>(
            TlsErrorView::General("invalid subject alternative name extension: "@ + text),
        ),
        certificate.subject_alternative_name is Ok && ip_address_outcome(certificate, ip) is Err
            ==> ip_address_outcome(certificate, ip) == Err::<(), TlsErrorView>(
            TlsErrorView::InvalidCertificate(CertificateError::NotValidForName),
        ),
{
    if let Ok(Some(names)) = certificate.subject_alternative_name {
        if names.contains(GeneralNameView::IpAddress(ip)) {
            let i = choose|i: int|
                0 <= i < names.len() && names[i] == GeneralNameView::IpAddress(ip);
            assert(names[i] is IpAddress);
        }
        if exists|i: int|
            {
                &&& 0 <= i < names.len()
                &&& #[trigger] names[i] is IpAddress
                &&& names[i]->IpAddress_0 == ip
            } {
            let i = choose|i: int|
                {
                    &&& 0 <= i < names.len()
                    &&& #[trigger] names[i] is IpAddress
                    &&& names[i]->IpAddress_0 == ip
                };
            assert(names[i] == GeneralNameView::IpAddress(ip));
        }
    }
}

/// A server is asked for by host name or by address, and by nothing else.
pub proof fn law_server_identity(
    certificate: CertificateView,
    name: Seq<char>,
    ip: Seq<u8>,
)
    ensures
        server_identity_outcome(certificate, ServerNameView::DnsName(name)) == dns_name_outcome(
            certificate,
            name,
        ),
        server_identity_outcome(certificate, ServerNameView::IpAddress(ip)) == ip_address_outcome(
            certificate,
            ip,
        ),
        server_identity_outcome(certificate, ServerNameView::Unsupported(name)) == Err::<
            (),
            TlsErrorView,
        >(TlsErrorView::General("unsupported server name variant: "@ + name)),
{
}

/// The content of a server's name is its text or its bytes, all of them and in order.
pub proof fn law_server_name_content(name: ServerName)
    ensures
        match name {
            ServerName::DnsName(text) => name@ == ServerNameView::DnsName(text@),
            ServerName::IpAddress(IpAddress::V4(octets)) => name@ == ServerNameView::IpAddress(
                octets@,
            ),
            ServerName::IpAddress(IpAddress::V6(octets)) => name@ == ServerNameView::IpAddress(
                octets@,
            ),
            ServerName::Unsupported(text) => name@ == ServerNameView::Unsupported(text@),
        },
{
}

} // verus!
