use sep2_tls::certificate::{BasicConstraints, Certificate};
use sep2_tls::chain::{search_chain, IssuanceTable};
use sep2_tls::error::{CertificateError, TlsError};

fn authority(path_len_constraint: Option<u32>) -> Certificate {
    Certificate {
        der: vec![],
        issuer: vec![],
        subject: vec![],
        public_key: vec![],
        key_parameters: None,
        not_before: 0,
        not_after: 100,
        extensions: vec![],
        key_usage: Ok(None),
        extended_key_usage: Ok(None),
        basic_constraints: Ok(Some(BasicConstraints { ca: true, path_len_constraint })),
        subject_alternative_name: Ok(None),
        common_names: vec![],
    }
}

fn impostor() -> Certificate {
    let mut certificate = authority(None);
    certificate.basic_constraints =
        Ok(Some(BasicConstraints { ca: false, path_len_constraint: None }));
    certificate
}

/// Searches from the first row, and checks that the list of used intermediates comes back as it was.
fn search(
    by_anchor: Vec<Vec<bool>>,
    by_intermediate: Vec<Vec<bool>>,
    intermediates: &[Certificate],
    anchors: &[Certificate],
) -> Result<(), TlsError> {
    let table = IssuanceTable { by_anchor, by_intermediate };
    let mut used: Vec<usize> = vec![];
    let result = search_chain(&table, 0, intermediates, anchors, 50, 0, &mut used);
    assert!(used.is_empty());
    result
}

fn general(text: &str) -> Result<(), TlsError> {
    Err(TlsError::General(text.to_string()))
}

const UNKNOWN: TlsError = TlsError::InvalidCertificate(CertificateError::UnknownIssuer);

#[test]
fn anchor_may_issue_directly() {
    assert_eq!(search(vec![vec![false, true]], vec![vec![]], &[], &[impostor(), authority(None)]), Ok(()));
}

#[test]
fn first_anchor_decides_alone() {
    let result = search(vec![vec![true, true]], vec![vec![]], &[], &[impostor(), authority(None)]);
    assert_eq!(result, general("issuer certificate is not marked as a CA certificate"));
}

#[test]
fn nobody_issued_it() {
    assert_eq!(search(vec![vec![]], vec![vec![]], &[], &[]), Err(UNKNOWN));
    assert_eq!(
        search(
            vec![vec![false], vec![true]],
            vec![vec![false], vec![false]],
            &[authority(None)],
            &[authority(None)],
        ),
        Err(UNKNOWN)
    );
}

#[test]
fn chain_goes_through_intermediates() {
    // The certificate, intermediate 1, intermediate 0, the anchor.
    let result = search(
        vec![vec![false], vec![true], vec![false]],
        vec![vec![false, true], vec![false, false], vec![true, false]],
        &[authority(Some(1)), authority(Some(0))],
        &[authority(Some(2))],
    );
    assert_eq!(result, Ok(()));
}

#[test]
fn path_length_counts_the_authorities_below() {
    let result = search(
        vec![vec![false], vec![true], vec![false]],
        vec![vec![false, true], vec![false, false], vec![true, false]],
        &[authority(Some(0)), authority(Some(0))],
        &[authority(None)],
    );
    assert_eq!(
        result,
        general(
            "issuer certificate path length constraint 0 exceeded by 1 subordinate CA certificates"
        )
    );
}

#[test]
fn other_intermediates_are_tried() {
    // Intermediate 0 leads nowhere, intermediate 1 leads to the anchor.
    let result = search(
        vec![vec![false], vec![false], vec![true]],
        vec![vec![true, true], vec![false, false], vec![false, false]],
        &[authority(None), authority(None)],
        &[authority(None)],
    );
    assert_eq!(result, Ok(()));
}

#[test]
fn last_failure_is_reported() {
    let table = || vec![vec![true, true], vec![false, false], vec![false, false]];
    let no_anchor = || vec![vec![], vec![], vec![]];
    assert_eq!(
        search(no_anchor(), table(), &[authority(None), impostor()], &[]),
        general("issuer certificate is not marked as a CA certificate")
    );
    assert_eq!(search(no_anchor(), table(), &[impostor(), authority(None)], &[]), Err(UNKNOWN));
}

#[test]
fn circles_end() {
    // Both intermediates issued each other and themselves.
    let result = search(
        vec![vec![], vec![], vec![]],
        vec![vec![true, true], vec![true, true], vec![true, true]],
        &[authority(None), authority(None)],
        &[],
    );
    assert_eq!(result, Err(UNKNOWN));
}

#[test]
fn used_intermediates_are_left_out() {
    let table = IssuanceTable {
        by_anchor: vec![vec![false], vec![true]],
        by_intermediate: vec![vec![true], vec![false]],
    };
    let intermediates = [authority(None)];
    let anchors = [authority(None)];
    let mut used: Vec<usize> = vec![0];
    let result = search_chain(&table, 0, &intermediates, &anchors, 50, 0, &mut used);
    assert_eq!(result, Err(UNKNOWN));
    assert_eq!(used, vec![0]);
    let mut used: Vec<usize> = vec![7];
    assert_eq!(search_chain(&table, 0, &intermediates, &anchors, 50, 0, &mut used), Ok(()));
    assert_eq!(used, vec![7]);
}
