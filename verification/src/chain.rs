//! The search for a chain of issuers from a certificate to a trust anchor.

use vstd::prelude::*;

use crate::certificate::{certificate_views, Certificate, CertificateView};
use crate::error::{
    both, invalid, outcome, CertificateError, Outcome, TlsError, TlsErrorView,
};
use crate::validate::{ca_outcome, validate_ca_certificate};
use crate::x509::{certificate_is_issued_by, issued_by};

verus! {

/// Who issued whom. Row 0 stands for the certificate that the search starts from, row `i + 1` for
/// intermediate `i`.
#[derive(Debug, PartialEq, Eq)]
pub struct IssuanceTable {
    /// For each row, which of the trust anchors issued it.
    pub by_anchor: Vec<Vec<bool>>,
    /// For each row, which of the intermediates issued it.
    pub by_intermediate: Vec<Vec<bool>>,
}

/// All that a search goes by.
pub struct Search {
    pub by_anchor: Seq<Seq<bool>>,
    pub by_intermediate: Seq<Seq<bool>>,
    pub intermediates: Seq<CertificateView>,
    pub anchors: Seq<CertificateView>,
    pub now: i128,
}

/// The entries of a table.
pub open spec fn rows(table: Seq<Vec<bool>>) -> Seq<Seq<bool>> {
    table.map_values(|row: Vec<bool>| row@)
}

/// Positions in a list, as integers.
pub open spec fn positions(list: Seq<usize>) -> Seq<int> {
    list.map_values(|i: usize| i as int)
}

impl IssuanceTable {
    /// Whether the table has a row for the certificate that the search starts from and one for each
    /// intermediate, and in each row an entry for each possible issuer.
    pub open spec fn fits(&self, intermediates: nat, anchors: nat) -> bool {
        &&& self.by_anchor.len() == intermediates + 1
        &&& self.by_intermediate.len() == intermediates + 1
        &&& forall|i: int|
            0 <= i < self.by_anchor.len() ==> (#[trigger] self.by_anchor@[i]).len() == anchors
        &&& forall|i: int|
            0 <= i < self.by_intermediate.len() ==> (#[trigger] self.by_intermediate@[i]).len()
                == intermediates
    }

    /// The search that goes by this table.
    pub open spec fn search(
        &self,
        intermediates: Seq<Certificate>,
        anchors: Seq<Certificate>,
        now: i128,
    ) -> Search {
        Search {
            by_anchor: rows(self.by_anchor@),
            by_intermediate: rows(self.by_intermediate@),
            intermediates: certificate_views(intermediates),
            anchors: certificate_views(anchors),
            now,
        }
    }
}

/// How many of the first `n` positions are not in `used`.
pub open spec fn unused(n: nat, used: Seq<int>) -> nat
    decreases n,
{
    if n == 0 {
        0
    } else {
        unused((n - 1) as nat, used) + if used.contains(n - 1) {
            0nat
        } else {
            1nat
        }
    }
}

/// Using one more position leaves one fewer unused.
pub proof fn lemma_use_one(n: nat, used: Seq<int>, index: int)
    ensures
        0 <= index < n && !used.contains(index) ==> unused(n, used) == unused(
            n,
            used.push(index),
        ) + 1,
        index >= n ==> unused(n, used) == unused(n, used.push(index)),
    decreases n,
{
    if n > 0 {
        lemma_use_one((n - 1) as nat, used, index);
        assert(used.push(index).contains(n - 1) == (used.contains(n - 1) || index == n - 1)) by {
            if used.contains(n - 1) {
                let k = choose|k: int| 0 <= k < used.len() && used[k] == n - 1;
                assert(used.push(index)[k] == n - 1);
            }
            if index == n - 1 {
                assert(used.push(index)[used.len() as int] == n - 1);
            }
        }
    }
}

/// No more than `n` of the first `n` positions are unused.
pub proof fn lemma_unused_bound(n: nat, used: Seq<int>)
    ensures
        unused(n, used) <= n,
    decreases n,
{
    if n > 0 {
        lemma_unused_bound((n - 1) as nat, used);
    }
}

impl Search {
    /// Whether the first trust anchor that issued the certificate in a row stands at `anchor`.
    pub open spec fn first_anchor(self, row: int, anchor: int) -> bool {
        &&& 0 <= anchor < self.anchors.len()
        &&& self.by_anchor[row][anchor]
        &&& forall|i: int| 0 <= i < anchor ==> !#[trigger] self.by_anchor[row][i]
    }

    /// Whether a trust anchor issued the certificate in a row.
    pub open spec fn is_anchored(self, row: int) -> bool {
        exists|anchor: int| self.first_anchor(row, anchor)
    }

    /// Whether the chain may go on from a row to the intermediate at `index`: it issued the
    /// certificate and is not in the chain already.
    pub open spec fn is_candidate(self, row: int, used: Seq<int>, index: int) -> bool {
        &&& 0 <= index < self.intermediates.len()
        &&& !used.contains(index)
        &&& self.by_intermediate[row][index]
    }

    /// Whether the last intermediate that the chain may go on to stands at `index`.
    pub open spec fn last_candidate(self, row: int, used: Seq<int>, index: int) -> bool {
        &&& self.is_candidate(row, used, index)
        &&& forall|i: int| i > index ==> !#[trigger] self.is_candidate(row, used, i)
    }

    /// What comes of going on from the intermediates in `used` to the one at `index`, with
    /// `subordinates` authorities below it.
    pub open spec fn route_outcome(self, subordinates: nat, used: Seq<int>, index: int) -> Outcome
        decreases unused(self.intermediates.len(), used), 0int,
        when 0 <= index < self.intermediates.len() && !used.contains(index)
    {
        proof {
            lemma_use_one(self.intermediates.len(), used, index);
        }
        both(
            ca_outcome(self.intermediates[index], self.now, subordinates),
            self.chain_outcome(index + 1, subordinates + 1, used.push(index)),
        )
    }

    /// What comes of the search for a chain from the certificate in a row.
    ///
    /// The first trust anchor that issued it ends the search, whether it may issue certificates or
    /// not. Otherwise any intermediate will do that leads to a trust anchor; where none does, the
    /// last is reported.
    pub open spec fn chain_outcome(self, row: int, subordinates: nat, used: Seq<int>) -> Outcome
        decreases unused(self.intermediates.len(), used), 1int,
    {
        if self.is_anchored(row) {
            let anchor = choose|anchor: int| self.first_anchor(row, anchor);
            ca_outcome(self.anchors[anchor], self.now, subordinates)
        } else if exists|index: int|
            #[trigger] self.is_candidate(row, used, index) && self.route_outcome(
                subordinates,
                used,
                index,
            ) is Ok {
            Ok(())
        } else if exists|index: int| self.last_candidate(row, used, index) {
            self.route_outcome(
                subordinates,
                used,
                choose|index: int| self.last_candidate(row, used, index),
            )
        } else {
            invalid(CertificateError::UnknownIssuer)
        }
    }
}

/// Whether a position is in a list.
fn contains_position(list: &Vec<usize>, position: usize) -> (found: bool)
    ensures
        found == positions(list@).contains(position as int),
{
    let ghost view = positions(list@);
    for i in 0..list.len()
        invariant
            view == positions(list@),
            forall|j: int| 0 <= j < i ==> view[j] != position,
    {
        assert(view[i as int] == list@[i as int]);
        if list[i] == position {
            return true;
        }
    }
    false
}

/// Searches for a chain from the certificate in a row of the table to a trust anchor, with
/// `subordinate_ca_count` authorities below the next issuer and without the intermediates in
/// `used_intermediates`.
pub fn search_chain(
    table: &IssuanceTable,
    row: usize,
    intermediates: &[Certificate],
    trust_anchors: &[Certificate],
    now: i128,
    subordinate_ca_count: usize,
    used_intermediates: &mut Vec<usize>,
) -> (result: Result<(), TlsError>)
    requires
        table.fits(intermediates@.len(), trust_anchors@.len()),
        row <= intermediates@.len(),
        subordinate_ca_count + unused(intermediates@.len(), positions(old(used_intermediates)@))
            <= usize::MAX,
    ensures
        outcome(result) == table.search(intermediates@, trust_anchors@, now).chain_outcome(
            row as int,
            subordinate_ca_count as nat,
            positions(old(used_intermediates)@),
        ),
        final(used_intermediates)@ == old(used_intermediates)@,
    decreases unused(intermediates@.len(), positions(old(used_intermediates)@)),
{
    let ghost search = table.search(intermediates@, trust_anchors@, now);
    let ghost start = used_intermediates@;
    let ghost used = positions(start);
    let ghost subordinates = subordinate_ca_count as nat;
    let ghost r = row as int;
    for i in 0..trust_anchors.len()
        invariant
            table.fits(intermediates@.len(), trust_anchors@.len()),
            row <= intermediates@.len(),
            r == row,
            search == table.search(intermediates@, trust_anchors@, now),
            forall|j: int| 0 <= j < i ==> !#[trigger] search.by_anchor[r][j],
            used_intermediates@ == start,
            start == old(used_intermediates)@,
            used == positions(start),
            subordinates == subordinate_ca_count,
    {
        assert(search.by_anchor[r] == table.by_anchor@[r]@);
        if table.by_anchor[row][i] {
            assert(search.first_anchor(r, i as int));
            assert forall|k: int| search.first_anchor(r, k) implies k == i by {
                if k > i {
                    assert(!search.by_anchor[r][i as int]);
                }
            }
            assert(search.anchors[i as int] == trust_anchors@[i as int]@);
            return validate_ca_certificate(&trust_anchors[i], now, subordinate_ca_count);
        }
    }
    assert(!search.is_anchored(r));
    let mut last_error: TlsError = TlsError::InvalidCertificate(CertificateError::UnknownIssuer);
    let ghost mut last: int = -1;
    for i in 0..intermediates.len()
        invariant
            table.fits(intermediates@.len(), trust_anchors@.len()),
            row <= intermediates@.len(),
            r == row,
            search == table.search(intermediates@, trust_anchors@, now),
            !search.is_anchored(r),
            used_intermediates@ == start,
            start == old(used_intermediates)@,
            used == positions(start),
            subordinates == subordinate_ca_count,
            subordinate_ca_count + unused(intermediates@.len(), used) <= usize::MAX,
            -1 <= last < i,
            last == -1 ==> last_error == TlsError::InvalidCertificate(
                CertificateError::UnknownIssuer,
            ),
            last >= 0 ==> search.is_candidate(r, used, last) && search.route_outcome(
                subordinates,
                used,
                last,
            ) == outcome(Err(last_error)),
            forall|j: int| last < j < i ==> !#[trigger] search.is_candidate(r, used, j),
            forall|j: int|
                0 <= j < i && #[trigger] search.is_candidate(r, used, j) ==> search.route_outcome(
                    subordinates,
                    used,
                    j,
                ) is Err,
    {
        assert(search.by_intermediate[r] == table.by_intermediate@[r]@);
        if !contains_position(used_intermediates, i) && table.by_intermediate[row][i] {
            assert(search.is_candidate(r, used, i as int));
            assert(search.intermediates[i as int] == intermediates@[i as int]@);
            let result = match validate_ca_certificate(
                &intermediates[i],
                now,
                subordinate_ca_count,
            ) {
                Err(error) => Err(error),
                Ok(()) => {
                    proof {
                        lemma_use_one(intermediates@.len(), used, i as int);
                        assert(positions(start.push(i)) == used.push(i as int));
                    }
                    used_intermediates.push(i);
                    let result = search_chain(
                        table,
                        i + 1,
                        intermediates,
                        trust_anchors,
                        now,
                        subordinate_ca_count + 1,
                        used_intermediates,
                    );
                    let _ = used_intermediates.pop();
                    assert(used_intermediates@ == start);
                    result
                },
            };
            assert(outcome(result) == search.route_outcome(subordinates, used, i as int));
            match result {
                Ok(()) => {
                    return Ok(());
                },
                Err(error) => {
                    last_error = error;
                    proof {
                        last = i as int;
                    }
                },
            }
        }
    }
    proof {
        assert forall|k: int| search.last_candidate(r, used, k) implies k == last by {
            if k < last {
                assert(!search.is_candidate(r, used, last));
            }
        }
        if last >= 0 {
            assert(search.last_candidate(r, used, last));
        }
    }
    Err(last_error)
}

/// The certificate in a row of the table.
pub open spec fn in_row(
    current: CertificateView,
    intermediates: Seq<CertificateView>,
    row: int,
) -> CertificateView {
    if row == 0 {
        current
    } else {
        intermediates[row - 1]
    }
}

/// Which of some certificates issued a given one.
pub open spec fn issuers(
    certificate: CertificateView,
    candidates: Seq<CertificateView>,
) -> Seq<bool> {
    candidates.map_values(|candidate: CertificateView| issued_by(certificate, candidate))
}

/// For each row, which of some certificates issued the one in it.
pub open spec fn issuer_rows(
    current: CertificateView,
    intermediates: Seq<CertificateView>,
    candidates: Seq<CertificateView>,
) -> Seq<Seq<bool>> {
    Seq::new(
        intermediates.len() + 1,
        |row: int| issuers(in_row(current, intermediates, row), candidates),
    )
}

/// The search for a chain from `current` to a trust anchor.
pub open spec fn chain_search(
    current: CertificateView,
    intermediates: Seq<CertificateView>,
    anchors: Seq<CertificateView>,
    now: i128,
) -> Search {
    Search {
        by_anchor: issuer_rows(current, intermediates, anchors),
        by_intermediate: issuer_rows(current, intermediates, intermediates),
        intermediates,
        anchors,
        now,
    }
}

/// Finds out which of some certificates issued a given one.
fn issuer_row(certificate: &Certificate, candidates: &[Certificate]) -> (row: Vec<bool>)
    ensures
        row@ == issuers(certificate@, certificate_views(candidates@)),
{
    let mut row: Vec<bool> = Vec::new();
    for i in 0..candidates.len()
        invariant
            row.len() == i,
            forall|j: int|
                0 <= j < i ==> #[trigger] row@[j] == issued_by(certificate@, candidates@[j]@),
    {
        row.push(certificate_is_issued_by(certificate, &candidates[i]));
    }
    row
}

/// Finds out for each row which of some certificates issued the one in it.
fn issuer_table(
    current: &Certificate,
    intermediates: &[Certificate],
    candidates: &[Certificate],
) -> (table: Vec<Vec<bool>>)
    ensures
        rows(table@) == issuer_rows(
            current@,
            certificate_views(intermediates@),
            certificate_views(candidates@),
        ),
{
    let ghost views = certificate_views(candidates@);
    let mut table: Vec<Vec<bool>> = Vec::new();
    table.push(issuer_row(current, candidates));
    for i in 0..intermediates.len()
        invariant
            views == certificate_views(candidates@),
            table.len() == i + 1,
            table@[0]@ == issuers(current@, views),
            forall|j: int|
                0 < j <= i ==> (#[trigger] table@[j])@ == issuers(intermediates@[j - 1]@, views),
    {
        table.push(issuer_row(&intermediates[i], candidates));
    }
    assert(rows(table@) =~= issuer_rows(current@, certificate_views(intermediates@), views));
    table
}

/// Finds out who issued whom.
pub fn issuance_table(
    current: &Certificate,
    intermediates: &[Certificate],
    trust_anchors: &[Certificate],
) -> (table: IssuanceTable)
    ensures
        table.fits(intermediates@.len(), trust_anchors@.len()),
        rows(table.by_anchor@) == issuer_rows(
            current@,
            certificate_views(intermediates@),
            certificate_views(trust_anchors@),
        ),
        rows(table.by_intermediate@) == issuer_rows(
            current@,
            certificate_views(intermediates@),
            certificate_views(intermediates@),
        ),
{
    let table = IssuanceTable {
        by_anchor: issuer_table(current, intermediates, trust_anchors),
        by_intermediate: issuer_table(current, intermediates, intermediates),
    };
    proof {
        assert(rows(table.by_anchor@).len() == table.by_anchor.len());
        assert(rows(table.by_intermediate@).len() == table.by_intermediate.len());
        assert forall|i: int| 0 <= i < table.by_anchor.len() implies (
        #[trigger] table.by_anchor@[i]).len() == trust_anchors@.len() by {
            assert(rows(table.by_anchor@)[i] == table.by_anchor@[i]@);
        }
        assert forall|i: int| 0 <= i < table.by_intermediate.len() implies (
        #[trigger] table.by_intermediate@[i]).len() == intermediates@.len() by {
            assert(rows(table.by_intermediate@)[i] == table.by_intermediate@[i]@);
        }
    }
    table
}

/// Searches for a chain of issuers from `current` to a trust anchor, with `subordinate_ca_count`
/// authorities below the next issuer and without the intermediates in `used_intermediates`.
pub fn verify_chain_to_trust_anchor(
    current: &Certificate,
    intermediates: &[Certificate],
    trust_anchors: &[Certificate],
    now: i128,
    subordinate_ca_count: usize,
    used_intermediates: &mut Vec<usize>,
) -> (result: Result<(), TlsError>)
    requires
        subordinate_ca_count + unused(intermediates@.len(), positions(old(used_intermediates)@))
            <= usize::MAX,
    ensures
        outcome(result) == chain_search(
            current@,
            certificate_views(intermediates@),
            certificate_views(trust_anchors@),
            now,
        ).chain_outcome(0, subordinate_ca_count as nat, positions(old(used_intermediates)@)),
        final(used_intermediates)@ == old(used_intermediates)@,
{
    let table = issuance_table(current, intermediates, trust_anchors);
    search_chain(
        &table,
        0,
        intermediates,
        trust_anchors,
        now,
        subordinate_ca_count,
        used_intermediates,
    )
}

impl Search {
    /// Whether the first trust anchor that issued the certificate in a row may issue certificates.
    pub open spec fn ends_at_anchor(self, row: int, subordinates: nat) -> bool {
        exists|anchor: int| #[trigger]
            self.first_anchor(row, anchor) && ca_outcome(
                self.anchors[anchor],
                self.now,
                subordinates,
            ) is Ok
    }

    /// Whether `path` is a chain of intermediates that the search accepts from a row: a trust
    /// anchor stands at its end and nowhere before, and each issuer may issue certificates.
    pub open spec fn is_path(
        self,
        row: int,
        subordinates: nat,
        used: Seq<int>,
        path: Seq<int>,
    ) -> bool
        decreases path.len(),
    {
        if path.len() == 0 {
            self.ends_at_anchor(row, subordinates)
        } else {
            &&& !self.is_anchored(row)
            &&& self.is_candidate(row, used, path[0])
            &&& ca_outcome(self.intermediates[path[0]], self.now, subordinates) is Ok
            &&& self.is_path(path[0] + 1, subordinates + 1, used.push(path[0]), path.skip(1))
        }
    }

    /// The row of the certificate that the issuer at `step` of a path issued.
    pub open spec fn row_before(self, row: int, path: Seq<int>, step: int) -> int {
        if step == 0 {
            row
        } else {
            path[step - 1] + 1
        }
    }

    /// Whether a step of a path is sound: it goes to an intermediate that is not used, issued the
    /// one before, and may issue certificates with that many authorities below it.
    pub open spec fn is_sound_step(
        self,
        row: int,
        subordinates: nat,
        used: Seq<int>,
        path: Seq<int>,
        step: int,
    ) -> bool {
        &&& 0 <= path[step] < self.intermediates.len()
        &&& !used.contains(path[step])
        &&& self.by_intermediate[self.row_before(row, path, step)][path[step]]
        &&& ca_outcome(
            self.intermediates[path[step]],
            self.now,
            (subordinates + step) as nat,
        ) is Ok
    }
}

proof fn lemma_first_anchor_is_unique(search: Search, row: int, a: int, b: int)
    requires
        search.first_anchor(row, a),
        search.first_anchor(row, b),
    ensures
        a == b,
{
    if a < b {
        assert(!search.by_anchor[row][a]);
    } else if b < a {
        assert(!search.by_anchor[row][b]);
    }
}

/// A search succeeds if and only if there is a chain that it accepts.
pub proof fn law_success_is_a_path(search: Search, row: int, subordinates: nat, used: Seq<int>)
    ensures
        search.chain_outcome(row, subordinates, used) is Ok <==> exists|path: Seq<int>|
            search.is_path(row, subordinates, used, path),
    decreases unused(search.intermediates.len(), used),
{
    let accepted = search.chain_outcome(row, subordinates, used) is Ok;
    if search.is_anchored(row) {
        let anchor = choose|anchor: int| search.first_anchor(row, anchor);
        if accepted {
            assert(search.is_path(row, subordinates, used, Seq::empty()));
        }
        if exists|path: Seq<int>| search.is_path(row, subordinates, used, path) {
            let path = choose|path: Seq<int>| search.is_path(row, subordinates, used, path);
            let other = choose|other: int| #[trigger]
                search.first_anchor(row, other) && ca_outcome(
                    search.anchors[other],
                    search.now,
                    subordinates,
                ) is Ok;
            lemma_first_anchor_is_unique(search, row, anchor, other);
        }
    } else {
        assert forall|index: int| #[trigger]
            search.is_candidate(row, used, index) && search.route_outcome(
                subordinates,
                used,
                index,
            ) is Ok implies exists|path: Seq<int>|
            search.is_path(row, subordinates, used, path) by {
            lemma_use_one(search.intermediates.len(), used, index);
            let next = index + 1;
            let above = subordinates + 1;
            let more = used.push(index);
            law_success_is_a_path(search, next, above, more);
            let rest = choose|rest: Seq<int>| search.is_path(next, above, more, rest);
            let path = seq![index] + rest;
            assert(path.skip(1) == rest);
            assert(search.is_path(row, subordinates, used, path));
        }
        if exists|path: Seq<int>| search.is_path(row, subordinates, used, path) {
            let path = choose|path: Seq<int>| search.is_path(row, subordinates, used, path);
            if path.len() == 0 {
                assert(search.is_anchored(row));
            }
            let index = path[0];
            lemma_use_one(search.intermediates.len(), used, index);
            assert(search.is_path(
                index + 1,
                subordinates + 1,
                used.push(index),
                path.skip(1),
            ));
            law_success_is_a_path(search, index + 1, subordinates + 1, used.push(index));
            assert(search.route_outcome(subordinates, used, index) is Ok);
        }
        if accepted {
            if !(exists|index: int| #[trigger]
                search.is_candidate(row, used, index) && search.route_outcome(
                    subordinates,
                    used,
                    index,
                ) is Ok) {
                let last = choose|index: int| search.last_candidate(row, used, index);
                assert(search.is_candidate(row, used, last));
            }
        }
    }
}

/// On a chain that the search accepts no intermediate stands twice, each issued the one before and
/// may issue certificates with that many authorities below it, and so may the trust anchor at the
/// end, which issued the last.
pub proof fn law_path_is_sound(
    search: Search,
    row: int,
    subordinates: nat,
    used: Seq<int>,
    path: Seq<int>,
)
    requires
        search.is_path(row, subordinates, used, path),
    ensures
        path.no_duplicates(),
        forall|step: int|
            0 <= step < path.len() ==> #[trigger] search.is_sound_step(
                row,
                subordinates,
                used,
                path,
                step,
            ),
        search.ends_at_anchor(
            search.row_before(row, path, path.len() as int),
            subordinates + path.len(),
        ),
    decreases path.len(),
{
    if path.len() > 0 {
        let first = path[0];
        let rest = path.skip(1);
        let more = used.push(first);
        law_path_is_sound(search, first + 1, subordinates + 1, more, rest);
        assert(more[used.len() as int] == first);
        assert forall|x: int| used.contains(x) implies more.contains(x) by {
            let k = choose|k: int| 0 <= k < used.len() && used[k] == x;
            assert(more[k] == x);
        }
        assert forall|step: int| 0 <= step < path.len() implies #[trigger] search.is_sound_step(
            row,
            subordinates,
            used,
            path,
            step,
        ) by {
            if step > 0 {
                assert(search.is_sound_step(first + 1, subordinates + 1, more, rest, step - 1));
            }
        }
        assert forall|i: int, j: int|
            0 <= i < path.len() && 0 <= j < path.len() && i != j implies path[i] != path[j] by {
            if i > 0 && j > 0 {
                assert(rest[i - 1] != rest[j - 1]);
            } else if i > 0 {
                assert(search.is_sound_step(first + 1, subordinates + 1, more, rest, i - 1));
            } else {
                assert(search.is_sound_step(first + 1, subordinates + 1, more, rest, j - 1));
            }
        }
        assert(search.row_before(row, path, path.len() as int) == search.row_before(
            first + 1,
            rest,
            rest.len() as int,
        ));
        assert((subordinates + 1) + rest.len() == subordinates + path.len());
    }
}

/// A certificate that no trust anchor and no unused intermediate issued has an unknown issuer.
pub proof fn law_unknown_issuer(search: Search, row: int, subordinates: nat, used: Seq<int>)
    requires
        !search.is_anchored(row),
        forall|index: int| !#[trigger] search.is_candidate(row, used, index),
    ensures
        search.chain_outcome(row, subordinates, used) == invalid(CertificateError::UnknownIssuer),
{
}

/// A certificate that a trust anchor issued is accepted or refused by the first such anchor alone.
pub proof fn law_first_anchor_decides(
    search: Search,
    row: int,
    subordinates: nat,
    used: Seq<int>,
    anchor: int,
)
    requires
        search.first_anchor(row, anchor),
    ensures
        search.chain_outcome(row, subordinates, used) == ca_outcome(
            search.anchors[anchor],
            search.now,
            subordinates,
        ),
{
    let chosen = choose|chosen: int| search.first_anchor(row, chosen);
    lemma_first_anchor_is_unique(search, row, chosen, anchor);
}

/// The certificate at a step of a chain that starts at `current` and goes through `path`.
pub open spec fn on_chain(
    current: CertificateView,
    intermediates: Seq<CertificateView>,
    path: Seq<int>,
    step: int,
) -> CertificateView {
    if step == 0 {
        current
    } else {
        intermediates[path[step - 1]]
    }
}

/// Whether the intermediate at a step of a chain is not used, issued the certificate before, and may
/// issue certificates with that many authorities below it.
pub open spec fn is_link(
    current: CertificateView,
    intermediates: Seq<CertificateView>,
    now: i128,
    subordinates: nat,
    used: Seq<int>,
    path: Seq<int>,
    step: int,
) -> bool {
    &&& 0 <= path[step] < intermediates.len()
    &&& !used.contains(path[step])
    &&& issued_by(on_chain(current, intermediates, path, step), intermediates[path[step]])
    &&& ca_outcome(intermediates[path[step]], now, (subordinates + step) as nat) is Ok
}

/// Whether `path` leads from `current` to a trust anchor: different intermediates, each the issuer
/// of the one before, each fit to issue certificates with that many authorities below it, and so
/// for the anchor.
pub open spec fn is_chain_of_trust(
    current: CertificateView,
    intermediates: Seq<CertificateView>,
    anchors: Seq<CertificateView>,
    now: i128,
    subordinates: nat,
    used: Seq<int>,
    path: Seq<int>,
    anchor: int,
) -> bool {
    &&& path.no_duplicates()
    &&& forall|step: int|
        0 <= step < path.len() ==> #[trigger] is_link(
            current,
            intermediates,
            now,
            subordinates,
            used,
            path,
            step,
        )
    &&& 0 <= anchor < anchors.len()
    &&& issued_by(on_chain(current, intermediates, path, path.len() as int), anchors[anchor])
    &&& ca_outcome(anchors[anchor], now, subordinates + path.len()) is Ok
}

/// A certificate is accepted only where a chain of trust leads from it to a trust anchor.
pub proof fn law_accepted_means_trusted(
    current: CertificateView,
    intermediates: Seq<CertificateView>,
    anchors: Seq<CertificateView>,
    now: i128,
    subordinates: nat,
    used: Seq<int>,
)
    requires
        chain_search(current, intermediates, anchors, now).chain_outcome(
            0,
            subordinates,
            used,
        ) is Ok,
    ensures
        exists|path: Seq<int>, anchor: int|
            is_chain_of_trust(
                current,
                intermediates,
                anchors,
                now,
                subordinates,
                used,
                path,
                anchor,
            ),
{
    let search = chain_search(current, intermediates, anchors, now);
    law_success_is_a_path(search, 0, subordinates, used);
    let path = choose|path: Seq<int>| search.is_path(0, subordinates, used, path);
    law_path_is_sound(search, 0, subordinates, used, path);
    let end = search.row_before(0, path, path.len() as int);
    let total = subordinates + path.len();
    assert(search.ends_at_anchor(end, total));
    let anchor = choose|anchor: int| #[trigger]
        search.first_anchor(end, anchor) && ca_outcome(
            search.anchors[anchor],
            search.now,
            total,
        ) is Ok;
    assert forall|step: int| 0 <= step < path.len() implies #[trigger] is_link(
        current,
        intermediates,
        now,
        subordinates,
        used,
        path,
        step,
    ) by {
        assert(search.is_sound_step(0, subordinates, used, path, step));
        if step > 0 {
            assert(search.is_sound_step(0, subordinates, used, path, step - 1));
        }
        lemma_table_entry(
            current,
            intermediates,
            intermediates,
            search.row_before(0, path, step),
            path[step],
        );
    }
    if path.len() > 0 {
        assert(search.is_sound_step(0, subordinates, used, path, path.len() - 1));
    }
    lemma_table_entry(current, intermediates, anchors, end, anchor);
    assert(is_chain_of_trust(
        current,
        intermediates,
        anchors,
        now,
        subordinates,
        used,
        path,
        anchor,
    ));
}

proof fn lemma_table_entry(
    current: CertificateView,
    intermediates: Seq<CertificateView>,
    candidates: Seq<CertificateView>,
    row: int,
    index: int,
)
    requires
        0 <= row <= intermediates.len(),
        0 <= index < candidates.len(),
    ensures
        issuer_rows(current, intermediates, candidates)[row][index] == issued_by(
            in_row(current, intermediates, row),
            candidates[index],
        ),
{
}

/// Whether each intermediate of one search is one of another's, `places` saying which.
pub open spec fn is_placed_in(
    intermediates: Seq<CertificateView>,
    others: Seq<CertificateView>,
    places: Seq<int>,
) -> bool {
    &&& places.len() == intermediates.len()
    &&& places.no_duplicates()
    &&& forall|i: int|
        0 <= i < intermediates.len() ==> 0 <= #[trigger] places[i] < others.len()
            && others[places[i]] == intermediates[i]
}

proof fn lemma_path_carries_over(
    current: CertificateView,
    intermediates: Seq<CertificateView>,
    others: Seq<CertificateView>,
    places: Seq<int>,
    anchors: Seq<CertificateView>,
    now: i128,
    row: int,
    subordinates: nat,
    used: Seq<int>,
    path: Seq<int>,
)
    requires
        is_placed_in(intermediates, others, places),
        0 <= row <= intermediates.len(),
        forall|k: int| 0 <= k < used.len() ==> 0 <= #[trigger] used[k] < intermediates.len(),
        chain_search(current, intermediates, anchors, now).is_path(row, subordinates, used, path),
    ensures
        chain_search(current, others, anchors, now).is_path(
            if row == 0 {
                0
            } else {
                places[row - 1] + 1
            },
            subordinates,
            used.map_values(|i: int| places[i]),
            path.map_values(|i: int| places[i]),
        ),
    decreases path.len(),
{
    let one = chain_search(current, intermediates, anchors, now);
    let other = chain_search(current, others, anchors, now);
    let placed = |i: int| places[i];
    let other_row = if row == 0 {
        0
    } else {
        places[row - 1] + 1
    };
    let other_used = used.map_values(placed);
    let other_path = path.map_values(placed);
    assert(in_row(current, intermediates, row) == in_row(current, others, other_row));
    assert(one.by_anchor[row] == other.by_anchor[other_row]);
    lemma_same_first_anchors(one, other, row, other_row);
    if path.len() == 0 {
        let anchor = choose|anchor: int| #[trigger]
            one.first_anchor(row, anchor) && ca_outcome(one.anchors[anchor], now, subordinates) is Ok;
        assert(other.first_anchor(other_row, anchor));
    } else {
        let index = path[0];
        let other_index = places[index];
        if other.is_anchored(other_row) {
            let anchor = choose|anchor: int| other.first_anchor(other_row, anchor);
            assert(one.first_anchor(row, anchor));
        }
        assert(one.by_intermediate[row][index]);
        assert(other.by_intermediate[other_row][other_index]);
        if other_used.contains(other_index) {
            let k = choose|k: int| 0 <= k < other_used.len() && other_used[k] == other_index;
            assert(0 <= used[k] < intermediates.len());
            assert(places[used[k]] == places[index]);
            assert(used.contains(used[k]));
        }
        assert(other.is_candidate(other_row, other_used, other_index));
        let more = used.push(index);
        lemma_path_carries_over(
            current,
            intermediates,
            others,
            places,
            anchors,
            now,
            index + 1,
            subordinates + 1,
            more,
            path.skip(1),
        );
        assert(more.map_values(placed) == other_used.push(other_index));
        assert(path.skip(1).map_values(placed) == other_path.skip(1));
        assert(other_path[0] == other_index);
    }
}

/// A certificate that is accepted stays so where there are more intermediates, and wherever among
/// them those stand that were there before.
pub proof fn law_more_intermediates_do_not_hurt(
    current: CertificateView,
    intermediates: Seq<CertificateView>,
    others: Seq<CertificateView>,
    places: Seq<int>,
    anchors: Seq<CertificateView>,
    now: i128,
    subordinates: nat,
)
    requires
        is_placed_in(intermediates, others, places),
        chain_search(current, intermediates, anchors, now).chain_outcome(
            0,
            subordinates,
            Seq::empty(),
        ) is Ok,
    ensures
        chain_search(current, others, anchors, now).chain_outcome(
            0,
            subordinates,
            Seq::empty(),
        ) is Ok,
{
    let one = chain_search(current, intermediates, anchors, now);
    let other = chain_search(current, others, anchors, now);
    let none = Seq::<int>::empty();
    law_success_is_a_path(one, 0, subordinates, none);
    let path = choose|path: Seq<int>| one.is_path(0, subordinates, none, path);
    lemma_path_carries_over(
        current,
        intermediates,
        others,
        places,
        anchors,
        now,
        0,
        subordinates,
        none,
        path,
    );
    let placed = |i: int| places[i];
    assert(none.map_values(placed) == none);
    assert(other.is_path(0, subordinates, none, path.map_values(placed)));
    law_success_is_a_path(other, 0, subordinates, none);
}

/// A list whose entries all occur as often in another has its entries placed in that other.
proof fn lemma_places_exist(
    intermediates: Seq<CertificateView>,
    others: Seq<CertificateView>,
)
    requires
        intermediates.to_multiset().subset_of(others.to_multiset()),
    ensures
        exists|places: Seq<int>| is_placed_in(intermediates, others, places),
    decreases intermediates.len(),
{
    broadcast use vstd::seq_lib::group_to_multiset_ensures;

    if intermediates.len() == 0 {
        assert(is_placed_in(intermediates, others, Seq::empty()));
    } else {
        let front = intermediates.drop_last();
        let last = intermediates.last();
        assert(front.push(last) == intermediates);
        assert(intermediates.to_multiset() == front.to_multiset().insert(last));
        assert(intermediates.to_multiset().count(last) <= others.to_multiset().count(last));
        assert(others.contains(last));
        let k = choose|k: int| 0 <= k < others.len() && others[k] == last;
        let rest = others.remove(k);
        assert(rest.to_multiset() == others.to_multiset().remove(last));
        assert forall|v: CertificateView| front.to_multiset().count(v)
            <= rest.to_multiset().count(v) by {
            assert(intermediates.to_multiset().count(v) <= others.to_multiset().count(v));
        }
        lemma_places_exist(front, rest);
        let inner = choose|inner: Seq<int>| is_placed_in(front, rest, inner);
        let shifted = inner.map_values(
            |p: int|
                if p < k {
                    p
                } else {
                    p + 1
                },
        );
        let places = shifted.push(k);
        assert forall|i: int| 0 <= i < intermediates.len() implies 0 <= #[trigger] places[i]
            < others.len() && others[places[i]] == intermediates[i] by {
            if i < front.len() {
                assert(0 <= inner[i] < rest.len() && rest[inner[i]] == front[i]);
            }
        }
        assert forall|i: int, j: int|
            0 <= i < places.len() && 0 <= j < places.len() && i != j implies places[i]
            != places[j] by {
            if i < front.len() && j < front.len() {
                assert(inner[i] != inner[j]);
            }
        }
        assert(is_placed_in(intermediates, others, places));
    }
}

/// A certificate that is accepted stays so in whatever order the intermediates come, and whatever
/// others come with them.
pub proof fn law_order_of_intermediates_does_not_matter(
    current: CertificateView,
    intermediates: Seq<CertificateView>,
    extra: Seq<CertificateView>,
    others: Seq<CertificateView>,
    anchors: Seq<CertificateView>,
    now: i128,
    subordinates: nat,
)
    requires
        others.to_multiset() == (intermediates + extra).to_multiset(),
        chain_search(current, intermediates, anchors, now).chain_outcome(
            0,
            subordinates,
            Seq::empty(),
        ) is Ok,
    ensures
        chain_search(current, others, anchors, now).chain_outcome(
            0,
            subordinates,
            Seq::empty(),
        ) is Ok,
{
    vstd::seq_lib::lemma_multiset_commutative(intermediates, extra);
    lemma_places_exist(intermediates, others);
    let places = choose|places: Seq<int>| is_placed_in(intermediates, others, places);
    law_more_intermediates_do_not_hurt(
        current,
        intermediates,
        others,
        places,
        anchors,
        now,
        subordinates,
    );
}

proof fn lemma_last_candidate_is_unique(search: Search, row: int, used: Seq<int>, a: int, b: int)
    requires
        search.last_candidate(row, used, a),
        search.last_candidate(row, used, b),
    ensures
        a == b,
{
    if a < b {
        assert(!search.is_candidate(row, used, b));
    } else if b < a {
        assert(!search.is_candidate(row, used, a));
    }
}

/// Two searches that agree on a row and on the rows of all intermediates come to the same.
proof fn lemma_same_rows(
    one: Search,
    other: Search,
    row: int,
    other_row: int,
    subordinates: nat,
    used: Seq<int>,
)
    requires
        one.intermediates == other.intermediates,
        one.anchors == other.anchors,
        one.now == other.now,
        one.by_anchor[row] == other.by_anchor[other_row],
        one.by_intermediate[row] == other.by_intermediate[other_row],
        forall|r: int|
            0 < r <= one.intermediates.len() ==> #[trigger] one.by_anchor[r] == other.by_anchor[r],
        forall|r: int|
            0 < r <= one.intermediates.len() ==> #[trigger] one.by_intermediate[r]
                == other.by_intermediate[r],
    ensures
        one.chain_outcome(row, subordinates, used) == other.chain_outcome(
            other_row,
            subordinates,
            used,
        ),
    decreases unused(one.intermediates.len(), used),
{
    lemma_same_first_anchors(one, other, row, other_row);
    if one.is_anchored(row) {
        let a = choose|a: int| one.first_anchor(row, a);
        let b = choose|b: int| other.first_anchor(other_row, b);
        assert(other.first_anchor(other_row, a));
        lemma_first_anchor_is_unique(other, other_row, a, b);
    } else {
        if other.is_anchored(other_row) {
            let b = choose|b: int| other.first_anchor(other_row, b);
            assert(one.first_anchor(row, b));
        }
        assert forall|index: int| #[trigger] one.is_candidate(row, used, index) implies {
            &&& other.is_candidate(other_row, used, index)
            &&& one.route_outcome(subordinates, used, index) == other.route_outcome(
                subordinates,
                used,
                index,
            )
        } by {
            lemma_use_one(one.intermediates.len(), used, index);
            lemma_same_rows(
                one,
                other,
                index + 1,
                index + 1,
                subordinates + 1,
                used.push(index),
            );
        }
        assert forall|index: int| #[trigger]
            other.is_candidate(other_row, used, index) implies one.is_candidate(
            row,
            used,
            index,
        ) by {}
        assert forall|index: int| #[trigger] one.last_candidate(row, used, index)
            == other.last_candidate(other_row, used, index) by {
            if one.last_candidate(row, used, index) {
                assert forall|i: int| i > index implies !#[trigger] other.is_candidate(
                    other_row,
                    used,
                    i,
                ) by {
                    assert(!one.is_candidate(row, used, i));
                }
            }
            if other.last_candidate(other_row, used, index) {
                assert forall|i: int| i > index implies !#[trigger] one.is_candidate(
                    row,
                    used,
                    i,
                ) by {
                    assert(!other.is_candidate(other_row, used, i));
                }
            }
        }
        if exists|index: int| one.last_candidate(row, used, index) {
            let a = choose|a: int| one.last_candidate(row, used, a);
            let b = choose|b: int| other.last_candidate(other_row, used, b);
            assert(one.is_candidate(row, used, a));
            assert(other.last_candidate(other_row, used, a));
            lemma_last_candidate_is_unique(other, other_row, used, a, b);
        } else if exists|index: int| other.last_candidate(other_row, used, index) {
            let b = choose|b: int| other.last_candidate(other_row, used, b);
            assert(one.last_candidate(row, used, b));
        }
    }
}

proof fn lemma_same_first_anchors(one: Search, other: Search, row: int, other_row: int)
    requires
        one.anchors == other.anchors,
        one.by_anchor[row] == other.by_anchor[other_row],
    ensures
        forall|anchor: int|
            one.first_anchor(row, anchor) == #[trigger] other.first_anchor(other_row, anchor),
        forall|anchor: int| #[trigger]
            one.first_anchor(row, anchor) == other.first_anchor(other_row, anchor),
{
    assert forall|anchor: int| one.first_anchor(row, anchor) == #[trigger] other.first_anchor(
        other_row,
        anchor,
    ) by {
        if one.first_anchor(row, anchor) {
            assert forall|i: int| 0 <= i < anchor implies !#[trigger] other.by_anchor[other_row][i]
                by {
                assert(!one.by_anchor[row][i]);
            }
        }
        if other.first_anchor(other_row, anchor) {
            assert forall|i: int| 0 <= i < anchor implies !#[trigger] one.by_anchor[row][i] by {
                assert(!other.by_anchor[other_row][i]);
            }
        }
    }
}

/// To go on from an intermediate is to search for a chain that starts at it.
pub proof fn law_going_on_is_a_search(
    current: CertificateView,
    intermediates: Seq<CertificateView>,
    anchors: Seq<CertificateView>,
    now: i128,
    index: int,
    subordinates: nat,
    used: Seq<int>,
)
    requires
        0 <= index < intermediates.len(),
    ensures
        chain_search(current, intermediates, anchors, now).chain_outcome(
            index + 1,
            subordinates,
            used,
        ) == chain_search(intermediates[index], intermediates, anchors, now).chain_outcome(
            0,
            subordinates,
            used,
        ),
{
    lemma_same_rows(
        chain_search(current, intermediates, anchors, now),
        chain_search(intermediates[index], intermediates, anchors, now),
        index + 1,
        0,
        subordinates,
        used,
    );
}

/// Whether the intermediate at `index` is not used, issued the certificate, may issue certificates,
/// and has itself a chain to a trust anchor.
pub open spec fn leads_on(
    current: CertificateView,
    intermediates: Seq<CertificateView>,
    anchors: Seq<CertificateView>,
    now: i128,
    subordinates: nat,
    used: Seq<int>,
    index: int,
) -> bool {
    &&& 0 <= index < intermediates.len()
    &&& !used.contains(index)
    &&& issued_by(current, intermediates[index])
    &&& ca_outcome(intermediates[index], now, subordinates) is Ok
    &&& chain_search(intermediates[index], intermediates, anchors, now).chain_outcome(
        0,
        subordinates + 1,
        used.push(index),
    ) is Ok
}

/// A certificate that no trust anchor issued is accepted if and only if one of the intermediates
/// leads on from it; those that do not are no obstacle.
pub proof fn law_some_intermediate_leads_on(
    current: CertificateView,
    intermediates: Seq<CertificateView>,
    anchors: Seq<CertificateView>,
    now: i128,
    subordinates: nat,
    used: Seq<int>,
)
    requires
        forall|i: int| 0 <= i < anchors.len() ==> !issued_by(current, #[trigger] anchors[i]),
    ensures
        chain_search(current, intermediates, anchors, now).chain_outcome(
            0,
            subordinates,
            used,
        ) is Ok <==> exists|index: int|
            leads_on(current, intermediates, anchors, now, subordinates, used, index),
        chain_search(current, intermediates, anchors, now).chain_outcome(
            0,
            subordinates,
            used,
        ) is Ok <==> exists|index: int|
            {
                &&& 0 <= index < intermediates.len()
                &&& !used.contains(index)
                &&& issued_by(current, #[trigger] intermediates[index])
                &&& ca_outcome(intermediates[index], now, subordinates) is Ok
                &&& chain_search(intermediates[index], intermediates, anchors, now).chain_outcome(
                    0,
                    subordinates + 1,
                    used.push(index),
                ) is Ok
            },
{
    let search = chain_search(current, intermediates, anchors, now);
    assert forall|anchor: int| !search.first_anchor(0, anchor) by {
        if search.first_anchor(0, anchor) {
            lemma_table_entry(current, intermediates, anchors, 0, anchor);
            assert(!issued_by(current, anchors[anchor]));
        }
    }
    assert forall|index: int| #[trigger]
        leads_on(current, intermediates, anchors, now, subordinates, used, index) == (
        search.is_candidate(0, used, index) && search.route_outcome(
            subordinates,
            used,
            index,
        ) is Ok) by {
        if 0 <= index < intermediates.len() {
            lemma_table_entry(current, intermediates, intermediates, 0, index);
            law_going_on_is_a_search(
                current,
                intermediates,
                anchors,
                now,
                index,
                subordinates + 1,
                used.push(index),
            );
        }
    }
    if search.chain_outcome(0, subordinates, used) is Ok {
        if !(exists|index: int| #[trigger]
            search.is_candidate(0, used, index) && search.route_outcome(
                subordinates,
                used,
                index,
            ) is Ok) {
            let last = choose|index: int| search.last_candidate(0, used, index);
            assert(search.is_candidate(0, used, last));
        }
        let index = choose|index: int| #[trigger]
            search.is_candidate(0, used, index) && search.route_outcome(
                subordinates,
                used,
                index,
            ) is Ok;
        assert(leads_on(current, intermediates, anchors, now, subordinates, used, index));
    }
    if exists|index: int|
        leads_on(current, intermediates, anchors, now, subordinates, used, index) {
        let index = choose|index: int|
            leads_on(current, intermediates, anchors, now, subordinates, used, index);
        assert(search.is_candidate(0, used, index));
        assert(issued_by(current, intermediates[index]));
    }
    assert forall|index: int|
        {
            &&& 0 <= index < intermediates.len()
            &&& !used.contains(index)
            &&& issued_by(current, #[trigger] intermediates[index])
            &&& ca_outcome(intermediates[index], now, subordinates) is Ok
            &&& chain_search(intermediates[index], intermediates, anchors, now).chain_outcome(
                0,
                subordinates + 1,
                used.push(index),
            ) is Ok
        } implies leads_on(
        current,
        intermediates,
        anchors,
        now,
        subordinates,
        used,
        index,
    ) by {}
}

/// A certificate that trust anchors issued is accepted or refused by the first of them, whatever the
/// others and the intermediates are.
pub proof fn law_first_issuing_anchor_decides(
    current: CertificateView,
    intermediates: Seq<CertificateView>,
    anchors: Seq<CertificateView>,
    now: i128,
    subordinates: nat,
    used: Seq<int>,
    anchor: int,
)
    requires
        0 <= anchor < anchors.len(),
        issued_by(current, anchors[anchor]),
        forall|i: int| 0 <= i < anchor ==> !issued_by(current, #[trigger] anchors[i]),
    ensures
        chain_search(current, intermediates, anchors, now).chain_outcome(0, subordinates, used)
            == ca_outcome(anchors[anchor], now, subordinates),
{
    let search = chain_search(current, intermediates, anchors, now);
    lemma_table_entry(current, intermediates, anchors, 0, anchor);
    assert forall|i: int| 0 <= i < anchor implies !#[trigger] search.by_anchor[0][i] by {
        lemma_table_entry(current, intermediates, anchors, 0, i);
        assert(!issued_by(current, anchors[i]));
    }
    law_first_anchor_decides(search, 0, subordinates, used, anchor);
}

/// In a table, the first trust anchor that issued the certificate in a row decides alone: neither
/// other anchors nor intermediates nor what was used play a part.
pub proof fn law_first_anchor_of_a_row_decides(
    search: Search,
    row: int,
    subordinates: nat,
    used: Seq<int>,
    anchor: int,
)
    requires
        0 <= anchor < search.anchors.len(),
        search.by_anchor[row][anchor],
        forall|i: int| 0 <= i < anchor ==> !#[trigger] search.by_anchor[row][i],
    ensures
        search.chain_outcome(row, subordinates, used) == ca_outcome(
            search.anchors[anchor],
            search.now,
            subordinates,
        ),
{
    law_first_anchor_decides(search, row, subordinates, used, anchor);
}

proof fn lemma_row_without_anchor(search: Search, row: int)
    requires
        forall|i: int| 0 <= i < search.anchors.len() ==> !#[trigger] search.by_anchor[row][i],
    ensures
        !search.is_anchored(row),
{
    assert forall|anchor: int| !search.first_anchor(row, anchor) by {
        if search.first_anchor(row, anchor) {
            assert(!search.by_anchor[row][anchor]);
        }
    }
}

/// In a table, a certificate that no trust anchor issued is accepted if and only if some intermediate
/// that is not used issued it, may issue certificates, and is itself accepted with one more authority
/// below and itself used.
pub proof fn law_rows_are_accepted_through_intermediates(
    search: Search,
    row: int,
    subordinates: nat,
    used: Seq<int>,
)
    requires
        forall|i: int| 0 <= i < search.anchors.len() ==> !#[trigger] search.by_anchor[row][i],
    ensures
        search.chain_outcome(row, subordinates, used) == Ok::<(), TlsErrorView>(()) <==> exists|index: int|
            {
                &&& 0 <= index < search.intermediates.len()
                &&& !used.contains(index)
                &&& search.by_intermediate[row][index]
                &&& ca_outcome(#[trigger] search.intermediates[index], search.now, subordinates)
                    is Ok
                &&& search.chain_outcome(index + 1, subordinates + 1, used.push(index)) is Ok
            },
{
    lemma_row_without_anchor(search, row);
    if search.chain_outcome(row, subordinates, used) is Ok {
        if !(exists|index: int| #[trigger]
            search.is_candidate(row, used, index) && search.route_outcome(
                subordinates,
                used,
                index,
            ) is Ok) {
            let last = choose|index: int| search.last_candidate(row, used, index);
            assert(search.is_candidate(row, used, last));
        }
        let index = choose|index: int| #[trigger]
            search.is_candidate(row, used, index) && search.route_outcome(
                subordinates,
                used,
                index,
            ) is Ok;
        assert(ca_outcome(search.intermediates[index], search.now, subordinates) is Ok);
    }
    if exists|index: int|
        {
            &&& 0 <= index < search.intermediates.len()
            &&& !used.contains(index)
            &&& search.by_intermediate[row][index]
            &&& ca_outcome(#[trigger] search.intermediates[index], search.now, subordinates) is Ok
            &&& search.chain_outcome(index + 1, subordinates + 1, used.push(index)) is Ok
        } {
        let index = choose|index: int|
            {
                &&& 0 <= index < search.intermediates.len()
                &&& !used.contains(index)
                &&& search.by_intermediate[row][index]
                &&& ca_outcome(#[trigger] search.intermediates[index], search.now, subordinates)
                    is Ok
                &&& search.chain_outcome(index + 1, subordinates + 1, used.push(index)) is Ok
            };
        assert(search.is_candidate(row, used, index));
        assert(search.route_outcome(subordinates, used, index) is Ok);
    }
}

/// In a table, a certificate that no trust anchor issued and that is refused is refused for the reason
/// of the last intermediate that issued it and is not used: that it may not issue certificates, or
/// else what its own search comes to.
pub proof fn law_last_intermediate_is_reported(
    search: Search,
    row: int,
    subordinates: nat,
    used: Seq<int>,
    last: int,
)
    requires
        forall|i: int| 0 <= i < search.anchors.len() ==> !#[trigger] search.by_anchor[row][i],
        search.chain_outcome(row, subordinates, used) is Err,
        0 <= last < search.intermediates.len(),
        !used.contains(last),
        search.by_intermediate[row][last],
        forall|i: int|
            last < i < search.intermediates.len() && !used.contains(i)
                ==> !#[trigger] search.by_intermediate[row][i],
    ensures
        ca_outcome(search.intermediates[last], search.now, subordinates) is Err
            ==> search.chain_outcome(row, subordinates, used) == ca_outcome(
            search.intermediates[last],
            search.now,
            subordinates,
        ),
        ca_outcome(search.intermediates[last], search.now, subordinates) is Ok
            ==> search.chain_outcome(row, subordinates, used) == search.chain_outcome(
            last + 1,
            subordinates + 1,
            used.push(last),
        ),
{
    lemma_row_without_anchor(search, row);
    assert(search.is_candidate(row, used, last));
    assert forall|i: int| i > last implies !#[trigger] search.is_candidate(row, used, i) by {
        if search.is_candidate(row, used, i) {
            assert(!search.by_intermediate[row][i]);
        }
    }
    assert(search.last_candidate(row, used, last));
    let chosen = choose|index: int| search.last_candidate(row, used, index);
    lemma_last_candidate_is_unique(search, row, used, chosen, last);
}

/// In a table, a certificate that neither a trust anchor nor an unused intermediate issued has an
/// unknown issuer.
pub proof fn law_rows_without_issuer(search: Search, row: int, subordinates: nat, used: Seq<int>)
    requires
        forall|i: int| 0 <= i < search.anchors.len() ==> !#[trigger] search.by_anchor[row][i],
        forall|i: int|
            0 <= i < search.intermediates.len() && !used.contains(i)
                ==> !#[trigger] search.by_intermediate[row][i],
    ensures
        search.chain_outcome(row, subordinates, used) == Err::<(), TlsErrorView>(
            TlsErrorView::InvalidCertificate(CertificateError::UnknownIssuer),
        ),
{
    lemma_row_without_anchor(search, row);
    assert forall|index: int| !#[trigger] search.is_candidate(row, used, index) by {
        if search.is_candidate(row, used, index) {
            assert(!search.by_intermediate[row][index]);
        }
    }
}

/// A search goes by the entries of its table, the certificates that it is given, and the time.
pub proof fn law_searches_go_by_their_table(
    table: IssuanceTable,
    intermediates: Seq<Certificate>,
    anchors: Seq<Certificate>,
    now: i128,
    row: int,
    index: int,
)
    ensures
        ({
            let search = table.search(intermediates, anchors, now);
            &&& search.now == now
            &&& search.intermediates.len() == intermediates.len()
            &&& search.anchors.len() == anchors.len()
            &&& 0 <= index < intermediates.len() ==> search.intermediates[index]
                == intermediates[index]@
            &&& 0 <= index < anchors.len() ==> search.anchors[index] == anchors[index]@
            &&& 0 <= row < table.by_anchor@.len() ==> search.by_anchor[row]
                == table.by_anchor@[row]@
            &&& 0 <= row < table.by_intermediate@.len() ==> search.by_intermediate[row]
                == table.by_intermediate@[row]@
        }),
{
}

/// The search for a chain from a certificate has a row for it and one for each intermediate, and in
/// each row stands who of the anchors and of the intermediates issued the certificate in it.
pub proof fn law_rows_say_who_issued_whom(
    current: CertificateView,
    intermediates: Seq<CertificateView>,
    anchors: Seq<CertificateView>,
    now: i128,
    row: int,
    index: int,
)
    requires
        0 <= row <= intermediates.len(),
    ensures
        ({
            let search = chain_search(current, intermediates, anchors, now);
            let certificate = if row == 0 {
                current
            } else {
                intermediates[row - 1]
            };
            &&& search.intermediates == intermediates
            &&& search.anchors == anchors
            &&& search.now == now
            &&& search.by_anchor.len() == intermediates.len() + 1
            &&& search.by_intermediate.len() == intermediates.len() + 1
            &&& search.by_anchor[row].len() == anchors.len()
            &&& search.by_intermediate[row].len() == intermediates.len()
            &&& 0 <= index < anchors.len() ==> search.by_anchor[row][index] == issued_by(
                certificate,
                anchors[index],
            )
            &&& 0 <= index < intermediates.len() ==> search.by_intermediate[row][index]
                == issued_by(certificate, intermediates[index])
        }),
{
}

/// Positions are numbers, in order.
pub proof fn law_positions(list: Seq<usize>)
    ensures
        positions(list).len() == list.len(),
        forall|i: int| 0 <= i < list.len() ==> #[trigger] positions(list)[i] == list[i],
{
}

} // verus!
