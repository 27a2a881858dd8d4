//! Conflict detection by probing: two requirements on one package conflict
//! when no version of a fixed probe set satisfies both.
//!
//! This is a heuristic. Two requirements that meet only in versions outside
//! the probe set are reported as conflicting.

use crate::requirement::{accepts, Clause, Version};
use crate::specifier::{PackageView, PythonPackage};
use vstd::prelude::*;

verus! {

/// The version `major.minor.patch`.
pub open spec fn release(major: u64, minor: u64, patch: u64) -> Version {
    Version { major, minor, patch }
}

/// The versions that are tried against both requirements, in this order.
pub open spec fn probes() -> Seq<Version> {
    seq![
        release(0, 1, 0),
        release(1, 0, 0),
        release(2, 0, 0),
        release(3, 0, 0),
        release(4, 0, 0),
        release(5, 0, 0),
        release(6, 0, 0),
        release(7, 0, 0),
        release(1, 2, 3),
        release(2, 3, 4),
        release(3, 4, 5),
        release(4, 5, 6),
        release(5, 6, 7),
        release(1, 0, 1),
        release(2, 0, 1),
        release(3, 0, 1),
        release(4, 0, 1),
        release(5, 0, 1),
    ]
}

/// Whether the probe at position `i` is accepted under both lists of
/// comparators.
pub open spec fn shared_at(a: Seq<Clause>, b: Seq<Clause>, i: int) -> bool {
    0 <= i < probes().len() && accepts(a, probes()[i]) && accepts(b, probes()[i])
}

/// Whether some probe is accepted under both lists of comparators.
pub open spec fn share_probe(a: Seq<Clause>, b: Seq<Clause>) -> bool {
    exists|i: int| shared_at(a, b, i)
}

/// Whether two packages conflict: they have the same name, and no probe
/// satisfies the requirements of both.
pub open spec fn conflict(a: PackageView, b: PackageView) -> bool {
    a.name == b.name && !share_probe(a.clauses, b.clauses)
}

/// The probe set.
pub fn probe_versions() -> (v: Vec<Version>)
    ensures
        v@ == probes(),
        v.len() == 18,
{
    let v = vec![
        Version { major: 0, minor: 1, patch: 0 },
        Version { major: 1, minor: 0, patch: 0 },
        Version { major: 2, minor: 0, patch: 0 },
        Version { major: 3, minor: 0, patch: 0 },
        Version { major: 4, minor: 0, patch: 0 },
        Version { major: 5, minor: 0, patch: 0 },
        Version { major: 6, minor: 0, patch: 0 },
        Version { major: 7, minor: 0, patch: 0 },
        Version { major: 1, minor: 2, patch: 3 },
        Version { major: 2, minor: 3, patch: 4 },
        Version { major: 3, minor: 4, patch: 5 },
        Version { major: 4, minor: 5, patch: 6 },
        Version { major: 5, minor: 6, patch: 7 },
        Version { major: 1, minor: 0, patch: 1 },
        Version { major: 2, minor: 0, patch: 1 },
        Version { major: 3, minor: 0, patch: 1 },
        Version { major: 4, minor: 0, patch: 1 },
        Version { major: 5, minor: 0, patch: 1 },
    ];
    assert(v@ =~= probes());
    v
}

/// For each probe, in order, whether a requirement with the given
/// comparators accepts it.
pub open spec fn acceptance(clauses: Seq<Clause>) -> Seq<bool> {
    Seq::new(probes().len(), |i: int| accepts(clauses, probes()[i]))
}

/// Whether `i` is a position at which both sequences hold `true`.
pub open spec fn common_at(a: Seq<bool>, b: Seq<bool>, i: int) -> bool {
    0 <= i < a.len() && i < b.len() && a[i] && b[i]
}

/// The first position at which both `a` and `b` hold `true`, if there is one.
pub fn first_common(a: &Vec<bool>, b: &Vec<bool>) -> (r: Option<usize>)
    ensures
        match r {
            Some(i) => common_at(a@, b@, i as int) && forall|j: int|
                0 <= j < i ==> !common_at(a@, b@, j),
            None => forall|j: int| !common_at(a@, b@, j),
        },
{
    let mut i: usize = 0;
    while i < a.len() && i < b.len()
        invariant
            forall|j: int| 0 <= j < i ==> !common_at(a@, b@, j),
        decreases a.len() - i,
    {
        if a[i] && b[i] {
            return Some(i);
        }
        i += 1;
    }
    None
}

/// What comparing two packages finds.
#[derive(Clone, Copy, Debug, PartialEq, Eq, Structural)]
pub enum ConflictResult {
    /// The names differ: the requirements were not compared.
    DifferentPackages,
    /// Some probe satisfies both requirements.
    NoConflict,
    /// No probe satisfies both requirements.
    Conflict,
}

/// The finding for two packages.
pub open spec fn finding(a: PackageView, b: PackageView) -> ConflictResult {
    if a.name != b.name {
        ConflictResult::DifferentPackages
    } else if share_probe(a.clauses, b.clauses) {
        ConflictResult::NoConflict
    } else {
        ConflictResult::Conflict
    }
}

impl PythonPackage {
    /// Tries every probe against the requirement.
    pub fn probe_acceptance(&self) -> (hits: Vec<bool>)
        ensures
            hits@ == acceptance(self@.clauses),
    {
        let candidates = probe_versions();
        let mut hits: Vec<bool> = Vec::new();
        let mut i: usize = 0;
        while i < candidates.len()
            invariant
                candidates@ == probes(),
                i <= candidates.len(),
                hits.len() == i,
                forall|j: int| 0 <= j < i ==> hits[j] == accepts(self@.clauses, probes()[j]),
            decreases candidates.len() - i,
        {
            let hit = self.accepts(candidates[i]);
            hits.push(hit);
            i += 1;
        }
        assert(hits@ =~= acceptance(self@.clauses));
        hits
    }

    /// The first probe that satisfies the requirements of both packages, if
    /// there is one. The names play no part.
    pub fn common_probe(&self, other: &PythonPackage) -> (r: Option<Version>)
        ensures
            r is Some <==> share_probe(self@.clauses, other@.clauses),
            r matches Some(version) ==> exists|i: int|
                {
                    &&& shared_at(self@.clauses, other@.clauses, i)
                    &&& version == probes()[i]
                    &&& forall|j: int| 0 <= j < i ==> !shared_at(self@.clauses, other@.clauses, j)
                },
    {
        let mine = self.probe_acceptance();
        let theirs = other.probe_acceptance();
        let ghost a = self@.clauses;
        let ghost b = other@.clauses;
        assert forall|j: int| shared_at(a, b, j) == common_at(mine@, theirs@, j) by {}
        match first_common(&mine, &theirs) {
            Some(i) => {
                let candidates = probe_versions();
                assert(shared_at(a, b, i as int));
                Some(candidates[i])
            },
            None => None,
        }
    }

    /// Tells whether the two packages conflict: they have the same name and
    /// no probe satisfies both requirements. Packages of different names never
    /// conflict.
    pub fn conflicts_with(&self, other: &PythonPackage) -> (r: bool)
        ensures
            r == conflict(self@, other@),
    {
        if !(self.name == other.name) {
            return false;
        }
        self.common_probe(other).is_none()
    }
}

/// Compares two packages. Where the names differ the requirements are not
/// looked at.
pub fn analyze(a: &PythonPackage, b: &PythonPackage) -> (r: ConflictResult)
    ensures
        r == finding(a@, b@),
        r == ConflictResult::DifferentPackages <==> a@.name != b@.name,
        r == ConflictResult::Conflict <==> conflict(a@, b@),
{
    if !(a.name == b.name) {
        ConflictResult::DifferentPackages
    } else if a.conflicts_with(b) {
        ConflictResult::Conflict
    } else {
        ConflictResult::NoConflict
    }
}

/// Conflict does not depend on the order of the two packages.
pub proof fn lemma_conflict_symmetric(a: PackageView, b: PackageView)
    ensures
        conflict(a, b) == conflict(b, a),
        finding(a, b) == finding(b, a),
{
    lemma_share_probe_symmetric(a.clauses, b.clauses);
    lemma_share_probe_symmetric(b.clauses, a.clauses);
}

/// A probe accepted under `a` and `b` is a probe accepted under `b` and `a`.
pub proof fn lemma_share_probe_symmetric(a: Seq<Clause>, b: Seq<Clause>)
    ensures
        share_probe(a, b) ==> share_probe(b, a),
{
    if share_probe(a, b) {
        let i = choose|i: int| shared_at(a, b, i);
        assert(shared_at(b, a, i));
    }
}

/// Packages of different names are never compared: whatever their
/// requirements, the finding is `DifferentPackages`, and they do not conflict.
pub proof fn lemma_different_names(a: PackageView, b: PackageView)
    requires
        a.name != b.name,
    ensures
        finding(a, b) == ConflictResult::DifferentPackages,
        !conflict(a, b),
{
}

/// A requirement without comparators accepts every release version. So an
/// unconstrained package conflicts with another of its name only if that one
/// accepts no probe, and never with one that is unconstrained too.
pub proof fn lemma_unconstrained(a: PackageView, b: PackageView)
    requires
        a.clauses.len() == 0,
        a.name == b.name,
    ensures
        forall|version: Version| accepts(a.clauses, version),
        conflict(a, b) <==> forall|i: int|
            0 <= i < probes().len() ==> !accepts(b.clauses, #[trigger] probes()[i]),
        b.clauses.len() == 0 ==> !conflict(a, b),
{
    if b.clauses.len() == 0 {
        assert(shared_at(a.clauses, b.clauses, 0));
    }
    if share_probe(a.clauses, b.clauses) {
        let i = choose|i: int| shared_at(a.clauses, b.clauses, i);
        assert(accepts(b.clauses, probes()[i]));
    }
    if exists|i: int| 0 <= i < probes().len() && accepts(b.clauses, #[trigger] probes()[i]) {
        let i = choose|i: int| 0 <= i < probes().len() && accepts(b.clauses, #[trigger] probes()[i]);
        assert(shared_at(a.clauses, b.clauses, i));
    }
}

} // verus!
