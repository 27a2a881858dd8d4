//! Version requirements, as the `semver` crate parses and evaluates them.
//!
//! A requirement is carried as a `semver::VersionReq`. Verus does not look
//! inside one: the contracts speak of the comparators it holds, and the items
//! in this file say how the calls into `semver` relate to them. None of those
//! statements is proved here.

use semver::VersionReq;
use vstd::prelude::*;

verus! {

/// The comparison that a comparator makes; one variant for each of `semver::Op`.
pub ghost enum Operator {
    Exact,
    Greater,
    GreaterEq,
    Less,
    LessEq,
    Tilde,
    Caret,
    Wildcard,
}

/// One comparator of a requirement, field by field as `semver::Comparator`
/// holds it, the pre-release tag as its text.
pub ghost struct Clause {
    pub op: Operator,
    pub major: u64,
    pub minor: Option<u64>,
    pub patch: Option<u64>,
    pub pre: Seq<char>,
}

/// A release version `major.minor.patch`, without pre-release tag or build
/// metadata.
#[derive(Clone, Copy, Debug, PartialEq, Eq, Structural)]
pub struct Version {
    pub major: u64,
    pub minor: u64,
    pub patch: u64,
}

/// `semver::VersionReq`, a list of comparators. Its contents are spoken of
/// through `clauses_of`.
#[verifier::external_type_specification]
#[verifier::external_body]
pub struct ExVersionReq(semver::VersionReq);

/// `semver::Error`, what `VersionReq::parse` returns for a text it rejects.
/// Nothing is said of what it holds.
#[verifier::external_type_specification]
#[verifier::external_body]
pub struct ExRequirementError(semver::Error);

/// The comparators of a requirement, in the order of its `comparators` field.
pub uninterp spec fn clauses_of(req: VersionReq) -> Seq<Clause>;

/// What `VersionReq::parse` makes of a text: the comparators of the
/// requirement it returns, or `None` where it returns an error.
pub uninterp spec fn parsed_clauses(text: Seq<char>) -> Option<Seq<Clause>>;

/// What `semver` decides for one comparator and the release version
/// `major.minor.patch`: the answer of `Comparator::matches`.
pub uninterp spec fn clause_accepts(clause: Clause, major: u64, minor: u64, patch: u64) -> bool;

/// Whether a requirement with the given comparators accepts a release
/// version: every comparator has to accept it. A requirement without
/// comparators accepts every release version.
pub open spec fn accepts(clauses: Seq<Clause>, version: Version) -> bool {
    forall|i: int|
        0 <= i < clauses.len() ==> clause_accepts(
            #[trigger] clauses[i],
            version.major,
            version.minor,
            version.patch,
        )
}

/// `VersionReq::parse` depends on its text alone: it returns the requirement
/// whose comparators `parsed_clauses` names, or an error where that is `None`.
pub assume_specification[ VersionReq::parse ](text: &str) -> (r: Result<VersionReq, semver::Error>)
    ensures
        match r {
            Ok(req) => parsed_clauses(text@) == Some(clauses_of(req)),
            Err(_) => parsed_clauses(text@) is None,
        },
;

/// `VersionReq::STAR`, the requirement whose list of comparators is empty.
#[verifier::external_body]
pub(crate) fn unconstrained() -> (req: VersionReq)
    ensures
        clauses_of(req).len() == 0,
{
    VersionReq::STAR
}

/// `VersionReq::matches` on the version that `semver::Version::new` builds
/// from the three numbers, which has no pre-release tag. For such a version
/// the requirement matches exactly when each of its comparators does, and
/// what a comparator decides depends on the comparator and the numbers alone.
#[verifier::external_body]
pub(crate) fn matches_release(req: &VersionReq, version: Version) -> (r: bool)
    ensures
        r == forall|i: int|
            0 <= i < clauses_of(*req).len() ==> clause_accepts(
                #[trigger] clauses_of(*req)[i],
                version.major,
                version.minor,
                version.patch,
            ),
{
    req.matches(&semver::Version::new(version.major, version.minor, version.patch))
}

/// Whether the `comparators` field of the requirement is empty.
#[verifier::external_body]
pub(crate) fn has_no_comparator(req: &VersionReq) -> (r: bool)
    ensures
        r == (clauses_of(*req).len() == 0),
{
    req.comparators.is_empty()
}

} // verus!
