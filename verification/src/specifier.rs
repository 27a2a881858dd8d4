//! Package specifiers: a package name followed by an optional version
//! constraint in Python's notation, such as `requests>=2.0.0`.

use crate::requirement::{
    accepts, clauses_of, has_no_comparator, matches_release, parsed_clauses, unconstrained, Clause,
    Version,
};
use crate::text::{
    chars_of, contains_pattern, lemma_replaced_by_itself, lemma_replaced_without_occurrence,
    occurs_at, replace_all, replaced, string_of, string_of_range,
};
use semver::VersionReq;
use vstd::prelude::*;
use vstd::string::StringExecFns;

verus! {

/// The characters a package name is made of: ASCII letters and digits, `_`
/// and `-`.
pub open spec fn is_name_char(c: char) -> bool {
    ||| 'a' <= c <= 'z'
    ||| 'A' <= c <= 'Z'
    ||| '0' <= c <= '9'
    ||| c == '_'
    ||| c == '-'
}

/// Whether `s` is a package name: not empty, and name characters only.
pub open spec fn is_name(s: Seq<char>) -> bool {
    s.len() > 0 && forall|i: int| 0 <= i < s.len() ==> is_name_char(#[trigger] s[i])
}

/// The length of the longest run of name characters that `s` starts with.
pub open spec fn name_len(s: Seq<char>) -> nat
    decreases s.len(),
{
    if s.len() > 0 && is_name_char(s[0]) {
        1 + name_len(s.skip(1))
    } else {
        0
    }
}

/// `name_len(s)` is the one position up to which `s` holds name characters
/// only and at which it ends or holds another character.
pub proof fn lemma_name_len(s: Seq<char>, n: int)
    requires
        0 <= n <= s.len(),
        forall|i: int| 0 <= i < n ==> is_name_char(#[trigger] s[i]),
        n < s.len() ==> !is_name_char(s[n]),
    ensures
        name_len(s) == n,
    decreases n,
{
    if n > 0 {
        let t = s.skip(1);
        assert forall|i: int| 0 <= i < n - 1 implies is_name_char(#[trigger] t[i]) by {
            assert(t[i] == s[i + 1]);
        }
        lemma_name_len(t, n - 1);
    }
}

/// The run of name characters that `s` starts with lies within `s`, holds
/// name characters only, and is followed by the end of `s` or by another
/// character.
pub proof fn lemma_name_len_marks_the_run(s: Seq<char>)
    ensures
        name_len(s) <= s.len(),
        forall|i: int| 0 <= i < name_len(s) ==> is_name_char(#[trigger] s[i]),
        name_len(s) < s.len() ==> !is_name_char(s[name_len(s) as int]),
    decreases s.len(),
{
    if s.len() > 0 && is_name_char(s[0]) {
        let t = s.skip(1);
        lemma_name_len_marks_the_run(t);
        assert forall|i: int| 0 <= i < name_len(s) implies is_name_char(#[trigger] s[i]) by {
            if i > 0 {
                assert(s[i] == t[i - 1]);
            }
        }
        if name_len(s) < s.len() {
            assert(s[name_len(s) as int] == t[name_len(t) as int]);
        }
    }
}

/// Tells whether `c` may stand in a package name.
pub fn name_char(c: char) -> (r: bool)
    ensures
        r == is_name_char(c),
{
    ('a' <= c && c <= 'z') || ('A' <= c && c <= 'Z') || ('0' <= c && c <= '9') || c == '_' || c
        == '-'
}

/// Counts the name characters that `s` starts with.
pub fn name_prefix_len(s: &Vec<char>) -> (n: usize)
    ensures
        n == name_len(s@),
        n <= s.len(),
{
    let mut n: usize = 0;
    while n < s.len() && name_char(s[n])
        invariant
            n <= s.len(),
            forall|i: int| 0 <= i < n ==> is_name_char(#[trigger] s[i]),
        decreases s.len() - n,
    {
        n += 1;
    }
    proof {
        lemma_name_len(s@, n as int);
    }
    n
}

/// The name that a specifier starts with: its longest run of name
/// characters. Empty where it starts with none.
pub open spec fn name_of(input: Seq<char>) -> Seq<char> {
    input.take(name_len(input) as int)
}

/// The constraint of a specifier: all that follows the name.
pub open spec fn constraint_of(input: Seq<char>) -> Seq<char> {
    input.skip(name_len(input) as int)
}

/// A specifier taken apart into name and constraint, or `None` where it
/// starts with no name character.
pub open spec fn split(input: Seq<char>) -> Option<(Seq<char>, Seq<char>)> {
    if name_len(input) == 0 {
        None
    } else {
        Some((name_of(input), constraint_of(input)))
    }
}

/// Where a specifier can be taken apart, the name is a package name, name
/// and constraint together are the specifier, and the constraint does not
/// start with a name character. It cannot be taken apart where it is empty or
/// starts with another character.
pub proof fn lemma_split(input: Seq<char>)
    ensures
        match split(input) {
            Some((name, constraint)) => {
                &&& is_name(name)
                &&& name + constraint == input
                &&& constraint.len() > 0 ==> !is_name_char(constraint[0])
            },
            None => input.len() == 0 || !is_name_char(input[0]),
        },
{
    lemma_name_len_marks_the_run(input);
    if name_len(input) > 0 {
        assert(name_of(input) + constraint_of(input) == input);
    }
}

/// Takes a specifier apart into its name, the longest run of name characters
/// it starts with, and the constraint, which is all that follows.
pub fn split_specifier(input: &str) -> (r: Option<(String, String)>)
    ensures
        match r {
            Some((name, constraint)) => split(input@) == Some((name@, constraint@)),
            None => split(input@) is None,
        },
        r is None <==> input@.len() == 0 || !is_name_char(input@[0]),
        r matches Some((name, constraint)) ==> {
            &&& is_name(name@)
            &&& name@ + constraint@ == input@
            &&& constraint@.len() > 0 ==> !is_name_char(constraint@[0])
        },
{
    proof {
        lemma_split(input@);
    }
    let chars = chars_of(input);
    let n = name_prefix_len(&chars);
    if n == 0 {
        None
    } else {
        let name = string_of_range(&chars, 0, n);
        let constraint = string_of_range(&chars, n, chars.len());
        assert(chars@.subrange(0, n as int) == chars@.take(n as int));
        assert(chars@.subrange(n as int, chars.len() as int) == chars@.skip(n as int));
        Some((name, constraint))
    }
}

/// A constraint in the notation of version requirements. One operator after
/// the other, in this order, every occurrence is rewritten: `>=` and `<=` stay,
/// `==` becomes `=`, `~=` becomes `~`, and `!=` becomes `!`.
pub open spec fn translated(constraint: Seq<char>) -> Seq<char> {
    let kept_ge = replaced(constraint, seq!['>', '='], seq!['>', '=']);
    let kept_le = replaced(kept_ge, seq!['<', '='], seq!['<', '=']);
    let exact = replaced(kept_le, seq!['=', '='], seq!['=']);
    let compatible = replaced(exact, seq!['~', '='], seq!['~']);
    replaced(compatible, seq!['!', '='], seq!['!'])
}

/// The two characters of an operator.
fn pattern(first: char, second: char) -> (v: Vec<char>)
    ensures
        v@ == seq![first, second],
{
    let mut v: Vec<char> = Vec::new();
    v.push(first);
    v.push(second);
    assert(v@ =~= seq![first, second]);
    v
}

/// The one character that an operator is rewritten to.
fn single(c: char) -> (v: Vec<char>)
    ensures
        v@ == seq![c],
{
    let mut v: Vec<char> = Vec::new();
    v.push(c);
    assert(v@ =~= seq![c]);
    v
}

/// Rewrites the operators of a constraint into the notation of version
/// requirements.
pub fn translate_operators(constraint: &str) -> (r: String)
    ensures
        r@ == translated(constraint@),
{
    let chars = chars_of(constraint);
    proof {
        lemma_replaced_by_itself(chars@, seq!['>', '=']);
        lemma_replaced_by_itself(chars@, seq!['<', '=']);
    }
    let exact = replace_all(&chars, &pattern('=', '='), &single('='));
    let compatible = replace_all(&exact, &pattern('~', '='), &single('~'));
    let unequal = replace_all(&compatible, &pattern('!', '='), &single('!'));
    string_of(&unequal)
}

/// Why a specifier was rejected, with the text that was at fault.
#[derive(Debug)]
pub enum ParseError {
    /// The specifier does not start with a package name; holds the specifier.
    InvalidFormat(String),
    /// The constraint is no version requirement; holds the constraint as it
    /// was written.
    InvalidRequirement(String),
}

/// A `ParseError` with its text as a sequence of characters.
pub ghost enum ParseFailure {
    InvalidFormat(Seq<char>),
    InvalidRequirement(Seq<char>),
}

impl View for ParseError {
    type V = ParseFailure;

    open spec fn view(&self) -> ParseFailure {
        match self {
            ParseError::InvalidFormat(input) => ParseFailure::InvalidFormat(input@),
            ParseError::InvalidRequirement(constraint) => ParseFailure::InvalidRequirement(
                constraint@,
            ),
        }
    }
}

impl ParseFailure {
    /// The message for an error: what was wrong, then the text at fault.
    pub open spec fn message(self) -> Seq<char> {
        match self {
            ParseFailure::InvalidFormat(input) => "Invalid package format: "@ + input,
            ParseFailure::InvalidRequirement(constraint) => "Invalid version requirement: "@
                + constraint,
        }
    }
}

impl ParseError {
    /// The message for this error.
    pub fn message(&self) -> (m: String)
        ensures
            m@ == self@.message(),
    {
        match self {
            ParseError::InvalidFormat(input) => {
                let mut m = "Invalid package format: ".to_owned();
                m.append(input.as_str());
                m
            },
            ParseError::InvalidRequirement(constraint) => {
                let mut m = "Invalid version requirement: ".to_owned();
                m.append(constraint.as_str());
                m
            },
        }
    }
}

/// A package name with the version requirement put on it.
#[derive(Debug)]
pub struct PythonPackage {
    pub name: String,
    pub version_req: VersionReq,
}

/// A package as the contracts see it: its name and the comparators of its
/// requirement. Without comparators the requirement is unconstrained.
pub ghost struct PackageView {
    pub name: Seq<char>,
    pub clauses: Seq<Clause>,
}

impl View for PythonPackage {
    type V = PackageView;

    open spec fn view(&self) -> PackageView {
        PackageView { name: self.name@, clauses: clauses_of(self.version_req) }
    }
}

/// What parsing a specifier gives. A specifier without a name is rejected as
/// a whole. A name alone is an unconstrained package. Otherwise the
/// translated constraint decides: the package with the comparators parsed
/// from it, or the constraint rejected.
pub open spec fn parse_spec(input: Seq<char>) -> Result<PackageView, ParseFailure> {
    match split(input) {
        None => Err(ParseFailure::InvalidFormat(input)),
        Some((name, constraint)) => if constraint.len() == 0 {
            Ok(PackageView { name, clauses: Seq::empty() })
        } else {
            match parsed_clauses(translated(constraint)) {
                Some(clauses) => Ok(PackageView { name, clauses }),
                None => Err(ParseFailure::InvalidRequirement(constraint)),
            }
        },
    }
}

impl PythonPackage {
    /// Whether the name is a package name.
    pub open spec fn wf(&self) -> bool {
        is_name(self.name@)
    }

    /// The package for a name and the outcome of parsing its constraint: the
    /// requirement where there is one, else the constraint reported as invalid.
    pub fn from_parsed(
        name: String,
        constraint: String,
        parsed: Result<VersionReq, semver::Error>,
    ) -> (r: Result<PythonPackage, ParseError>)
        ensures
            match parsed {
                Ok(req) => r matches Ok(package) && package.name == name && package.version_req
                    == req,
                Err(_) => r matches Err(e) && e == ParseError::InvalidRequirement(constraint),
            },
    {
        match parsed {
            Ok(req) => Ok(PythonPackage { name, version_req: req }),
            Err(_) => Err(ParseError::InvalidRequirement(constraint)),
        }
    }

    /// Parses a specifier such as `requests>=2.0.0`.
    pub fn parse(input: &str) -> (r: Result<PythonPackage, ParseError>)
        ensures
            match r {
                Ok(package) => parse_spec(input@) == Ok::<PackageView, ParseFailure>(package@)
                    && package.wf(),
                Err(e) => parse_spec(input@) == Err::<PackageView, ParseFailure>(e@),
            },
            (r is Err && r->Err_0 is InvalidFormat) <==> (input@.len() == 0 || !is_name_char(
                input@[0],
            )),
            (r is Err && r->Err_0 is InvalidRequirement) <==> {
                &&& name_len(input@) > 0
                &&& constraint_of(input@).len() > 0
                &&& parsed_clauses(translated(constraint_of(input@))) is None
            },
    {
        match split_specifier(input) {
            None => Err(ParseError::InvalidFormat(input.to_owned())),
            Some((name, constraint)) => {
                if constraint.as_str().is_empty() {
                    let version_req = unconstrained();
                    assert(clauses_of(version_req) =~= Seq::empty());
                    Ok(PythonPackage { name, version_req })
                } else {
                    let text = translate_operators(constraint.as_str());
                    let parsed = VersionReq::parse(text.as_str());
                    PythonPackage::from_parsed(name, constraint, parsed)
                }
            },
        }
    }

    /// Tells whether the requirement has no comparator, and so accepts every
    /// release version.
    pub fn is_unconstrained(&self) -> (r: bool)
        ensures
            r == (self@.clauses.len() == 0),
            r ==> forall|version: Version| accepts(self@.clauses, version),
    {
        has_no_comparator(&self.version_req)
    }

    /// Tells whether the requirement accepts a release version.
    pub fn accepts(&self, version: Version) -> (r: bool)
        ensures
            r == accepts(self@.clauses, version),
    {
        matches_release(&self.version_req, version)
    }
}

/// A name alone parses to the package of that name without any constraint,
/// which accepts every release version.
pub proof fn lemma_parse_bare_name(input: Seq<char>)
    requires
        is_name(input),
    ensures
        parse_spec(input) == Ok::<PackageView, ParseFailure>(
            PackageView { name: input, clauses: Seq::empty() },
        ),
        forall|version: Version| accepts(parse_spec(input)->Ok_0.clauses, version),
{
    lemma_name_len(input, input.len() as int);
    assert(input.take(input.len() as int) == input);
}

/// A text that does not start with a name character is rejected as a whole,
/// whatever follows; the empty text is one such.
pub proof fn lemma_parse_without_name(input: Seq<char>)
    requires
        input.len() == 0 || !is_name_char(input[0]),
    ensures
        parse_spec(input) == Err::<PackageView, ParseFailure>(ParseFailure::InvalidFormat(input)),
{
}

/// A constraint in which none of `==`, `~=` and `!=` occurs is left as it is.
pub proof fn lemma_translated_plain(constraint: Seq<char>)
    requires
        !contains_pattern(constraint, seq!['=', '=']),
        !contains_pattern(constraint, seq!['~', '=']),
        !contains_pattern(constraint, seq!['!', '=']),
    ensures
        translated(constraint) == constraint,
{
    lemma_replaced_by_itself(constraint, seq!['>', '=']);
    lemma_replaced_by_itself(constraint, seq!['<', '=']);
    lemma_replaced_without_occurrence(constraint, seq!['=', '='], seq!['=']);
    lemma_replaced_without_occurrence(constraint, seq!['~', '='], seq!['~']);
    lemma_replaced_without_occurrence(constraint, seq!['!', '='], seq!['!']);
}

/// A package pinned with `==` to a version text, which holds no `=`, has the
/// requirement that `=` before that text is parsed to; where that is none,
/// the constraint is rejected as it was written.
pub proof fn lemma_parse_exact(name: Seq<char>, version: Seq<char>)
    requires
        is_name(name),
        forall|i: int| 0 <= i < version.len() ==> version[i] != '=',
    ensures
        parse_spec(name + seq!['=', '='] + version) == match parsed_clauses(seq!['='] + version) {
            Some(clauses) => Ok::<PackageView, ParseFailure>(PackageView { name, clauses }),
            None => Err(ParseFailure::InvalidRequirement(seq!['=', '='] + version)),
        },
{
    let constraint = seq!['=', '='] + version;
    let input = name + seq!['=', '='] + version;
    lemma_name_len(input, name.len() as int);
    assert(input.take(name.len() as int) == name);
    assert(input.skip(name.len() as int) == constraint);
    lemma_translated_exact(version);
}

/// Python's exact match becomes the exact match of version requirements:
/// `==` before a version text, which holds no `=`, is rewritten to `=` and the
/// version text is kept.
pub proof fn lemma_translated_exact(version: Seq<char>)
    requires
        forall|i: int| 0 <= i < version.len() ==> version[i] != '=',
    ensures
        translated(seq!['=', '='] + version) == seq!['='] + version,
{
    let written = seq!['=', '='] + version;
    let exact = seq!['='] + version;
    lemma_replaced_by_itself(written, seq!['>', '=']);
    lemma_replaced_by_itself(written, seq!['<', '=']);
    assert(written.subrange(0, 2) == seq!['=', '=']);
    assert(written.skip(2) == version);
    assert(!contains_pattern(version, seq!['=', '='])) by {
        assert forall|at: int| !occurs_at(version, seq!['=', '='], at) by {
            if occurs_at(version, seq!['=', '='], at) {
                assert(version.subrange(at, at + 2)[0] == '=');
            }
        }
    }
    lemma_replaced_without_occurrence(version, seq!['=', '='], seq!['=']);
    assert(replaced(written, seq!['=', '='], seq!['=']) == exact);
    assert(!contains_pattern(exact, seq!['~', '='])) by {
        assert forall|at: int| !occurs_at(exact, seq!['~', '='], at) by {
            if occurs_at(exact, seq!['~', '='], at) {
                assert(exact.subrange(at, at + 2)[0] == '~');
                assert(exact.subrange(at, at + 2)[1] == '=');
                assert(exact[at + 1] == version[at]);
            }
        }
    }
    lemma_replaced_without_occurrence(exact, seq!['~', '='], seq!['~']);
    assert(!contains_pattern(exact, seq!['!', '='])) by {
        assert forall|at: int| !occurs_at(exact, seq!['!', '='], at) by {
            if occurs_at(exact, seq!['!', '='], at) {
                assert(exact.subrange(at, at + 2)[0] == '!');
                assert(exact.subrange(at, at + 2)[1] == '=');
                assert(exact[at + 1] == version[at]);
            }
        }
    }
    lemma_replaced_without_occurrence(exact, seq!['!', '='], seq!['!']);
}

} // verus!
