//! Version triples, the compatibility rule, and the reading of version text.

use vstd::prelude::*;

verus! {

/// The numeric core of a semantic version: major, minor and patch.
#[derive(Clone, Copy, Debug, PartialEq, Eq, Structural)]
pub struct Version {
    pub major: u64,
    pub minor: u64,
    pub patch: u64,
}

/// `a` comes strictly before `b` when the triples are compared component by
/// component, major first.
pub open spec fn precedes(a: Version, b: Version) -> bool {
    a.major < b.major || (a.major == b.major && (a.minor < b.minor || (a.minor == b.minor
        && a.patch < b.patch)))
}

/// The permissive compatibility rule: a published version is acceptable for a
/// constraint when the majors agree, or the constraint's major is zero and the
/// minors agree, or the constraint's major and minor are zero and the patches
/// agree.
pub open spec fn compatible(constraint: Version, published: Version) -> bool {
    ||| published.major == constraint.major
    ||| (constraint.major == 0 && published.minor == constraint.minor)
    ||| (constraint.major == 0 && constraint.minor == 0 && published.patch == constraint.patch)
}

impl Version {
    pub fn new(major: u64, minor: u64, patch: u64) -> (v: Version)
        ensures
            v.major == major,
            v.minor == minor,
            v.patch == patch,
    {
        Version { major, minor, patch }
    }

    /// Whether this published version is acceptable for `constraint`.
    pub fn satisfies(&self, constraint: &Version) -> (ok: bool)
        ensures
            ok == compatible(*constraint, *self),
    {
        self.major == constraint.major || (constraint.major == 0 && self.minor
            == constraint.minor) || (constraint.major == 0 && constraint.minor == 0 && self.patch
            == constraint.patch)
    }

    /// Whether this version comes strictly before `other`.
    pub fn is_before(&self, other: &Version) -> (before: bool)
        ensures
            before == precedes(*self, *other),
    {
        self.major < other.major || (self.major == other.major && (self.minor < other.minor || (
        self.minor == other.minor && self.patch < other.patch)))
    }
}

/// What `semver::Version::parse` makes of a text: the numeric triple of the
/// version it reads, or nothing where the text is not a semantic version.
pub uninterp spec fn semver_triple(text: Seq<char>) -> Option<(u64, u64, u64)>;

/// The triple that a text denotes, as a `Version`.
pub open spec fn denoted(text: Seq<char>) -> Option<Version> {
    match semver_triple(text) {
        Some(t) => Some(Version { major: t.0, minor: t.1, patch: t.2 }),
        None => None,
    }
}

/// Calls `semver::Version::parse` and keeps the three numeric fields of the
/// version it returns. The contract names the outcome and claims no more: a
/// text that the parser rejects gives `None`, one that it accepts gives its
/// major, minor and patch numbers.
#[verifier::external_body]
fn read_triple(text: &str) -> (read: Option<Version>)
    ensures
        read is Some <==> semver_triple(text@) is Some,
        read matches Some(v) ==> semver_triple(text@) == Some((v.major, v.minor, v.patch)),
{
    match semver::Version::parse(text) {
        Ok(v) => Some(Version { major: v.major, minor: v.minor, patch: v.patch }),
        Err(_) => None,
    }
}

/// Whether semantic-version precedence puts the version that `challenger`
/// denotes strictly above the one that `holder` denotes, as `semver::Version`
/// orders the two after `semver::Version::parse` has read them; `false` where
/// either text is no version.
pub uninterp spec fn semver_outranks(challenger: Seq<char>, holder: Seq<char>) -> bool;

/// Has `semver::Version::parse` read both texts and compares the two versions
/// with the `>` of `semver::Version`. The contract names the outcome and
/// claims nothing else of it.
#[verifier::external_body]
pub(crate) fn outranks(challenger: &str, holder: &str) -> (above: bool)
    ensures
        above == semver_outranks(challenger@, holder@),
{
    match (semver::Version::parse(challenger), semver::Version::parse(holder)) {
        (Ok(c), Ok(h)) => c > h,
        _ => false,
    }
}

/// Reads a version text.
pub fn parse(text: &str) -> (read: Option<Version>)
    ensures
        read == denoted(text@),
{
    read_triple(text)
}

} // verus!
