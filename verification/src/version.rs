//! Semantic versions: lenient parsing, the stability predicate and
//! precedence.

use crate::precedence::{compare_pre_release, order_of, pre_release_order, Order};
use vstd::prelude::*;

verus! {

/// A semantic version. `pre` and `build` hold the pre-release tag and the
/// build metadata without their separators; both are empty when absent.
#[derive(Clone, Debug)]
pub struct Version {
    pub major: u64,
    pub minor: u64,
    pub patch: u64,
    pub pre: Vec<u8>,
    pub build: Vec<u8>,
}

/// The mathematical value of a [`Version`].
pub struct VersionView {
    pub major: nat,
    pub minor: nat,
    pub patch: nat,
    pub pre: Seq<u8>,
    pub build: Seq<u8>,
}

impl View for Version {
    type V = VersionView;

    open spec fn view(&self) -> VersionView {
        VersionView {
            major: self.major as nat,
            minor: self.minor as nat,
            patch: self.patch as nat,
            pre: self.pre@,
            build: self.build@,
        }
    }
}

impl VersionView {
    /// A version is stable when it carries no pre-release tag.
    pub open spec fn is_stable(self) -> bool {
        self.pre.len() == 0
    }
}

/// Semantic version precedence: major, minor and patch are compared as
/// numbers, in that order; where they agree the pre-release tags decide, a
/// release standing above each of its pre-releases. Build metadata takes no
/// part.
pub open spec fn precedence(a: VersionView, b: VersionView) -> Order {
    order_of(a.major as int, b.major as int).or(
        order_of(a.minor as int, b.minor as int).or(
            order_of(a.patch as int, b.patch as int).or(pre_release_order(a.pre, b.pre)),
        ),
    )
}

/// Why a text is no version.
#[derive(Clone, Copy, PartialEq, Eq, Debug, Structural)]
pub enum ParseError {
    /// The text cannot be read as a semantic version, even leniently.
    InvalidVersion,
}

/// What the lenient parser makes of `text`: the version it reads, or `None`
/// where it rejects the text.
pub uninterp spec fn lenient_version(text: Seq<char>) -> Option<VersionView>;

/// Calls `lenient_semver::parse` and copies the fields of the version it
/// returns. The contract names the outcome [`lenient_version`]: the same text
/// always parses to the same version, or always fails.
#[verifier::external_body]
fn lenient_parse(text: &str) -> (r: Option<Version>)
    ensures
        match r {
            Some(v) => lenient_version(text@) == Some(v@),
            None => lenient_version(text@) is None,
        },
{
    match lenient_semver::parse(text) {
        Ok(v) => Some(
            Version {
                major: v.major,
                minor: v.minor,
                patch: v.patch,
                pre: v.pre.as_str().as_bytes().to_vec(),
                build: v.build.as_str().as_bytes().to_vec(),
            },
        ),
        Err(_) => None,
    }
}

/// Orders two machine integers.
fn compare_numbers(a: u64, b: u64) -> (r: Order)
    ensures
        r == order_of(a as int, b as int),
{
    if a < b {
        Order::Less
    } else if a == b {
        Order::Equal
    } else {
        Order::Greater
    }
}

impl Version {
    /// Reads `text` as a version, leniently: a missing minor or patch number
    /// counts as zero, a leading `v` is accepted, and so on.
    pub fn parse(text: &str) -> (r: Result<Version, ParseError>)
        ensures
            match r {
                Ok(v) => lenient_version(text@) == Some(v@),
                Err(e) => lenient_version(text@) is None && e == ParseError::InvalidVersion,
            },
    {
        match lenient_parse(text) {
            Some(v) => Ok(v),
            None => Err(ParseError::InvalidVersion),
        }
    }

    /// Whether this version is a release rather than a pre-release.
    pub fn is_stable(&self) -> (r: bool)
        ensures
            r == self@.is_stable(),
            r == (self@.pre.len() == 0),
    {
        self.pre.len() == 0
    }

    /// How `self` stands to `other` in precedence.
    pub fn compare(&self, other: &Version) -> (r: Order)
        ensures
            r == precedence(self@, other@),
    {
        match compare_numbers(self.major, other.major) {
            Order::Equal => {},
            decided => {
                return decided;
            },
        }
        match compare_numbers(self.minor, other.minor) {
            Order::Equal => {},
            decided => {
                return decided;
            },
        }
        match compare_numbers(self.patch, other.patch) {
            Order::Equal => {},
            decided => {
                return decided;
            },
        }
        compare_pre_release(self.pre.as_slice(), other.pre.as_slice())
    }
}

} // verus!
