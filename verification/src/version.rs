//! Semantic versions as plain values, read and ordered by the `semver`
//! crate.

use vstd::prelude::*;
use vstd::std_specs::cmp::PartialEqSpecImpl;
use crate::error::{semver_error_message, ParseError};
use crate::text::{decimal, push_decimal};

verus! {

/// `semver::Error`: why a text is no version or no requirement. Its words
/// are handed to the caller.
#[verifier::external_type_specification]
#[verifier::external_body]
pub struct ExSemverError(semver::Error);

/// A version as a mathematical value.
pub ghost struct VersionView {
    pub major: nat,
    pub minor: nat,
    pub patch: nat,
    /// The prerelease tag, without its hyphen; empty for a release.
    pub pre: Seq<char>,
    /// The build tag, without its plus sign; empty if there is none.
    pub build: Seq<char>,
}

/// A semantic version: three numbers, a prerelease tag and a build tag.
#[derive(Debug)]
pub struct Version {
    major: u64,
    minor: u64,
    patch: u64,
    pre: String,
    build: String,
}

impl View for Version {
    type V = VersionView;

    closed spec fn view(&self) -> VersionView {
        VersionView {
            major: self.major as nat,
            minor: self.minor as nat,
            patch: self.patch as nat,
            pre: self.pre@,
            build: self.build@,
        }
    }
}

/// The view of an optional version.
pub open spec fn version_of(o: Option<Version>) -> Option<VersionView> {
    match o {
        Some(v) => Some(v@),
        None => None,
    }
}

/// The text of a version: the three numbers with dots between them, then
/// the prerelease tag behind a hyphen and the build tag behind a plus sign,
/// each only if it is not empty.
pub open spec fn version_text(v: VersionView) -> Seq<char> {
    decimal(v.major) + seq!['.'] + decimal(v.minor) + seq!['.'] + decimal(v.patch) + (if v.pre.len()
        > 0 {
        seq!['-'] + v.pre
    } else {
        Seq::empty()
    }) + (if v.build.len() > 0 {
        seq!['+'] + v.build
    } else {
        Seq::empty()
    })
}

/// The version that `semver::Version::parse` reads from `text`, if it reads
/// one.
pub uninterp spec fn semver_version(text: Seq<char>) -> Option<VersionView>;

/// Whether `semver::VersionReq::parse` accepts `text`.
pub uninterp spec fn semver_requirement(text: Seq<char>) -> bool;

/// Whether `a` comes before `b` in the order of `semver::Version`.
pub uninterp spec fn semver_precedes(a: VersionView, b: VersionView) -> bool;

/// Whether `v` is what a version can hold: each of its numbers fits in 64
/// bits.
pub open spec fn is_version(v: VersionView) -> bool {
    v.major <= u64::MAX && v.minor <= u64::MAX && v.patch <= u64::MAX
}

/// What a total order holds around a pair of which the first comes before
/// the second: the second does not come before the first, the first comes
/// before whatever version the second comes before, and whatever version
/// the first does not come before, comes before the second.
pub open spec fn strictly_ordered(a: VersionView, b: VersionView) -> bool {
    &&& !semver_precedes(b, a)
    &&& forall|c: VersionView|
        is_version(c) && #[trigger] semver_precedes(b, c) ==> semver_precedes(a, c)
    &&& forall|c: VersionView|
        is_version(c) && !#[trigger] semver_precedes(a, c) ==> semver_precedes(c, b)
}

/// `semver::Version::parse`: the version that the text states, or the
/// parser's error. The parts of the version are copied out as they are: the
/// three numbers, and the two tags as text. Which version a text states
/// depends on the text alone.
#[verifier::external_body]
fn semver_parse(text: &str) -> (r: Result<Version, semver::Error>)
    ensures
        match r {
            Ok(v) => semver_version(text@) == Some(v@),
            Err(_) => semver_version(text@) is None,
        },
{
    match semver::Version::parse(text) {
        Ok(v) => Ok(
            Version {
                major: v.major,
                minor: v.minor,
                patch: v.patch,
                pre: v.pre.as_str().to_string(),
                build: v.build.as_str().to_string(),
            },
        ),
        Err(e) => Err(e),
    }
}

/// `semver::VersionReq::parse`: whether the text is a version requirement,
/// which depends on the text alone; the parser's error if it is none.
#[verifier::external_body]
fn semver_check_requirement(text: &str) -> (r: Result<(), semver::Error>)
    ensures
        r is Ok == semver_requirement(text@),
{
    match semver::VersionReq::parse(text) {
        Ok(_) => Ok(()),
        Err(e) => Err(e),
    }
}

/// `<` of `semver::Version`, on the two versions put together again from
/// their parts; a tag that `semver::Prerelease::new` or
/// `semver::BuildMetadata::new` does not take counts as empty. The outcome
/// depends on the parts alone, and `Ord` makes `<` a strict total order.
#[verifier::external_body]
fn semver_less(a: &Version, b: &Version) -> (r: bool)
    ensures
        r == semver_precedes(a@, b@),
        r ==> strictly_ordered(a@, b@),
{
    let x = semver::Version {
        major: a.major,
        minor: a.minor,
        patch: a.patch,
        pre: semver::Prerelease::new(&a.pre).unwrap_or(semver::Prerelease::EMPTY),
        build: semver::BuildMetadata::new(&a.build).unwrap_or(semver::BuildMetadata::EMPTY),
    };
    let y = semver::Version {
        major: b.major,
        minor: b.minor,
        patch: b.patch,
        pre: semver::Prerelease::new(&b.pre).unwrap_or(semver::Prerelease::EMPTY),
        build: semver::BuildMetadata::new(&b.build).unwrap_or(semver::BuildMetadata::EMPTY),
    };
    x < y
}

impl Version {
    /// The view of a version is what a version can hold.
    pub proof fn lemma_view_is_version(&self)
        ensures
            is_version(self@),
    {
    }

    /// The release `major.minor.patch`, without tags.
    pub fn new(major: u64, minor: u64, patch: u64) -> (r: Version)
        ensures
            r@ == (VersionView {
                major: major as nat,
                minor: minor as nat,
                patch: patch as nat,
                pre: Seq::empty(),
                build: Seq::empty(),
            }),
    {
        Version { major, minor, patch, pre: String::new(), build: String::new() }
    }

    /// The major number.
    pub fn major(&self) -> (r: u64)
        ensures
            r == self@.major,
    {
        self.major
    }

    /// The minor number.
    pub fn minor(&self) -> (r: u64)
        ensures
            r == self@.minor,
    {
        self.minor
    }

    /// The patch number.
    pub fn patch(&self) -> (r: u64)
        ensures
            r == self@.patch,
    {
        self.patch
    }

    /// The prerelease tag; empty for a release.
    pub fn pre(&self) -> (r: &str)
        ensures
            r@ == self@.pre,
    {
        self.pre.as_str()
    }

    /// The build tag; empty if there is none.
    pub fn build(&self) -> (r: &str)
        ensures
            r@ == self@.build,
    {
        self.build.as_str()
    }

    /// Reads an exact version, such as `1.2.3` or `1.0.0-rc.1+build5`.
    pub fn parse(text: &str) -> (r: Result<Version, ParseError>)
        ensures
            match r {
                Ok(v) => semver_version(text@) == Some(v@),
                Err(e) => semver_version(text@) is None && e is Version,
            },
    {
        match semver_parse(text) {
            Ok(version) => Ok(version),
            Err(e) => Err(ParseError::Version(semver_error_message(&e))),
        }
    }

    /// Whether the version carries a prerelease tag.
    pub fn is_prerelease(&self) -> (r: bool)
        ensures
            r == (self@.pre.len() > 0),
    {
        !self.pre.as_str().is_empty()
    }

    /// Whether this version comes before `other`.
    pub fn precedes(&self, other: &Version) -> (r: bool)
        ensures
            r == semver_precedes(self@, other@),
            r ==> strictly_ordered(self@, other@),
    {
        semver_less(self, other)
    }

    /// The version as text.
    pub fn to_text(&self) -> (r: String)
        ensures
            r@ == version_text(self@),
    {
        let mut out = String::new();
        push_decimal(&mut out, self.major);
        out.push('.');
        push_decimal(&mut out, self.minor);
        out.push('.');
        push_decimal(&mut out, self.patch);
        if !self.pre.as_str().is_empty() {
            out.push('-');
            out.append(self.pre.as_str());
        }
        if !self.build.as_str().is_empty() {
            out.push('+');
            out.append(self.build.as_str());
        }
        out
    }
}

impl Clone for Version {
    fn clone(&self) -> (r: Version)
        ensures
            r@ == self@,
    {
        Version {
            major: self.major,
            minor: self.minor,
            patch: self.patch,
            pre: self.pre.clone(),
            build: self.build.clone(),
        }
    }
}

impl PartialEq for Version {
    fn eq(&self, other: &Version) -> (r: bool) {
        self.major == other.major && self.minor == other.minor && self.patch == other.patch
            && self.pre == other.pre && self.build == other.build
    }
}

impl PartialEqSpecImpl for Version {
    open spec fn obeys_eq_spec() -> bool {
        true
    }

    open spec fn eq_spec(&self, other: &Version) -> bool {
        self@ == other@
    }
}

/// Whether `text` is a version requirement, such as `>=1.2, <2` or `^0.3`.
pub fn check_requirement(text: &str) -> (r: Result<(), ParseError>)
    ensures
        r is Ok == semver_requirement(text@),
        r matches Err(e) ==> e is Requirement,
{
    match semver_check_requirement(text) {
        Ok(()) => Ok(()),
        Err(e) => Err(ParseError::Requirement(semver_error_message(&e))),
    }
}

} // verus!
