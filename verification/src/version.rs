//! Wire-protocol versions of clients, and the threshold from which a client
//! takes stolen requests in the framed form.

use vstd::prelude::*;

verus! {

/// The version requirement that a client's protocol version has to meet to be
/// sent stolen requests in the framed form.
pub const HTTP_FRAMED_VERSION: &'static str = ">=1.3.0";

/// A wire-protocol version: the three numbers of a semantic version with its
/// pre-release and build tags, both empty when the version has none.
#[derive(Clone, Debug, PartialEq, Eq)]
pub struct ProtocolVersion {
    pub major: u64,
    pub minor: u64,
    pub patch: u64,
    pub pre: String,
    pub build: String,
}

pub struct ProtocolVersionView {
    pub major: u64,
    pub minor: u64,
    pub patch: u64,
    pub pre: Seq<char>,
    pub build: Seq<char>,
}

impl View for ProtocolVersion {
    type V = ProtocolVersionView;

    open spec fn view(&self) -> ProtocolVersionView {
        ProtocolVersionView {
            major: self.major,
            minor: self.minor,
            patch: self.patch,
            pre: self.pre@,
            build: self.build@,
        }
    }
}

/// Whether the semantic version with the given numbers and tags meets the
/// requirement written in `requirement`, as the `semver` crate evaluates it;
/// `None` where the requirement or one of the tags is not well formed.
pub uninterp spec fn semver_matches(
    requirement: Seq<char>,
    major: u64,
    minor: u64,
    patch: u64,
    pre: Seq<char>,
    build: Seq<char>,
) -> Option<bool>;

/// Whether `version` meets `requirement`.
pub open spec fn meets(requirement: Seq<char>, version: ProtocolVersionView) -> bool {
    semver_matches(
        requirement,
        version.major,
        version.minor,
        version.patch,
        version.pre,
        version.build,
    ) == Some(true)
}

/// Whether a client at `version` takes stolen requests in the framed form.
pub open spec fn takes_framed(version: ProtocolVersionView) -> bool {
    meets(HTTP_FRAMED_VERSION@, version)
}

/// Evaluates a version requirement with `semver::VersionReq::matches`.
///
/// The requirement is read with `semver::VersionReq::parse` and the tags with
/// `semver::Prerelease::new` and `semver::BuildMetadata::new`; the result is
/// `None` when one of them is refused. The contract claims only that the
/// answer is the one that the crate gives for these texts and numbers.
#[verifier::external_body]
fn requirement_matches(requirement: &str, version: &ProtocolVersion) -> (r: Option<bool>)
    ensures
        r == semver_matches(
            requirement@,
            version.major,
            version.minor,
            version.patch,
            version.pre@,
            version.build@,
        ),
{
    let requirement = semver::VersionReq::parse(requirement).ok()?;
    let pre = semver::Prerelease::new(version.pre.as_str()).ok()?;
    let build = semver::BuildMetadata::new(version.build.as_str()).ok()?;
    let version = semver::Version {
        major: version.major,
        minor: version.minor,
        patch: version.patch,
        pre,
        build,
    };
    Some(requirement.matches(&version))
}

impl ProtocolVersion {
    /// The version `major.minor.patch`, without tags.
    pub fn new(major: u64, minor: u64, patch: u64) -> (r: Self)
        ensures
            r.major == major,
            r.minor == minor,
            r.patch == patch,
            r.pre@ == Seq::<char>::empty(),
            r.build@ == Seq::<char>::empty(),
    {
        ProtocolVersion { major, minor, patch, pre: String::new(), build: String::new() }
    }

    /// Whether this version meets the requirement written in `requirement`.
    pub fn meets(&self, requirement: &str) -> (r: bool)
        ensures
            r == meets(requirement@, self@),
    {
        match requirement_matches(requirement, self) {
            Some(matched) => matched,
            None => false,
        }
    }

    /// Whether a client at this version takes stolen requests in the framed
    /// form.
    pub fn takes_framed(&self) -> (r: bool)
        ensures
            r == takes_framed(self@),
    {
        self.meets(HTTP_FRAMED_VERSION)
    }
}

} // verus!
