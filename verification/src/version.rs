//! Semantic versions.

use vstd::prelude::*;

use crate::text::same_text;

verus! {

/// A semantic version
#[derive(Debug)]
pub struct Version {
    /// The major version
    pub major: u64,
    /// The minor version
    pub minor: u64,
    /// The patch version
    pub patch: u64,
    /// The pre-release identifier
    pub pre: String,
    /// The build metadata
    pub build: String,
}

/// What a [`Version`] holds, with its texts as sequences of characters.
pub struct VersionView {
    /// The major version
    pub major: u64,
    /// The minor version
    pub minor: u64,
    /// The patch version
    pub patch: u64,
    /// The pre-release identifier
    pub pre: Seq<char>,
    /// The build metadata
    pub build: Seq<char>,
}

impl View for Version {
    type V = VersionView;

    open spec fn view(&self) -> VersionView {
        VersionView {
            major: self.major,
            minor: self.minor,
            patch: self.patch,
            pre: self.pre@,
            build: self.build@,
        }
    }
}

/// What a text that is no version lacks: the message of the error and its `Debug` text.
#[derive(Debug)]
pub struct VersionError {
    /// The message of the error
    pub message: String,
    /// The `Debug` text of the error
    pub debug: String,
}

/// What a text is as a semantic version, or the message and the `Debug` text of the error
/// where it is none.
pub uninterp spec fn version_parsed(text: Seq<char>) -> Result<VersionView, (Seq<char>, Seq<char>)>;

/// `semver::Version::parse`: the version that a text is, or the error. The text alone
/// determines which.
#[verifier::external_body]
pub(crate) fn parse_version(text: &str) -> (r: Result<Version, VersionError>)
    ensures
        match version_parsed(text@) {
            Ok(version) => r matches Ok(v) && v@ == version,
            Err((message, debug)) => r matches Err(e) && e.message@ == message && e.debug@ == debug,
        },
{
    let parsed = semver::Version::parse(text);
    parsed.map(|v| Version {
        major: v.major,
        minor: v.minor,
        patch: v.patch,
        pre: v.pre.to_string(),
        build: v.build.to_string(),
    }).map_err(|err| VersionError { message: err.to_string(), debug: format!("{err:?}") })
}

/// Whether two versions are the same, build metadata counted.
pub fn same_version(a: &Version, b: &Version) -> (r: bool)
    ensures
        r == (a@ == b@),
{
    a.major == b.major && a.minor == b.minor && a.patch == b.patch && same_text(
        a.pre.as_str(),
        b.pre.as_str(),
    ) && same_text(a.build.as_str(), b.build.as_str())
}

} // verus!
