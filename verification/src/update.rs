use vstd::prelude::*;

verus! {

/// `s` is a version number the semantic-versioning library accepts.
pub uninterp spec fn semver_valid(s: Seq<char>) -> bool;

/// The version `a` comes after the version `b` in the semantic-versioning
/// library's order (both valid).
pub uninterp spec fn semver_newer(a: Seq<char>, b: Seq<char>) -> bool;

/// The text the semantic-versioning library prints for the version `s`.
pub uninterp spec fn semver_text(s: Seq<char>) -> Seq<char>;

/// Whether `s` parses as a version.
/// Trusted: `semver::Version::parse` succeeds or fails on `s` alone; the
/// outcome is named by `semver_valid`.
#[verifier::external_body]
fn version_parses(s: &str) -> (r: bool)
    ensures
        r == semver_valid(s@),
{
    semver::Version::parse(s).is_ok()
}

/// Whether the version `a` is greater than the version `b`.
/// Trusted: `>` on two `semver::Version`s parsed from `a` and `b` is a
/// function of the two texts, named by `semver_newer`; as the order is a
/// total order, a version is never greater than itself.
#[verifier::external_body]
fn version_greater(a: &str, b: &str) -> (r: bool)
    requires
        semver_valid(a@),
        semver_valid(b@),
    ensures
        r == semver_newer(a@, b@),
        a@ == b@ ==> !r,
{
    match (semver::Version::parse(a), semver::Version::parse(b)) {
        (Ok(x), Ok(y)) => x > y,
        _ => false,
    }
}

/// The version `s` as the library prints it.
/// Trusted: `Display` of the `semver::Version` parsed from `s` depends on
/// `s` alone, named by `semver_text`.
#[verifier::external_body]
fn version_text(s: &str) -> (r: String)
    requires
        semver_valid(s@),
    ensures
        r@ == semver_text(s@),
{
    match semver::Version::parse(s) {
        Ok(v) => v.to_string(),
        Err(_) => String::new(),
    }
}

/// What the update check found out.
#[derive(Debug, Clone, PartialEq, Eq)]
pub enum VersionCheck {
    /// The latest release is newer than the running version.
    UpdateAvailable {
        /// The running version, as printed.
        current: String,
        /// The latest release, as printed.
        latest: String,
    },
    /// The running version is the latest release (or newer).
    UpToDate,
    /// The latest release could not be looked up.
    CheckFailed,
}

/// A version number that does not parse.
#[derive(Debug, PartialEq, Eq, Structural, Clone, Copy)]
pub enum VersionError {
    /// The running version.
    InvalidCurrent,
    /// The latest release's version.
    InvalidLatest,
}

/// Compares the running version `current` with the version of the latest
/// release, `None` when the release could not be looked up.  The running
/// version is parsed first, then the release's; an update is available when
/// the release's version is greater.
pub fn check_version(current: &str, latest: Option<&str>) -> (r: Result<VersionCheck, VersionError>)
    ensures
        latest is None ==> r matches Ok(VersionCheck::CheckFailed),
        latest matches Some(l) ==> {
            &&& !semver_valid(current@) ==> r == Err::<VersionCheck, VersionError>(
                VersionError::InvalidCurrent,
            )
            &&& semver_valid(current@) && !semver_valid(l@) ==> r == Err::<
                VersionCheck,
                VersionError,
            >(VersionError::InvalidLatest)
            &&& semver_valid(current@) && semver_valid(l@) && semver_newer(l@, current@) ==> (
            r matches Ok(VersionCheck::UpdateAvailable { current: c, latest: n }) && c@
                == semver_text(current@) && n@ == semver_text(l@))
            &&& semver_valid(current@) && semver_valid(l@) && !semver_newer(l@, current@) ==> (
            r matches Ok(VersionCheck::UpToDate))
            &&& l@ == current@ ==> !(r matches Ok(VersionCheck::UpdateAvailable { .. }))
        },
{
    match latest {
        None => Ok(VersionCheck::CheckFailed),
        Some(l) => {
            if !version_parses(current) {
                return Err(VersionError::InvalidCurrent);
            }
            if !version_parses(l) {
                return Err(VersionError::InvalidLatest);
            }
            if version_greater(l, current) {
                Ok(
                    VersionCheck::UpdateAvailable {
                        current: version_text(current),
                        latest: version_text(l),
                    },
                )
            } else {
                Ok(VersionCheck::UpToDate)
            }
        },
    }
}

} // verus!
