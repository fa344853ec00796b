use vstd::prelude::*;
use vstd::string::StringExecFns;

verus! {

/// A semantic version, reduced to its numeric triple. Pre-release and
/// build metadata take no part in the supported-range check.
#[derive(Debug, Clone, Copy, PartialEq, Eq, Structural)]
pub struct Version {
    pub major: u64,
    pub minor: u64,
    pub patch: u64,
}

/// Numeric ordering of version triples.
pub open spec fn spec_version_le(a: Version, b: Version) -> bool {
    if a.major != b.major {
        a.major < b.major
    } else if a.minor != b.minor {
        a.minor < b.minor
    } else {
        a.patch <= b.patch
    }
}

/// The numeric triple that the `semver` grammar reads out of a version
/// string, if the string is one.
pub uninterp spec fn semver_triple(s: Seq<char>) -> Option<(u64, u64, u64)>;

/// Relies on `semver::Version::parse`: the result is a function of the text
/// alone; its `major`, `minor` and `patch` fields are kept, pre-release and
/// build metadata dropped.
#[verifier::external_body]
fn parse_semver(text: &str) -> (r: Option<(u64, u64, u64)>)
    ensures
        r == semver_triple(text@),
{
    match semver::Version::parse(text) {
        Ok(v) => Some((v.major, v.minor, v.patch)),
        Err(_) => None,
    }
}

impl Version {
    /// A version from its numeric parts.
    pub fn new(major: u64, minor: u64, patch: u64) -> (r: Version)
        ensures
            r == (Version { major, minor, patch }),
    {
        Version { major, minor, patch }
    }

    /// Reads a version string; `None` when the text is not a semantic version.
    pub fn parse(text: &str) -> (r: Option<Version>)
        ensures
            match r {
                Some(v) => semver_triple(text@) == Some((v.major, v.minor, v.patch)),
                None => semver_triple(text@) is None,
            },
    {
        match parse_semver(text) {
            Some(t) => Some(Version { major: t.0, minor: t.1, patch: t.2 }),
            None => None,
        }
    }

    /// Whether this version is at most `other`, by the numeric triples.
    pub fn le(&self, other: &Version) -> (r: bool)
        ensures
            r == spec_version_le(*self, *other),
    {
        if self.major != other.major {
            self.major < other.major
        } else if self.minor != other.minor {
            self.minor < other.minor
        } else {
            self.patch <= other.patch
        }
    }

    /// Writes the triple as `major.minor.patch`.
    pub fn display(&self) -> (r: String)
        ensures
            r@ == spec_version_display(*self),
    {
        let mut r = crate::strutil::u64_to_string(self.major);
        crate::strutil::string_push(&mut r, '.');
        r.append(crate::strutil::u64_to_string(self.minor).as_str());
        crate::strutil::string_push(&mut r, '.');
        r.append(crate::strutil::u64_to_string(self.patch).as_str());
        proof {
            assert(r@ =~= spec_version_display(*self));
        }
        r
    }
}

/// The rendering `major.minor.patch` of a version.
pub open spec fn spec_version_display(v: Version) -> Seq<char> {
    crate::strutil::dec_digits(v.major as int) + seq!['.'] + crate::strutil::dec_digits(
        v.minor as int,
    ) + seq!['.'] + crate::strutil::dec_digits(v.patch as int)
}

/// The lowest configuration format version this library reads.
pub fn lowest_supported_version() -> (r: Version)
    ensures
        r == (Version { major: 0, minor: 1, patch: 0 }),
{
    Version { major: 0, minor: 1, patch: 0 }
}

/// The highest configuration format version this library reads.
pub fn highest_supported_version() -> (r: Version)
    ensures
        r == (Version { major: 0, minor: 3, patch: 0 }),
{
    Version { major: 0, minor: 3, patch: 0 }
}

} // verus!
