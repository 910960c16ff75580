use vstd::prelude::*;

verus! {

/// A release number of Blender: `major.minor.patch`.
///
/// The library only ever builds versions from three numbers, with no pre-release or
/// build tag, so a version is exactly this triple and versions are ordered
/// lexicographically by `(major, minor, patch)`.
#[derive(Debug, Clone, Copy, PartialEq, Eq, PartialOrd, Ord, Hash, Structural)]
pub struct Version {
    pub major: u64,
    pub minor: u64,
    pub patch: u64,
}

/// `a` comes strictly before `b`.
pub open spec fn version_lt(a: Version, b: Version) -> bool {
    ||| a.major < b.major
    ||| (a.major == b.major && a.minor < b.minor)
    ||| (a.major == b.major && a.minor == b.minor && a.patch < b.patch)
}

/// `a` comes before `b` or is equal to it.
pub open spec fn version_le(a: Version, b: Version) -> bool {
    version_lt(a, b) || a == b
}

impl Version {
    pub fn new(major: u64, minor: u64, patch: u64) -> (v: Version)
        ensures
            v.major == major,
            v.minor == minor,
            v.patch == patch,
    {
        Version { major, minor, patch }
    }

    /// Same three numbers.
    pub fn same_as(&self, other: &Version) -> (res: bool)
        ensures
            res == (*self == *other),
    {
        self.major == other.major && self.minor == other.minor && self.patch == other.patch
    }

    /// `self` is strictly older than `other`.
    pub fn older_than(&self, other: &Version) -> (res: bool)
        ensures
            res == version_lt(*self, *other),
    {
        self.major < other.major || (self.major == other.major && (self.minor < other.minor || (
        self.minor == other.minor && self.patch < other.patch)))
    }

    /// `self` is older than `other` or the same.
    pub fn not_newer_than(&self, other: &Version) -> (res: bool)
        ensures
            res == version_le(*self, *other),
    {
        self.older_than(other) || self.same_as(other)
    }
}

/// The order on versions is total: of two versions, one is not newer than the other.
pub proof fn lemma_version_order_total(a: Version, b: Version)
    ensures
        version_le(a, b) || version_le(b, a),
{
}

/// The order on versions is antisymmetric.
pub proof fn lemma_version_order_antisymmetric(a: Version, b: Version)
    requires
        version_le(a, b),
        version_le(b, a),
    ensures
        a == b,
{
}

/// The order on versions is transitive.
pub proof fn lemma_version_order_transitive(a: Version, b: Version, c: Version)
    requires
        version_le(a, b),
        version_le(b, c),
    ensures
        version_le(a, c),
{
}

/// Strict order is irreflexive.
pub proof fn lemma_version_lt_irreflexive(a: Version)
    ensures
        !version_lt(a, a),
{
}

} // verus!
