//! Versions of the stored data, for migrating it from one to the next.

use vstd::prelude::*;

verus! {

/// A version of the stored data, oldest first.
#[derive(Debug, Clone, Copy, PartialEq, Eq, Structural)]
pub enum Version {
    V0_1_0,
    V0_2_0,
}

/// How many versions there are.
pub const VERSION_COUNT: usize = 2;

/// The version migrated from when none is named.
pub const PREVIOUS_VERSION: Version = Version::V0_1_0;

/// The version migrated to when none is named.
pub const CURRENT_VERSION: Version = Version::V0_2_0;

/// The position of `v` among the versions, oldest first.
pub open spec fn version_index(v: Version) -> int {
    match v {
        Version::V0_1_0 => 0,
        Version::V0_2_0 => 1,
    }
}

/// The version at position `n`; past the end, the newest.
pub open spec fn version_at(n: int) -> Version {
    if n == 0 {
        Version::V0_1_0
    } else {
        Version::V0_2_0
    }
}

/// The name of `v` in file and directory names.
pub open spec fn version_name(v: Version) -> Seq<char> {
    match v {
        Version::V0_1_0 => "v0-1-0"@,
        Version::V0_2_0 => "v0-2-0"@,
    }
}

impl From<Version> for u8 {
    fn from(value: Version) -> (r: u8) {
        match value {
            Version::V0_1_0 => 0,
            Version::V0_2_0 => 1,
        }
    }
}

impl vstd::std_specs::convert::FromSpecImpl<Version> for u8 {
    open spec fn obeys_from_spec() -> bool {
        true
    }

    open spec fn from_spec(v: Version) -> u8 {
        version_index(v) as u8
    }
}

impl From<u8> for Version {
    fn from(value: u8) -> (r: Version) {
        match value {
            0 => Version::V0_1_0,
            _ => Version::V0_2_0,
        }
    }
}

impl vstd::std_specs::convert::FromSpecImpl<u8> for Version {
    open spec fn obeys_from_spec() -> bool {
        true
    }

    open spec fn from_spec(n: u8) -> Version {
        version_at(n as int)
    }
}

impl Version {
    /// The position of the version, oldest first.
    pub fn index(self) -> (r: u8)
        ensures
            r == version_index(self),
    {
        u8::from(self)
    }

    /// The version `rhs` places later; past the newest, the newest.
    pub fn add(self, rhs: u8) -> (r: Version)
        requires
            version_index(self) + rhs <= u8::MAX,
        ensures
            r == version_at(version_index(self) + rhs),
    {
        Version::from(self.index() + rhs)
    }

    /// Whether the version is older than `other`.
    pub fn precedes(self, other: Version) -> (r: bool)
        ensures
            r == (version_index(self) < version_index(other)),
    {
        self.index() < other.index()
    }

    /// The version's name in file and directory names.
    pub fn name(self) -> (r: &'static str)
        ensures
            r@ == version_name(self),
    {
        match self {
            Version::V0_1_0 => "v0-1-0",
            Version::V0_2_0 => "v0-2-0",
        }
    }
}

} // verus!
