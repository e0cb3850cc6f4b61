//! Build-time capability flags and the minimum-version gate.
//!
//! The build probe that inspects the installed native library is an outside
//! collaborator; it hands this module an immutable set of detected
//! capabilities.  This module turns those capabilities into the list of
//! configuration names to emit, and rejects a detected library version that
//! lies below the documented minimum.

use vstd::prelude::*;

verus! {

/// Capabilities detected for the installed native library, gathered once at
/// build time and never mutated afterwards.
#[derive(Clone, Copy, Debug, PartialEq, Eq, Structural)]
pub struct CapabilityFlags {
    /// The detected library version is at least 1.10.5.
    pub version_at_least_1_10_5: bool,
    /// The library was built with direct I/O support.
    pub have_direct: bool,
    /// The library was built with parallel (MPI) support.
    pub have_parallel: bool,
    /// The library was built thread-safe.
    pub have_threadsafe: bool,
}

/// A native library version, ordered lexicographically by
/// (major, minor, micro).
#[derive(Clone, Copy, Debug, PartialEq, Eq, Structural)]
pub struct Version {
    pub major: u32,
    pub minor: u32,
    pub micro: u32,
}

/// The detected native library version lies below the required minimum.
/// Fatal at startup; carries both versions so the caller can report them.
#[derive(Clone, Copy, Debug, PartialEq, Eq, Structural)]
pub struct ConfigError {
    pub detected: Version,
    pub required: Version,
}

/// Lexicographic order on versions: `a` is at least `b`.
pub open spec fn version_ge(a: Version, b: Version) -> bool {
    ||| a.major > b.major
    ||| (a.major == b.major && a.minor > b.minor)
    ||| (a.major == b.major && a.minor == b.minor && a.micro >= b.micro)
}

impl Version {
    /// True iff this version is at least `other` in lexicographic order.
    pub fn at_least(&self, other: &Version) -> (r: bool)
        ensures
            r == version_ge(*self, *other),
    {
        if self.major != other.major {
            self.major > other.major
        } else if self.minor != other.minor {
            self.minor > other.minor
        } else {
            self.micro >= other.micro
        }
    }
}

/// Fails fast when the detected version lies below the required minimum,
/// reporting both the detected and the required version.
pub fn require_version(detected: Version, minimum: Version) -> (r: Result<(), ConfigError>)
    ensures
        version_ge(detected, minimum) ==> r == Ok::<(), ConfigError>(()),
        !version_ge(detected, minimum) ==> r == Err::<(), ConfigError>(
            ConfigError { detected, required: minimum },
        ),
{
    if detected.at_least(&minimum) {
        Ok(())
    } else {
        Err(ConfigError { detected, required: minimum })
    }
}

/// The configuration names owed for a set of capabilities, in declaration
/// order: one name per capability that is present.
pub open spec fn emitted_flags(f: CapabilityFlags) -> Seq<Seq<char>> {
    (if f.version_at_least_1_10_5 {
        seq!["hdf5_1_10_5"@]
    } else {
        Seq::<Seq<char>>::empty()
    }) + (if f.have_direct {
        seq!["h5_have_direct"@]
    } else {
        Seq::<Seq<char>>::empty()
    }) + (if f.have_parallel {
        seq!["h5_have_parallel"@]
    } else {
        Seq::<Seq<char>>::empty()
    }) + (if f.have_threadsafe {
        seq!["h5_have_threadsafe"@]
    } else {
        Seq::<Seq<char>>::empty()
    })
}

/// Lists, in declaration order, the configuration name of every capability
/// present in `flags`.  Printing the names is the caller's business.
pub fn emit_cfg_flags(flags: &CapabilityFlags) -> (r: Vec<String>)
    ensures
        r.deep_view() == emitted_flags(*flags),
{
    let mut r: Vec<String> = Vec::new();
    if flags.version_at_least_1_10_5 {
        r.push("hdf5_1_10_5".to_owned());
    }
    if flags.have_direct {
        r.push("h5_have_direct".to_owned());
    }
    if flags.have_parallel {
        r.push("h5_have_parallel".to_owned());
    }
    if flags.have_threadsafe {
        r.push("h5_have_threadsafe".to_owned());
    }
    proof {
        assert(r.deep_view() =~~= emitted_flags(*flags));
    }
    r
}

} // verus!
