//! Target architecture and cross-compilation detection.

use vstd::prelude::*;

use crate::environment::str_eq;
use crate::errors::BuildError;

verus! {

/// The architectures a target library can be built for. Any other
/// identifier is a fatal configuration error, never silently defaulted.
#[derive(Clone, Copy, PartialEq, Eq, Structural, Debug)]
pub enum TargetArch {
    X86_64,
    Arm64,
}

/// What `parse_target_arch` accepts: the two recognized target-architecture
/// identifiers.
pub open spec fn spec_parse_target_arch(s: Seq<char>) -> Option<TargetArch> {
    if s == "x86_64"@ {
        Some(TargetArch::X86_64)
    } else if s == "aarch64"@ {
        Some(TargetArch::Arm64)
    } else {
        None
    }
}

/// Maps a target-architecture identifier to the architecture, and any
/// unrecognized identifier to `ConfigurationError`.
pub fn parse_target_arch(s: &str) -> (r: Result<TargetArch, BuildError>)
    ensures
        match r {
            Ok(a) => spec_parse_target_arch(s@) == Some(a),
            Err(e) => spec_parse_target_arch(s@) == None::<TargetArch> && e
                == BuildError::ConfigurationError,
        },
{
    if str_eq(s, "x86_64") {
        Ok(TargetArch::X86_64)
    } else if str_eq(s, "aarch64") {
        Ok(TargetArch::Arm64)
    } else {
        Err(BuildError::ConfigurationError)
    }
}

/// Whether a platform vendor identifier names the vendor that owns the
/// binary container format this crate probes.
pub fn is_container_vendor(vendor: &str) -> (r: bool)
    ensures
        r == (vendor@ == "apple"@),
{
    str_eq(vendor, "apple")
}

/// Whether the build crosses into or out of the container vendor's
/// platform: exactly one of host and target belongs to that vendor. When
/// neither side is that vendor this is `false` as well — an inherited
/// modeling looseness, kept rather than corrected.
pub fn is_cross_compiling(host_is_vendor: bool, target_is_vendor: bool) -> (r: bool)
    ensures
        r == (host_is_vendor != target_is_vendor),
{
    host_is_vendor ^ target_is_vendor
}

} // verus!
