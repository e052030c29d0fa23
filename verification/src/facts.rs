//! The build-configuration emitter: turns the resolved deployment-target
//! version into the facts the enclosing build consumes — the formatted
//! version string and a numeric threshold picked against a fixed cutoff.

use vstd::prelude::*;

use crate::arch::TargetArch;
use crate::environment::Environment;
use crate::errors::BuildError;
use crate::macho::find_minimum_os_version;
use crate::macho::spec_find_version;
use crate::version::Version;
use crate::version::spec_format;
use crate::version::spec_parse;
use crate::version::version_lt;

verus! {

/// The resolved build facts: the deployment-target version, its formatted
/// form, and the threshold constant derived from it.
#[derive(Debug)]
pub struct BuildFacts {
    pub deployment_target: Version,
    pub deployment_target_string: String,
    pub threshold: u32,
}

/// The fixed cutoff the deployment target is compared against.
pub open spec fn spec_cutoff() -> Version {
    Version { major: 10, minor: 6, patch: 0 }
}

/// The threshold below the cutoff.
pub const THRESHOLD_BELOW_CUTOFF: u32 = 30_000;

/// The threshold at or above the cutoff.
pub const THRESHOLD_AT_CUTOFF: u32 = 99_999;

/// The threshold is a step function of the version: strictly below the
/// cutoff one constant, at or above it the other.
pub open spec fn spec_threshold(v: Version) -> u32 {
    if version_lt(v, spec_cutoff()) {
        THRESHOLD_BELOW_CUTOFF
    } else {
        THRESHOLD_AT_CUTOFF
    }
}

/// The cutoff version.
pub fn cutoff() -> (r: Version)
    ensures
        r == spec_cutoff(),
{
    Version { major: 10, minor: 6, patch: 0 }
}

/// Picks the threshold for a deployment target: any version strictly below
/// the cutoff yields the lower constant, any version at or above it —
/// the cutoff itself included — the higher one.
pub fn threshold_for(v: &Version) -> (r: u32)
    ensures
        r == spec_threshold(*v),
        version_lt(*v, spec_cutoff()) ==> r == THRESHOLD_BELOW_CUTOFF,
        !version_lt(*v, spec_cutoff()) ==> r == THRESHOLD_AT_CUTOFF,
{
    let c = cutoff();
    if v.at_least(&c) {
        THRESHOLD_AT_CUTOFF
    } else {
        THRESHOLD_BELOW_CUTOFF
    }
}

/// Where the deployment target comes from: an explicit override in the
/// environment, parsed and never silently recovered when it is malformed,
/// else the version embedded in the library's binary container.
pub open spec fn spec_deployment_target(
    env: Environment,
    bytes: Seq<u8>,
    arch: TargetArch,
) -> Result<Version, BuildError> {
    match env.spec_get("MACOSX_DEPLOYMENT_TARGET"@) {
        Some(s) => match spec_parse(s) {
            Some(v) => Ok(v),
            None => Err(BuildError::InvalidVersionSyntax),
        },
        None => spec_find_version(bytes, arch),
    }
}

/// Resolves the deployment target and derives the published facts. An
/// explicit `MACOSX_DEPLOYMENT_TARGET` override bypasses binary
/// inspection; a malformed override is a fatal error, not a fallback to
/// probing. Without an override the version is extracted from the
/// library's container for the target architecture.
pub fn resolve_build_facts(env: &Environment, lib_bytes: &[u8], arch: TargetArch) -> (r: Result<
    BuildFacts,
    BuildError,
>)
    ensures
        match r {
            Ok(f) => spec_deployment_target(*env, lib_bytes@, arch) == Ok::<_, BuildError>(
                f.deployment_target,
            ) && f.deployment_target_string@ == spec_format(f.deployment_target) && f.threshold
                == spec_threshold(f.deployment_target),
            Err(e) => spec_deployment_target(*env, lib_bytes@, arch) == Err::<Version, _>(e),
        },
{
    let version = match env.get("MACOSX_DEPLOYMENT_TARGET") {
        Some(s) => match Version::parse(s.as_str()) {
            Ok(v) => v,
            Err(e) => {
                return Err(e);
            },
        },
        None => match find_minimum_os_version(lib_bytes, arch) {
            Ok(v) => v,
            Err(e) => {
                return Err(e);
            },
        },
    };
    let formatted = version.format();
    let threshold = threshold_for(&version);
    Ok(
        BuildFacts {
            deployment_target: version,
            deployment_target_string: formatted,
            threshold,
        },
    )
}

} // verus!
