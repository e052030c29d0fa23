//! The failure taxonomy of the resolver. Every failure is fatal for the
//! build step it occurs in: nothing here is retried or silently recovered.

use vstd::prelude::*;

verus! {

/// Why a resolution step failed. Each variant is produced by exactly one
/// condition, stated in the `ensures` of the function that returns it.
#[derive(Clone, Copy, PartialEq, Eq, Structural, Debug)]
pub enum BuildError {
    /// The target architecture identifier is not one of the recognized ones.
    ConfigurationError,
    /// A library-directory override was given, but the library is not there.
    LibraryNotFoundAtOverride,
    /// No override was given and the default location does not hold the library.
    LibraryNotFoundDefault,
    /// The bytes do not form a recognized binary container.
    MalformedContainer,
    /// A multi-architecture container does not hold the requested architecture.
    ArchitectureNotInFatBinary,
    /// The selected member of a multi-architecture container is a static
    /// archive, not a loadable object.
    NotLoadableObject,
    /// No load command of the object carries a minimum-OS-version payload.
    NoVersionRecord,
    /// A version string does not parse as a dotted decimal version.
    InvalidVersionSyntax,
}

/// The diagnostic text that `BuildError::message` returns for each variant.
pub open spec fn spec_message(e: BuildError) -> Seq<char> {
    match e {
        BuildError::ConfigurationError => "unknown target architecture"@,
        BuildError::LibraryNotFoundAtOverride => "Couldn't locate libgetargv.dylib in the directory named by the LIBGETARGV_LIB_DIR env var, check if version is in file name."@,
        BuildError::LibraryNotFoundDefault => "Couldn't locate libgetargv.dylib, try setting the LIBGETARGV_LIB_DIR env var to the path to the directory in which libgetargv.dylib is located."@,
        BuildError::MalformedContainer => "the library is not a valid binary container"@,
        BuildError::ArchitectureNotInFatBinary => "the multi-architecture container does not hold the requested architecture"@,
        BuildError::NotLoadableObject => "the selected member is a static archive, not a loadable object"@,
        BuildError::NoVersionRecord => "no load command carries a minimum OS version"@,
        BuildError::InvalidVersionSyntax => "invalid version string"@,
    }
}

impl BuildError {
    /// An actionable diagnostic for the failure; the library-not-found
    /// variants name the override environment variable.
    pub fn message(&self) -> (r: String)
        ensures
            r@ == spec_message(*self),
    {
        match *self {
            BuildError::ConfigurationError => "unknown target architecture".to_owned(),
            BuildError::LibraryNotFoundAtOverride => "Couldn't locate libgetargv.dylib in the directory named by the LIBGETARGV_LIB_DIR env var, check if version is in file name.".to_owned(),
            BuildError::LibraryNotFoundDefault => "Couldn't locate libgetargv.dylib, try setting the LIBGETARGV_LIB_DIR env var to the path to the directory in which libgetargv.dylib is located.".to_owned(),
            BuildError::MalformedContainer => "the library is not a valid binary container".to_owned(),
            BuildError::ArchitectureNotInFatBinary => "the multi-architecture container does not hold the requested architecture".to_owned(),
            BuildError::NotLoadableObject => "the selected member is a static archive, not a loadable object".to_owned(),
            BuildError::NoVersionRecord => "no load command carries a minimum OS version".to_owned(),
            BuildError::InvalidVersionSyntax => "invalid version string".to_owned(),
        }
    }
}

} // verus!
