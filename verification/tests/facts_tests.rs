use getargv_build::arch::TargetArch;
use getargv_build::environment::Environment;
use getargv_build::errors::BuildError;
use getargv_build::facts::THRESHOLD_AT_CUTOFF;
use getargv_build::facts::THRESHOLD_BELOW_CUTOFF;
use getargv_build::facts::resolve_build_facts;
use getargv_build::facts::threshold_for;
use getargv_build::version::Version;

fn env_of(pairs: &[(&str, &str)]) -> Environment {
    Environment {
        vars: pairs.iter().map(|(k, v)| (k.to_string(), v.to_string())).collect(),
    }
}

/// A minimal 64-bit object whose only load command carries `packed` as the
/// minimum OS version.
fn object_with_version(packed: u32) -> Vec<u8> {
    let mut o = Vec::new();
    for w in [0xfeedfacfu32, 0x01000007, 0, 6, 1, 16, 0, 0] {
        o.extend_from_slice(&w.to_le_bytes());
    }
    for w in [0x24u32, 16, packed, packed] {
        o.extend_from_slice(&w.to_le_bytes());
    }
    o
}

#[test]
fn threshold_is_a_step_function_at_the_cutoff() {
    assert_eq!(threshold_for(&Version { major: 10, minor: 5, patch: 9 }), 30_000);
    assert_eq!(threshold_for(&Version { major: 9, minor: 9, patch: 9 }), 30_000);
    assert_eq!(threshold_for(&Version { major: 10, minor: 6, patch: 0 }), 99_999);
    assert_eq!(threshold_for(&Version { major: 10, minor: 6, patch: 1 }), 99_999);
    assert_eq!(threshold_for(&Version { major: 11, minor: 0, patch: 0 }), 99_999);
    assert_eq!(THRESHOLD_BELOW_CUTOFF, 30_000);
    assert_eq!(THRESHOLD_AT_CUTOFF, 99_999);
}

#[test]
fn override_bypasses_binary_inspection() {
    let env = env_of(&[("MACOSX_DEPLOYMENT_TARGET", "11.2")]);
    // the bytes are not even a container; with the override they are not read
    let facts = resolve_build_facts(&env, &[], TargetArch::Arm64).unwrap();
    assert_eq!(facts.deployment_target, Version { major: 11, minor: 2, patch: 0 });
    assert_eq!(facts.deployment_target_string, "11.2.0");
    assert_eq!(facts.threshold, 99_999);
}

#[test]
fn malformed_override_is_fatal_not_a_fallback() {
    let env = env_of(&[("MACOSX_DEPLOYMENT_TARGET", "abc")]);
    let bytes = object_with_version(0x000C0600);
    let e = resolve_build_facts(&env, &bytes, TargetArch::X86_64).unwrap_err();
    assert_eq!(e, BuildError::InvalidVersionSyntax);
}

#[test]
fn without_override_the_binary_decides() {
    let env = env_of(&[]);
    let bytes = object_with_version(0x000A0500);
    let facts = resolve_build_facts(&env, &bytes, TargetArch::X86_64).unwrap();
    assert_eq!(facts.deployment_target, Version { major: 10, minor: 5, patch: 0 });
    assert_eq!(facts.deployment_target_string, "10.5.0");
    assert_eq!(facts.threshold, 30_000);
}

#[test]
fn binary_at_the_cutoff_selects_the_higher_threshold() {
    let env = env_of(&[]);
    let bytes = object_with_version(0x000A0600);
    let facts = resolve_build_facts(&env, &bytes, TargetArch::X86_64).unwrap();
    assert_eq!(facts.deployment_target, Version { major: 10, minor: 6, patch: 0 });
    assert_eq!(facts.threshold, 99_999);
}

#[test]
fn malformed_bytes_without_override_fail() {
    let env = env_of(&[]);
    let e = resolve_build_facts(&env, &[1, 2, 3], TargetArch::X86_64).unwrap_err();
    assert_eq!(e, BuildError::MalformedContainer);
}
