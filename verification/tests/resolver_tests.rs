use getargv_build::arch::TargetArch;
use getargv_build::arch::is_container_vendor;
use getargv_build::arch::is_cross_compiling;
use getargv_build::arch::parse_target_arch;
use getargv_build::environment::Environment;
use getargv_build::environment::FileSystem;
use getargv_build::errors::BuildError;
use getargv_build::resolver::locate_library;
use getargv_build::resolver::path_join;
use getargv_build::resolver::resolve_prefix;
use getargv_build::resolver::resolve_tool_path;

fn env_of(pairs: &[(&str, &str)]) -> Environment {
    Environment {
        vars: pairs.iter().map(|(k, v)| (k.to_string(), v.to_string())).collect(),
    }
}

fn fs_of(paths: &[&str]) -> FileSystem {
    FileSystem { present: paths.iter().map(|p| p.to_string()).collect() }
}

#[test]
fn path_join_inserts_separator_only_when_needed() {
    assert_eq!(path_join("/opt/local/", "lib"), "/opt/local/lib");
    assert_eq!(path_join("/usr/local", "lib"), "/usr/local/lib");
    assert_eq!(path_join("/", "lib"), "/lib");
}

#[test]
fn ports_manager_wins_over_all_other_markers() {
    let fs = fs_of(&[
        "/opt/local/bin/port",
        "/opt/homebrew/bin/brew",
        "/usr/local/bin/brew",
        "/opt/homebrew/lib",
        "/usr/local/lib",
    ]);
    let env = env_of(&[("PREFIX", "/custom")]);
    let p = resolve_prefix(&fs, &env, TargetArch::Arm64, "lib", "getargv");
    assert_eq!(p, "/opt/local/lib");
    let p = resolve_prefix(&fs, &env, TargetArch::X86_64, "lib", "getargv");
    assert_eq!(p, "/opt/local/lib");
}

#[test]
fn formula_manager_uses_architecture_dependent_prefix() {
    let fs = fs_of(&["/opt/homebrew/bin/brew", "/opt/homebrew/lib", "/usr/local/lib"]);
    let env = env_of(&[]);
    let p = resolve_prefix(&fs, &env, TargetArch::Arm64, "lib", "getargv");
    assert_eq!(p, "/opt/homebrew/lib");
    let p = resolve_prefix(&fs, &env, TargetArch::X86_64, "lib", "getargv");
    assert_eq!(p, "/usr/local/lib");
}

#[test]
fn formula_manager_falls_back_to_package_scoped_path() {
    let fs = fs_of(&["/usr/local/bin/brew"]);
    let env = env_of(&[]);
    let p = resolve_prefix(&fs, &env, TargetArch::X86_64, "lib", "getargv");
    assert_eq!(p, "/usr/local/opt/getargv/lib");
    let p = resolve_prefix(&fs, &env, TargetArch::Arm64, "lib", "getargv");
    assert_eq!(p, "/opt/homebrew/opt/getargv/lib");
}

#[test]
fn fallback_uses_environment_prefix_or_root() {
    let fs = fs_of(&[]);
    let env = env_of(&[("PREFIX", "/custom")]);
    assert_eq!(resolve_prefix(&fs, &env, TargetArch::Arm64, "lib", "getargv"), "/custom/lib");
    let env = env_of(&[]);
    assert_eq!(resolve_prefix(&fs, &env, TargetArch::Arm64, "lib", "getargv"), "/lib");
}

#[test]
fn locate_library_finds_library_under_resolved_prefix() {
    let fs = fs_of(&["/opt/local/bin/port", "/opt/local/lib/libgetargv.dylib"]);
    let env = env_of(&[]);
    let loc = locate_library(&fs, &env, TargetArch::Arm64).unwrap();
    assert_eq!(loc.dir, "/opt/local/lib");
    assert_eq!(loc.path, "/opt/local/lib/libgetargv.dylib");
}

#[test]
fn locate_library_honors_override_directory() {
    let fs = fs_of(&["/else/libgetargv.dylib"]);
    let env = env_of(&[("LIBGETARGV_LIB_DIR", "/else")]);
    let loc = locate_library(&fs, &env, TargetArch::Arm64).unwrap();
    assert_eq!(loc.dir, "/else");
    assert_eq!(loc.path, "/else/libgetargv.dylib");
}

#[test]
fn locate_library_distinguishes_missing_with_and_without_override() {
    let fs = fs_of(&[]);
    let env = env_of(&[("LIBGETARGV_LIB_DIR", "/else")]);
    let e = locate_library(&fs, &env, TargetArch::Arm64).unwrap_err();
    assert_eq!(e, BuildError::LibraryNotFoundAtOverride);
    assert!(e.message().contains("LIBGETARGV_LIB_DIR"));

    let env = env_of(&[]);
    let e = locate_library(&fs, &env, TargetArch::Arm64).unwrap_err();
    assert_eq!(e, BuildError::LibraryNotFoundDefault);
    assert!(e.message().contains("LIBGETARGV_LIB_DIR"));
}

#[test]
fn resolve_tool_path_prefers_explicit_setting() {
    let fs = fs_of(&["/opt/local/bin/port"]);
    let env = env_of(&[("LLVM_CONFIG_PATH", "/my/llvm-config")]);
    let p = resolve_tool_path(&fs, &env, TargetArch::Arm64, "LLVM_CONFIG_PATH", "bin/llvm-config", "llvm");
    assert_eq!(p, "/my/llvm-config");

    let env = env_of(&[]);
    let p = resolve_tool_path(&fs, &env, TargetArch::Arm64, "LLVM_CONFIG_PATH", "bin/llvm-config", "llvm");
    assert_eq!(p, "/opt/local/bin/llvm-config");
}

#[test]
fn parse_target_arch_recognizes_exactly_two() {
    assert_eq!(parse_target_arch("x86_64").unwrap(), TargetArch::X86_64);
    assert_eq!(parse_target_arch("aarch64").unwrap(), TargetArch::Arm64);
    assert_eq!(parse_target_arch("mips").unwrap_err(), BuildError::ConfigurationError);
    assert_eq!(parse_target_arch("").unwrap_err(), BuildError::ConfigurationError);
}

#[test]
fn cross_compiling_is_the_exclusive_or() {
    assert!(!is_cross_compiling(true, true));
    assert!(is_cross_compiling(true, false));
    assert!(is_cross_compiling(false, true));
    assert!(!is_cross_compiling(false, false));
}

#[test]
fn container_vendor_test() {
    assert!(is_container_vendor("apple"));
    assert!(!is_container_vendor("unknown"));
    assert!(!is_container_vendor(""));
}
