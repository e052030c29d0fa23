//! The package-location resolver: walks a fixed priority list of
//! package-manager layouts to find the prefix a relative path is installed
//! under, and locates the shared library itself.

use vstd::prelude::*;
use vstd::string::StrSliceExecFns;
use vstd::string::StringExecFns;

use crate::arch::TargetArch;
use crate::environment::Environment;
use crate::environment::FileSystem;
use crate::errors::BuildError;

verus! {

/// Joining a relative path under a prefix: a single separator stands
/// between them, whether or not the prefix already ends with one.
pub open spec fn spec_path_join(prefix: Seq<char>, rel: Seq<char>) -> Seq<char> {
    if prefix.len() > 0 && prefix[prefix.len() - 1] == '/' {
        prefix + rel
    } else {
        prefix + seq!['/'] + rel
    }
}

/// Appends a relative path to a prefix, inserting a separator unless the
/// prefix already ends with one.
pub fn path_join(prefix: &str, rel: &str) -> (r: String)
    ensures
        r@ == spec_path_join(prefix@, rel@),
{
    proof {
        reveal_strlit("/");
        assert("/"@ =~= seq!['/']);
    }
    let n = prefix.unicode_len();
    if n > 0 && prefix.get_char(n - 1) == '/' {
        prefix.to_owned().concat(rel)
    } else {
        let mut s = prefix.to_owned();
        s.append("/");
        s.append(rel);
        s
    }
}

/// The formula-style manager's base prefix for each architecture.
pub open spec fn spec_formula_base(arch: TargetArch) -> Seq<char> {
    match arch {
        TargetArch::X86_64 => "/usr/local"@,
        TargetArch::Arm64 => "/opt/homebrew"@,
    }
}

/// The architecture-dependent base prefix of the formula-style manager.
pub fn formula_base(arch: TargetArch) -> (r: &'static str)
    ensures
        r@ == spec_formula_base(arch),
{
    match arch {
        TargetArch::X86_64 => "/usr/local",
        TargetArch::Arm64 => "/opt/homebrew",
    }
}

/// Where the formula-style manager would hold `rel`: the shared prefix
/// when `rel` exists under it, else the package-scoped override location
/// (whose existence is not re-checked).
pub open spec fn spec_formula_prefix(
    fs: FileSystem,
    arch: TargetArch,
    rel: Seq<char>,
    pkg: Seq<char>,
) -> Seq<char> {
    let base = spec_formula_base(arch);
    if fs.spec_path_exists(spec_path_join(base, rel)) {
        spec_path_join(base, rel)
    } else {
        spec_path_join(spec_path_join(spec_path_join(base, "opt"@), pkg), rel)
    }
}

/// What `resolve_prefix` returns: the first package-manager layout whose
/// marker exists wins; the ports-style manager before the formula-style
/// one, and with no marker present the environment-or-root fallback is
/// used unconditionally.
pub open spec fn spec_resolve_prefix(
    fs: FileSystem,
    env: Environment,
    arch: TargetArch,
    rel: Seq<char>,
    pkg: Seq<char>,
) -> Seq<char> {
    if fs.spec_path_exists("/opt/local/bin/port"@) {
        spec_path_join("/opt/local/"@, rel)
    } else if fs.spec_path_exists("/opt/homebrew/bin/brew"@) || fs.spec_path_exists(
        "/usr/local/bin/brew"@,
    ) {
        spec_formula_prefix(fs, arch, rel, pkg)
    } else {
        match env.spec_get("PREFIX"@) {
            Some(p) => spec_path_join(p, rel),
            None => spec_path_join("/"@, rel),
        }
    }
}

/// Resolves where the package named `pkg` holds the relative path `rel`,
/// trying the package-manager layouts in fixed priority order.
pub fn resolve_prefix(
    fs: &FileSystem,
    env: &Environment,
    arch: TargetArch,
    rel: &str,
    pkg: &str,
) -> (r: String)
    ensures
        r@ == spec_resolve_prefix(*fs, *env, arch, rel@, pkg@),
{
    if fs.path_exists("/opt/local/bin/port") {
        path_join("/opt/local/", rel)
    } else if fs.path_exists("/opt/homebrew/bin/brew") || fs.path_exists("/usr/local/bin/brew") {
        let base = formula_base(arch);
        let shared = path_join(base, rel);
        if fs.path_exists(shared.as_str()) {
            shared
        } else {
            let scoped = path_join(path_join(path_join(base, "opt").as_str(), pkg).as_str(), rel);
            scoped
        }
    } else {
        match env.get("PREFIX") {
            Some(p) => path_join(p.as_str(), rel),
            None => path_join("/", rel),
        }
    }
}

/// With all three package-manager markers present, the ports-style
/// manager's path is chosen: its priority is absolute, the layouts are
/// never merged.
pub proof fn lemma_ports_priority(
    fs: FileSystem,
    env: Environment,
    arch: TargetArch,
    rel: Seq<char>,
    pkg: Seq<char>,
)
    requires
        fs.spec_path_exists("/opt/local/bin/port"@),
        fs.spec_path_exists("/opt/homebrew/bin/brew"@),
        fs.spec_path_exists("/usr/local/bin/brew"@),
    ensures
        spec_resolve_prefix(fs, env, arch, rel, pkg) == spec_path_join("/opt/local/"@, rel),
{
}

/// A located shared library: the directory to search and the full path of
/// the library file inside it.
#[derive(Debug)]
pub struct LibraryLocation {
    pub dir: String,
    pub path: String,
}

/// What `locate_library` returns: the library directory comes from the
/// override variable when set, else from the package-manager layouts; the
/// library file must exist there, and which of the two not-found errors is
/// reported depends on whether the override was set.
pub open spec fn spec_locate_library(fs: FileSystem, env: Environment, arch: TargetArch) -> Result<
    (Seq<char>, Seq<char>),
    BuildError,
> {
    let over = env.spec_get("LIBGETARGV_LIB_DIR"@);
    let dir = match over {
        Some(d) => d,
        None => spec_resolve_prefix(fs, env, arch, "lib"@, "getargv"@),
    };
    let lib = spec_path_join(dir, "libgetargv.dylib"@);
    if fs.spec_path_exists(lib) {
        Ok((dir, lib))
    } else if over is Some {
        Err(BuildError::LibraryNotFoundAtOverride)
    } else {
        Err(BuildError::LibraryNotFoundDefault)
    }
}

/// Locates `libgetargv.dylib`: in the directory named by the
/// `LIBGETARGV_LIB_DIR` override when that variable is set, else under the
/// resolved package prefix. Fails when the library file does not exist,
/// naming the override variable in the error.
pub fn locate_library(fs: &FileSystem, env: &Environment, arch: TargetArch) -> (r: Result<
    LibraryLocation,
    BuildError,
>)
    ensures
        match r {
            Ok(loc) => spec_locate_library(*fs, *env, arch) == Ok::<_, BuildError>(
                (loc.dir@, loc.path@),
            ),
            Err(e) => spec_locate_library(*fs, *env, arch) == Err::<(Seq<char>, Seq<char>), _>(e),
        },
{
    let over = env.get("LIBGETARGV_LIB_DIR");
    let over_set = over.is_some();
    let dir = match over {
        Some(d) => d,
        None => resolve_prefix(fs, env, arch, "lib", "getargv"),
    };
    let lib = path_join(dir.as_str(), "libgetargv.dylib");
    if fs.path_exists(lib.as_str()) {
        Ok(LibraryLocation { dir, path: lib })
    } else if over_set {
        Err(BuildError::LibraryNotFoundAtOverride)
    } else {
        Err(BuildError::LibraryNotFoundDefault)
    }
}

/// What `resolve_tool_path` returns: an explicit setting of the variable
/// wins; otherwise the tool is looked up under the resolved prefix of its
/// package.
pub open spec fn spec_resolve_tool_path(
    fs: FileSystem,
    env: Environment,
    arch: TargetArch,
    name: Seq<char>,
    rel: Seq<char>,
    pkg: Seq<char>,
) -> Seq<char> {
    match env.spec_get(name) {
        Some(v) => v,
        None => spec_resolve_prefix(fs, env, arch, rel, pkg),
    }
}

/// The path to propagate for a downstream tool: the value of its override
/// variable when set, else its place under the resolved package prefix.
pub fn resolve_tool_path(
    fs: &FileSystem,
    env: &Environment,
    arch: TargetArch,
    name: &str,
    rel: &str,
    pkg: &str,
) -> (r: String)
    ensures
        r@ == spec_resolve_tool_path(*fs, *env, arch, name@, rel@, pkg@),
{
    match env.get(name) {
        Some(v) => v,
        None => resolve_prefix(fs, env, arch, rel, pkg),
    }
}

} // verus!
