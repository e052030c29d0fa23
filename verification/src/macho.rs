//! The binary metadata extractor: a minimal purpose-built reader for the
//! platform's executable-and-linkable container format, just deep enough
//! to find the minimum-OS-version record of one architecture's image. A
//! container is either a single 64-bit little-endian object or a
//! multi-architecture ("fat") wrapper, whose header words are big-endian,
//! holding several such objects keyed by CPU type.

use vstd::prelude::*;
use vstd::slice::slice_subrange;

use crate::arch::TargetArch;
use crate::errors::BuildError;
use crate::version::Version;
use crate::version::spec_from_packed;

verus! {

/// The magic number opening a multi-architecture container.
pub const FAT_MAGIC: u32 = 0xcafebabe;

/// The magic number opening a 64-bit little-endian object.
pub const MH_MAGIC_64: u32 = 0xfeedfacf;

/// The legacy load command carrying a minimum OS version: its payload word
/// at offset 8 is the packed version.
pub const LC_VERSION_MIN_MACOSX: u32 = 0x24;

/// The modern load command carrying a minimum OS version: its payload word
/// at offset 12 is the packed version.
pub const LC_BUILD_VERSION: u32 = 0x32;

/// The CPU-type tag of 64-bit x86 images.
pub const CPU_TYPE_X86_64: u32 = 0x01000007;

/// The CPU-type tag of 64-bit ARM images.
pub const CPU_TYPE_ARM64: u32 = 0x0100000c;

/// The CPU-type tag a fat-container member must carry for `arch`.
pub open spec fn spec_cpu_type(arch: TargetArch) -> u32 {
    match arch {
        TargetArch::X86_64 => CPU_TYPE_X86_64,
        TargetArch::Arm64 => CPU_TYPE_ARM64,
    }
}

/// The CPU-type tag for an architecture.
pub fn cpu_type(arch: TargetArch) -> (r: u32)
    ensures
        r == spec_cpu_type(arch),
{
    match arch {
        TargetArch::X86_64 => CPU_TYPE_X86_64,
        TargetArch::Arm64 => CPU_TYPE_ARM64,
    }
}

/// The 32-bit little-endian word at offset `i`.
pub open spec fn read32_le(s: Seq<u8>, i: int) -> int {
    s[i] + 0x100 * s[i + 1] + 0x10000 * s[i + 2] + 0x1000000 * s[i + 3]
}

/// The 32-bit big-endian word at offset `i`.
pub open spec fn read32_be(s: Seq<u8>, i: int) -> int {
    s[i + 3] + 0x100 * s[i + 2] + 0x10000 * s[i + 1] + 0x1000000 * s[i]
}

/// Reads the little-endian word at offset `i`.
fn read_u32_le(b: &[u8], i: usize) -> (r: u32)
    requires
        i + 4 <= b@.len(),
    ensures
        r == read32_le(b@, i as int),
{
    // binds the slice length in scope, so `i + 3` is known to fit usize
    let n = b.len();
    b[i] as u32 + 0x100 * (b[i + 1] as u32) + 0x10000 * (b[i + 2] as u32) + 0x1000000 * (b[i
        + 3] as u32)
}

/// Reads the big-endian word at offset `i`.
fn read_u32_be(b: &[u8], i: usize) -> (r: u32)
    requires
        i + 4 <= b@.len(),
    ensures
        r == read32_be(b@, i as int),
{
    // binds the slice length in scope, so `i + 3` is known to fit usize
    let n = b.len();
    b[i + 3] as u32 + 0x100 * (b[i + 2] as u32) + 0x10000 * (b[i + 1] as u32) + 0x1000000 * (
    b[i] as u32)
}

/// Whether the bytes open like a static archive rather than a loadable
/// object: the eight-byte archive signature.
pub open spec fn is_archive(m: Seq<u8>) -> bool {
    m.len() >= 8 && m[0] == 0x21 && m[1] == 0x3c && m[2] == 0x61 && m[3] == 0x72 && m[4] == 0x63
        && m[5] == 0x68 && m[6] == 0x3e && m[7] == 0x0a
}

/// Tests for the static-archive signature.
fn check_archive(b: &[u8]) -> (r: bool)
    ensures
        r == is_archive(b@),
{
    b.len() >= 8 && b[0] == 0x21 && b[1] == 0x3c && b[2] == 0x61 && b[3] == 0x72 && b[4] == 0x63
        && b[5] == 0x68 && b[6] == 0x3e && b[7] == 0x0a
}

/// Walks `n` load commands starting at offset `off`, looking for the first
/// minimum-OS-version record; yields its packed version word, or
/// `NoVersionRecord` when the commands run out, or `MalformedContainer`
/// when a command oversteps the object.
pub open spec fn spec_scan_commands(s: Seq<u8>, off: int, n: int) -> Result<u32, BuildError>
    decreases n,
{
    if n <= 0 {
        Err(BuildError::NoVersionRecord)
    } else if off + 8 > s.len() {
        Err(BuildError::MalformedContainer)
    } else {
        let cmd = read32_le(s, off);
        let size = read32_le(s, off + 4);
        if size < 8 || off + size > s.len() {
            Err(BuildError::MalformedContainer)
        } else if cmd == LC_VERSION_MIN_MACOSX {
            if size >= 16 {
                Ok(read32_le(s, off + 8) as u32)
            } else {
                Err(BuildError::MalformedContainer)
            }
        } else if cmd == LC_BUILD_VERSION {
            if size >= 24 {
                Ok(read32_le(s, off + 12) as u32)
            } else {
                Err(BuildError::MalformedContainer)
            }
        } else {
            spec_scan_commands(s, off + size, n - 1)
        }
    }
}

/// What parsing a single-architecture object yields: the packed minimum-OS
/// version from its load-command table. Only 64-bit little-endian objects
/// are recognized — the form both supported architectures use.
pub open spec fn spec_parse_object(s: Seq<u8>) -> Result<u32, BuildError> {
    if s.len() < 32 || read32_le(s, 0) != MH_MAGIC_64 {
        Err(BuildError::MalformedContainer)
    } else {
        spec_scan_commands(s, 32, read32_le(s, 16))
    }
}

/// Walks the fat-container entry table from entry `i` of `n` for the first
/// entry tagged `code`; yields the packed version of that member, or
/// `ArchitectureNotInFatBinary` when no entry matches.
pub open spec fn spec_find_fat_member(s: Seq<u8>, code: u32, i: int, n: int) -> Result<
    u32,
    BuildError,
>
    decreases n - i,
{
    if i >= n {
        Err(BuildError::ArchitectureNotInFatBinary)
    } else if 8 + 20 * i + 20 > s.len() {
        Err(BuildError::MalformedContainer)
    } else if read32_be(s, 8 + 20 * i) == code {
        let off = read32_be(s, 8 + 20 * i + 8);
        let size = read32_be(s, 8 + 20 * i + 12);
        if off + size > s.len() {
            Err(BuildError::MalformedContainer)
        } else if is_archive(s.subrange(off, off + size)) {
            Err(BuildError::NotLoadableObject)
        } else {
            spec_parse_object(s.subrange(off, off + size))
        }
    } else {
        spec_find_fat_member(s, code, i + 1, n)
    }
}

/// Decodes a found packed version word, passing a failure through.
pub open spec fn decode_result(r: Result<u32, BuildError>) -> Result<Version, BuildError> {
    match r {
        Ok(p) => Ok(spec_from_packed(p)),
        Err(e) => Err(e),
    }
}

/// What `find_minimum_os_version` returns: the decoded minimum-OS version
/// of the requested architecture's image — of the container itself when it
/// is a single object, else of the member the fat entry table keys by that
/// architecture's CPU type.
pub open spec fn spec_find_version(s: Seq<u8>, arch: TargetArch) -> Result<Version, BuildError> {
    if s.len() >= 4 && read32_be(s, 0) == FAT_MAGIC {
        if s.len() < 8 {
            Err(BuildError::MalformedContainer)
        } else {
            decode_result(spec_find_fat_member(s, spec_cpu_type(arch), 0, read32_be(s, 4)))
        }
    } else {
        decode_result(spec_parse_object(s))
    }
}

/// A multi-architecture container advertising both supported architectures
/// yields, for each requested architecture, the version of the member its
/// entry table keys by that architecture's CPU type — and only that
/// member's. The entries here list the 64-bit x86 image first and the
/// 64-bit ARM image second.
pub proof fn lemma_fat_selects_requested_member(s: Seq<u8>)
    requires
        s.len() >= 48,
        read32_be(s, 0) == FAT_MAGIC,
        read32_be(s, 4) == 2,
        read32_be(s, 8) == CPU_TYPE_X86_64,
        read32_be(s, 28) == CPU_TYPE_ARM64,
        read32_be(s, 16) + read32_be(s, 20) <= s.len(),
        read32_be(s, 36) + read32_be(s, 40) <= s.len(),
        !is_archive(s.subrange(read32_be(s, 16), read32_be(s, 16) + read32_be(s, 20))),
        !is_archive(s.subrange(read32_be(s, 36), read32_be(s, 36) + read32_be(s, 40))),
    ensures
        spec_find_version(s, TargetArch::X86_64) == decode_result(
            spec_parse_object(s.subrange(read32_be(s, 16), read32_be(s, 16) + read32_be(s, 20))),
        ),
        spec_find_version(s, TargetArch::Arm64) == decode_result(
            spec_parse_object(s.subrange(read32_be(s, 36), read32_be(s, 36) + read32_be(s, 40))),
        ),
{
    let member_x = s.subrange(read32_be(s, 16), read32_be(s, 16) + read32_be(s, 20));
    let member_a = s.subrange(read32_be(s, 36), read32_be(s, 36) + read32_be(s, 40));
    assert(spec_find_fat_member(s, CPU_TYPE_X86_64, 0, 2) == spec_parse_object(member_x));
    assert(spec_find_fat_member(s, CPU_TYPE_ARM64, 0, 2) == spec_find_fat_member(
        s,
        CPU_TYPE_ARM64,
        1,
        2,
    ));
    assert(spec_find_fat_member(s, CPU_TYPE_ARM64, 1, 2) == spec_parse_object(member_a));
}

/// Scans the load commands of a 64-bit object for the first
/// minimum-OS-version record.
fn scan_commands(b: &[u8], ncmds: u32) -> (r: Result<u32, BuildError>)
    requires
        b@.len() >= 32,
    ensures
        r == spec_scan_commands(b@, 32, ncmds as int),
{
    let mut off: usize = 32;
    let mut rem: u32 = ncmds;
    while rem > 0
        invariant
            32 <= off <= b@.len(),
            spec_scan_commands(b@, 32, ncmds as int) == spec_scan_commands(
                b@,
                off as int,
                rem as int,
            ),
        decreases rem,
    {
        if b.len() - off < 8 {
            return Err(BuildError::MalformedContainer);
        }
        let cmd = read_u32_le(b, off);
        let size = read_u32_le(b, off + 4);
        if size < 8 || (size as usize) > b.len() - off {
            return Err(BuildError::MalformedContainer);
        }
        if cmd == LC_VERSION_MIN_MACOSX {
            if size >= 16 {
                return Ok(read_u32_le(b, off + 8));
            } else {
                return Err(BuildError::MalformedContainer);
            }
        }
        if cmd == LC_BUILD_VERSION {
            if size >= 24 {
                return Ok(read_u32_le(b, off + 12));
            } else {
                return Err(BuildError::MalformedContainer);
            }
        }
        off = off + size as usize;
        rem = rem - 1;
    }
    Err(BuildError::NoVersionRecord)
}

/// Parses a single-architecture 64-bit object and extracts its packed
/// minimum-OS version.
fn parse_object(b: &[u8]) -> (r: Result<u32, BuildError>)
    ensures
        r == spec_parse_object(b@),
{
    if b.len() < 32 {
        return Err(BuildError::MalformedContainer);
    }
    if read_u32_le(b, 0) != MH_MAGIC_64 {
        return Err(BuildError::MalformedContainer);
    }
    let ncmds = read_u32_le(b, 16);
    scan_commands(b, ncmds)
}

/// Finds the fat-container member for `code` and extracts its packed
/// minimum-OS version.
fn find_fat_member(b: &[u8], code: u32, nfat: u32) -> (r: Result<u32, BuildError>)
    ensures
        r == spec_find_fat_member(b@, code, 0, nfat as int),
{
    let mut i: u32 = 0;
    let mut e: usize = 8;
    while i < nfat
        invariant
            0 <= i <= nfat,
            e == 8 + 20 * (i as int),
            e <= b@.len() + 20,
            spec_find_fat_member(b@, code, 0, nfat as int) == spec_find_fat_member(
                b@,
                code,
                i as int,
                nfat as int,
            ),
        decreases nfat - i,
    {
        if e > b.len() || b.len() - e < 20 {
            return Err(BuildError::MalformedContainer);
        }
        if read_u32_be(b, e) == code {
            let off = read_u32_be(b, e + 8);
            let size = read_u32_be(b, e + 12);
            if (off as usize) > b.len() || (size as usize) > b.len() - (off as usize) {
                return Err(BuildError::MalformedContainer);
            }
            let member = slice_subrange(b, off as usize, off as usize + size as usize);
            if check_archive(member) {
                return Err(BuildError::NotLoadableObject);
            }
            return parse_object(member);
        }
        i = i + 1;
        e = e + 20;
    }
    Err(BuildError::ArchitectureNotInFatBinary)
}

/// Parses a binary container — a single 64-bit object or a fat wrapper —
/// and decodes the minimum OS version recorded for the image of the
/// requested architecture. Read-only: idempotent on an unmodified file.
pub fn find_minimum_os_version(bytes: &[u8], arch: TargetArch) -> (r: Result<Version, BuildError>)
    ensures
        r == spec_find_version(bytes@, arch),
{
    let packed = if bytes.len() >= 4 && read_u32_be(bytes, 0) == FAT_MAGIC {
        if bytes.len() < 8 {
            Err(BuildError::MalformedContainer)
        } else {
            let nfat = read_u32_be(bytes, 4);
            find_fat_member(bytes, cpu_type(arch), nfat)
        }
    } else {
        parse_object(bytes)
    };
    match packed {
        Ok(p) => Ok(Version::from_packed(p)),
        Err(e) => Err(e),
    }
}

} // verus!
