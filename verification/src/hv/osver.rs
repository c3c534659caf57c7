//! Host macOS version for the in-kernel GICv3 availability check.
//!
//! `hv_gic.h` in the macOS SDK marks `hv_gic_create` and the other GICv3 calls
//! `API_AVAILABLE(macos(15.0))`. macOS 15 is the minimum.
use vstd::prelude::*;

use super::error::HvError;
use super::vm::Host;
use crate::text::{chars_of, parse_u32, trim_text};

verus! {

broadcast use vstd::group_vstd_default;

/// Major version required by `API_AVAILABLE(macos(15.0))`.
pub const GIC_MIN_MACOS_MAJOR: u32 = 15;

/// `std::str::Utf8Error`, which is not looked into.
#[verifier::external_type_specification]
#[verifier::external_body]
pub struct ExUtf8Error(std::str::Utf8Error);

/// `std::str::from_utf8` accepts exactly the bytes that are UTF-8, and gives the text that they
/// encode.
pub assume_specification[ std::str::from_utf8 ](v: &[u8]) -> (r: Result<&str, std::str::Utf8Error>)
    ensures
        r is Ok <==> vstd::utf8::valid_utf8(v@),
        r matches Ok(s) ==> s@ == vstd::utf8::decode_utf8(v@),
;

/// What `sysctlbyname(kern.osproductversion)` gave.
#[derive(Debug, Clone)]
pub struct SysctlReply {
    /// Return code. Zero is success.
    pub rc: i32,
    /// The bytes that were written.
    pub bytes: Vec<u8>,
}

/// Where the first dot at or after `from` is, or the end.
pub open spec fn dot_at(s: Seq<char>, from: int) -> int
    decreases s.len() - from,
{
    if from >= s.len() || s[from] == '.' {
        from
    } else {
        dot_at(s, from + 1)
    }
}

proof fn lemma_dot_at(s: Seq<char>, from: int)
    requires
        0 <= from <= s.len(),
    ensures
        from <= dot_at(s, from) <= s.len(),
    decreases s.len() - from,
{
    if from < s.len() && s[from] != '.' {
        lemma_dot_at(s, from + 1);
    }
}

/// The major and minor version that `s` spells: the part before the first dot, and the part
/// between the first and the second. The minor version is zero where there is no dot.
pub open spec fn version_of(s: Seq<char>) -> Option<(u32, u32)> {
    let first = dot_at(s, 0);
    let major = crate::text::u32_of(s.take(first));
    let minor = if first >= s.len() {
        Some(0u32)
    } else {
        crate::text::u32_of(s.subrange(first + 1, dot_at(s, first + 1)))
    };
    match (major, minor) {
        (Some(a), Some(b)) => Some((a, b)),
        _ => None,
    }
}

/// The version in the bytes of `kern.osproductversion`, which end in NULs. Bytes that are not
/// text hold none.
pub open spec fn version_in(bytes: Seq<u8>) -> Option<(u32, u32)> {
    if vstd::utf8::valid_utf8(bytes) {
        version_of(
            crate::text::trimmed(crate::text::without_nuls(vstd::utf8::decode_utf8(bytes))),
        )
    } else {
        None
    }
}

/// The version to go by: the override where there is one, else the host's.
pub open spec fn version_to_use(
    injected: Option<(u32, u32)>,
    rc: i32,
    bytes: Seq<u8>,
) -> Option<(u32, u32)> {
    match injected {
        Some(version) => Some(version),
        None => if rc == 0 {
            version_in(bytes)
        } else {
            None
        },
    }
}

/// Whether the in-kernel GICv3 is there on `version`.
pub open spec fn gic_supported(major: u32, minor: u32) -> Result<(), HvError> {
    if major >= GIC_MIN_MACOS_MAJOR {
        Ok(())
    } else {
        Err(HvError::GicOsUnsupported { major, minor })
    }
}

/// Replace the host version, as tests do. `None` goes back to `kern.osproductversion`.
pub fn set_gic_os_version_override(host: &mut Host, version: Option<(u32, u32)>)
    ensures
        final(host).version() == version,
        final(host).taken() == old(host).taken(),
        final(host).phase() == old(host).phase(),
{
    host.set_version(version);
}

/// Accept macOS 15.0 and any later release.
pub fn ensure_gic_os_version(major: u32, minor: u32) -> (r: Result<(), HvError>)
    ensures
        r == gic_supported(major, minor),
{
    if major >= GIC_MIN_MACOS_MAJOR {
        return Ok(());
    }
    Err(HvError::GicOsUnsupported { major, minor })
}

/// Take the host version, or the override, and require macOS 15.0.
pub fn ensure_gic_os(host: &Host, reply: &SysctlReply) -> (r: Result<(), HvError>)
    ensures
        r == (match version_to_use(host.version(), reply.rc, reply.bytes@) {
            Some((major, minor)) => gic_supported(major, minor),
            None => Err::<(), HvError>(HvError::OsVersion),
        }),
{
    match host_version(host, reply) {
        Ok((major, minor)) => ensure_gic_os_version(major, minor),
        Err(e) => Err(e),
    }
}

fn host_version(host: &Host, reply: &SysctlReply) -> (r: Result<(u32, u32), HvError>)
    ensures
        r == (match version_to_use(host.version(), reply.rc, reply.bytes@) {
            Some(version) => Ok::<(u32, u32), HvError>(version),
            None => Err(HvError::OsVersion),
        }),
{
    if let Some(version) = host.injected_version() {
        return Ok(version);
    }
    if reply.rc != 0 {
        return Err(HvError::OsVersion);
    }
    match std::str::from_utf8(reply.bytes.as_slice()) {
        Ok(raw) => {
            let chars = chars_of(raw);
            let text = trim_text(&chars);
            match parse_chars(&text) {
                Some(version) => Ok(version),
                None => Err(HvError::OsVersion),
            }
        },
        Err(_) => Err(HvError::OsVersion),
    }
}

/// The major and minor version that `text` spells.
pub fn parse_version(text: &str) -> (r: Option<(u32, u32)>)
    ensures
        r == version_of(text@),
{
    let chars = chars_of(text);
    parse_chars(&chars)
}

fn find_dot(s: &Vec<char>, from: usize) -> (at: usize)
    requires
        from <= s@.len(),
    ensures
        at == dot_at(s@, from as int),
        from <= at <= s@.len(),
{
    let mut i: usize = from;
    while i < s.len() && s[i] != '.'
        invariant
            from <= i <= s@.len(),
            dot_at(s@, i as int) == dot_at(s@, from as int),
        decreases s@.len() - i,
    {
        i = i + 1;
    }
    i
}

fn parse_chars(s: &Vec<char>) -> (r: Option<(u32, u32)>)
    ensures
        r == version_of(s@),
{
    let first: usize = find_dot(s, 0);
    assert(s@.subrange(0, first as int) =~= s@.take(first as int));
    let major: Option<u32> = parse_u32(s, 0, first);
    let minor: Option<u32> = if first >= s.len() {
        Some(0)
    } else {
        let second: usize = find_dot(s, first + 1);
        parse_u32(s, first + 1, second)
    };
    match (major, minor) {
        (Some(a), Some(b)) => Some((a, b)),
        _ => None,
    }
}

/// Whether a release is accepted goes by its major version alone: a later one than one that is
/// accepted is accepted too, and an earlier one than one that is refused is refused too.
pub proof fn law_later_releases_are_accepted(
    major: u32,
    minor: u32,
    other_major: u32,
    other_minor: u32,
)
    ensures
        gic_supported(major, minor) is Ok && other_major >= major ==> gic_supported(
            other_major,
            other_minor,
        ) is Ok,
        gic_supported(major, minor) is Err && other_major <= major ==> gic_supported(
            other_major,
            other_minor,
        ) is Err,
{
}

} // verus!
