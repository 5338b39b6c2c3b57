//! Platform support checks.
//!
//! The operating-system name is handed in by the caller (the value of the
//! host's OS constant, e.g. `"linux"` or `"macos"`); these functions decide
//! whether that platform is supported and how it is spelled for people.

use vstd::prelude::*;
use vstd::string::*;
use crate::error::{PwrzvError, PwrzvResult};
use crate::text::{chars_of, eq_lit};

verus! {

/// The supported platforms: Linux and macOS.
pub open spec fn spec_supported(os: Seq<char>) -> bool {
    os == "linux"@ || os == "macos"@
}

/// The human spelling of an OS name; unrecognized hosts read as `"Unknown"`.
pub open spec fn spec_platform_name(os: Seq<char>) -> Seq<char> {
    if os == "linux"@ {
        "Linux"@
    } else if os == "macos"@ {
        "macOS"@
    } else if os == "windows"@ {
        "Windows"@
    } else if os == "freebsd"@ {
        "FreeBSD"@
    } else {
        "Unknown"@
    }
}

/// Whether the named platform is supported.
pub fn is_supported_platform(os: &str) -> (r: bool)
    ensures
        r == spec_supported(os@),
{
    let v = chars_of(os);
    eq_lit(&v, "linux") || eq_lit(&v, "macos")
}

/// Whether the named platform is Linux.
pub fn is_linux_like(os: &str) -> (r: bool)
    ensures
        r == (os@ == "linux"@),
{
    let v = chars_of(os);
    eq_lit(&v, "linux")
}

/// The human spelling of the named platform.
pub fn get_platform_name(os: &str) -> (r: String)
    ensures
        r@ == spec_platform_name(os@),
{
    let v = chars_of(os);
    if eq_lit(&v, "linux") {
        String::from_str("Linux")
    } else if eq_lit(&v, "macos") {
        String::from_str("macOS")
    } else if eq_lit(&v, "windows") {
        String::from_str("Windows")
    } else if eq_lit(&v, "freebsd") {
        String::from_str("FreeBSD")
    } else {
        String::from_str("Unknown")
    }
}

/// Check that the named platform is supported: `Ok` exactly for Linux and
/// macOS, otherwise an unsupported-platform error naming the host.
pub fn check_platform(os: &str) -> (r: PwrzvResult<()>)
    ensures
        r is Ok <==> spec_supported(os@),
        r matches Err(e) ==> e matches PwrzvError::UnsupportedPlatform { platform: p }
            && p@ == spec_platform_name(os@),
{
    if is_supported_platform(os) {
        Ok(())
    } else {
        let name = get_platform_name(os);
        Err(PwrzvError::UnsupportedPlatform { platform: name })
    }
}

} // verus!
