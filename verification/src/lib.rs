//! A power-reserve meter for Linux and macOS systems.
//!
//! The crate turns raw operating-system counters into a single "power
//! reserve" level between 0 and 5: it parses the text that the OS exposes,
//! normalizes each resource signal into a pressure ratio, pushes every ratio
//! through a sigmoid transform, and reduces the per-signal pressures to one
//! overall level whose value is set by the most stressed resource.
//!
//! All ratios, pressures and levels are fixed-point values carrying six
//! decimal digits: the integer `1_000_000` stands for the real number `1.0`.

use vstd::prelude::*;

pub mod calculator;
pub mod error;
pub mod linux;
pub mod macos;
pub mod metrics;
pub mod platform;
pub mod ratio;
pub mod scale;
pub mod sigmoid;
pub mod text;

pub use error::{PwrzvError, PwrzvResult};

verus! {

/// The fixed-point unit: `SCALE` stands for the real number `1.0`.
pub const SCALE: u64 = 1_000_000;

/// One half in fixed-point form.
pub const HALF_SCALE: u64 = 500_000;

/// Highest ratio any signal may carry: `10.0`, the cap that load-style
/// signals are clamped to.
pub const RATIO_CAP: u64 = 10_000_000;

/// Wall-clock delay between the two reads of a rate signal's cumulative
/// counters, in milliseconds.  The counters grow since boot, so only a
/// windowed difference reflects current load; this interval trades latency
/// against rate-signal noise.
pub const SAMPLING_INTERVAL_MS: u64 = 500;

/// The platform-specific power reserve calculator, chosen once from the
/// host's OS name.
#[derive(Debug, Clone, Copy, PartialEq, Eq, Structural)]
pub enum Calculator {
    Linux(linux::calculator::LinuxProvider),
    MacOS(macos::calculator::MacProvider),
}

impl Calculator {
    /// Create the calculator for the named platform: the Linux provider on
    /// `"linux"`, the macOS provider on `"macos"`, and an
    /// unsupported-platform error anywhere else.
    pub fn new(os: &str) -> (r: PwrzvResult<Self>)
        ensures
            r is Ok <==> platform::spec_supported(os@),
            os@ == "linux"@ ==> (r matches Ok(c) && c is Linux),
            os@ == "macos"@ ==> (r matches Ok(c) && c is MacOS),
            r matches Err(e) ==> e matches PwrzvError::UnsupportedPlatform { platform: p }
                && p@ == os@,
    {
        proof {
            reveal_strlit("linux");
            reveal_strlit("macos");
        }
        let v = text::chars_of(os);
        if text::eq_lit(&v, "linux") {
            proof {
                assert(v@ == "linux"@);
                assert("linux"@[0] == 'l');
                assert("macos"@[0] == 'm');
                assert(os@ != "macos"@);
            }
            Ok(Calculator::Linux(linux::calculator::LinuxProvider))
        } else if text::eq_lit(&v, "macos") {
            Ok(Calculator::MacOS(macos::calculator::MacProvider))
        } else {
            Err(PwrzvError::unsupported_platform(os))
        }
    }
}

/// Check that the named platform is supported, exactly when a calculator
/// can be built for it; the error names the platform it rejected.
pub fn check_platform(os: &str) -> (r: PwrzvResult<()>)
    ensures
        r is Ok <==> platform::spec_supported(os@),
        r matches Err(e) ==> e matches PwrzvError::UnsupportedPlatform { platform: p }
            && p@ == os@,
{
    match Calculator::new(os) {
        Ok(_) => Ok(()),
        Err(e) => Err(e),
    }
}

} // verus!
