//! The simpler source: pages validated by a version range rather than an
//! exact version.

use vstd::prelude::*;

verus! {

/// The range of shared-memory API versions this library reads.
#[derive(Clone, Copy, Debug, Default)]
pub struct AssettoCorsaApiVersion;

/// Lowest and highest accepted major and minor versions.
pub const AC_MAJOR_MIN: u16 = 1;
pub const AC_MAJOR_MAX: u16 = 1;
pub const AC_MINOR_MIN: u16 = 0;
pub const AC_MINOR_MAX: u16 = 7;

/// Whether a `major.minor` version lies in the accepted range.
pub open spec fn version_accepted(major: u16, minor: u16) -> bool {
    AC_MAJOR_MIN <= major <= AC_MAJOR_MAX && AC_MINOR_MIN <= minor <= AC_MINOR_MAX
}

impl AssettoCorsaApiVersion {
    /// The version gate of this source: both parts within their bounds.
    pub fn accepts(major: u16, minor: u16) -> (r: bool)
        ensures
            r == version_accepted(major, minor),
    {
        AC_MAJOR_MIN <= major && major <= AC_MAJOR_MAX && AC_MINOR_MIN <= minor && minor
            <= AC_MINOR_MAX
    }
}

/// The flag shown to the driver.
#[derive(Clone, Copy, Debug, PartialEq, Eq, Structural)]
pub enum FlagType {
    NoFlag,
    Blue,
    Yellow,
    Black,
    White,
    Checkered,
    Penalty,
    Green,
    Orange,
}

/// The flags common to all sources.
#[derive(Clone, Copy, Debug, Default, PartialEq, Eq, Structural)]
pub struct RacingFlags {
    pub green: bool,
    pub yellow: bool,
    pub blue: bool,
    pub white: bool,
    pub checkered: bool,
    pub black: bool,
    pub meatball: bool,
}

/// No flag raised.
pub open spec fn no_flags() -> RacingFlags {
    RacingFlags {
        green: false,
        yellow: false,
        blue: false,
        white: false,
        checkered: false,
        black: false,
        meatball: false,
    }
}

/// The common flags that a flag of this source raises: a penalty shows as
/// black, the orange disc as the meatball.
pub open spec fn flags_for(flag: FlagType) -> RacingFlags {
    match flag {
        FlagType::NoFlag => no_flags(),
        FlagType::Blue => RacingFlags { blue: true, ..no_flags() },
        FlagType::Yellow => RacingFlags { yellow: true, ..no_flags() },
        FlagType::Black => RacingFlags { black: true, ..no_flags() },
        FlagType::White => RacingFlags { white: true, ..no_flags() },
        FlagType::Checkered => RacingFlags { checkered: true, ..no_flags() },
        FlagType::Penalty => RacingFlags { black: true, ..no_flags() },
        FlagType::Green => RacingFlags { green: true, ..no_flags() },
        FlagType::Orange => RacingFlags { meatball: true, ..no_flags() },
    }
}

/// The common flags for the flag this source reports.
pub fn flags(flag: FlagType) -> (r: RacingFlags)
    ensures
        r == flags_for(flag),
{
    let mut f = RacingFlags {
        green: false,
        yellow: false,
        blue: false,
        white: false,
        checkered: false,
        black: false,
        meatball: false,
    };
    match flag {
        FlagType::NoFlag => {},
        FlagType::Blue => f.blue = true,
        FlagType::Yellow => f.yellow = true,
        FlagType::Black => f.black = true,
        FlagType::White => f.white = true,
        FlagType::Checkered => f.checkered = true,
        FlagType::Penalty => f.black = true,
        FlagType::Green => f.green = true,
        FlagType::Orange => f.meatball = true,
    }
    f
}

} // verus!
