//! What the operator has configured.

use vstd::prelude::*;

verus! {

/// The number of nanoseconds in a microsecond.
pub const NANOS_PER_MICRO: u128 = 1000;

/// The configuration of the sampler.
#[derive(Clone, Copy, Debug, PartialEq, Eq)]
pub struct Settings {
    /// The time from one sample to the next, in nanoseconds. Without an
    /// interval no samples are taken.
    pub interval: Option<u128>,
}

impl Default for Settings {
    /// The settings under which no samples are taken.
    fn default() -> (out: Self)
        ensures
            out.interval is None,
    {
        Settings { interval: None }
    }
}

impl Settings {
    /// The settings for an interval given in whole microseconds, or for no
    /// interval.
    pub fn from_micros(micros: Option<u64>) -> (out: Self)
        ensures
            out.interval == match micros {
                Some(m) => Some((m * NANOS_PER_MICRO) as u128),
                None => None,
            },
    {
        match micros {
            Some(m) => {
                let wide: u128 = m as u128;
                Settings { interval: Some(wide * NANOS_PER_MICRO) }
            },
            None => Settings { interval: None },
        }
    }
}

/// The settings as they were read, or the defaults where reading them
/// failed: a setting that cannot be understood switches sampling off.
pub fn read_or_default<E>(read: Result<Settings, E>) -> (out: Settings)
    ensures
        out == match read {
            Ok(settings) => settings,
            Err(_) => (Settings { interval: None }),
        },
{
    match read {
        Ok(settings) => settings,
        Err(_) => Settings::default(),
    }
}

} // verus!
