use vstd::prelude::*;

verus! {

/// Timer counts (4 us each) to wait for the echo line to rise: 0.2 s.
pub const NO_PULSE_TICKS: u16 = 50000;

/// Microseconds per timer count at a prescale of 64.
pub const US_PER_TICK: u16 = 4;

/// Microseconds of echo per centimetre of distance (there and back).
pub const US_PER_CM: u16 = 58;

/// Why a ranging sample produced no distance.
#[derive(Clone, Copy, Debug, PartialEq, Eq, Structural)]
pub enum EchoError {
    /// The echo line never rose.
    NoPulse,
    /// The echo lasted longer than a `u16` of microseconds: nothing was
    /// detected.
    DistanceOverflow,
}

/// A distance in whole centimetres.
#[derive(Clone, Copy, Debug, PartialEq, Eq, Structural)]
pub struct CM(u16);

impl CM {
    pub closed spec fn value(self) -> u16 {
        self.0
    }

    pub fn as_u16(self) -> (r: u16)
        ensures
            r == self.value(),
    {
        self.0
    }
}

/// Length of an echo of `ticks` timer counts, in microseconds, saturated at
/// `u16::MAX`.
pub open spec fn echo_us(ticks: u16) -> int {
    let us = ticks * US_PER_TICK;
    if us > u16::MAX {
        u16::MAX as int
    } else {
        us
    }
}

/// Whether the wait for the echo line to rise has lasted too long.
pub fn echo_wait_expired(ticks: u16) -> (r: bool)
    ensures
        r == (ticks >= NO_PULSE_TICKS),
{
    ticks >= NO_PULSE_TICKS
}

/// Converts an echo of `ticks` timer counts to a distance. An echo whose
/// length in microseconds saturates a `u16` means nothing was detected.
pub fn distance_from_echo(ticks: u16) -> (r: Result<CM, EchoError>)
    ensures
        echo_us(ticks) == u16::MAX ==> r == Err::<CM, EchoError>(EchoError::DistanceOverflow),
        echo_us(ticks) < u16::MAX ==> r is Ok && r.unwrap().value() == echo_us(ticks) / (
        US_PER_CM as int),
{
    let us: u16 = match ticks.checked_mul(US_PER_TICK) {
        Some(v) => v,
        None => u16::MAX,
    };
    if us == u16::MAX {
        return Err(EchoError::DistanceOverflow);
    }
    Ok(CM(us / US_PER_CM))
}

} // verus!
