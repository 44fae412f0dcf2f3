//! UPower policy for the renderer-neutral top-bar power contract.
//!
//! The native adapter reads UPower's aggregate display device; this module
//! decides what its `IsPresent`, `Percentage`, and `State` mean. No power
//! value is fabricated when the device is absent or reports nonsense.

use vstd::prelude::*;
use crate::text::{decimal, push_decimal};
use crate::topbar::{PowerStatus, ProviderState};

verus! {

/// Display device `State`: unknown.
pub const STATE_UNKNOWN: u32 = 0;
/// Display device `State`: charging.
pub const STATE_CHARGING: u32 = 1;
/// Display device `State`: discharging.
pub const STATE_DISCHARGING: u32 = 2;
/// Display device `State`: empty.
pub const STATE_EMPTY: u32 = 3;
/// Display device `State`: fully charged.
pub const STATE_FULLY_CHARGED: u32 = 4;
/// Display device `State`: pending charge.
pub const STATE_PENDING_CHARGE: u32 = 5;
/// Display device `State`: pending discharge.
pub const STATE_PENDING_DISCHARGE: u32 = 6;

/// Failure to connect to or read the typed UPower device contract.
#[derive(Debug, Clone, PartialEq, Eq)]
pub struct UpowerError(pub String);

impl UpowerError {
    /// The diagnostic text.
    pub fn message(&self) -> (message: &str)
        ensures
            message@ == self.0@,
    {
        self.0.as_str()
    }
}

/// The display device's `Percentage` as the adapter read it.
#[derive(Debug, Clone, PartialEq, Eq)]
pub enum PercentageReading {
    /// A finite reading within `0..=100`, rounded to the nearest whole percent.
    InRange(u8),
    /// Any other reading (not finite, or outside `0..=100`), as it is spelled.
    OutOfRange(String),
}

/// Whether a charge state means the battery is (about to be) charging;
/// `None` for the unknown state and for values UPower does not define.
pub open spec fn charging_meaning(state: u32) -> Option<bool> {
    if state == STATE_CHARGING || state == STATE_PENDING_CHARGE {
        Some(true)
    } else if state == STATE_DISCHARGING || state == STATE_EMPTY || state == STATE_FULLY_CHARGED
        || state == STATE_PENDING_DISCHARGE {
        Some(false)
    } else {
        None
    }
}

/// The error text for a charge state without a meaning.
pub open spec fn state_error_text(state: u32) -> Seq<char> {
    if state == STATE_UNKNOWN {
        "UPower battery state is unknown"@
    } else {
        "unsupported UPower battery state "@ + decimal(state as nat)
    }
}

/// Map UPower's aggregate display device to the bar's power status.
///
/// An absent device is `Unavailable`, never a zero-percent battery. A present
/// one needs a percentage in `0..=100` and a known charge state, checked in
/// that order.
pub fn map_display_device(present: bool, percentage: PercentageReading, state: u32) -> (result:
    Result<ProviderState<PowerStatus>, UpowerError>)
    ensures
        !present ==> result == Ok::<ProviderState<PowerStatus>, UpowerError>(
            ProviderState::Unavailable,
        ),
        present ==> match percentage {
            PercentageReading::OutOfRange(text) => result is Err && result->Err_0.0@
                == "UPower percentage is outside 0..=100: "@ + text@,
            PercentageReading::InRange(percent) => if percent > 100 {
                result is Err && result->Err_0.0@ == "UPower percentage is outside 0..=100: "@
                    + decimal(percent as nat)
            } else {
                match charging_meaning(state) {
                Some(charging) => result == Ok::<
                    ProviderState<PowerStatus>,
                    UpowerError,
                >(
                    ProviderState::Available {
                        value: PowerStatus { percent, charging },
                        stale: false,
                    },
                ),
                None => result is Err && result->Err_0.0@ == state_error_text(state),
            }},
        },
{
    if !present {
        return Ok(ProviderState::Unavailable);
    }
    let percent = match percentage {
        PercentageReading::InRange(percent) => {
            if percent > 100 {
                let mut message = String::from_str("UPower percentage is outside 0..=100: ");
                push_decimal(&mut message, percent as u64);
                return Err(UpowerError(message));
            }
            percent
        },
        PercentageReading::OutOfRange(text) => {
            let mut message = String::from_str("UPower percentage is outside 0..=100: ");
            message.append(text.as_str());
            return Err(UpowerError(message));
        },
    };
    let charging = if state == STATE_CHARGING || state == STATE_PENDING_CHARGE {
        true
    } else if state == STATE_DISCHARGING || state == STATE_EMPTY || state == STATE_FULLY_CHARGED
        || state == STATE_PENDING_DISCHARGE {
        false
    } else if state == STATE_UNKNOWN {
        return Err(UpowerError(String::from_str("UPower battery state is unknown")));
    } else {
        let mut message = String::from_str("unsupported UPower battery state ");
        push_decimal(&mut message, state as u64);
        return Err(UpowerError(message));
    };
    Ok(ProviderState::Available { value: PowerStatus { percent, charging }, stale: false })
}

} // verus!
