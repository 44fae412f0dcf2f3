//! NetworkManager policy for the renderer-neutral top-bar network contract.
//!
//! The D-Bus reads live in the native adapter; this module decides what the
//! values it reads mean. It is deliberately read-only: network writes need a
//! separate permission-gated action API and are never inferred from polling.

use vstd::prelude::*;
use crate::text::{has_control, is_control, push_decimal, decimal};
use crate::topbar::{NetworkStatus, ProviderState};

verus! {

/// NetworkManager's global `State`: asleep.
pub const NM_STATE_ASLEEP: u32 = 10;
/// NetworkManager's global `State`: disconnected.
pub const NM_STATE_DISCONNECTED: u32 = 20;
/// NetworkManager's global `State`: disconnecting.
pub const NM_STATE_DISCONNECTING: u32 = 30;
/// NetworkManager's global `State`: connecting.
pub const NM_STATE_CONNECTING: u32 = 40;
/// NetworkManager's global `State`: connected, local only.
pub const NM_STATE_CONNECTED_LOCAL: u32 = 50;
/// NetworkManager's global `State`: connected, site only.
pub const NM_STATE_CONNECTED_SITE: u32 = 60;
/// NetworkManager's global `State`: connected, global.
pub const NM_STATE_CONNECTED_GLOBAL: u32 = 70;

/// Active connection `State`: activating.
pub const ACTIVE_ACTIVATING: u32 = 1;
/// Active connection `State`: activated.
pub const ACTIVE_ACTIVATED: u32 = 2;
/// Active connection `State`: deactivating.
pub const ACTIVE_DEACTIVATING: u32 = 3;
/// Active connection `State`: deactivated.
pub const ACTIVE_DEACTIVATED: u32 = 4;

/// `DeviceType` of a Wi-Fi device.
pub const DEVICE_TYPE_WIFI: u32 = 2;

/// Signal shown for a link without a signal strength, such as a wired one.
///
/// The top-bar contract uses 100 for an active link that exposes no Wi-Fi
/// strength rather than fabricating a Wi-Fi bar.
pub const WIRED_SIGNAL_PERCENT: u8 = 100;

/// Failure to connect to or validate NetworkManager's typed D-Bus state.
#[derive(Debug, Clone, PartialEq, Eq)]
pub struct NetworkManagerError(pub String);

/// What a global state means: a settled status, `None` when connected (the
/// primary connection decides), or unsupported.
pub open spec fn global_state_meaning(state: u32) -> Option<Option<NetworkStatus>> {
    if state == NM_STATE_ASLEEP || state == NM_STATE_DISCONNECTED {
        Some(Some(NetworkStatus::Offline))
    } else if state == NM_STATE_DISCONNECTING || state == NM_STATE_CONNECTING {
        Some(Some(NetworkStatus::Connecting))
    } else if state == NM_STATE_CONNECTED_LOCAL || state == NM_STATE_CONNECTED_SITE || state
        == NM_STATE_CONNECTED_GLOBAL {
        Some(None)
    } else {
        None
    }
}

/// Interpret NetworkManager's global `State`.
///
/// Asleep and disconnected are offline; connecting and disconnecting are in
/// progress; any connected state returns `Ok(None)` because only the primary
/// active connection can name the link. Any other value is rejected.
pub fn global_state_status(state: u32) -> (result: Result<Option<NetworkStatus>, NetworkManagerError>)
    ensures
        match global_state_meaning(state) {
            Some(meaning) => result == Ok::<Option<NetworkStatus>, NetworkManagerError>(meaning),
            None => result is Err && result->Err_0.0@
                == "unsupported NetworkManager global state: "@ + decimal(state as nat),
        },
{
    if state == NM_STATE_ASLEEP || state == NM_STATE_DISCONNECTED {
        Ok(Some(NetworkStatus::Offline))
    } else if state == NM_STATE_DISCONNECTING || state == NM_STATE_CONNECTING {
        Ok(Some(NetworkStatus::Connecting))
    } else if state == NM_STATE_CONNECTED_LOCAL || state == NM_STATE_CONNECTED_SITE || state
        == NM_STATE_CONNECTED_GLOBAL {
        Ok(None)
    } else {
        let mut message = String::from_str("unsupported NetworkManager global state: ");
        push_decimal(&mut message, state as u64);
        Err(NetworkManagerError(message))
    }
}

/// Reject a connected report whose primary connection is the null path `/`.
pub fn check_primary_connection(path: &str) -> (result: Result<(), NetworkManagerError>)
    ensures
        result is Ok <==> path@ != "/"@,
{
    proof {
        reveal_strlit("/");
    }
    if path.unicode_len() == 1 && path.get_char(0) == '/' {
        proof {
            assert(path@ =~= "/"@);
        }
        return Err(
            NetworkManagerError(
                String::from_str("NetworkManager reports connected without a primary connection"),
            ),
        );
    }
    Ok(())
}

/// The provider state an active connection's `State` maps to.
pub open spec fn connected_state_meaning(
    active_state: u32,
    name: String,
    signal_percent: u8,
) -> Option<ProviderState<NetworkStatus>> {
    if active_state == ACTIVE_ACTIVATED {
        Some(
            ProviderState::Available {
                value: NetworkStatus::Connected { name, signal_percent },
                stale: false,
            },
        )
    } else if active_state == ACTIVE_ACTIVATING || active_state == ACTIVE_DEACTIVATING {
        Some(ProviderState::Available { value: NetworkStatus::Connecting, stale: false })
    } else if active_state == ACTIVE_DEACTIVATED {
        Some(ProviderState::Available { value: NetworkStatus::Offline, stale: false })
    } else {
        None
    }
}

/// Map the primary active connection's `State` to the bar's network status.
pub fn map_connected_state(active_state: u32, name: String, signal_percent: u8) -> (result: Result<
    ProviderState<NetworkStatus>,
    NetworkManagerError,
>)
    ensures
        match connected_state_meaning(active_state, name, signal_percent) {
            Some(state) => result == Ok::<ProviderState<NetworkStatus>, NetworkManagerError>(state),
            None => result is Err && result->Err_0.0@
                == "unsupported NetworkManager active state: "@ + decimal(active_state as nat),
        },
{
    if active_state == ACTIVE_ACTIVATED {
        Ok(
            ProviderState::Available {
                value: NetworkStatus::Connected { name, signal_percent },
                stale: false,
            },
        )
    } else if active_state == ACTIVE_ACTIVATING || active_state == ACTIVE_DEACTIVATING {
        Ok(ProviderState::Available { value: NetworkStatus::Connecting, stale: false })
    } else if active_state == ACTIVE_DEACTIVATED {
        Ok(ProviderState::Available { value: NetworkStatus::Offline, stale: false })
    } else {
        let mut message = String::from_str("unsupported NetworkManager active state: ");
        push_decimal(&mut message, active_state as u64);
        Err(NetworkManagerError(message))
    }
}

/// What reading a connection's signal does after learning one device's type.
///
/// The devices are read in the order the active connection lists them: the
/// first Wi-Fi device's strength is the signal, and a connection with no
/// Wi-Fi device shows [`WIRED_SIGNAL_PERCENT`].
#[derive(Debug, Clone, Copy, PartialEq, Eq, Structural)]
pub enum SignalStep {
    /// Read this device's wireless strength; it decides the signal.
    ReadStrength,
    /// Go on to the next device.
    NextDevice,
}

/// The step after reading a device's `DeviceType`.
pub fn signal_step(device_type: u32) -> (step: SignalStep)
    ensures
        step == if device_type == DEVICE_TYPE_WIFI {
            SignalStep::ReadStrength
        } else {
            SignalStep::NextDevice
        },
{
    if device_type == DEVICE_TYPE_WIFI {
        SignalStep::ReadStrength
    } else {
        SignalStep::NextDevice
    }
}

/// Validate a Wi-Fi `Strength`, which NetworkManager reports in `0..=100`.
pub fn wireless_signal_percent(strength: u8) -> (result: Result<u8, NetworkManagerError>)
    ensures
        strength <= 100 ==> result == Ok::<u8, NetworkManagerError>(strength),
        strength > 100 ==> result is Err && result->Err_0.0@
            == "NetworkManager wireless strength is outside 0..=100: "@ + decimal(strength as nat),
{
    if strength <= 100 {
        Ok(strength)
    } else {
        let mut message = String::from_str("NetworkManager wireless strength is outside 0..=100: ");
        push_decimal(&mut message, strength as u64);
        Err(NetworkManagerError(message))
    }
}

/// A connection name the bar may show: non-empty, at most 512 bytes of UTF-8,
/// and free of control characters.
pub open spec fn valid_connection_name(name: &str) -> bool {
    &&& name@.len() > 0
    &&& name.len() <= 512
    &&& forall|i: int| 0 <= i < name@.len() ==> !is_control(#[trigger] name@[i])
}

/// Reject an empty, overlong, or control-character connection name.
pub fn validate_name(name: &str) -> (result: Result<(), NetworkManagerError>)
    ensures
        result is Ok <==> valid_connection_name(name),
{
    if name.is_empty() || name.len() > 512 || has_control(name) {
        return Err(NetworkManagerError(String::from_str("NetworkManager connection name is invalid")));
    }
    Ok(())
}

} // verus!
