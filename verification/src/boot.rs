//! Decisions at boot: whether the network is to be forgotten, what its outcome
//! shows, and what is tuned first.

use vstd::prelude::*;

use crate::si4703::Station;
use crate::state;
use crate::state::{pick_strongest, RadioState, DEFAULT_FREQ_X10, LONG_PRESS_MS, PRESET_EMPTY};

verus! {

/// Whether the stored credentials are to be cleared, because the button has
/// been held for so long (milliseconds) while the start screen is shown.
pub fn forgets_network(held_ms: u64) -> (r: bool)
    ensures
        r == (held_ms >= LONG_PRESS_MS),
{
    held_ms >= LONG_PRESS_MS
}

/// Takes account of whether the network was joined, and of its name.
pub fn publish_wifi(state: &mut RadioState, joined: Option<&str>)
    ensures
        match joined {
            Some(ssid) => {
                &&& final(state).wifi_ssid@ == ssid@
                &&& final(state).status@ == "WiFi OK"@
                &&& *final(state) == (RadioState {
                    wifi_connected: true,
                    wifi_ssid: final(state).wifi_ssid,
                    status: final(state).status,
                    dirty: true,
                    ..*old(state)
                })
            },
            None => {
                &&& final(state).status@ == "WiFi failed"@
                &&& *final(state) == (RadioState {
                    wifi_connected: false,
                    status: final(state).status,
                    dirty: true,
                    ..*old(state)
                })
            },
        },
{
    match joined {
        Some(ssid) => {
            state.wifi_connected = true;
            state.wifi_ssid = ssid.to_owned();
            state.status = "WiFi OK".to_owned();
        },
        None => {
            state.wifi_connected = false;
            state.status = "WiFi failed".to_owned();
        },
    }
    state.dirty = true;
}

/// Whether the band has to be scanned to find something to tune to.
pub fn needs_scan(last_tuned: u16) -> (r: bool)
    ensures
        r == (last_tuned == PRESET_EMPTY),
{
    last_tuned == PRESET_EMPTY
}

/// What is tuned first: the frequency tuned last, else the strongest of the
/// stations that a scan found, else the default.
pub fn initial_frequency(last_tuned: u16, found: Option<&[Station]>) -> (r: u16)
    ensures
        if last_tuned != PRESET_EMPTY {
            r == last_tuned
        } else if found is Some && found->0@.len() > 0 {
            exists|k: int| #[trigger]
                state::is_strongest(found->0@, k) && found->0@[k].freq_mhz_x10 == r
        } else {
            r == DEFAULT_FREQ_X10
        },
{
    if last_tuned != PRESET_EMPTY {
        return last_tuned;
    }
    match found {
        Some(stations) => match pick_strongest(stations) {
            Some(freq) => freq,
            None => DEFAULT_FREQ_X10,
        },
        None => DEFAULT_FREQ_X10,
    }
}

} // verus!
