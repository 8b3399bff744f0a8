//! What RDS says of a saved station is kept with its preset: at once where it
//! is known when the preset is saved, else later, while the station is heard.

use vstd::prelude::*;

use crate::presets;
use crate::preset_codec::PresetView;
use crate::si4703::rds;
use crate::si4703::rds::{RdsDecoder, RdsState};
use crate::state;
use crate::state::{is_ps_unknown, publish_presets, PresetSet, RadioState};
use crate::strings;
use crate::tasks::refresh::RadioControl;

verus! {

/// Quiet time after a tune, and between two looks for something new
/// (milliseconds).
pub const META_FILL_DEBOUNCE_MS: u64 = 30_000;

/// The programme identification, where it is known.
pub open spec fn known_pi(s: RdsState) -> Option<u16> {
    match s.pi {
        Some(x) => if x != 0 {
            Some(x)
        } else {
            None
        },
        None => None,
    }
}

/// The station name, where all of it has arrived and it is not blank.
pub open spec fn known_ps(s: RdsState) -> Option<Seq<u8>> {
    if rds::name_complete(s) && !state::name_unknown(s.ps) {
        Some(s.ps)
    } else {
        None
    }
}

/// What is known of the tuned station.
pub struct StationMeta {
    pub pi: Option<u16>,
    pub ps: Option<[u8; 8]>,
}

/// What is known of the tuned station.
pub fn station_meta(decoder: &RdsDecoder) -> (r: StationMeta)
    ensures
        r.pi == known_pi(decoder@),
        state::opt_name(r.ps) == known_ps(decoder@),
{
    let pi: Option<u16> = match decoder.pi() {
        Some(x) => {
            if x != 0 {
                Some(x)
            } else {
                None
            }
        },
        None => None,
    };
    let name: [u8; 8] = *decoder.station_name();
    let ps: Option<[u8; 8]> = if decoder.is_complete() && !is_ps_unknown(&name) {
        Some(name)
    } else {
        None
    };
    StationMeta { pi, ps }
}

/// Whether it is time to look for something new: the dial has been quiet long
/// enough and it is known that no update has the flash.
pub open spec fn fill_due(since: u64, ota_in_progress: Option<bool>, now: u64) -> bool {
    now - since >= META_FILL_DEBOUNCE_MS && ota_in_progress == Some(false)
}

/// Looks, when it is time, whether more is known of the station at `freq_x10`
/// than is stored with its preset. Returns the presets to store where it is.
pub fn fill_meta_if_due(
    ctl: &mut RadioControl,
    freq_x10: u16,
    ota_in_progress: Option<bool>,
    now_ms: u64,
) -> (r: Option<PresetSet>)
    requires
        old(ctl).store is Some,
    ensures
        ({
            let due = fill_due(old(ctl).meta_quiet_since, ota_in_progress, now_ms);
            let update = presets::meta_update(
                old(ctl).store->0@,
                freq_x10,
                known_pi(old(ctl).rds@),
                known_ps(old(ctl).rds@),
            );
            &&& *final(ctl) == (if due {
                RadioControl { meta_quiet_since: now_ms, ..*old(ctl) }
            } else {
                *old(ctl)
            })
            &&& match r {
                Some(set) => due && update == Some(set@),
                None => !due || update is None,
            }
        }),
{
    if now_ms.saturating_sub(ctl.meta_quiet_since) < META_FILL_DEBOUNCE_MS {
        return None;
    }
    match ota_in_progress {
        Some(false) => {},
        _ => {
            return None;
        },
    }
    ctl.meta_quiet_since = now_ms;
    let meta: StationMeta = station_meta(&ctl.rds);
    match &ctl.store {
        Some(store) => store.update_meta(freq_x10, meta.pi, meta.ps),
        None => None,
    }
}

/// The presets that [`fill_meta_if_due`] returned were written to flash, or
/// could not be. In the first case they are the presets in memory, and shown.
pub fn meta_filled(ctl: &mut RadioControl, state: &mut RadioState, set: PresetSet, written: bool)
    requires
        old(ctl).store is Some,
    ensures
        final(ctl).store is Some,
        final(ctl).store->0.offset() == old(ctl).store->0.offset(),
        *final(ctl) == (RadioControl { store: final(ctl).store, ..*old(ctl) }),
        if written {
            let idx = state::shown_slot(set@, old(state).freq_mhz_x10);
            &&& final(ctl).store->0@ == set@
            &&& *final(state) == (if old(state).presets@ == set@ && old(state).preset_idx == idx {
                *old(state)
            } else {
                RadioState { presets: set, preset_idx: idx, dirty: true, ..*old(state) }
            })
        } else {
            &&& final(ctl).store->0@ == old(ctl).store->0@
            &&& *final(state) == *old(state)
        },
{
    match ctl.store.take() {
        Some(mut store) => {
            let _ = store.save_set(set, written);
            ctl.store = Some(store);
        },
        None => {},
    }
    if written {
        let freq: u16 = state.freq_mhz_x10;
        publish_presets(state, set, freq);
    }
}

/// Once stored, the same knowledge is nothing new: a station that goes on
/// sending the same costs no further write.
pub proof fn law_stored_meta_is_settled(
    v: PresetView,
    freq: u16,
    pi: Option<u16>,
    ps: Option<Seq<u8>>,
)
    requires
        v.wf(),
        presets::meta_update(v, freq, pi, ps) is Some,
    ensures
        presets::meta_update(presets::meta_update(v, freq, pi, ps)->0, freq, pi, ps) is None,
{
    strings::lemma_find_from(v.freqs, freq, 0);
}

/// What is kept of a station is what it has sent: its identification unless that
/// is zero, and its name once all of it has arrived and something of it can be
/// seen.
pub proof fn law_only_what_was_sent_is_kept(s: RdsState)
    requires
        s.ps_seen.len() == 4,
    ensures
        s.pi is Some && s.pi->0 != 0 ==> known_pi(s) == s.pi,
        s.pi is None || s.pi->0 == 0 ==> known_pi(s) is None,
        known_ps(s) is Some ==> known_ps(s)->0 == s.ps,
        known_ps(s) is Some <==> s.ps_seen[0] && s.ps_seen[1] && s.ps_seen[2] && s.ps_seen[3]
            && exists|i: int| 0 <= i < s.ps.len() && #[trigger] s.ps[i] != 0 && s.ps[i] != 32,
{
    if s.ps_seen[0] && s.ps_seen[1] && s.ps_seen[2] && s.ps_seen[3] {
        assert(rds::name_complete(s));
    }
}

/// Something new is looked for once the dial has been quiet for half a minute
/// and no update has the flash.
pub proof fn law_something_new_is_looked_for_when_quiet(
    since: u64,
    update: Option<bool>,
    now: u64,
)
    ensures
        fill_due(since, update, now) <==> now >= since + 30_000 && update == Some(false),
{
}

} // verus!
