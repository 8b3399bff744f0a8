//! State that the tasks share, the commands between them, and the rules by
//! which the state changes.

use vstd::prelude::*;

use crate::preset_codec;
use crate::preset_codec::{PresetRecord, PresetView};
use crate::si4703::Station;
use crate::strings;
use crate::strings::{push_two_digits, str_eq};

verus! {

/// Frequency used where nothing better is known (0.1 MHz).
pub const DEFAULT_FREQ_X10: u16 = 875;

/// Tuning step (0.1 MHz).
pub const TUNE_STEP_X10: i16 = 1;

/// Holding the button this long saves a preset (milliseconds).
pub const LONG_PRESS_MS: u64 = 800;

/// Holding it this long toggles mute (milliseconds).
pub const ULTRA_LONG_PRESS_MS: u64 = 2_500;

/// Number of preset slots.
pub const MAX_PRESETS: usize = 8;

/// Marks an empty preset slot.
pub const PRESET_EMPTY: u16 = 0;

/// Quiet time before the last tuned frequency is stored (milliseconds).
pub const LAST_TUNED_DEBOUNCE_MS: u64 = 30_000;

/// Most stations remembered by the scan at boot.
pub const MAX_SCAN_STATIONS: usize = 20;

/// Number of buckets of a band sweep.
pub const SPECTRUM_LEN: usize = 52;

/// Shown while no station name is known.
pub const STATION_NAME_PLACEHOLDER: &'static str = "--------";

/// Commands for the radio.
#[derive(Clone, Copy, Debug, PartialEq, Eq, Structural)]
pub enum RadioCommand {
    /// Tune by so many 0.1 MHz.
    TuneRelative(i16),
    /// Tune to this frequency (0.1 MHz).
    TuneAbsolute(u16),
    ToggleMute,
    /// Save the current frequency as a preset.
    SavePreset,
    /// Go to the next preset, or seek upwards if there is none.
    CyclePreset,
    /// Sweep the band again.
    SpectrumScan,
}

// ---------------------------------------------------------------------------
// Presets
// ---------------------------------------------------------------------------

/// The saved presets.
#[derive(Clone, Copy, Debug, PartialEq, Eq)]
pub struct PresetSet {
    /// Frequencies (0.1 MHz); empty slots hold [`PRESET_EMPTY`].
    pub freqs: [u16; 8],
    /// Frequency tuned last, 0 where unknown.
    pub last_tuned: u16,
    /// Programme identifications, 0 where unknown.
    pub pi: [u16; 8],
    /// Station names, all zero where unknown.
    pub ps: [[u8; 8]; 8],
}

impl View for PresetSet {
    type V = PresetView;

    open spec fn view(&self) -> PresetView {
        PresetView {
            freqs: self.freqs@,
            last_tuned: self.last_tuned,
            pi: self.pi@,
            ps: preset_codec::names_view(self.ps),
        }
    }
}

/// Number of the first `n` slots that are in use.
pub open spec fn used_slots(freqs: Seq<u16>, n: int) -> nat
    decreases n,
{
    if n <= 0 {
        0
    } else if freqs[n - 1] != PRESET_EMPTY {
        used_slots(freqs, n - 1) + 1
    } else {
        used_slots(freqs, n - 1)
    }
}

/// The first slot that holds `freq`.
pub open spec fn slot_of(freqs: Seq<u16>, freq: u16) -> Option<usize> {
    let k = strings::find_from(freqs, freq, 0);
    if k < freqs.len() {
        Some(k as usize)
    } else {
        None
    }
}

/// A name that is not known.
pub open spec fn no_name() -> Seq<u8> {
    Seq::new(8, |j: int| 0u8)
}

/// The presets with a slot for `freq`, and that slot: the one that holds it
/// already, else the first empty one, else the last after the oldest preset
/// was dropped.
pub open spec fn with_slot(v: PresetView, freq: u16) -> (PresetView, int) {
    let at = strings::find_from(v.freqs, freq, 0);
    let free = strings::find_from(v.freqs, PRESET_EMPTY, 0);
    if at < 8 {
        (v, at)
    } else if free < 8 {
        (
            PresetView {
                freqs: v.freqs.update(free, freq),
                pi: v.pi.update(free, 0),
                ps: v.ps.update(free, no_name()),
                ..v
            },
            free,
        )
    } else {
        (
            PresetView {
                freqs: v.freqs.skip(1).push(freq),
                pi: v.pi.skip(1).push(0),
                ps: v.ps.skip(1).push(no_name()),
                ..v
            },
            7,
        )
    }
}

/// The presets with what is newly known of slot `i`.
pub open spec fn with_meta(v: PresetView, i: int, pi: Option<u16>, ps: Option<Seq<u8>>) -> PresetView {
    PresetView {
        pi: match pi {
            Some(x) => v.pi.update(i, x),
            None => v.pi,
        },
        ps: match ps {
            Some(x) => v.ps.update(i, x),
            None => v.ps,
        },
        ..v
    }
}

/// The first used slot at or after `start`, going round at most `left` slots.
pub open spec fn next_used(freqs: Seq<u16>, start: int, left: nat) -> Option<u16>
    decreases left,
{
    if left == 0 {
        None
    } else if freqs[start % 8] != PRESET_EMPTY {
        Some(freqs[start % 8])
    } else {
        next_used(freqs, start + 1, (left - 1) as nat)
    }
}

/// The preset that follows `current`, going round.
pub open spec fn preset_after(freqs: Seq<u16>, current: u16) -> Option<u16> {
    next_used(
        freqs,
        match slot_of(freqs, current) {
            Some(i) => i + 1,
            None => 0,
        },
        8,
    )
}

pub open spec fn opt_name(ps: Option<[u8; 8]>) -> Option<Seq<u8>> {
    match ps {
        Some(x) => Some(x@),
        None => None,
    }
}

impl PresetSet {
    /// No presets.
    pub fn empty() -> (r: PresetSet)
        ensures
            r@ == preset_codec::no_presets(),
            r@.wf(),
    {
        let r: PresetRecord = PresetRecord::empty();
        PresetSet { freqs: r.freqs, last_tuned: r.last_tuned, pi: r.pi, ps: r.ps }
    }

    /// How many slots are in use.
    pub fn used(&self) -> (r: usize)
        ensures
            r == used_slots(self.freqs@, 8),
            r <= 8,
    {
        let mut n: usize = 0;
        let mut i: usize = 0;
        while i < 8
            invariant
                0 <= i <= 8,
                n <= i,
                n == used_slots(self.freqs@, i as int),
            decreases 8 - i,
        {
            if self.freqs[i] != PRESET_EMPTY {
                n = n + 1;
            }
            i = i + 1;
        }
        n
    }

    /// The first slot that holds `freq_x10`.
    pub fn position(&self, freq_x10: u16) -> (r: Option<usize>)
        ensures
            r == slot_of(self.freqs@, freq_x10),
            r is Some ==> r->0 < 8,
    {
        let mut i: usize = 0;
        while i < 8
            invariant
                0 <= i <= 8,
                strings::find_from(self.freqs@, freq_x10, 0) == strings::find_from(
                    self.freqs@,
                    freq_x10,
                    i as int,
                ),
            decreases 8 - i,
        {
            if self.freqs[i] == freq_x10 {
                return Some(i);
            }
            i = i + 1;
        }
        None
    }

    /// Saves a frequency and returns its slot.
    pub fn save(&mut self, freq_x10: u16) -> (r: usize)
        ensures
            final(self)@ == with_slot(old(self)@, freq_x10).0,
            r == with_slot(old(self)@, freq_x10).1,
            r < 8,
    {
        proof {
            strings::lemma_find_from(self.freqs@, freq_x10, 0);
            strings::lemma_find_from(self.freqs@, PRESET_EMPTY, 0);
        }
        if let Some(idx) = self.position(freq_x10) {
            return idx;
        }
        let blank: [u8; 8] = [0u8; 8];
        assert(blank@ =~= no_name());
        if let Some(idx) = self.position(PRESET_EMPTY) {
            self.freqs[idx] = freq_x10;
            self.pi[idx] = 0;
            self.ps[idx] = blank;
            assert(preset_codec::names_view(self.ps) =~= old(self)@.ps.update(
                idx as int,
                no_name(),
            ));
            return idx;
        }
        let mut i: usize = 0;
        while i < 7
            invariant
                0 <= i <= 7,
                self.last_tuned == old(self).last_tuned,
                forall|j: int|
                    0 <= j < 8 ==> #[trigger] self.freqs@[j] == (if j < i {
                        old(self).freqs@[j + 1]
                    } else {
                        old(self).freqs@[j]
                    }),
                forall|j: int|
                    0 <= j < 8 ==> #[trigger] self.pi@[j] == (if j < i {
                        old(self).pi@[j + 1]
                    } else {
                        old(self).pi@[j]
                    }),
                forall|j: int|
                    0 <= j < 8 ==> #[trigger] self.ps@[j] == (if j < i {
                        old(self).ps@[j + 1]
                    } else {
                        old(self).ps@[j]
                    }),
            decreases 7 - i,
        {
            self.freqs[i] = self.freqs[i + 1];
            self.pi[i] = self.pi[i + 1];
            self.ps[i] = self.ps[i + 1];
            i = i + 1;
        }
        self.freqs[7] = freq_x10;
        self.pi[7] = 0;
        self.ps[7] = blank;
        assert(self.freqs@ =~= old(self)@.freqs.skip(1).push(freq_x10));
        assert(self.pi@ =~= old(self)@.pi.skip(1).push(0));
        assert(preset_codec::names_view(self.ps) =~= old(self)@.ps.skip(1).push(no_name()));
        7
    }

    /// Records what is newly known of a slot's station.
    pub fn set_meta(&mut self, idx: usize, pi: Option<u16>, ps: Option<[u8; 8]>)
        requires
            idx < 8,
        ensures
            final(self)@ == with_meta(old(self)@, idx as int, pi, opt_name(ps)),
    {
        if let Some(x) = pi {
            self.pi[idx] = x;
        }
        if let Some(x) = ps {
            self.ps[idx] = x;
            assert(preset_codec::names_view(self.ps) =~= old(self)@.ps.update(idx as int, x@));
        }
    }

    /// Saves a frequency together with what is known of its station.
    pub fn save_with_meta(&mut self, freq_x10: u16, pi: Option<u16>, ps: Option<[u8; 8]>) -> (r:
        usize)
        ensures
            r == with_slot(old(self)@, freq_x10).1,
            r < 8,
            final(self)@ == with_meta(
                with_slot(old(self)@, freq_x10).0,
                r as int,
                pi,
                opt_name(ps),
            ),
    {
        let idx: usize = self.save(freq_x10);
        self.set_meta(idx, pi, ps);
        idx
    }

    /// The preset that follows `current`, going round; `None` without presets.
    pub fn next_after(&self, current: u16) -> (r: Option<u16>)
        ensures
            r == preset_after(self.freqs@, current),
    {
        let start: usize = match self.position(current) {
            Some(i) => i + 1,
            None => 0,
        };
        assert(preset_after(self.freqs@, current) == next_used(self.freqs@, start as int, 8));
        let mut k: usize = 0;
        while k < 8
            invariant
                0 <= k <= 8,
                start <= 8,
                preset_after(self.freqs@, current) == next_used(self.freqs@, start as int, 8),
                next_used(self.freqs@, start as int, 8) == next_used(
                    self.freqs@,
                    start + k,
                    (8 - k) as nat,
                ),
            decreases 8 - k,
        {
            let f: u16 = self.freqs[(start + k) % 8];
            if f != PRESET_EMPTY {
                return Some(f);
            }
            k = k + 1;
        }
        None
    }

    /// Whether both hold the same presets.
    pub fn same(&self, other: &PresetSet) -> (r: bool)
        ensures
            r == (self@ == other@),
    {
        let mut i: usize = 0;
        while i < 8
            invariant
                0 <= i <= 8,
                forall|j: int| 0 <= j < i ==> #[trigger] self.freqs@[j] == other.freqs@[j],
                forall|j: int| 0 <= j < i ==> #[trigger] self.pi@[j] == other.pi@[j],
                forall|j: int| 0 <= j < i ==> (#[trigger] self.ps@[j])@ == other.ps@[j]@,
            decreases 8 - i,
        {
            if self.freqs[i] != other.freqs[i] {
                assert(self@.freqs[i as int] != other@.freqs[i as int]);
                return false;
            }
            if self.pi[i] != other.pi[i] {
                assert(self@.pi[i as int] != other@.pi[i as int]);
                return false;
            }
            if !names_equal(&self.ps[i], &other.ps[i]) {
                assert(self@.ps[i as int] != other@.ps[i as int]);
                return false;
            }
            i = i + 1;
        }
        assert(self@.freqs =~= other@.freqs);
        assert(self@.pi =~= other@.pi);
        assert(self@.ps =~= other@.ps);
        self.last_tuned == other.last_tuned
    }
}

/// Whether two station names are the same.
pub fn names_equal(a: &[u8; 8], b: &[u8; 8]) -> (r: bool)
    ensures
        r == (a@ == b@),
{
    let mut i: usize = 0;
    while i < 8
        invariant
            0 <= i <= 8,
            forall|j: int| 0 <= j < i ==> #[trigger] a@[j] == b@[j],
        decreases 8 - i,
    {
        if a[i] != b[i] {
            assert(a@[i as int] != b@[i as int]);
            return false;
        }
        i = i + 1;
    }
    assert(a@ =~= b@);
    true
}

/// Whether a station name is unknown: nothing but zeros and blanks.
pub open spec fn name_unknown(s: Seq<u8>) -> bool {
    forall|i: int| 0 <= i < s.len() ==> #[trigger] s[i] == 0 || s[i] == 32
}

/// Whether a station name is unknown.
pub fn is_ps_unknown(buf: &[u8; 8]) -> (r: bool)
    ensures
        r == name_unknown(buf@),
{
    let mut i: usize = 0;
    while i < 8
        invariant
            0 <= i <= 8,
            forall|j: int| 0 <= j < i ==> #[trigger] buf@[j] == 0 || buf@[j] == 32,
        decreases 8 - i,
    {
        if buf[i] != 0 && buf[i] != 32 {
            assert(!(buf@[i as int] == 0 || buf@[i as int] == 32));
            return false;
        }
        i = i + 1;
    }
    true
}

impl Default for PresetSet {
    fn default() -> (r: Self)
        ensures
            r@ == preset_codec::no_presets(),
    {
        PresetSet::empty()
    }
}

/// A saved frequency is found where it was saved, and saving it again changes
/// nothing.
pub proof fn law_saved_preset_is_found(v: PresetView, freq: u16)
    requires
        v.wf(),
        freq != PRESET_EMPTY,
    ensures
        ({
            let (t, i) = with_slot(v, freq);
            &&& t.wf()
            &&& slot_of(t.freqs, freq) == Some(i as usize)
            &&& with_slot(t, freq) == (t, i)
        }),
{
    let (t, i) = with_slot(v, freq);
    strings::lemma_find_from(v.freqs, freq, 0);
    strings::lemma_find_from(v.freqs, PRESET_EMPTY, 0);
    strings::lemma_find_from(t.freqs, freq, 0);
    assert(t.freqs[i] == freq);
}

/// Saving drops a preset only where all slots are in use, and then the oldest:
/// all others stay, in their order.
pub proof fn law_save_drops_only_the_oldest(v: PresetView, freq: u16)
    requires
        v.wf(),
        slot_of(v.freqs, freq) is None,
    ensures
        ({
            let t = with_slot(v, freq).0;
            if slot_of(v.freqs, PRESET_EMPTY) is Some {
                forall|i: int|
                    0 <= i < 8 && v.freqs[i] != PRESET_EMPTY ==> #[trigger] t.freqs[i] == v.freqs[i]
            } else {
                forall|i: int| 0 <= i < 7 ==> #[trigger] t.freqs[i] == v.freqs[i + 1]
            }
        }),
        with_slot(v, freq).0.last_tuned == v.last_tuned,
{
    strings::lemma_find_from(v.freqs, freq, 0);
    strings::lemma_find_from(v.freqs, PRESET_EMPTY, 0);
}

/// There is a next preset exactly where any slot is in use, and it is one of
/// the saved frequencies.
pub proof fn law_next_preset_is_saved(freqs: Seq<u16>, current: u16)
    requires
        freqs.len() == 8,
    ensures
        preset_after(freqs, current) is Some <==> exists|i: int|
            0 <= i < 8 && #[trigger] freqs[i] != PRESET_EMPTY,
        preset_after(freqs, current) is Some ==> freqs.contains(preset_after(freqs, current)->0)
            && preset_after(freqs, current)->0 != PRESET_EMPTY,
{
    strings::lemma_find_from(freqs, current, 0);
    let start = match slot_of(freqs, current) {
        Some(i) => i + 1,
        None => 0,
    };
    lemma_next_used(freqs, start, 8);
    if exists|i: int| 0 <= i < 8 && #[trigger] freqs[i] != PRESET_EMPTY {
        let i = choose|i: int| 0 <= i < 8 && #[trigger] freqs[i] != PRESET_EMPTY;
        let k = (i - start) % 8;
        assert((start + k) % 8 == i);
    }
}

/// The preset that is reached from `start` by going on `n` times.
pub open spec fn preset_steps(freqs: Seq<u16>, start: u16, n: int) -> u16
    decreases n,
{
    if n <= 0 {
        start
    } else {
        let f = preset_steps(freqs, start, n - 1);
        match preset_after(freqs, f) {
            Some(g) => g,
            None => f,
        }
    }
}

/// Whether no frequency is saved twice.
pub open spec fn presets_distinct(freqs: Seq<u16>) -> bool {
    forall|i: int, j: int|
        0 <= i < j < freqs.len() && #[trigger] freqs[i] != PRESET_EMPTY ==> freqs[i]
            != #[trigger] freqs[j]
}

/// Going on from a saved preset, as often as there are presets, visits each of
/// them once and comes back.
pub proof fn law_presets_are_cycled(freqs: Seq<u16>, i: int)
    requires
        freqs.len() == 8,
        presets_distinct(freqs),
        0 <= i < 8,
        freqs[i] != PRESET_EMPTY,
    ensures
        preset_steps(freqs, freqs[i], used_slots(freqs, 8) as int) == freqs[i],
        forall|j: int|
            0 <= j < 8 && #[trigger] freqs[j] != PRESET_EMPTY ==> exists|n: int|
                0 <= n < used_slots(freqs, 8) && #[trigger] preset_steps(freqs, freqs[i], n)
                    == freqs[j],
        forall|m: int, n: int|
            0 <= m < n < used_slots(freqs, 8) ==> #[trigger] preset_steps(freqs, freqs[i], m)
                != #[trigger] preset_steps(freqs, freqs[i], n),
{
    let k = used_slots(freqs, 8) as int;
    let a = used_slots(freqs, i) as int;
    lemma_used_between(freqs, i + 1, 8);
    let back = lemma_steps(freqs, i, k);
    lemma_same_rank(freqs, i, back);
    assert forall|j: int| 0 <= j < 8 && #[trigger] freqs[j] != PRESET_EMPTY implies exists|n: int|
        0 <= n < k && #[trigger] preset_steps(freqs, freqs[i], n) == freqs[j] by {
        let b = used_slots(freqs, j) as int;
        lemma_used_between(freqs, j + 1, 8);
        let n = if b >= a {
            b - a
        } else {
            b - a + k
        };
        let s = lemma_steps(freqs, i, n);
        lemma_same_rank(freqs, j, s);
    }
    assert forall|m: int, n: int| 0 <= m < n < k implies #[trigger] preset_steps(
        freqs,
        freqs[i],
        m,
    ) != #[trigger] preset_steps(freqs, freqs[i], n) by {
        let s = lemma_steps(freqs, i, m);
        let t = lemma_steps(freqs, i, n);
        assert(s != t);
        if s < t {
            assert(freqs[s] != freqs[t]);
        } else {
            assert(freqs[t] != freqs[s]);
        }
    }
}

/// The slot that is reached from slot `i` after `n` steps: its number among the
/// used ones has grown by `n`, going round.
proof fn lemma_steps(freqs: Seq<u16>, i: int, n: int) -> (s: int)
    requires
        freqs.len() == 8,
        presets_distinct(freqs),
        0 <= i < 8,
        freqs[i] != PRESET_EMPTY,
        0 <= n <= used_slots(freqs, 8),
    ensures
        0 <= s < 8,
        freqs[s] != PRESET_EMPTY,
        freqs[s] == preset_steps(freqs, freqs[i], n),
        used_slots(freqs, s) == (if used_slots(freqs, i) + n < used_slots(freqs, 8) {
            used_slots(freqs, i) + n
        } else {
            used_slots(freqs, i) + n - used_slots(freqs, 8)
        }),
    decreases n,
{
    lemma_used_between(freqs, i + 1, 8);
    if n == 0 {
        i
    } else {
        let t = lemma_steps(freqs, i, n - 1);
        lemma_step(freqs, t)
    }
}

/// The slot that follows slot `t`.
proof fn lemma_step(freqs: Seq<u16>, t: int) -> (s: int)
    requires
        freqs.len() == 8,
        presets_distinct(freqs),
        0 <= t < 8,
        freqs[t] != PRESET_EMPTY,
    ensures
        0 <= s < 8,
        freqs[s] != PRESET_EMPTY,
        preset_after(freqs, freqs[t]) == Some(freqs[s]),
        used_slots(freqs, s) == (if used_slots(freqs, t) + 1 < used_slots(freqs, 8) {
            used_slots(freqs, t) + 1
        } else {
            0
        }),
{
    strings::lemma_find_from(freqs, freqs[t], 0);
    let at = strings::find_from(freqs, freqs[t], 0);
    assert(at == t) by {
        if at < t {
            assert(freqs[at] == freqs[t]);
        }
    }
    let d = lemma_first_used(freqs, t + 1, 8, 7);
    let s = (t + 1 + d) % 8;
    lemma_used_between(freqs, s + 1, 8);
    lemma_used_between(freqs, t + 1, 8);
    if t + 1 + d < 8 {
        assert forall|x: int| t + 1 <= x < s implies #[trigger] freqs[x] == PRESET_EMPTY by {
            assert((t + 1 + (x - t - 1)) % 8 == x);
        }
        lemma_used_between(freqs, t + 1, s);
    } else {
        assert forall|x: int| t + 1 <= x < 8 implies #[trigger] freqs[x] == PRESET_EMPTY by {
            assert((t + 1 + (x - t - 1)) % 8 == x);
        }
        assert forall|x: int| 0 <= x < s implies #[trigger] freqs[x] == PRESET_EMPTY by {
            assert((t + 1 + (x + 8 - t - 1)) % 8 == x);
        }
        lemma_used_between(freqs, 0, s);
    }
    s
}

/// How far from `start` the first used slot is, where slot `start + known` is
/// used.
proof fn lemma_first_used(freqs: Seq<u16>, start: int, left: nat, known: int) -> (d: int)
    requires
        freqs.len() == 8,
        start >= 0,
        0 <= known < left,
        freqs[(start + known) % 8] != PRESET_EMPTY,
    ensures
        0 <= d <= known,
        freqs[(start + d) % 8] != PRESET_EMPTY,
        next_used(freqs, start, left) == Some(freqs[(start + d) % 8]),
        forall|k: int| 0 <= k < d ==> freqs[#[trigger] ((start + k) % 8)] == PRESET_EMPTY,
    decreases left,
{
    if freqs[start % 8] != PRESET_EMPTY {
        0
    } else {
        let d = 1 + lemma_first_used(freqs, start + 1, (left - 1) as nat, known - 1);
        assert forall|k: int| 0 <= k < d implies freqs[#[trigger] ((start + k) % 8)]
            == PRESET_EMPTY by {
            if k > 0 {
                assert((start + 1 + (k - 1)) % 8 == (start + k) % 8);
            }
        }
        d
    }
}

/// Used slots are counted upwards, and empty ones do not count.
proof fn lemma_used_between(freqs: Seq<u16>, a: int, b: int)
    requires
        0 <= a <= b <= freqs.len(),
    ensures
        used_slots(freqs, a) <= used_slots(freqs, b),
        (forall|x: int| a <= x < b ==> #[trigger] freqs[x] == PRESET_EMPTY) ==> used_slots(freqs, a)
            == used_slots(freqs, b),
    decreases b - a,
{
    if a < b {
        lemma_used_between(freqs, a, b - 1);
    }
}

/// No two used slots have as many used ones before them.
proof fn lemma_same_rank(freqs: Seq<u16>, s: int, t: int)
    requires
        freqs.len() == 8,
        0 <= s < 8,
        0 <= t < 8,
        freqs[s] != PRESET_EMPTY,
        freqs[t] != PRESET_EMPTY,
        used_slots(freqs, s) == used_slots(freqs, t),
    ensures
        s == t,
{
    if s < t {
        lemma_used_between(freqs, s + 1, t);
    } else if t < s {
        lemma_used_between(freqs, t + 1, s);
    }
}

proof fn lemma_next_used(freqs: Seq<u16>, start: int, left: nat)
    requires
        freqs.len() == 8,
        start >= 0,
    ensures
        next_used(freqs, start, left) is None <==> forall|k: int|
            0 <= k < left ==> freqs[#[trigger] ((start + k) % 8)] == PRESET_EMPTY,
        next_used(freqs, start, left) is Some ==> freqs.contains(next_used(freqs, start, left)->0)
            && next_used(freqs, start, left)->0 != PRESET_EMPTY,
    decreases left,
{
    if left > 0 {
        if freqs[start % 8] != PRESET_EMPTY {
            assert((start + 0) % 8 == start % 8);
        } else {
            let m = (left - 1) as nat;
            lemma_next_used(freqs, start + 1, m);
            assert forall|k: int| 0 <= k < m implies #[trigger] ((start + 1 + k) % 8) == (start + (k
                + 1)) % 8 by {}
            if next_used(freqs, start + 1, m) is None {
                assert forall|k: int| 0 <= k < left implies freqs[#[trigger] ((start + k) % 8)]
                    == PRESET_EMPTY by {
                    if k > 0 {
                        assert((start + 1 + (k - 1)) % 8 == (start + k) % 8);
                    }
                }
            } else if forall|k: int|
                0 <= k < left ==> freqs[#[trigger] ((start + k) % 8)] == PRESET_EMPTY {
                assert forall|k: int| 0 <= k < m implies freqs[#[trigger] ((start + 1 + k) % 8)]
                    == PRESET_EMPTY by {
                    assert((start + (k + 1)) % 8 == (start + 1 + k) % 8);
                }
            }
        }
    }
}

// ---------------------------------------------------------------------------
// Update progress
// ---------------------------------------------------------------------------

/// Why an update was given up.
#[derive(Clone, Copy, Debug, PartialEq, Eq, Structural)]
pub enum FailReason {
    Offline,
    Init,
    BadUrl,
    Connect,
    Io,
    HttpStatus,
    Headers,
    Truncated,
    BadImage,
    TooLarge,
    Size,
    NoSlot,
    Flash,
    Partition,
    Activate,
}

impl FailReason {
    pub open spec fn text(self) -> Seq<char> {
        match self {
            FailReason::Offline => "offline"@,
            FailReason::Init => "init"@,
            FailReason::BadUrl => "bad url"@,
            FailReason::Connect => "connect"@,
            FailReason::Io => "io"@,
            FailReason::HttpStatus => "http status"@,
            FailReason::Headers => "headers"@,
            FailReason::Truncated => "truncated"@,
            FailReason::BadImage => "bad image"@,
            FailReason::TooLarge => "too large"@,
            FailReason::Size => "size"@,
            FailReason::NoSlot => "no slot"@,
            FailReason::Flash => "flash"@,
            FailReason::Partition => "partition"@,
            FailReason::Activate => "activate"@,
        }
    }

    /// The reason in a word or two.
    pub fn as_text(self) -> (r: &'static str)
        ensures
            r@ == self.text(),
    {
        match self {
            FailReason::Offline => "offline",
            FailReason::Init => "init",
            FailReason::BadUrl => "bad url",
            FailReason::Connect => "connect",
            FailReason::Io => "io",
            FailReason::HttpStatus => "http status",
            FailReason::Headers => "headers",
            FailReason::Truncated => "truncated",
            FailReason::BadImage => "bad image",
            FailReason::TooLarge => "too large",
            FailReason::Size => "size",
            FailReason::NoSlot => "no slot",
            FailReason::Flash => "flash",
            FailReason::Partition => "partition",
            FailReason::Activate => "activate",
        }
    }
}

/// Where an update stands.
#[derive(Clone, Copy, Debug, PartialEq, Eq, Structural)]
pub enum OtaProgress {
    Idle,
    Connecting,
    /// `total` is 0 where the server did not say.
    Downloading { received: u32, total: u32 },
    Activating,
    /// Staged; a reboot starts it.
    Success,
    /// Given up; the running firmware is unchanged.
    Failed(FailReason),
}

/// Commands for the update controller.
#[derive(Clone, Debug)]
pub enum OtaCommand {
    /// Fetch and stage the image at this URL.
    Start(String),
}

// ---------------------------------------------------------------------------
// Shared state
// ---------------------------------------------------------------------------

/// What the radio is doing, as shown on the display and in the web console.
pub struct RadioState {
    pub freq_mhz_x10: u16,
    pub rssi: u8,
    pub volume: u8,
    pub muted: bool,
    pub stereo: bool,
    /// Whether mono is forced because the signal is weak.
    pub auto_mono: bool,
    pub station_name: String,
    pub radio_text: String,
    pub rt_plus_title: Option<String>,
    pub rt_plus_artist: Option<String>,
    /// Local hour and minute.
    pub clock_hh_mm: Option<(u8, u8)>,
    pub pty_label: Option<&'static str>,
    pub af_count: u8,
    /// Whether alternative frequencies are being probed.
    pub af_following: bool,
    pub wifi_connected: bool,
    pub wifi_ssid: String,
    pub status: String,
    /// Signal strength of each bucket of the band.
    pub spectrum: [u8; 52],
    pub presets: PresetSet,
    /// Slot of the tuned preset.
    pub preset_idx: Option<u8>,
    /// Address of the web console.
    pub web_ip: Option<[u8; 4]>,
    pub ota_in_progress: bool,
    pub ota_progress: OtaProgress,
    /// Whether anything has changed since the display was drawn.
    pub dirty: bool,
}

/// The text behind an optional label.
pub open spec fn opt_label(o: Option<&'static str>) -> Option<Seq<char>> {
    match o {
        Some(s) => Some(s@),
        None => None,
    }
}

/// The text behind an optional string.
pub open spec fn opt_text(o: Option<String>) -> Option<Seq<char>> {
    match o {
        Some(s) => Some(s@),
        None => None,
    }
}

/// Slot of `freq` as it is shown.
pub open spec fn shown_slot(v: PresetView, freq: u16) -> Option<u8> {
    match slot_of(v.freqs, freq) {
        Some(i) => Some(i as u8),
        None => None,
    }
}

impl RadioState {
    /// The state at power-up.
    pub fn boot() -> (r: RadioState)
        ensures
            r.freq_mhz_x10 == DEFAULT_FREQ_X10,
            r.rssi == 0,
            r.volume == 8,
            !r.muted && !r.stereo && !r.auto_mono,
            r.station_name@ == Seq::<char>::empty(),
            r.radio_text@ == Seq::<char>::empty(),
            r.rt_plus_title is None,
            r.rt_plus_artist is None,
            r.clock_hh_mm is None,
            r.pty_label is None,
            r.af_count == 0,
            !r.af_following && !r.wifi_connected,
            r.wifi_ssid@ == Seq::<char>::empty(),
            r.status@ == "Booting..."@,
            r.spectrum@ == Seq::new(52, |i: int| 0u8),
            r.presets@ == preset_codec::no_presets(),
            r.preset_idx is None,
            r.web_ip is None,
            !r.ota_in_progress,
            r.ota_progress == OtaProgress::Idle,
            r.dirty,
    {
        let spectrum: [u8; 52] = [0u8; 52];
        assert(spectrum@ =~= Seq::new(52, |i: int| 0u8));
        RadioState {
            freq_mhz_x10: DEFAULT_FREQ_X10,
            rssi: 0,
            volume: 8,
            muted: false,
            stereo: false,
            auto_mono: false,
            station_name: String::new(),
            radio_text: String::new(),
            rt_plus_title: None,
            rt_plus_artist: None,
            clock_hh_mm: None,
            pty_label: None,
            af_count: 0,
            af_following: false,
            wifi_connected: false,
            wifi_ssid: String::new(),
            status: "Booting...".to_owned(),
            spectrum,
            presets: PresetSet::empty(),
            preset_idx: None,
            web_ip: None,
            ota_in_progress: false,
            ota_progress: OtaProgress::Idle,
            dirty: true,
        }
    }
}

/// A clock reading as it is shown, such as `09:05`; nothing where the time is
/// not known.
pub open spec fn clock_shown(hh_mm: Option<(u8, u8)>) -> Seq<char> {
    match hh_mm {
        Some(t) => strings::two_digits(t.0 as nat) + seq![':'] + strings::two_digits(t.1 as nat),
        None => Seq::empty(),
    }
}

/// A clock reading as it is shown.
pub fn clock_text(hh_mm: Option<(u8, u8)>) -> (r: String)
    ensures
        r@ == clock_shown(hh_mm),
{
    let mut s: String = String::new();
    if let Some(t) = hh_mm {
        push_two_digits(&mut s, t.0);
        s.push(':');
        push_two_digits(&mut s, t.1);
        assert(s@ =~= clock_shown(hh_mm));
    }
    s
}

/// Sets the tuned frequency.
pub fn publish_freq(state: &mut RadioState, freq_mhz_x10: u16)
    ensures
        *final(state) == (RadioState { freq_mhz_x10, dirty: true, ..*old(state) }),
{
    state.freq_mhz_x10 = freq_mhz_x10;
    state.dirty = true;
}

/// Sets the band sweep.
pub fn publish_spectrum(state: &mut RadioState, spectrum: &[u8; 52])
    ensures
        *final(state) == (RadioState { spectrum: *spectrum, dirty: true, ..*old(state) }),
{
    state.spectrum = *spectrum;
    state.dirty = true;
}

/// Sets the station name.
pub fn publish_station_name(state: &mut RadioState, name: String)
    ensures
        *final(state) == (RadioState { station_name: name, dirty: true, ..*old(state) }),
{
    state.station_name = name;
    state.dirty = true;
}

/// Sets the RadioText message.
pub fn publish_radio_text(state: &mut RadioState, text: String)
    ensures
        *final(state) == (RadioState { radio_text: text, dirty: true, ..*old(state) }),
{
    state.radio_text = text;
    state.dirty = true;
}

/// Sets title and artist of the running song.
pub fn publish_rt_plus(state: &mut RadioState, title: Option<String>, artist: Option<String>)
    ensures
        *final(state) == (RadioState {
            rt_plus_title: title,
            rt_plus_artist: artist,
            dirty: true,
            ..*old(state)
        }),
{
    state.rt_plus_title = title;
    state.rt_plus_artist = artist;
    state.dirty = true;
}

/// Sets the clock; the display is redrawn only if it changed.
pub fn publish_clock(state: &mut RadioState, hh_mm: Option<(u8, u8)>)
    ensures
        *final(state) == (if old(state).clock_hh_mm == hh_mm {
            *old(state)
        } else {
            RadioState { clock_hh_mm: hh_mm, dirty: true, ..*old(state) }
        }),
{
    let same: bool = match (state.clock_hh_mm, hh_mm) {
        (Some(a), Some(b)) => a.0 == b.0 && a.1 == b.1,
        (None, None) => true,
        _ => false,
    };
    if !same {
        state.clock_hh_mm = hh_mm;
        state.dirty = true;
    }
}

/// Whether two optional labels read the same.
pub fn labels_equal(a: Option<&'static str>, b: Option<&'static str>) -> (r: bool)
    ensures
        r == (opt_label(a) == opt_label(b)),
{
    match (a, b) {
        (Some(x), Some(y)) => str_eq(x, y),
        (None, None) => true,
        _ => false,
    }
}

/// Sets the programme type; the display is redrawn only if it changed.
pub fn publish_pty(state: &mut RadioState, label: Option<&'static str>)
    ensures
        *final(state) == (if opt_label(old(state).pty_label) == opt_label(label) {
            *old(state)
        } else {
            RadioState { pty_label: label, dirty: true, ..*old(state) }
        }),
{
    if !labels_equal(state.pty_label, label) {
        state.pty_label = label;
        state.dirty = true;
    }
}

/// Sets the number of alternative frequencies and whether they are being
/// probed; the display is redrawn only on a change.
pub fn publish_af_status(state: &mut RadioState, af_count: u8, af_following: bool)
    ensures
        *final(state) == (if old(state).af_count == af_count && old(state).af_following
            == af_following {
            *old(state)
        } else {
            RadioState { af_count, af_following, dirty: true, ..*old(state) }
        }),
{
    if state.af_count != af_count || state.af_following != af_following {
        state.af_count = af_count;
        state.af_following = af_following;
        state.dirty = true;
    }
}

fn ips_equal(a: &[u8; 4], b: &[u8; 4]) -> (r: bool)
    ensures
        r == (a@ == b@),
{
    let r: bool = a[0] == b[0] && a[1] == b[1] && a[2] == b[2] && a[3] == b[3];
    assert(r ==> a@ =~= b@);
    r
}

/// The octets behind an optional address.
pub open spec fn opt_ip(ip: Option<[u8; 4]>) -> Option<Seq<u8>> {
    match ip {
        Some(a) => Some(a@),
        None => None,
    }
}

/// Sets the address of the web console; the display is redrawn only on a
/// change.
pub fn publish_web_ip(state: &mut RadioState, ip: Option<[u8; 4]>)
    ensures
        *final(state) == (if opt_ip(old(state).web_ip) == opt_ip(ip) {
            *old(state)
        } else {
            RadioState { web_ip: ip, dirty: true, ..*old(state) }
        }),
{
    let same: bool = match (&state.web_ip, &ip) {
        (Some(a), Some(b)) => ips_equal(a, b),
        (None, None) => true,
        _ => false,
    };
    if !same {
        state.web_ip = ip;
        state.dirty = true;
    }
}

/// Says whether an update is under way.
pub fn publish_ota_in_progress(state: &mut RadioState, in_progress: bool)
    ensures
        *final(state) == (if old(state).ota_in_progress == in_progress {
            *old(state)
        } else {
            RadioState { ota_in_progress: in_progress, dirty: true, ..*old(state) }
        }),
{
    if state.ota_in_progress != in_progress {
        state.ota_in_progress = in_progress;
        state.dirty = true;
    }
}

/// Sets where an update stands; the display is redrawn only on a change.
pub fn publish_ota_progress(state: &mut RadioState, progress: OtaProgress)
    ensures
        *final(state) == (if old(state).ota_progress == progress {
            *old(state)
        } else {
            RadioState { ota_progress: progress, dirty: true, ..*old(state) }
        }),
{
    if state.ota_progress != progress {
        state.ota_progress = progress;
        state.dirty = true;
    }
}

/// Sets the status line.
pub fn set_status(state: &mut RadioState, status: &str)
    ensures
        final(state).status@ == status@,
        *final(state) == (RadioState {
            status: final(state).status,
            dirty: true,
            ..*old(state)
        }),
{
    state.status = status.to_owned();
    state.dirty = true;
}

/// Whether two slots are the same.
pub fn slots_equal(a: Option<u8>, b: Option<u8>) -> (r: bool)
    ensures
        r == (a == b),
{
    match (a, b) {
        (Some(x), Some(y)) => x == y,
        (None, None) => true,
        _ => false,
    }
}

/// Sets the presets, and which of them is tuned; the display is redrawn only on
/// a change.
pub fn publish_presets(state: &mut RadioState, presets: PresetSet, current_freq_x10: u16)
    ensures
        ({
            let idx = shown_slot(presets@, current_freq_x10);
            *final(state) == (if old(state).presets@ == presets@ && old(state).preset_idx == idx {
                *old(state)
            } else {
                RadioState { presets, preset_idx: idx, dirty: true, ..*old(state) }
            })
        }),
{
    let idx: Option<u8> = match presets.position(current_freq_x10) {
        Some(i) => Some(i as u8),
        None => None,
    };
    if !state.presets.same(&presets) || !slots_equal(state.preset_idx, idx) {
        state.presets = presets;
        state.preset_idx = idx;
        state.dirty = true;
    }
}

/// Whether station `k` has the strongest signal, and is the last of those that
/// are equally strong.
pub open spec fn is_strongest(stations: Seq<Station>, k: int) -> bool {
    &&& 0 <= k < stations.len()
    &&& forall|j: int| 0 <= j < stations.len() ==> #[trigger] stations[j].rssi <= stations[k].rssi
    &&& forall|j: int| k < j < stations.len() ==> #[trigger] stations[j].rssi < stations[k].rssi
}

/// The frequency of the station with the strongest signal, the last of them
/// where several are equally strong.
pub fn pick_strongest(stations: &[Station]) -> (r: Option<u16>)
    ensures
        match r {
            None => stations@.len() == 0,
            Some(freq) => exists|k: int| #[trigger]
                is_strongest(stations@, k) && stations@[k].freq_mhz_x10 == freq,
        },
{
    if stations.len() == 0 {
        return None;
    }
    let mut best: usize = 0;
    let mut i: usize = 1;
    while i < stations.len()
        invariant
            1 <= i <= stations@.len(),
            best < i,
            forall|j: int| 0 <= j < i ==> #[trigger] stations@[j].rssi <= stations@[best as int].rssi,
            forall|j: int|
                best < j < i ==> #[trigger] stations@[j].rssi < stations@[best as int].rssi,
        decreases stations@.len() - i,
    {
        if stations[i].rssi >= stations[best].rssi {
            best = i;
        }
        i = i + 1;
    }
    assert(is_strongest(stations@, best as int));
    Some(stations[best].freq_mhz_x10)
}

/// The frequency of the band from 87.5 to 108.0 MHz that is nearest to `freq`.
pub open spec fn clamped(freq: int) -> u16 {
    if freq < 875 {
        875
    } else if freq > 1080 {
        1080
    } else {
        freq as u16
    }
}

/// Brings a frequency into the band.
pub fn clamp_freq(freq: i32) -> (r: u16)
    ensures
        r == clamped(freq as int),
        875 <= r <= 1080,
{
    if freq < 875 {
        875
    } else if freq > 1080 {
        1080
    } else {
        freq as u16
    }
}

/// A frequency in the band is left as it is, and one outside goes to the nearer
/// end.
pub proof fn law_clamped_is_the_nearest_in_band(freq: int)
    ensures
        875 <= clamped(freq) <= 1080,
        875 <= freq <= 1080 ==> clamped(freq) == freq,
        freq < 875 ==> clamped(freq) == 875,
        freq > 1080 ==> clamped(freq) == 1080,
{
}

/// The slot shown is the first that holds the frequency, and none where it is
/// not saved.
pub proof fn law_shown_slot_holds_the_frequency(v: PresetView, freq: u16)
    requires
        v.wf(),
    ensures
        match shown_slot(v, freq) {
            Some(i) => i < 8 && v.freqs[i as int] == freq && forall|k: int|
                0 <= k < i ==> #[trigger] v.freqs[k] != freq,
            None => !v.freqs.contains(freq),
        },
{
    strings::lemma_find_from(v.freqs, freq, 0);
}

/// The time is shown with two digits for the hour and two for the minute.
pub proof fn law_clock_is_shown_in_five_characters(hour: u8, minute: u8)
    requires
        hour < 24,
        minute < 60,
    ensures
        ({
            let t = clock_shown(Some((hour, minute)));
            &&& t.len() == 5
            &&& t[0] as u32 == 48 + hour / 10 && t[1] as u32 == 48 + hour % 10
            &&& t[2] == ':'
            &&& t[3] as u32 == 48 + minute / 10 && t[4] as u32 == 48 + minute % 10
        }),
        clock_shown(None) == Seq::<char>::empty(),
{
    reveal_with_fuel(strings::decimal, 3);
}

/// As many slots are in use as hold a frequency: none in an empty set, and one
/// more for every frequency that is saved into a free slot.
pub proof fn law_saving_uses_one_more_slot(v: PresetView, freq: u16)
    requires
        v.wf(),
        freq != PRESET_EMPTY,
        !v.freqs.contains(freq),
    ensures
        used_slots(with_slot(v, freq).0.freqs, 8) == (if v.freqs.contains(PRESET_EMPTY) {
            used_slots(v.freqs, 8) + 1
        } else {
            8
        }),
        used_slots(preset_codec::no_presets().freqs, 8) == 0,
{
    strings::lemma_find_from(v.freqs, freq, 0);
    strings::lemma_find_from(v.freqs, PRESET_EMPTY, 0);
    let at = strings::find_from(v.freqs, freq, 0);
    if at < 8 {
        assert(v.freqs[at] == freq);
    }
    let t = with_slot(v, freq).0.freqs;
    reveal_with_fuel(used_slots, 9);
    if v.freqs.contains(PRESET_EMPTY) {
        let free = strings::find_from(v.freqs, PRESET_EMPTY, 0);
        assert(free < 8) by {
            let k = choose|k: int| 0 <= k < 8 && v.freqs[k] == PRESET_EMPTY;
            assert(v.freqs[k] == PRESET_EMPTY);
        }
        assert(t == v.freqs.update(free, freq));
        assert(forall|k: int| 0 <= k < 8 && k != free ==> #[trigger] t[k] == v.freqs[k]);
    } else {
        assert forall|k: int| 0 <= k < 8 implies #[trigger] t[k] != PRESET_EMPTY by {
            if k < 7 {
                assert(v.freqs[k + 1] != PRESET_EMPTY) by {
                    assert(v.freqs.contains(v.freqs[k + 1]));
                }
            }
        }
    }
}

/// The strongest station is one, and none is stronger.
pub proof fn law_strongest_station_is_one(stations: Seq<Station>, k: int, m: int, j: int)
    requires
        is_strongest(stations, k),
        is_strongest(stations, m),
        0 <= j < stations.len(),
    ensures
        k == m,
        stations[j].rssi <= stations[k].rssi,
        stations[j].rssi == stations[k].rssi ==> j <= k,
{
    assert(stations[k].rssi <= stations[m].rssi && stations[m].rssi <= stations[k].rssi);
}

proof fn lemma_next_used_skips(freqs: Seq<u16>, start: int, left: nat, n: nat)
    requires
        freqs.len() == 8,
        0 <= start,
        n < left,
        freqs[(start + n) % 8] != PRESET_EMPTY,
        forall|k: int| 0 <= k < n ==> freqs[#[trigger] ((start + k) % 8)] == PRESET_EMPTY,
    ensures
        next_used(freqs, start, left) == Some(freqs[(start + n) % 8]),
    decreases n,
{
    if n > 0 {
        assert(freqs[(start + 0) % 8] == PRESET_EMPTY);
        assert forall|k: int| 0 <= k < n - 1 implies freqs[#[trigger] ((start + 1 + k) % 8)]
            == PRESET_EMPTY by {
            assert(freqs[(start + (k + 1)) % 8] == PRESET_EMPTY);
        }
        lemma_next_used_skips(freqs, start + 1, (left - 1) as nat, (n - 1) as nat);
    }
}

/// Going on goes to the next slot in use: from a saved frequency to the one
/// behind it, over empty slots and from the last slot to the first. From a
/// frequency that is not saved it goes to the first slot in use.
pub proof fn law_going_on_goes_to_the_next_slot(freqs: Seq<u16>, current: u16, i: int, n: nat)
    requires
        freqs.len() == 8,
        n < 8,
        if freqs.contains(current) {
            &&& 0 <= i < 8
            &&& freqs[i] == current
            &&& forall|k: int| 0 <= k < i ==> #[trigger] freqs[k] != current
        } else {
            i == -1
        },
        freqs[(i + 1 + n) % 8] != PRESET_EMPTY,
        forall|k: int| 0 <= k < n ==> freqs[#[trigger] ((i + 1 + k) % 8)] == PRESET_EMPTY,
    ensures
        preset_after(freqs, current) == Some(freqs[(i + 1 + n) % 8]),
{
    strings::lemma_find_from(freqs, current, 0);
    let at = strings::find_from(freqs, current, 0);
    if freqs.contains(current) {
        assert(at == i);
    } else if at < 8 {
        assert(freqs[at] == current);
    }
    lemma_next_used_skips(freqs, i + 1, 8, n);
}

} // verus!
