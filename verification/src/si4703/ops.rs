//! Tuning, seeking, scanning and sweeping: operations of several bus transfers,
//! decided step by step.

use vstd::prelude::*;

use crate::si4703;
use crate::si4703::{ChannelSpacing, FmBand, SeekDirection, Si4703, Station};
use crate::si4703::{CHAN_TUNE, PWR_SEEK, PWR_SEEKUP, STATUS_SF_BL, STATUS_STC, STC_POLLS};
use crate::si4703::{REG_CHANNEL, REG_POWER_CFG, REG_STATUS_RSSI, STC_POLL_MS};
use crate::spectrum;
use crate::spectrum::bucket_centre_x10;

verus! {

/// What is under way.
#[derive(Clone, Copy, Debug, PartialEq, Eq, Structural)]
pub enum StcKind {
    /// Tuning to a frequency.
    Tune(u16),
    Seek(SeekDirection),
}

/// What an operation waits for.
#[derive(Clone, Copy, Debug, PartialEq, Eq, Structural)]
pub enum StcPhase {
    /// For the registers, to set the bits that start the operation.
    Starting,
    /// For those bits to be written.
    Started,
    /// For the next look at the completion flag; so many looks were taken.
    Waiting(u8),
    /// For the registers that show the completion flag.
    Looking(u8),
    /// For the registers, to clear the tune bit.
    Clearing(bool),
    /// For the cleared bit to be written; `true` after a success.
    Cleared(bool),
    /// For the registers that show the frequency found.
    ReadingBack,
    Over,
}

#[derive(Clone, Copy, Debug, PartialEq, Eq, Structural)]
pub enum StcEvent {
    /// The registers were read.
    Read,
    /// The registers were written.
    Written,
    /// The time has passed.
    Waited,
}

/// What to do next.
#[derive(Clone, Copy, Debug, PartialEq, Eq, Structural)]
pub enum StcStep {
    Read,
    /// Write [`Si4703::write_registers`].
    Write,
    /// Wait so many milliseconds.
    Wait(u64),
    /// The tune has ended; `false` if completion was never reported.
    TuneDone(bool),
    /// The seek has ended, with the frequency found.
    SeekDone(Option<u16>),
}

/// Which event can occur in which phase.
pub open spec fn expects(phase: StcPhase, e: StcEvent) -> bool {
    match phase {
        StcPhase::Starting
        | StcPhase::Looking(_)
        | StcPhase::Clearing(_)
        | StcPhase::ReadingBack => e == StcEvent::Read,
        StcPhase::Started | StcPhase::Cleared(_) => e == StcEvent::Written,
        StcPhase::Waiting(_) => e == StcEvent::Waited,
        StcPhase::Over => false,
    }
}

/// The registers with the bits that start the operation.
pub open spec fn start_registers(
    kind: StcKind,
    r: Seq<u16>,
    band: FmBand,
    spacing: ChannelSpacing,
) -> Seq<u16> {
    match kind {
        StcKind::Tune(freq) => r.update(
            3,
            (r[3] & 0xFC00u16) | (si4703::channel_of(band, spacing, freq) | CHAN_TUNE),
        ),
        StcKind::Seek(d) => {
            let p = r[2] & !(PWR_SEEKUP | PWR_SEEK);
            let q = if d == SeekDirection::Up {
                p | PWR_SEEKUP
            } else {
                p
            };
            r.update(2, q | PWR_SEEK)
        },
    }
}

/// A tune to a frequency of the band that lies on the channel grid asks the chip
/// for the channel that reads back as that frequency, whatever channel stood
/// there before.
pub proof fn law_tune_asks_for_its_frequency(
    freq: u16,
    r: Seq<u16>,
    band: FmBand,
    spacing: ChannelSpacing,
)
    requires
        r.len() == 16,
        band.bottom() <= freq <= band.top(),
        (freq - band.bottom()) * 100 % (spacing.step() as int) == 0,
    ensures
        ({
            let w = start_registers(StcKind::Tune(freq), r, band, spacing);
            &&& w[3] & CHAN_TUNE == CHAN_TUNE
            &&& si4703::frequency_of(band, spacing, w[3] & si4703::READCHAN_MASK) == freq
            &&& forall|i: int| 0 <= i < 16 && i != 3 ==> #[trigger] w[i] == r[i]
        }),
{
    si4703::law_channel_round_trip(band, spacing, freq);
    let c = si4703::channel_of(band, spacing, freq);
    let before = r[3];
    assert(((before & 0xFC00u16) | (c | 0x8000u16)) & 0x8000u16 == 0x8000u16) by (bit_vector);
    assert(((before & 0xFC00u16) | (c | 0x8000u16)) & 0x03FFu16 == c) by (bit_vector)
        requires
            c <= 0x03FFu16,
    ;
}

/// What a look at the completion flag leads to.
pub open spec fn looked(kind: StcKind, looks: u8, r: Seq<u16>) -> (StcPhase, Seq<u16>, StcStep) {
    let done = r[10] & STATUS_STC != 0;
    if done || looks + 1 >= STC_POLLS {
        match kind {
            StcKind::Tune(_) => (StcPhase::Clearing(done), r, StcStep::Read),
            StcKind::Seek(_) => (
                StcPhase::Cleared(done && r[10] & STATUS_SF_BL == 0),
                r.update(2, r[2] & !PWR_SEEK),
                StcStep::Write,
            ),
        }
    } else {
        (StcPhase::Waiting((looks + 1) as u8), r, StcStep::Wait(STC_POLL_MS))
    }
}

/// Phase, register copy and step after an event; `r` are the registers read
/// with it, `regs` the copy from before.
pub open spec fn stc_next(
    kind: StcKind,
    phase: StcPhase,
    regs: Seq<u16>,
    r: Seq<u16>,
    band: FmBand,
    spacing: ChannelSpacing,
) -> (StcPhase, Seq<u16>, StcStep) {
    match phase {
        StcPhase::Starting => (
            StcPhase::Started,
            start_registers(kind, r, band, spacing),
            StcStep::Write,
        ),
        StcPhase::Started => (StcPhase::Waiting(0), regs, StcStep::Wait(STC_POLL_MS)),
        StcPhase::Waiting(k) => (StcPhase::Looking(k), regs, StcStep::Read),
        StcPhase::Looking(k) => looked(kind, k, r),
        StcPhase::Clearing(ok) => (
            StcPhase::Cleared(ok),
            r.update(3, r[3] & !CHAN_TUNE),
            StcStep::Write,
        ),
        StcPhase::Cleared(ok) => match kind {
            StcKind::Tune(_) => (StcPhase::Over, regs, StcStep::TuneDone(ok)),
            StcKind::Seek(_) => if ok {
                (StcPhase::ReadingBack, regs, StcStep::Read)
            } else {
                (StcPhase::Over, regs, StcStep::SeekDone(None))
            },
        },
        StcPhase::ReadingBack => (
            StcPhase::Over,
            r,
            StcStep::SeekDone(
                Some(si4703::frequency_of(band, spacing, r[11] & si4703::READCHAN_MASK)),
            ),
        ),
        StcPhase::Over => (StcPhase::Over, regs, StcStep::TuneDone(false)),
    }
}

/// An upper bound for the steps that are still to come.
pub open spec fn steps_left(phase: StcPhase) -> int {
    match phase {
        StcPhase::Starting => 206,
        StcPhase::Started => 205,
        StcPhase::Waiting(k) => 204 - 2 * k,
        StcPhase::Looking(k) => 203 - 2 * k,
        StcPhase::Clearing(_) => 3,
        StcPhase::Cleared(_) => 2,
        StcPhase::ReadingBack => 1,
        StcPhase::Over => 0,
    }
}

/// Every operation ends: each step lowers the bound.
pub proof fn law_operation_ends(
    kind: StcKind,
    phase: StcPhase,
    regs: Seq<u16>,
    r: Seq<u16>,
    band: FmBand,
    spacing: ChannelSpacing,
)
    requires
        phase != StcPhase::Over,
        phase matches StcPhase::Waiting(k) ==> k < STC_POLLS,
        phase matches StcPhase::Looking(k) ==> k < STC_POLLS,
    ensures
        0 <= steps_left(stc_next(kind, phase, regs, r, band, spacing).0) < steps_left(phase),
{
}

/// A tune or a seek in progress.
#[derive(Clone, Copy, Debug, PartialEq, Eq, Structural)]
pub struct StcOp {
    pub kind: StcKind,
    pub phase: StcPhase,
}

impl StcOp {
    /// Polls are counted below the limit, and a frequency to tune to does not
    /// lie below the band.
    pub open spec fn wf(self, band: FmBand) -> bool {
        &&& self.phase matches StcPhase::Waiting(k) ==> k < STC_POLLS
        &&& self.phase matches StcPhase::Looking(k) ==> k < STC_POLLS
        &&& self.kind matches StcKind::Tune(freq) ==> freq >= band.bottom()
    }

    /// An operation that starts with a read.
    pub fn new(kind: StcKind) -> (r: StcOp)
        ensures
            r == (StcOp { kind, phase: StcPhase::Starting }),
    {
        StcOp { kind, phase: StcPhase::Starting }
    }

    /// Takes an event; `read` is what a read delivered.
    pub fn step(&mut self, chip: &mut Si4703, event: StcEvent, read: &[u8; 32]) -> (r: StcStep)
        requires
            old(self).wf(old(chip).band_plan().0),
            expects(old(self).phase, event),
        ensures
            final(self).wf(old(chip).band_plan().0),
            final(self).kind == old(self).kind,
            final(chip).band_plan() == old(chip).band_plan(),
            (final(self).phase, final(chip).regs(), r) == stc_next(
                old(self).kind,
                old(self).phase,
                old(chip).regs(),
                si4703::registers_in(read@),
                old(chip).band_plan().0,
                old(chip).band_plan().1,
            ),
    {
        match self.phase {
            StcPhase::Starting => {
                chip.read_registers(read);
                self.start(chip);
                self.phase = StcPhase::Started;
                StcStep::Write
            },
            StcPhase::Started => {
                self.phase = StcPhase::Waiting(0);
                StcStep::Wait(STC_POLL_MS)
            },
            StcPhase::Waiting(k) => {
                self.phase = StcPhase::Looking(k);
                StcStep::Read
            },
            StcPhase::Looking(k) => {
                chip.read_registers(read);
                let status: u16 = chip.register(REG_STATUS_RSSI);
                let done: bool = (status & STATUS_STC) != 0;
                if done || k + 1 >= STC_POLLS {
                    match self.kind {
                        StcKind::Tune(_) => {
                            self.phase = StcPhase::Clearing(done);
                            StcStep::Read
                        },
                        StcKind::Seek(_) => {
                            self.phase = StcPhase::Cleared(done && (status & STATUS_SF_BL) == 0);
                            let p: u16 = chip.register(REG_POWER_CFG);
                            chip.set_register(REG_POWER_CFG, p & !PWR_SEEK);
                            StcStep::Write
                        },
                    }
                } else {
                    self.phase = StcPhase::Waiting(k + 1);
                    StcStep::Wait(STC_POLL_MS)
                }
            },
            StcPhase::Clearing(ok) => {
                chip.read_registers(read);
                let c: u16 = chip.register(REG_CHANNEL);
                chip.set_register(REG_CHANNEL, c & !CHAN_TUNE);
                self.phase = StcPhase::Cleared(ok);
                StcStep::Write
            },
            StcPhase::Cleared(ok) => match self.kind {
                StcKind::Tune(_) => {
                    self.phase = StcPhase::Over;
                    StcStep::TuneDone(ok)
                },
                StcKind::Seek(_) => {
                    if ok {
                        self.phase = StcPhase::ReadingBack;
                        StcStep::Read
                    } else {
                        self.phase = StcPhase::Over;
                        StcStep::SeekDone(None)
                    }
                },
            },
            StcPhase::ReadingBack => {
                let freq: u16 = chip.current_frequency(read);
                self.phase = StcPhase::Over;
                StcStep::SeekDone(Some(freq))
            },
            StcPhase::Over => StcStep::TuneDone(false),
        }
    }

    fn start(&self, chip: &mut Si4703)
        requires
            self.wf(old(chip).band_plan().0),
            old(chip).regs().len() == 16,
        ensures
            final(chip).band_plan() == old(chip).band_plan(),
            final(chip).regs() == start_registers(
                self.kind,
                old(chip).regs(),
                old(chip).band_plan().0,
                old(chip).band_plan().1,
            ),
    {
        match self.kind {
            StcKind::Tune(freq) => {
                let bottom: u16 = chip.band().bottom_freq_mhz_x10();
                let spacing_khz: u16 = chip.spacing().khz();
                let channel: u16 = ((freq - bottom) as u32 * 100 / spacing_khz as u32) as u16;
                let c: u16 = chip.register(REG_CHANNEL);
                chip.set_register(REG_CHANNEL, (c & 0xFC00) | (channel | CHAN_TUNE));
            },
            StcKind::Seek(direction) => {
                let mut p: u16 = chip.register(REG_POWER_CFG) & !(PWR_SEEKUP | PWR_SEEK);
                if direction == SeekDirection::Up {
                    p = p | PWR_SEEKUP;
                }
                chip.set_register(REG_POWER_CFG, p | PWR_SEEK);
            },
        }
    }
}

/// What a scan of the band does next.
#[derive(Clone, Copy, Debug, PartialEq, Eq, Structural)]
pub enum ScanStep {
    /// Seek upwards.
    SeekUp,
    /// Measure the signal strength here.
    Measure(u16),
    Done,
}

/// A scan for stations, upwards from the bottom of the band.
pub struct StationScan {
    pub stations: Vec<Station>,
    pub max_stations: usize,
}

impl StationScan {
    /// No more stations than asked for, each above the first.
    pub open spec fn wf(&self) -> bool {
        &&& self.stations@.len() <= self.max_stations
        &&& forall|i: int|
            0 < i < self.stations@.len() ==> (#[trigger] self.stations@[i]).freq_mhz_x10
                > self.stations@[0].freq_mhz_x10
    }

    pub fn new(max_stations: usize) -> (r: StationScan)
        ensures
            r.wf(),
            r.stations@ == Seq::<Station>::empty(),
            r.max_stations == max_stations,
    {
        StationScan { stations: Vec::new(), max_stations }
    }

    /// The next seek, unless there is no room for what it may find.
    pub fn next(&self) -> (r: ScanStep)
        requires
            self.wf(),
        ensures
            r == (if self.stations@.len() >= self.max_stations {
                ScanStep::Done
            } else {
                ScanStep::SeekUp
            }),
    {
        if self.stations.len() >= self.max_stations {
            ScanStep::Done
        } else {
            ScanStep::SeekUp
        }
    }

    /// A seek has ended. The scan is over where it found nothing or has come
    /// back to the first station.
    pub fn on_seek(&self, found: Option<u16>) -> (r: ScanStep)
        requires
            self.wf(),
        ensures
            r == (match found {
                Some(freq) => if self.stations@.len() > 0 && freq
                    <= self.stations@[0].freq_mhz_x10 {
                    ScanStep::Done
                } else {
                    ScanStep::Measure(freq)
                },
                None => ScanStep::Done,
            }),
    {
        match found {
            Some(freq) => {
                if self.stations.len() > 0 && freq <= self.stations[0].freq_mhz_x10 {
                    ScanStep::Done
                } else {
                    ScanStep::Measure(freq)
                }
            },
            None => ScanStep::Done,
        }
    }

    /// The signal strength at the frequency found was measured.
    pub fn on_rssi(&mut self, freq: u16, rssi: u8) -> (r: ScanStep)
        requires
            old(self).wf(),
            old(self).stations@.len() < old(self).max_stations,
            old(self).stations@.len() > 0 ==> freq > old(self).stations@[0].freq_mhz_x10,
        ensures
            final(self).wf(),
            final(self).max_stations == old(self).max_stations,
            final(self).stations@ == old(self).stations@.push(
                (Station { freq_mhz_x10: freq, rssi }),
            ),
            r == (if final(self).stations@.len() >= final(self).max_stations {
                ScanStep::Done
            } else {
                ScanStep::SeekUp
            }),
    {
        self.stations.push(Station { freq_mhz_x10: freq, rssi });
        self.next()
    }
}

/// A sweep of the band: the signal strength in the centre of every bucket.
pub struct RssiSweep {
    bottom: u16,
    top: u16,
    buckets: usize,
    samples: Vec<u8>,
}

impl RssiSweep {
    pub closed spec fn samples(&self) -> Seq<u8> {
        self.samples@
    }

    pub closed spec fn buckets(&self) -> nat {
        self.buckets as nat
    }

    pub closed spec fn limits(&self) -> (u16, u16) {
        (self.bottom, self.top)
    }

    pub open spec fn wf(&self) -> bool {
        self.samples().len() <= self.buckets()
    }

    pub fn new(band: FmBand, buckets: usize) -> (r: RssiSweep)
        ensures
            r.wf(),
            r.samples() == Seq::<u8>::empty(),
            r.buckets() == buckets,
            r.limits() == (band.bottom(), band.top()),
    {
        RssiSweep {
            bottom: band.bottom_freq_mhz_x10(),
            top: band.top_freq_mhz_x10(),
            buckets,
            samples: Vec::new(),
        }
    }

    /// The frequency to tune to next; `None` once all buckets were sampled.
    pub fn next(&self) -> (r: Option<u16>)
        requires
            self.wf(),
        ensures
            match r {
                Some(freq) => self.samples().len() < self.buckets() && freq
                    == spectrum::bucket_centre(
                    self.limits().0,
                    self.limits().1,
                    self.buckets() as int,
                    self.samples().len() as int,
                ),
                None => self.samples().len() == self.buckets(),
            },
    {
        if self.samples.len() < self.buckets {
            Some(bucket_centre_x10(self.bottom, self.top, self.buckets, self.samples.len()))
        } else {
            None
        }
    }

    /// A bucket was sampled: `None` where tuning or measuring failed, which
    /// counts as no signal.
    pub fn record(&mut self, rssi: Option<u8>)
        requires
            old(self).samples().len() < old(self).buckets(),
        ensures
            final(self).wf(),
            final(self).buckets() == old(self).buckets(),
            final(self).limits() == old(self).limits(),
            final(self).samples() == old(self).samples().push(
                match rssi {
                    Some(v) => v,
                    None => 0,
                },
            ),
    {
        let v: u8 = match rssi {
            Some(v) => v,
            None => 0,
        };
        self.samples.push(v);
    }

    /// The samples taken so far, one per bucket.
    pub fn into_samples(self) -> (r: Vec<u8>)
        ensures
            r@ == self.samples(),
    {
        self.samples
    }
}

/// A seek sets the seek bit and the direction, and nothing else.
pub proof fn law_seek_goes_its_direction(
    d: SeekDirection,
    r: Seq<u16>,
    band: FmBand,
    spacing: ChannelSpacing,
)
    requires
        r.len() == 16,
    ensures
        ({
            let w = start_registers(StcKind::Seek(d), r, band, spacing);
            &&& w[2] & 0x0100u16 == 0x0100u16
            &&& (w[2] & 0x0200u16 == 0x0200u16) == (d == SeekDirection::Up)
            &&& w[2] & 0xFCFFu16 == r[2] & 0xFCFFu16
            &&& forall|i: int| 0 <= i < 16 && i != 2 ==> #[trigger] w[i] == r[i]
        }),
{
    let x = r[2];
    let up = ((x & !(0x0200u16 | 0x0100u16)) | 0x0200u16) | 0x0100u16;
    let down = (x & !(0x0200u16 | 0x0100u16)) | 0x0100u16;
    assert(up & 0x0100u16 == 0x0100u16 && up & 0x0200u16 == 0x0200u16 && up & 0xFCFFu16 == x
        & 0xFCFFu16) by (bit_vector)
        requires
            up == ((x & !(0x0200u16 | 0x0100u16)) | 0x0200u16) | 0x0100u16,
    ;
    assert(down & 0x0100u16 == 0x0100u16 && down & 0x0200u16 != 0x0200u16 && down & 0xFCFFu16 == x
        & 0xFCFFu16) by (bit_vector)
        requires
            down == (x & !(0x0200u16 | 0x0100u16)) | 0x0100u16,
    ;
}

/// The operation after `n` looks that did not show completion.
pub open spec fn after_looks(
    kind: StcKind,
    regs: Seq<u16>,
    r: Seq<u16>,
    band: FmBand,
    spacing: ChannelSpacing,
    n: int,
) -> (StcPhase, StcStep)
    decreases n,
{
    if n <= 0 {
        let (p, w, _) = stc_next(kind, StcPhase::Starting, regs, r, band, spacing);
        let (q, _, step) = stc_next(kind, p, w, r, band, spacing);
        (q, step)
    } else {
        let (p, _) = after_looks(kind, regs, r, band, spacing, n - 1);
        let (q, _, _) = stc_next(kind, p, regs, r, band, spacing);
        let (s, _, step) = stc_next(kind, q, regs, r, band, spacing);
        (s, step)
    }
}

/// As long as completion is not shown, an operation looks again every 50 ms, a
/// hundred times in all.
proof fn lemma_looks(
    kind: StcKind,
    regs: Seq<u16>,
    r: Seq<u16>,
    band: FmBand,
    spacing: ChannelSpacing,
    n: int,
)
    requires
        0 <= n < 100,
        r[10] & STATUS_STC == 0,
    ensures
        after_looks(kind, regs, r, band, spacing, n) == (
            StcPhase::Waiting(n as u8),
            StcStep::Wait(50),
        ),
    decreases n,
{
    if n > 0 {
        lemma_looks(kind, regs, r, band, spacing, n - 1);
    }
}

/// A tune succeeds exactly where the chip shows completion at one of a hundred
/// looks, 50 ms apart; then, and where it never does, the tune bit is cleared
/// and the tune ends. `n` looks were in vain, with `r` in the registers, and
/// the next one showed `seen`.
pub proof fn law_tune_succeeds_on_completion(
    freq: u16,
    regs: Seq<u16>,
    r: Seq<u16>,
    seen: Seq<u16>,
    band: FmBand,
    spacing: ChannelSpacing,
    n: int,
)
    requires
        0 <= n < 100,
        r[10] & 0x4000u16 == 0,
    ensures
        ({
            let kind = StcKind::Tune(freq);
            let done = seen[10] & 0x4000u16 != 0;
            let (waiting, wait) = after_looks(kind, regs, r, band, spacing, n);
            let (looking, _, read) = stc_next(kind, waiting, regs, seen, band, spacing);
            let (p, _, next) = stc_next(kind, looking, regs, seen, band, spacing);
            let (q, cleared, write) = stc_next(kind, p, regs, seen, band, spacing);
            let (_, _, end) = stc_next(kind, q, cleared, seen, band, spacing);
            &&& wait == StcStep::Wait(50)
            &&& read == StcStep::Read
            &&& done || n == 99 ==> {
                &&& next == StcStep::Read
                &&& write == StcStep::Write
                &&& cleared == seen.update(3, seen[3] & !0x8000u16)
                &&& end == StcStep::TuneDone(done)
            }
            &&& !done && n < 99 ==> next == StcStep::Wait(50)
        }),
{
    lemma_looks(StcKind::Tune(freq), regs, r, band, spacing, n);
}

/// A seek reports what it has found: where the chip shows completion without a
/// failure, the frequency of the channel that it reads then, else nothing. The
/// seek bit is cleared in any case.
pub proof fn law_seek_reports_what_it_found(
    d: SeekDirection,
    regs: Seq<u16>,
    r: Seq<u16>,
    seen: Seq<u16>,
    last: Seq<u16>,
    band: FmBand,
    spacing: ChannelSpacing,
    n: int,
)
    requires
        0 <= n < 100,
        r[10] & 0x4000u16 == 0,
    ensures
        ({
            let kind = StcKind::Seek(d);
            let done = seen[10] & 0x4000u16 != 0;
            let good = done && seen[10] & 0x2000u16 == 0;
            let (waiting, _) = after_looks(kind, regs, r, band, spacing, n);
            let (looking, _, _) = stc_next(kind, waiting, regs, seen, band, spacing);
            let (p, cleared, next) = stc_next(kind, looking, regs, seen, band, spacing);
            let (q, _, step) = stc_next(kind, p, cleared, last, band, spacing);
            let (_, _, end) = stc_next(kind, q, cleared, last, band, spacing);
            &&& done || n == 99 ==> next == StcStep::Write && cleared == seen.update(
                2,
                seen[2] & !0x0100u16,
            )
            &&& !done && n < 99 ==> next == StcStep::Wait(50)
            &&& good ==> step == StcStep::Read && end == StcStep::SeekDone(
                Some(si4703::frequency_of(band, spacing, last[11] & 0x03FFu16)),
            )
            &&& !good && (done || n == 99) ==> step == StcStep::SeekDone(None)
        }),
{
    lemma_looks(StcKind::Seek(d), regs, r, band, spacing, n);
}

} // verus!
