//! Rolling log of what the radio was tuned to.
//!
//! Every few seconds the state is sampled, and an entry is added where the
//! frequency or the station name has changed. The log holds a fixed number of
//! entries; the oldest makes room for the newest.

use vstd::prelude::*;
use vstd::utf8::*;

use crate::state::RadioState;
use crate::strings::{str_eq, str_from_utf8};
use crate::text;
use crate::text::clip_to_buf;

verus! {

/// Most entries that the log holds.
pub const LOG_CAPACITY: usize = 64;

/// Seconds between two samples.
pub const SAMPLE_INTERVAL_SECS: u64 = 10;

/// Most bytes of a station name in an entry.
pub const PS_MAX: usize = 8;

/// Most bytes of a RadioText message in an entry.
pub const RT_MAX: usize = 24;

/// One sample.
#[derive(Clone, Copy, Debug)]
pub struct LogEntry {
    /// Seconds since boot.
    pub uptime_secs: u32,
    /// Frequency (0.1 MHz).
    pub freq_x10: u16,
    /// Signal strength.
    pub rssi: u8,
    /// Station name, in its first `ps_len` bytes.
    pub ps_buf: [u8; 8],
    pub ps_len: u8,
    /// RadioText message, in its first `rt_len` bytes.
    pub rt_buf: [u8; 24],
    pub rt_len: u8,
}

impl LogEntry {
    /// Bytes of the station name.
    pub open spec fn ps(self) -> Seq<u8> {
        self.ps_buf@.take(self.ps_len as int)
    }

    /// Bytes of the RadioText message.
    pub open spec fn rt(self) -> Seq<u8> {
        self.rt_buf@.take(self.rt_len as int)
    }

    /// Both texts fit their buffers and are well-formed.
    pub open spec fn wf(self) -> bool {
        self.ps_len <= 8 && self.rt_len <= 24 && valid_utf8(self.ps()) && valid_utf8(self.rt())
    }

    /// An entry that says nothing.
    pub fn empty() -> (r: LogEntry)
        ensures
            r.wf(),
            r.uptime_secs == 0,
            r.freq_x10 == 0,
            r.rssi == 0,
            r.ps_len == 0,
            r.rt_len == 0,
            r.ps_buf@ == Seq::new(8, |i: int| 0u8),
            r.rt_buf@ == Seq::new(24, |i: int| 0u8),
            r.ps() == Seq::<u8>::empty(),
            r.rt() == Seq::<u8>::empty(),
    {
        let r: LogEntry = LogEntry {
            uptime_secs: 0,
            freq_x10: 0,
            rssi: 0,
            ps_buf: [0u8; 8],
            ps_len: 0,
            rt_buf: [0u8; 24],
            rt_len: 0,
        };
        assert(r.ps() =~= Seq::<u8>::empty());
        assert(r.rt() =~= Seq::<u8>::empty());
        r
    }

    /// The station name.
    pub fn ps_str(&self) -> (r: &str)
        requires
            self.wf(),
        ensures
            r@ == decode_utf8(self.ps()),
    {
        let bytes: &[u8] = vstd::slice::slice_subrange(
            self.ps_buf.as_slice(),
            0,
            self.ps_len as usize,
        );
        assert(bytes@ =~= self.ps());
        match str_from_utf8(bytes) {
            Some(s) => s,
            None => "",
        }
    }

    /// The RadioText message.
    pub fn rt_str(&self) -> (r: &str)
        requires
            self.wf(),
        ensures
            r@ == decode_utf8(self.rt()),
    {
        let bytes: &[u8] = vstd::slice::slice_subrange(
            self.rt_buf.as_slice(),
            0,
            self.rt_len as usize,
        );
        assert(bytes@ =~= self.rt());
        match str_from_utf8(bytes) {
            Some(s) => s,
            None => "",
        }
    }
}

impl Default for LogEntry {
    fn default() -> (r: Self)
        ensures
            r.wf(),
            r.uptime_secs == 0,
            r.freq_x10 == 0,
            r.rssi == 0,
            r.ps_len == 0,
            r.rt_len == 0,
            r.ps_buf@ == Seq::new(8, |i: int| 0u8),
            r.rt_buf@ == Seq::new(24, |i: int| 0u8),
            r.ps() == Seq::<u8>::empty(),
            r.rt() == Seq::<u8>::empty(),
    {
        LogEntry::empty()
    }
}

/// The entry for what `state` holds.
pub fn capture(uptime_secs: u32, state: &RadioState) -> (r: LogEntry)
    ensures
        r.wf(),
        r.uptime_secs == uptime_secs,
        r.freq_x10 == state.freq_mhz_x10,
        r.rssi == state.rssi,
        r.ps() == text::clipped(encode_utf8(state.station_name@), PS_MAX as nat),
        r.rt() == text::clipped(encode_utf8(state.radio_text@), RT_MAX as nat),
{
    let ps: &[u8] = clip_to_buf(state.station_name.as_str(), PS_MAX);
    let rt: &[u8] = clip_to_buf(state.radio_text.as_str(), RT_MAX);
    let mut ps_buf: [u8; 8] = [0u8; 8];
    let mut rt_buf: [u8; 24] = [0u8; 24];
    let mut i: usize = 0;
    while i < ps.len()
        invariant
            i <= ps@.len() <= 8,
            forall|j: int| 0 <= j < i ==> #[trigger] ps_buf@[j] == ps@[j],
        decreases ps@.len() - i,
    {
        ps_buf[i] = ps[i];
        i = i + 1;
    }
    let mut k: usize = 0;
    while k < rt.len()
        invariant
            k <= rt@.len() <= 24,
            forall|j: int| 0 <= j < k ==> #[trigger] rt_buf@[j] == rt@[j],
        decreases rt@.len() - k,
    {
        rt_buf[k] = rt[k];
        k = k + 1;
    }
    let r: LogEntry = LogEntry {
        uptime_secs,
        freq_x10: state.freq_mhz_x10,
        rssi: state.rssi,
        ps_buf,
        ps_len: ps.len() as u8,
        rt_buf,
        rt_len: rt.len() as u8,
    };
    proof {
        text::law_clipped_is_longest_fitting_text(state.station_name@, PS_MAX as nat);
        text::law_clipped_is_longest_fitting_text(state.radio_text@, RT_MAX as nat);
        assert(r.ps() =~= ps@);
        assert(r.rt() =~= rt@);
    }
    r
}

/// The entries, oldest first, after one more was logged.
pub open spec fn with_entry(log: Seq<LogEntry>, entry: LogEntry) -> Seq<LogEntry> {
    if log.len() < LOG_CAPACITY {
        log.push(entry)
    } else {
        log.skip(1).push(entry)
    }
}

/// The log: a ring whose oldest entry stands at `head`.
pub struct LogBuffer {
    entries: [LogEntry; 64],
    head: usize,
    len: usize,
}

impl View for LogBuffer {
    type V = Seq<LogEntry>;

    /// The entries, oldest first.
    closed spec fn view(&self) -> Seq<LogEntry> {
        Seq::new(self.len as nat, |i: int| self.entries@[(self.head + i) % 64])
    }
}

impl LogBuffer {
    pub closed spec fn inv(self) -> bool {
        &&& self.head < 64
        &&& self.len <= 64
        &&& forall|i: int| 0 <= i < self@.len() ==> (#[trigger] self@[i]).wf()
    }

    /// An empty log.
    pub fn new() -> (r: LogBuffer)
        ensures
            r.inv(),
            r@ == Seq::<LogEntry>::empty(),
    {
        let e: LogEntry = LogEntry::empty();
        let r: LogBuffer = LogBuffer { entries: [e; 64], head: 0, len: 0 };
        assert(r@ =~= Seq::<LogEntry>::empty());
        r
    }

    /// Adds an entry; in a full log the oldest makes room for it.
    pub fn push(&mut self, entry: LogEntry)
        requires
            old(self).inv(),
            entry.wf(),
        ensures
            final(self).inv(),
            final(self)@ == with_entry(old(self)@, entry),
    {
        let ghost before = self@;
        if self.len < LOG_CAPACITY {
            let idx: usize = (self.head + self.len) % LOG_CAPACITY;
            self.entries[idx] = entry;
            self.len = self.len + 1;
            assert(self@ =~= before.push(entry));
        } else {
            let at: usize = self.head;
            self.entries[at] = entry;
            self.head = (self.head + 1) % LOG_CAPACITY;
            assert(self@ =~= before.skip(1).push(entry));
        }
    }

    /// The newest entry.
    pub fn latest(&self) -> (r: Option<&LogEntry>)
        requires
            self.inv(),
        ensures
            match r {
                Some(e) => self@.len() > 0 && *e == self@.last(),
                None => self@.len() == 0,
            },
    {
        if self.len == 0 {
            return None;
        }
        let idx: usize = (self.head + self.len - 1) % LOG_CAPACITY;
        Some(&self.entries[idx])
    }

    /// Number of entries.
    pub fn len(&self) -> (r: usize)
        requires
            self.inv(),
        ensures
            r == self@.len(),
            r <= LOG_CAPACITY,
    {
        self.len
    }

    /// The entries, oldest first.
    pub fn iter_chronological(&self) -> (r: Vec<LogEntry>)
        requires
            self.inv(),
        ensures
            r@ == self@,
            forall|i: int| 0 <= i < r@.len() ==> (#[trigger] r@[i]).wf(),
    {
        let mut r: Vec<LogEntry> = Vec::new();
        let mut i: usize = 0;
        while i < self.len
            invariant
                self.inv(),
                i <= self.len,
                r@ == self@.take(i as int),
            decreases self.len - i,
        {
            assert(self@.take(i + 1) =~= self@.take(i as int).push(self@[i as int]));
            r.push(self.entries[(self.head + i) % LOG_CAPACITY]);
            i = i + 1;
        }
        assert(self@.take(self.len as int) =~= self@);
        r
    }
}

impl Default for LogBuffer {
    fn default() -> (r: Self)
        ensures
            r.inv(),
            r@ == Seq::<LogEntry>::empty(),
    {
        LogBuffer::new()
    }
}

/// The log after the entries of `pushed` were logged one after the other.
pub open spec fn log_after(pushed: Seq<LogEntry>) -> Seq<LogEntry>
    decreases pushed.len(),
{
    if pushed.len() == 0 {
        Seq::empty()
    } else {
        with_entry(log_after(pushed.drop_last()), pushed.last())
    }
}

/// The log holds the latest entries, as many as it has room for, in the order
/// in which they were logged.
pub proof fn law_log_keeps_the_latest(pushed: Seq<LogEntry>)
    ensures
        log_after(pushed) == (if pushed.len() <= 64 {
            pushed
        } else {
            pushed.skip(pushed.len() - 64)
        }),
    decreases pushed.len(),
{
    if pushed.len() > 0 {
        law_log_keeps_the_latest(pushed.drop_last());
        assert(pushed.drop_last().push(pushed.last()) =~= pushed);
        if pushed.len() > LOG_CAPACITY {
            assert(log_after(pushed) =~= pushed.skip(pushed.len() - LOG_CAPACITY));
        }
    } else {
        assert(pushed =~= Seq::<LogEntry>::empty());
    }
}

/// Decides which samples are logged.
pub struct Logger {
    /// Frequency logged last, 0 before the first.
    pub last_freq: u16,
    /// Station name logged last.
    pub last_ps: String,
}

impl Logger {
    pub fn new() -> (r: Logger)
        ensures
            r.last_freq == 0,
            r.last_ps@ == Seq::<char>::empty(),
    {
        Logger { last_freq: 0, last_ps: String::new() }
    }

    /// Whether a sample of `state` is worth an entry: something is tuned, and
    /// the frequency or the station name is new.
    pub open spec fn wants(self, state: RadioState) -> bool {
        state.freq_mhz_x10 != 0 && (state.freq_mhz_x10 != self.last_freq || state.station_name@
            != self.last_ps@)
    }

    /// Samples the state, and says whether an entry was logged.
    pub fn sample(&mut self, log: &mut LogBuffer, now_secs: u64, state: &RadioState) -> (r: bool)
        requires
            old(log).inv(),
        ensures
            final(log).inv(),
            r == old(self).wants(*state),
            r ==> {
                &&& final(self).last_freq == state.freq_mhz_x10
                &&& final(self).last_ps@ == state.station_name@
                &&& final(log)@.len() > 0
                &&& final(log)@ == with_entry(old(log)@, final(log)@.last())
                &&& ({
                    let e = final(log)@.last();
                    &&& e.uptime_secs == now_secs % 0x1_0000_0000
                    &&& e.freq_x10 == state.freq_mhz_x10
                    &&& e.rssi == state.rssi
                    &&& e.ps() == text::clipped(encode_utf8(state.station_name@), PS_MAX as nat)
                    &&& e.rt() == text::clipped(encode_utf8(state.radio_text@), RT_MAX as nat)
                })
            },
            !r ==> *final(self) == *old(self) && *final(log) == *old(log),
    {
        if state.freq_mhz_x10 == 0 {
            return false;
        }
        if state.freq_mhz_x10 == self.last_freq && str_eq(
            state.station_name.as_str(),
            self.last_ps.as_str(),
        ) {
            return false;
        }
        self.last_freq = state.freq_mhz_x10;
        self.last_ps = state.station_name.clone();
        let entry: LogEntry = capture((now_secs % 0x1_0000_0000) as u32, state);
        log.push(entry);
        assert(log@.last() == entry);
        true
    }
}

/// A change of station is logged, and nothing else: another frequency or another
/// name is worth an entry, the same ones again are not, and with nothing tuned
/// there is nothing to log.
pub proof fn law_changes_of_station_are_logged(l: Logger, state: RadioState)
    ensures
        state.freq_mhz_x10 == 0 ==> !l.wants(state),
        state.freq_mhz_x10 == l.last_freq && state.station_name@ == l.last_ps@ ==> !l.wants(state),
        state.freq_mhz_x10 != 0 && state.freq_mhz_x10 != l.last_freq ==> l.wants(state),
        state.freq_mhz_x10 != 0 && state.station_name@ != l.last_ps@ ==> l.wants(state),
{
}

} // verus!
