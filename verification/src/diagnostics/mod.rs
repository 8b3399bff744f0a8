//! Self-test at boot, and the health of the running radio.

pub mod error_codes;

use vstd::prelude::*;

use crate::diagnostics::error_codes::{
    HEAP_ALLOC, I2C_BUS, PCNT_READ, SI4703_DEV_ID, SI4703_INIT,
};
use crate::state::RadioState;

verus! {

/// Outcome of one check of the self-test.
#[derive(Clone, Copy, Debug, PartialEq, Eq, Structural)]
pub enum CheckStatus {
    Pass,
    /// Failed, with one of the [`error_codes`].
    Fail(u8),
    /// Not done.
    Skipped,
}

impl CheckStatus {
    pub fn is_pass(self) -> (r: bool)
        ensures
            r == (self is Pass),
    {
        match self {
            CheckStatus::Pass => true,
            _ => false,
        }
    }

    pub fn is_fail(self) -> (r: bool)
        ensures
            r == (self is Fail),
    {
        match self {
            CheckStatus::Fail(_) => true,
            _ => false,
        }
    }
}

/// What a chip of the right kind says it is.
pub const EXPECTED_DEVICE_ID: u16 = 0x1242;

/// Bytes that the heap check writes.
pub const HEAP_CHECK_LEN: usize = 64;

/// A hexadecimal digit.
pub open spec fn hex_char(n: u8) -> char {
    if n < 10 {
        (n + 48) as char
    } else {
        (n + 55) as char
    }
}

/// A byte as two hexadecimal digits.
pub open spec fn hex_digits(b: u8) -> Seq<char> {
    seq![hex_char(b / 16), hex_char(b % 16)]
}

fn to_hex_char(n: u8) -> (r: char)
    requires
        n < 16,
    ensures
        r == hex_char(n),
{
    if n < 10 {
        (n + 48) as char
    } else {
        (n + 55) as char
    }
}

/// Outcome of the self-test.
#[derive(Clone, Copy, Debug, PartialEq, Eq, Structural)]
pub struct PostResult {
    pub i2c_bus: CheckStatus,
    pub si4703_id: CheckStatus,
    pub heap_alloc: CheckStatus,
    pub encoder: CheckStatus,
}

impl PostResult {
    /// Code of the first check that failed, in the order bus, chip, heap,
    /// encoder.
    pub open spec fn first_failure(self) -> Option<u8> {
        match (self.i2c_bus, self.si4703_id, self.heap_alloc, self.encoder) {
            (CheckStatus::Fail(c), _, _, _) => Some(c),
            (_, CheckStatus::Fail(c), _, _) => Some(c),
            (_, _, CheckStatus::Fail(c), _) => Some(c),
            (_, _, _, CheckStatus::Fail(c)) => Some(c),
            _ => None,
        }
    }

    /// The outcome in a few words, such as `POST FAIL: 0x02`.
    pub open spec fn message(self) -> Seq<char> {
        match self.first_failure() {
            None => "POST OK"@,
            Some(c) => "POST FAIL: 0x"@ + hex_digits(c),
        }
    }

    /// Whether no check failed.
    pub fn all_pass(&self) -> (r: bool)
        ensures
            r == (self.first_failure() is None),
    {
        !self.i2c_bus.is_fail() && !self.si4703_id.is_fail() && !self.heap_alloc.is_fail()
            && !self.encoder.is_fail()
    }

    /// Code of the first check that failed.
    pub fn first_failure_code(&self) -> (r: Option<u8>)
        ensures
            r == self.first_failure(),
    {
        if let CheckStatus::Fail(c) = self.i2c_bus {
            return Some(c);
        }
        if let CheckStatus::Fail(c) = self.si4703_id {
            return Some(c);
        }
        if let CheckStatus::Fail(c) = self.heap_alloc {
            return Some(c);
        }
        if let CheckStatus::Fail(c) = self.encoder {
            return Some(c);
        }
        None
    }

    /// The outcome in a few words: that all is well, or the code of the first
    /// check that failed.
    pub fn status_message(&self) -> (r: String)
        ensures
            r@ == self.message(),
    {
        match self.first_failure_code() {
            None => "POST OK".to_owned(),
            Some(c) => {
                let mut s: String = "POST FAIL: 0x".to_owned();
                s.push(to_hex_char(c / 16));
                s.push(to_hex_char(c % 16));
                assert(s@ =~= "POST FAIL: 0x"@ + hex_digits(c));
                s
            },
        }
    }

    /// Whether the tuner cannot be used, so that booting ends here.
    pub fn tuner_failed(&self) -> (r: bool)
        ensures
            r == (self.si4703_id is Fail || self.i2c_bus is Fail),
    {
        self.si4703_id.is_fail() || self.i2c_bus.is_fail()
    }
}

/// `Vec::capacity`: a vector has room for at least the elements that it holds.
/// How much more an allocator gave is the machine's affair, so nothing is
/// claimed of that.
#[verifier::external_body]
fn capacity_of(v: &Vec<u8>) -> (r: usize)
    ensures
        r >= v@.len(),
{
    v.capacity()
}

/// Judges the heap by the room that a vector got, and by whether it holds what
/// was written: byte `i` at index `i`.
pub fn heap_verdict(capacity: usize, written: &[u8]) -> (r: CheckStatus)
    ensures
        r == (if capacity >= HEAP_CHECK_LEN && (forall|i: int|
            0 <= i < written@.len() ==> #[trigger] written@[i] == i % 256) {
            CheckStatus::Pass
        } else {
            CheckStatus::Fail(HEAP_ALLOC)
        }),
{
    if capacity < HEAP_CHECK_LEN {
        return CheckStatus::Fail(HEAP_ALLOC);
    }
    let mut i: usize = 0;
    while i < written.len()
        invariant
            i <= written@.len(),
            forall|j: int| 0 <= j < i ==> #[trigger] written@[j] == j % 256,
        decreases written@.len() - i,
    {
        if written[i] as usize != i % 256 {
            assert(written@[i as int] != i as int % 256);
            return CheckStatus::Fail(HEAP_ALLOC);
        }
        i = i + 1;
    }
    CheckStatus::Pass
}

/// Tries a small allocation: writes a pattern into it, and judges the room that
/// there is and what is read back. An allocation that fails does not return,
/// and memory is taken to keep what is written in it, so what returns has
/// passed.
pub fn check_heap() -> (r: CheckStatus)
    ensures
        r == CheckStatus::Pass,
{
    let mut buf: Vec<u8> = Vec::with_capacity(HEAP_CHECK_LEN);
    let mut i: u8 = 0;
    while i < 64
        invariant
            i <= 64,
            buf@.len() == i,
            forall|j: int| 0 <= j < i ==> #[trigger] buf@[j] == j,
        decreases 64 - i,
    {
        buf.push(i);
        i = i + 1;
    }
    heap_verdict(capacity_of(&buf), buf.as_slice())
}

/// Judges the chip by what it says it is.
pub fn check_si4703_device_id(device_id: u16) -> (r: CheckStatus)
    ensures
        r == (if device_id == EXPECTED_DEVICE_ID {
            CheckStatus::Pass
        } else {
            CheckStatus::Fail(SI4703_DEV_ID)
        }),
{
    if device_id == EXPECTED_DEVICE_ID {
        CheckStatus::Pass
    } else {
        CheckStatus::Fail(SI4703_DEV_ID)
    }
}

/// Judges the bus: a line that is stuck low reads as zero.
pub fn check_i2c_bus(device_id: u16) -> (r: CheckStatus)
    ensures
        r == (if device_id != 0 {
            CheckStatus::Pass
        } else {
            CheckStatus::Fail(I2C_BUS)
        }),
{
    if device_id != 0 {
        CheckStatus::Pass
    } else {
        CheckStatus::Fail(I2C_BUS)
    }
}

/// Judges the encoder by whether its counter could be read; what it counts does
/// not matter.
pub fn check_encoder(counter: Option<i16>) -> (r: CheckStatus)
    ensures
        r == (if counter is Some {
            CheckStatus::Pass
        } else {
            CheckStatus::Fail(PCNT_READ)
        }),
{
    match counter {
        Some(_) => CheckStatus::Pass,
        None => CheckStatus::Fail(PCNT_READ),
    }
}

/// Outcome of the self-test for the heap's check, what the chip said it is,
/// `None` where it did not start, and the first count of the encoder, `None`
/// where it could not be read.
pub fn self_test(heap: CheckStatus, device_id: Option<u16>, counter: Option<i16>) -> (r: PostResult)
    ensures
        r.heap_alloc == heap,
        r.encoder == (if counter is Some {
            CheckStatus::Pass
        } else {
            CheckStatus::Fail(PCNT_READ)
        }),
        match device_id {
            Some(id) => {
                &&& r.i2c_bus == (if id != 0 {
                    CheckStatus::Pass
                } else {
                    CheckStatus::Fail(I2C_BUS)
                })
                &&& r.si4703_id == (if id == EXPECTED_DEVICE_ID {
                    CheckStatus::Pass
                } else {
                    CheckStatus::Fail(SI4703_DEV_ID)
                })
            },
            None => r.i2c_bus == CheckStatus::Fail(I2C_BUS) && r.si4703_id == CheckStatus::Fail(
                SI4703_INIT,
            ),
        },
{
    let (i2c_bus, si4703_id): (CheckStatus, CheckStatus) = match device_id {
        Some(id) => (check_i2c_bus(id), check_si4703_device_id(id)),
        None => (CheckStatus::Fail(I2C_BUS), CheckStatus::Fail(SI4703_INIT)),
    };
    PostResult { i2c_bus, si4703_id, heap_alloc: heap, encoder: check_encoder(counter) }
}

// ---------------------------------------------------------------------------
// Running
// ---------------------------------------------------------------------------

/// The control loop counts as stalled when it has not reported for longer than
/// this (seconds).
pub const WATCHDOG_TIMEOUT_SECS: u32 = 5;

/// What is known of the running radio. Times are seconds since the processor
/// started, in 32 bits.
#[derive(Clone, Copy, Debug)]
pub struct Diagnostics {
    pub boot_secs: u32,
    pub i2c_errors: u32,
    /// When the control loop last reported, `None` before the first time.
    pub last_feed_secs: Option<u32>,
    pub post: Option<PostResult>,
}

/// A time in 32 bits.
pub open spec fn secs32(now_secs: u64) -> u32 {
    (now_secs % 0x1_0000_0000) as u32
}

/// `a - b`, or 0 where that is negative.
pub open spec fn monus(a: u32, b: u32) -> u32 {
    if a >= b {
        (a - b) as u32
    } else {
        0
    }
}

impl Diagnostics {
    /// Nothing known yet.
    pub fn new() -> (r: Diagnostics)
        ensures
            r == (Diagnostics { boot_secs: 0, i2c_errors: 0, last_feed_secs: None, post: None }),
    {
        Diagnostics { boot_secs: 0, i2c_errors: 0, last_feed_secs: None, post: None }
    }

    /// How long ago the control loop reported.
    pub open spec fn since_feed(self, now_secs: u64) -> Option<u32> {
        match self.last_feed_secs {
            Some(fed) => Some(monus(secs32(now_secs), fed)),
            None => None,
        }
    }

    /// Whether the control loop is running, or has not started yet.
    pub open spec fn alive(self, now_secs: u64) -> bool {
        match self.since_feed(now_secs) {
            Some(s) => s <= WATCHDOG_TIMEOUT_SECS,
            None => true,
        }
    }

    /// Seconds since boot.
    pub open spec fn uptime(self, now_secs: u64) -> u32 {
        monus(secs32(now_secs), self.boot_secs)
    }
}

fn to_secs32(now_secs: u64) -> (r: u32)
    ensures
        r == secs32(now_secs),
{
    (now_secs % 0x1_0000_0000) as u32
}

/// Keeps the outcome of the self-test.
pub fn set_post_result(d: &mut Diagnostics, result: PostResult)
    ensures
        *final(d) == (Diagnostics { post: Some(result), ..*old(d) }),
{
    d.post = Some(result);
}

/// The outcome of the self-test, once it is known.
pub fn get_post_result(d: &Diagnostics) -> (r: Option<PostResult>)
    ensures
        r == d.post,
{
    d.post
}

/// The control loop reports.
pub fn watchdog_feed(d: &mut Diagnostics, now_secs: u64)
    ensures
        *final(d) == (Diagnostics { last_feed_secs: Some(secs32(now_secs)), ..*old(d) }),
{
    d.last_feed_secs = Some(to_secs32(now_secs));
}

/// Whether the control loop is running, or has not started yet.
pub fn watchdog_ok(d: &Diagnostics, now_secs: u64) -> (r: bool)
    ensures
        r == d.alive(now_secs),
{
    match d.last_feed_secs {
        Some(fed) => to_secs32(now_secs).saturating_sub(fed) <= WATCHDOG_TIMEOUT_SECS,
        None => true,
    }
}

/// Seconds since the control loop reported, `None` before the first time.
pub fn watchdog_elapsed_secs(d: &Diagnostics, now_secs: u64) -> (r: Option<u32>)
    ensures
        r == d.since_feed(now_secs),
{
    match d.last_feed_secs {
        Some(fed) => Some(to_secs32(now_secs).saturating_sub(fed)),
        None => None,
    }
}

/// Keeps the time of boot.
pub fn record_boot_time(d: &mut Diagnostics, now_secs: u64)
    ensures
        *final(d) == (Diagnostics { boot_secs: secs32(now_secs), ..*old(d) }),
{
    d.boot_secs = to_secs32(now_secs);
}

/// A count of errors after one more; it goes round after the greatest number.
pub open spec fn errors_after_one_more(n: u32) -> u32 {
    if n == u32::MAX {
        0
    } else {
        (n + 1) as u32
    }
}

/// Counts an error on the bus.
pub fn increment_i2c_errors(d: &mut Diagnostics)
    ensures
        *final(d) == (Diagnostics {
            i2c_errors: errors_after_one_more(old(d).i2c_errors),
            ..*old(d)
        }),
{
    d.i2c_errors = if d.i2c_errors == u32::MAX {
        0
    } else {
        d.i2c_errors + 1
    };
}

/// Errors on the bus so far.
pub fn i2c_error_total(d: &Diagnostics) -> (r: u32)
    ensures
        r == d.i2c_errors,
{
    d.i2c_errors
}

/// Seconds since boot.
pub fn uptime_secs(d: &Diagnostics, now_secs: u64) -> (r: u32)
    ensures
        r == d.uptime(now_secs),
{
    to_secs32(now_secs).saturating_sub(d.boot_secs)
}

/// A control loop that reports at least every few seconds never counts as
/// stalled, and one that stopped reporting does.
pub proof fn law_watchdog_tells_a_stall(d: Diagnostics, fed: u64, now: u64)
    requires
        fed <= now <= u32::MAX,
    ensures
        ({
            let after = Diagnostics { last_feed_secs: Some(secs32(fed)), ..d };
            after.alive(now) <==> now - fed <= 5
        }),
{
}

/// Part of the heap that is in use, in percent.
pub open spec fn used_pct(free: int, total: int) -> int {
    if total > 0 {
        (total - free) * 100 / total
    } else {
        0
    }
}

proof fn lemma_used_pct(free: int, total: int)
    requires
        0 <= free <= total,
    ensures
        0 <= used_pct(free, total) <= 100,
{
    if total > 0 {
        let used = total - free;
        assert(used * 100 <= total * 100);
        assert(0 <= used * 100 / total <= 100) by (nonlinear_arith)
            requires
                total > 0,
                0 <= used * 100 <= total * 100,
        ;
    }
}

/// Health of the radio.
pub struct HealthDto {
    pub uptime_secs: u32,
    pub heap_free: usize,
    pub heap_total: usize,
    /// 0 to 100.
    pub heap_usage_pct: u8,
    pub i2c_errors: u32,
    pub wifi_connected: bool,
    pub rssi: u8,
    pub tuner_ok: bool,
    pub post_status: String,
    pub radio_task_alive: bool,
    pub watchdog_elapsed_secs: Option<u32>,
}

impl HealthDto {
    /// Health of a radio that has been tested.
    pub fn capture(
        d: &Diagnostics,
        post_result: &PostResult,
        state: &RadioState,
        heap_free: usize,
        heap_total: usize,
        now_secs: u64,
    ) -> (r: HealthDto)
        requires
            heap_free <= heap_total,
            (heap_total - heap_free) * 100 <= usize::MAX,
        ensures
            r.uptime_secs == d.uptime(now_secs),
            r.heap_free == heap_free,
            r.heap_total == heap_total,
            r.heap_usage_pct == used_pct(heap_free as int, heap_total as int),
            r.i2c_errors == d.i2c_errors,
            r.wifi_connected == state.wifi_connected,
            r.rssi == state.rssi,
            r.tuner_ok == (post_result.si4703_id is Pass),
            r.post_status@ == post_result.message(),
            r.radio_task_alive == d.alive(now_secs),
            r.watchdog_elapsed_secs == d.since_feed(now_secs),
    {
        proof {
            lemma_used_pct(heap_free as int, heap_total as int);
        }
        let pct: u8 = if heap_total > 0 {
            ((heap_total - heap_free) * 100 / heap_total) as u8
        } else {
            0
        };
        HealthDto {
            uptime_secs: uptime_secs(d, now_secs),
            heap_free,
            heap_total,
            heap_usage_pct: pct,
            i2c_errors: i2c_error_total(d),
            wifi_connected: state.wifi_connected,
            rssi: state.rssi,
            tuner_ok: post_result.si4703_id.is_pass(),
            post_status: post_result.status_message(),
            radio_task_alive: watchdog_ok(d, now_secs),
            watchdog_elapsed_secs: watchdog_elapsed_secs(d, now_secs),
        }
    }

    /// Health of a radio whose self-test is not over. Where the heap's figures
    /// make no sense, its use is given as 0.
    pub fn pending(d: &Diagnostics, heap_free: usize, heap_total: usize, now_secs: u64) -> (r:
        HealthDto)
        ensures
            r.uptime_secs == d.uptime(now_secs),
            r.heap_free == heap_free,
            r.heap_total == heap_total,
            r.heap_usage_pct == (if heap_free <= heap_total && (heap_total - heap_free) * 100
                <= usize::MAX {
                used_pct(heap_free as int, heap_total as int)
            } else {
                0
            }),
            r.i2c_errors == d.i2c_errors,
            !r.wifi_connected,
            r.rssi == 0,
            !r.tuner_ok,
            r.post_status@ == "pending"@,
            r.radio_task_alive == d.alive(now_secs),
            r.watchdog_elapsed_secs == d.since_feed(now_secs),
    {
        let pct: u8 = if heap_free <= heap_total && heap_total > 0 {
            match (heap_total - heap_free).checked_mul(100) {
                Some(n) => {
                    proof {
                        lemma_used_pct(heap_free as int, heap_total as int);
                    }
                    (n / heap_total) as u8
                },
                None => 0,
            }
        } else {
            0
        };
        HealthDto {
            uptime_secs: uptime_secs(d, now_secs),
            heap_free,
            heap_total,
            heap_usage_pct: pct,
            i2c_errors: i2c_error_total(d),
            wifi_connected: false,
            rssi: 0,
            tuner_ok: false,
            post_status: "pending".to_owned(),
            radio_task_alive: watchdog_ok(d, now_secs),
            watchdog_elapsed_secs: watchdog_elapsed_secs(d, now_secs),
        }
    }
}

/// The failure that is reported is the first in the order bus, chip, heap,
/// encoder: one that failed itself, while none before it did. Without a failure
/// none is reported.
pub proof fn law_first_failure_is_reported(p: PostResult, code: u8)
    ensures
        p.i2c_bus == CheckStatus::Fail(code) ==> p.first_failure() == Some(code),
        !(p.i2c_bus is Fail) && p.si4703_id == CheckStatus::Fail(code) ==> p.first_failure()
            == Some(code),
        !(p.i2c_bus is Fail) && !(p.si4703_id is Fail) && p.heap_alloc == CheckStatus::Fail(code)
            ==> p.first_failure() == Some(code),
        !(p.i2c_bus is Fail) && !(p.si4703_id is Fail) && !(p.heap_alloc is Fail) && p.encoder
            == CheckStatus::Fail(code) ==> p.first_failure() == Some(code),
        p.first_failure() is None <==> !(p.i2c_bus is Fail) && !(p.si4703_id is Fail)
            && !(p.heap_alloc is Fail) && !(p.encoder is Fail),
{
}

/// A failure is shown with the two hexadecimal digits of its code, in capitals.
pub proof fn law_failure_is_shown_by_its_code(p: PostResult)
    ensures
        p.first_failure() is None ==> p.message() == "POST OK"@,
        p.first_failure() is Some ==> {
            let m = p.message();
            let code = p.first_failure()->0;
            let high = m[13] as u32;
            let low = m[14] as u32;
            &&& m.len() == 15
            &&& m.take(13) == "POST FAIL: 0x"@
            &&& 48 <= high <= 57 || 65 <= high <= 70
            &&& 48 <= low <= 57 || 65 <= low <= 70
            &&& code == (if high <= 57 {
                high - 48
            } else {
                high - 55
            }) * 16 + (if low <= 57 {
                low - 48
            } else {
                low - 55
            })
        },
{
    reveal_strlit("POST FAIL: 0x");
    if let Some(code) = p.first_failure() {
        assert(p.message().take(13) =~= "POST FAIL: 0x"@);
    }
}

/// The share of the heap that is in use is rounded down to whole percents.
pub proof fn law_heap_use_is_in_percent(free: int, total: int)
    requires
        0 <= free <= total,
        total > 0,
    ensures
        used_pct(free, total) * total <= (total - free) * 100 < (used_pct(free, total) + 1) * total,
        0 <= used_pct(free, total) <= 100,
{
    lemma_used_pct(free, total);
    let x = (total - free) * 100;
    let q = x / total;
    assert(q * total <= x < (q + 1) * total) by (nonlinear_arith)
        requires
            q == x / total,
            total > 0,
    ;
}

/// Uptime is the time since boot, and the time since the last report is the time
/// since it was made.
pub proof fn law_times_are_counted_from_their_event(d: Diagnostics, boot: u64, fed: u64, now: u64)
    requires
        boot <= now <= u32::MAX,
        fed <= now,
    ensures
        (Diagnostics { boot_secs: secs32(boot), ..d }).uptime(now) == now - boot,
        (Diagnostics { last_feed_secs: Some(secs32(fed)), ..d }).since_feed(now) == Some(
            (now - fed) as u32,
        ),
        (Diagnostics { last_feed_secs: None, ..d }).since_feed(now) is None,
        (Diagnostics { last_feed_secs: None, ..d }).alive(now),
{
}

/// Errors are counted one by one.
pub proof fn law_errors_are_counted(n: u32)
    requires
        n < u32::MAX,
    ensures
        errors_after_one_more(n) == n + 1,
{
}

/// A time that lies ahead counts as now.
pub proof fn law_times_ahead_count_as_now(d: Diagnostics, now: u64)
    requires
        now <= u32::MAX,
    ensures
        d.boot_secs >= now ==> d.uptime(now) == 0,
        d.last_feed_secs is Some && d.last_feed_secs->0 >= now ==> d.since_feed(now) == Some(0u32),
{
}

} // verus!
