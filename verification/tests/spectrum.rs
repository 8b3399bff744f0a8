use radio::spectrum::{bucket_centre_x10, freq_to_bucket};

/// Default FM band, US/Europe plan, 52 buckets — exactly the
/// configuration the firmware uses at boot.
const FM_BOTTOM_X10: u16 = 875;
const FM_TOP_X10: u16 = 1080;
const FM_BUCKETS: usize = 52;

#[test]
fn bucket_centres_are_monotonic_and_in_band() {
    let mut prev = 0u16;
    for i in 0..FM_BUCKETS {
        let mid = bucket_centre_x10(FM_BOTTOM_X10, FM_TOP_X10, FM_BUCKETS, i);
        assert!(
            mid >= FM_BOTTOM_X10 && mid <= FM_TOP_X10,
            "bucket {i} centre {mid} out of band",
        );
        assert!(mid > prev, "bucket {i} centre {mid} not strictly increasing from {prev}");
        prev = mid;
    }
}

#[test]
fn first_bucket_centre_is_lower_half() {
    // First bucket spans [bottom, bottom + span/N), so its centre is
    // at bottom + span/(2N) — strictly above bottom but well below
    // the second bucket's centre.
    let mid0 = bucket_centre_x10(FM_BOTTOM_X10, FM_TOP_X10, FM_BUCKETS, 0);
    let mid1 = bucket_centre_x10(FM_BOTTOM_X10, FM_TOP_X10, FM_BUCKETS, 1);
    assert!(mid0 > FM_BOTTOM_X10);
    assert!(mid0 < mid1);
}

#[test]
fn last_bucket_centre_is_below_top() {
    // The `min(top)` clamp in the formula caps the last bucket at
    // top, but on the standard 875..=1080 plan with 52 buckets the
    // raw formula already lands inside the band.
    let last = bucket_centre_x10(FM_BOTTOM_X10, FM_TOP_X10, FM_BUCKETS, FM_BUCKETS - 1);
    assert!(last <= FM_TOP_X10);
    assert!(last > FM_BOTTOM_X10);
}

#[test]
fn freq_to_bucket_clamps_below_band() {
    // Anything < bottom must report bucket 0 so the LCD cursor stays
    // visible even before the first tune lands.
    assert_eq!(freq_to_bucket(FM_BOTTOM_X10, FM_TOP_X10, FM_BUCKETS, 0), 0);
    assert_eq!(freq_to_bucket(FM_BOTTOM_X10, FM_TOP_X10, FM_BUCKETS, 800), 0);
    assert_eq!(
        freq_to_bucket(FM_BOTTOM_X10, FM_TOP_X10, FM_BUCKETS, FM_BOTTOM_X10 - 1),
        0,
    );
}

#[test]
fn freq_to_bucket_clamps_above_band() {
    // At or above the top we always pin to the last bucket. The
    // `min(N-1)` clamp in the implementation guards against the
    // exact-top case where `(span * N / span) == N`.
    assert_eq!(
        freq_to_bucket(FM_BOTTOM_X10, FM_TOP_X10, FM_BUCKETS, FM_TOP_X10),
        FM_BUCKETS - 1,
    );
    assert_eq!(
        freq_to_bucket(FM_BOTTOM_X10, FM_TOP_X10, FM_BUCKETS, 1200),
        FM_BUCKETS - 1,
    );
}

#[test]
fn bucket_centre_round_trips_to_same_bucket() {
    // The strongest invariant: for every bucket `i`, looking up the
    // bucket containing `bucket_centre_x10(i)` must return `i`. This
    // is what keeps the LCD cursor aligned with the bar the user just
    // tuned to.
    for i in 0..FM_BUCKETS {
        let mid = bucket_centre_x10(FM_BOTTOM_X10, FM_TOP_X10, FM_BUCKETS, i);
        let inv = freq_to_bucket(FM_BOTTOM_X10, FM_TOP_X10, FM_BUCKETS, mid);
        assert_eq!(inv, i, "round-trip mismatch: bucket {i} centre {mid} mapped to {inv}");
    }
}

#[test]
fn common_stations_land_in_expected_buckets() {
    // Spot-check well-known US frequencies to guard against off-by-one
    // when the formula is touched. These were computed by hand from
    // bottom + span * (2i + 1) / (2N) on the 52-bucket plan and so
    // are independent of the implementation under test.
    //
    // Span = 1080 - 875 = 205, N = 52, so bucket width = 205/52 ≈
    // 3.94 (in 0.1 MHz units, i.e. 0.394 MHz).
    let band = (FM_BOTTOM_X10, FM_TOP_X10, FM_BUCKETS);
    // 88.1 MHz → (881 - 875) * 52 / 205 = 312 / 205 ≈ 1
    assert_eq!(freq_to_bucket(band.0, band.1, band.2, 881), 1);
    // 101.5 MHz → (1015 - 875) * 52 / 205 = 7280 / 205 ≈ 35
    assert_eq!(freq_to_bucket(band.0, band.1, band.2, 1015), 35);
    // 107.9 MHz → (1079 - 875) * 52 / 205 = 10608 / 205 ≈ 51
    assert_eq!(freq_to_bucket(band.0, band.1, band.2, 1079), 51);
}

#[test]
fn zero_span_does_not_panic() {
    // Defensive: if a future band-plan ever has bottom == top the
    // routine must still return a valid bucket index without dividing
    // by zero. (The firmware can't currently reach this state but the
    // host test costs nothing to keep honest.)
    assert_eq!(freq_to_bucket(1000, 1000, 4, 1000), 0);
}
