use radio::crc::crc32;
use radio::rotary_encoder::{
    handle_pcnt_overflow, Direction, EncoderConfig, EncoderError, HardwareTook, RotaryEncoder,
};

const TOOK: HardwareTook = HardwareTook { low_limit: true, high_limit: true, filter: true };

#[test]
fn configuration_is_checked() {
    let good = EncoderConfig::default();
    assert_eq!((good.filter_threshold, good.high_limit, good.low_limit), (800, 100, -100));
    assert_eq!(good.validate(), Ok(Some(800)));
    assert_eq!(EncoderConfig { filter_threshold: 0, ..good }.validate(), Ok(None));
    assert_eq!(
        EncoderConfig { filter_threshold: 1024, ..good }.validate(),
        Err(EncoderError::InvalidFilterThreshold)
    );
    assert_eq!(
        EncoderConfig { high_limit: 0, ..good }.validate(),
        Err(EncoderError::InvalidHighLimit)
    );
    assert_eq!(
        EncoderConfig { low_limit: 0, ..good }.validate(),
        Err(EncoderError::InvalidLowLimit)
    );
}

#[test]
fn hardware_may_refuse() {
    let c = EncoderConfig::default();
    let new = |c, took| RotaryEncoder::new(c, took).err();
    assert_eq!(new(c, TOOK), None);
    let low = HardwareTook { low_limit: false, high_limit: false, filter: false };
    assert_eq!(new(c, low), Some(EncoderError::InvalidLowLimit));
    let high = HardwareTook { high_limit: false, ..TOOK };
    assert_eq!(new(c, high), Some(EncoderError::InvalidHighLimit));
    let filter = HardwareTook { filter: false, ..TOOK };
    assert_eq!(new(c, filter), Some(EncoderError::InvalidFilterThreshold));
    assert_eq!(new(EncoderConfig { filter_threshold: 0, ..c }, filter), None);
}

#[test]
fn count_goes_on_at_the_limits() {
    let mut e = RotaryEncoder::new(EncoderConfig::default(), TOOK).unwrap();
    assert_eq!(e.value(100), 100);
    e.handle_interrupt(true, true, false);
    assert_eq!(e.value(0), 100);
    assert_eq!(e.delta(5), 105);
    assert_eq!(e.delta(5), 0);
    assert_eq!(e.direction(3), Direction::CounterClockwise);
    assert_eq!(e.direction(4), Direction::Clockwise);
    assert_eq!(e.direction(4), Direction::Still);
    e.handle_interrupt(true, false, true);
    assert_eq!(e.value(0), 0);
    e.handle_interrupt(false, true, true);
    assert_eq!(e.value(7), 7);
    e.reset();
    assert_eq!((e.overflow, e.last_value), (0, 0));
    assert_eq!(e.config().high_limit, 100);
}

#[test]
fn accumulator_goes_round() {
    assert_eq!(handle_pcnt_overflow(i32::MAX, true, true, false, 1, -1), i32::MIN);
    assert_eq!(handle_pcnt_overflow(i32::MIN, true, false, true, 1, -1), i32::MAX);
    assert_eq!(handle_pcnt_overflow(5, true, false, false, 1, -1), 5);
}

#[test]
fn checksum_is_the_usual_one() {
    assert_eq!(crc32(b"123456789"), 0xCBF4_3926);
    assert_eq!(crc32(b""), 0);
}
