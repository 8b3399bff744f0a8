use radio::si4703::ops::{ScanStep, StcEvent, StcStep};
use radio::si4703::{
    format_freq, ChannelSpacing, FmBand, InitStage, SeekDirection, Si4703, Station, PWR_DMUTE,
    PWR_MONO, PWR_SEEK, PWR_SEEKUP, REG_CHANNEL, REG_POWER_CFG, REG_READ_CHAN, REG_STATUS_RSSI,
    REG_SYS_CFG1, REG_SYS_CFG2, REG_SYS_CFG3, REG_TEST1, STATUS_SF_BL, STATUS_STC,
};

const IDLE: [u8; 32] = [0; 32];

/// What the bus delivers when the given registers hold these values.
fn frame(regs: &[(usize, u16)]) -> [u8; 32] {
    let mut buf = [0u8; 32];
    for (r, v) in regs {
        let at = 2 * ((r + 6) % 16);
        buf[at..at + 2].copy_from_slice(&v.to_be_bytes());
    }
    buf
}

fn chip() -> Si4703 {
    Si4703::new(FmBand::UsEurope, ChannelSpacing::Spacing100K)
}

#[test]
fn registers_keep_their_places_on_the_bus() {
    let mut c = chip();
    let mut buf = [0u8; 32];
    for (i, b) in buf.iter_mut().enumerate() {
        *b = i as u8;
    }
    c.read_registers(&buf);
    assert_eq!(c.register(0x0A), 0x0001);
    assert_eq!(c.register(0x0F), 0x0A0B);
    assert_eq!(c.register(0x00), 0x0C0D);
    assert_eq!(c.register(0x02), 0x1011);
    assert_eq!(c.device_id(), 0x0C0D);
    assert_eq!(c.chip_id(), 0x0E0F);
    assert_eq!(
        c.write_registers(),
        [0x10, 0x11, 0x12, 0x13, 0x14, 0x15, 0x16, 0x17, 0x18, 0x19, 0x1A, 0x1B]
    );
}

#[test]
fn power_up_has_three_stages() {
    let mut c = chip();
    let a = c.init(InitStage::Oscillator, &frame(&[(REG_TEST1, 0x0100)]));
    assert_eq!((a.wait_ms, a.next), (500, Some(InitStage::PowerUp)));
    assert_eq!(c.register(REG_TEST1), 0x8100);
    let b = c.init(InitStage::PowerUp, &IDLE);
    assert_eq!((b.wait_ms, b.next), (110, Some(InitStage::Configure)));
    assert_eq!(c.register(REG_POWER_CFG), 0xC001);
    let e = c.init(InitStage::Configure, &frame(&[(REG_SYS_CFG2, 0xFFFF)]));
    assert_eq!((e.wait_ms, e.next), (110, None));
    assert_eq!(c.register(REG_SYS_CFG1), 0x1000);
    assert_eq!(c.register(REG_SYS_CFG2), 0x1915);
    assert_eq!(c.register(REG_SYS_CFG3), 0x0004);
    assert_eq!(&e.write[6..8], &[0x19, 0x15]);
}

#[test]
fn volume_is_read_back_as_set() {
    let mut c = chip();
    for v in 0..=15u8 {
        let w = c.set_volume(&frame(&[(REG_SYS_CFG2, 0x191F)]), v);
        assert_eq!(c.volume(), v);
        assert_eq!(w[7], 0x10 | v);
    }
    c.set_volume(&IDLE, 99);
    assert_eq!(c.volume(), 15);
}

#[test]
fn mute_and_mono_change_one_bit_each() {
    let mut c = chip();
    c.set_mute(&frame(&[(REG_POWER_CFG, 0xC001)]), true);
    assert_eq!(c.register(REG_POWER_CFG), 0xC001 & !PWR_DMUTE);
    c.set_mute(&frame(&[(REG_POWER_CFG, 0x8001)]), false);
    assert_eq!(c.register(REG_POWER_CFG), 0xC001);
    c.set_mono(&frame(&[(REG_POWER_CFG, 0xC001)]), true);
    assert_eq!(c.register(REG_POWER_CFG), 0xC001 | PWR_MONO);
    c.set_mono(&frame(&[(REG_POWER_CFG, 0xE001)]), false);
    assert_eq!(c.register(REG_POWER_CFG), 0xC001);
}

#[test]
fn status_register_tells_signal_and_groups() {
    let mut c = chip();
    let read = frame(&[(REG_STATUS_RSSI, 0x812A), (12, 1), (13, 2), (14, 3), (15, 4)]);
    assert_eq!(c.rssi(&read), 42);
    assert_eq!(c.rssi_stereo(&read), (42, true));
    assert!(c.is_stereo(&read));
    assert_eq!(c.read_rds(&read), Some((1, 2, 3, 4)));
    assert_eq!(c.read_rds(&frame(&[(REG_STATUS_RSSI, 0x002A), (12, 1)])), None);
}

#[test]
fn frequency_follows_from_the_channel() {
    let mut c = chip();
    assert_eq!(c.current_frequency(&frame(&[(REG_READ_CHAN, 0xFC00 | 140)])), 1015);
    let mut wide = Si4703::new(FmBand::UsEurope, ChannelSpacing::Spacing200K);
    assert_eq!(wide.current_frequency(&frame(&[(REG_READ_CHAN, 70)])), 1015);
    let mut fine = Si4703::new(FmBand::Japan, ChannelSpacing::Spacing50K);
    assert_eq!(fine.current_frequency(&frame(&[(REG_READ_CHAN, 20)])), 770);
    assert_eq!(format_freq(1015), (101, 5));
    assert_eq!(Station { freq_mhz_x10: 875, rssi: 1 }.freq_parts(), (87, 5));
    assert_eq!(Station::empty(), Station { freq_mhz_x10: 0, rssi: 0 });
}

#[test]
fn tune_replaces_the_whole_channel_number() {
    let mut c = Si4703::new(FmBand::JapanWide, ChannelSpacing::Spacing50K);
    let mut op = c.tune(760);
    op.step(&mut c, StcEvent::Read, &frame(&[(REG_CHANNEL, 640)]));
    assert_eq!(c.register(REG_CHANNEL), 0x8000);
    let mut op = c.tune(1080);
    op.step(&mut c, StcEvent::Read, &frame(&[(REG_CHANNEL, 0x7FFF)]));
    assert_eq!(c.register(REG_CHANNEL), 0xFC00 | 640);
}

#[test]
fn tune_waits_for_completion_and_clears_its_bit() {
    let mut c = chip();
    let mut op = c.tune(1015);
    assert_eq!(op.step(&mut c, StcEvent::Read, &frame(&[(REG_CHANNEL, 0x01FF)])), StcStep::Write);
    assert_eq!(c.register(REG_CHANNEL), 0x8000 | 140);
    assert_eq!(op.step(&mut c, StcEvent::Written, &IDLE), StcStep::Wait(50));
    assert_eq!(op.step(&mut c, StcEvent::Waited, &IDLE), StcStep::Read);
    assert_eq!(op.step(&mut c, StcEvent::Read, &IDLE), StcStep::Wait(50));
    assert_eq!(op.step(&mut c, StcEvent::Waited, &IDLE), StcStep::Read);
    let done = frame(&[(REG_STATUS_RSSI, STATUS_STC), (REG_CHANNEL, 0x8000 | 140)]);
    assert_eq!(op.step(&mut c, StcEvent::Read, &done), StcStep::Read);
    assert_eq!(op.step(&mut c, StcEvent::Read, &done), StcStep::Write);
    assert_eq!(c.register(REG_CHANNEL), 140);
    assert_eq!(op.step(&mut c, StcEvent::Written, &IDLE), StcStep::TuneDone(true));
}

#[test]
fn tune_gives_up_after_five_seconds() {
    let mut c = chip();
    let mut op = c.tune(875);
    op.step(&mut c, StcEvent::Read, &IDLE);
    let mut step = op.step(&mut c, StcEvent::Written, &IDLE);
    let mut waited = 0;
    while let StcStep::Wait(ms) = step {
        waited += ms;
        assert_eq!(op.step(&mut c, StcEvent::Waited, &IDLE), StcStep::Read);
        step = op.step(&mut c, StcEvent::Read, &IDLE);
    }
    assert_eq!(waited, 5000);
    assert_eq!(step, StcStep::Read);
    assert_eq!(op.step(&mut c, StcEvent::Read, &IDLE), StcStep::Write);
    assert_eq!(op.step(&mut c, StcEvent::Written, &IDLE), StcStep::TuneDone(false));
}

#[test]
fn seek_reports_what_it_found() {
    let mut c = chip();
    let mut op = c.seek(SeekDirection::Up);
    op.step(&mut c, StcEvent::Read, &frame(&[(REG_POWER_CFG, 0xC001)]));
    assert_eq!(c.register(REG_POWER_CFG), 0xC001 | PWR_SEEKUP | PWR_SEEK);
    op.step(&mut c, StcEvent::Written, &IDLE);
    op.step(&mut c, StcEvent::Waited, &IDLE);
    let done = frame(&[(REG_STATUS_RSSI, STATUS_STC), (REG_POWER_CFG, 0xC301)]);
    assert_eq!(op.step(&mut c, StcEvent::Read, &done), StcStep::Write);
    assert_eq!(c.register(REG_POWER_CFG), 0xC201);
    assert_eq!(op.step(&mut c, StcEvent::Written, &IDLE), StcStep::Read);
    let found = frame(&[(REG_READ_CHAN, 25)]);
    assert_eq!(op.step(&mut c, StcEvent::Read, &found), StcStep::SeekDone(Some(900)));
}

#[test]
fn seek_that_reaches_the_band_limit_finds_nothing() {
    let mut c = chip();
    let mut op = c.seek(SeekDirection::Down);
    op.step(&mut c, StcEvent::Read, &frame(&[(REG_POWER_CFG, 0xC201)]));
    assert_eq!(c.register(REG_POWER_CFG), 0xC001 | PWR_SEEK);
    op.step(&mut c, StcEvent::Written, &IDLE);
    op.step(&mut c, StcEvent::Waited, &IDLE);
    let failed = frame(&[(REG_STATUS_RSSI, STATUS_STC | STATUS_SF_BL)]);
    assert_eq!(op.step(&mut c, StcEvent::Read, &failed), StcStep::Write);
    assert_eq!(op.step(&mut c, StcEvent::Written, &IDLE), StcStep::SeekDone(None));
}

#[test]
fn scan_ends_where_it_began() {
    let (first, mut scan) = chip().scan_stations(3);
    assert_eq!(first, 875);
    assert_eq!(scan.next(), ScanStep::SeekUp);
    assert_eq!(scan.on_seek(Some(900)), ScanStep::Measure(900));
    assert_eq!(scan.on_rssi(900, 30), ScanStep::SeekUp);
    assert_eq!(scan.on_seek(Some(950)), ScanStep::Measure(950));
    assert_eq!(scan.on_rssi(950, 40), ScanStep::SeekUp);
    assert_eq!(scan.on_seek(Some(900)), ScanStep::Done);
    assert_eq!(scan.on_seek(None), ScanStep::Done);
    assert_eq!(scan.on_rssi(1000, 10), ScanStep::Done);
    assert_eq!(scan.stations.len(), 3);
    assert_eq!(scan.stations[1], Station { freq_mhz_x10: 950, rssi: 40 });
}

#[test]
fn sweep_samples_every_bucket() {
    let mut sweep = chip().sweep_rssi(52);
    assert_eq!(sweep.next(), Some(876));
    let mut n = 0u8;
    while let Some(freq) = sweep.next() {
        assert!(freq >= 875 && freq < 1080);
        sweep.record(if n == 3 { None } else { Some(n) });
        n += 1;
    }
    assert_eq!(n, 52);
    let samples = sweep.into_samples();
    assert_eq!((samples[2], samples[3], samples[51]), (2, 0, 51));
}
