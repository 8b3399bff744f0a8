//! Driver logic of the Si4703 FM receiver.
//!
//! The chip has sixteen 16-bit registers. One bus read delivers all of them,
//! starting at register 10 and wrapping around; one bus write sets registers 2
//! to 7. The functions here take what a read delivered and return what has to
//! be written; waiting and bus transfers are the caller's.

pub mod ops;
pub mod rds;

use vstd::prelude::*;

use crate::bytes;
use crate::bytes::{high_byte, join16, low_byte};
use crate::si4703::ops::{RssiSweep, StationScan, StcKind, StcOp, StcPhase};
pub use crate::si4703::rds::{decode_rds_text, pty_label, RdsClockTime, RdsDecoder};

verus! {

/// Bus address of the chip.
pub const SI4703_ADDR: u8 = 0x10;

pub const REG_DEVICE_ID: usize = 0x00;
pub const REG_CHIP_ID: usize = 0x01;
pub const REG_POWER_CFG: usize = 0x02;
pub const REG_CHANNEL: usize = 0x03;
pub const REG_SYS_CFG1: usize = 0x04;
pub const REG_SYS_CFG2: usize = 0x05;
pub const REG_SYS_CFG3: usize = 0x06;
pub const REG_TEST1: usize = 0x07;
pub const REG_STATUS_RSSI: usize = 0x0A;
pub const REG_READ_CHAN: usize = 0x0B;
pub const REG_RDS_A: usize = 0x0C;
pub const REG_RDS_B: usize = 0x0D;
pub const REG_RDS_C: usize = 0x0E;
pub const REG_RDS_D: usize = 0x0F;

pub const PWR_DSMUTE: u16 = 0x8000;
pub const PWR_DMUTE: u16 = 0x4000;
pub const PWR_MONO: u16 = 0x2000;
pub const PWR_SEEKUP: u16 = 0x0200;
pub const PWR_SEEK: u16 = 0x0100;
pub const PWR_ENABLE: u16 = 0x0001;
pub const CHAN_TUNE: u16 = 0x8000;
pub const SYS_RDS_EN: u16 = 0x1000;
pub const SYS2_BAND_MASK: u16 = 0x00C0;
pub const SYS2_SPACE_MASK: u16 = 0x0030;
pub const STATUS_RDSR: u16 = 0x8000;
pub const STATUS_STC: u16 = 0x4000;
pub const STATUS_SF_BL: u16 = 0x2000;
pub const STATUS_ST: u16 = 0x0100;
pub const READCHAN_MASK: u16 = 0x03FF;
pub const TEST1_XOSCEN: u16 = 0x8000;

/// Pause between two looks at the seek/tune-complete flag (milliseconds).
pub const STC_POLL_MS: u64 = 50;

/// Looks at the seek/tune-complete flag before giving up.
pub const STC_POLLS: u8 = 100;

/// The four blocks of an RDS group.
pub type RdsBlocks = (u16, u16, u16, u16);

/// Frequency band. Frequencies are in units of 0.1 MHz.
#[derive(Clone, Copy, Debug, PartialEq, Eq, Structural)]
pub enum FmBand {
    /// 87.5 to 108.0 MHz.
    UsEurope,
    /// 76.0 to 108.0 MHz.
    JapanWide,
    /// 76.0 to 90.0 MHz.
    Japan,
}

impl FmBand {
    pub open spec fn bottom(self) -> u16 {
        match self {
            FmBand::UsEurope => 875,
            FmBand::JapanWide | FmBand::Japan => 760,
        }
    }

    pub open spec fn top(self) -> u16 {
        match self {
            FmBand::UsEurope | FmBand::JapanWide => 1080,
            FmBand::Japan => 900,
        }
    }

    pub open spec fn code(self) -> u16 {
        match self {
            FmBand::UsEurope => 0x0000,
            FmBand::JapanWide => 0x0040,
            FmBand::Japan => 0x0080,
        }
    }

    /// Lowest frequency of the band.
    pub fn bottom_freq_mhz_x10(self) -> (r: u16)
        ensures
            r == self.bottom(),
    {
        match self {
            FmBand::UsEurope => 875,
            FmBand::JapanWide | FmBand::Japan => 760,
        }
    }

    /// Highest frequency of the band.
    pub fn top_freq_mhz_x10(self) -> (r: u16)
        ensures
            r == self.top(),
    {
        match self {
            FmBand::UsEurope | FmBand::JapanWide => 1080,
            FmBand::Japan => 900,
        }
    }

    fn register_value(self) -> (r: u16)
        ensures
            r == self.code(),
    {
        match self {
            FmBand::UsEurope => 0x0000,
            FmBand::JapanWide => 0x0040,
            FmBand::Japan => 0x0080,
        }
    }
}

/// Distance between channels.
#[derive(Clone, Copy, Debug, PartialEq, Eq, Structural)]
pub enum ChannelSpacing {
    Spacing200K,
    Spacing100K,
    Spacing50K,
}

impl ChannelSpacing {
    pub open spec fn step(self) -> u16 {
        match self {
            ChannelSpacing::Spacing200K => 200,
            ChannelSpacing::Spacing100K => 100,
            ChannelSpacing::Spacing50K => 50,
        }
    }

    pub open spec fn code(self) -> u16 {
        match self {
            ChannelSpacing::Spacing200K => 0x0000,
            ChannelSpacing::Spacing100K => 0x0010,
            ChannelSpacing::Spacing50K => 0x0020,
        }
    }

    /// The spacing in kHz.
    pub fn khz(self) -> (r: u16)
        ensures
            r == self.step(),
    {
        match self {
            ChannelSpacing::Spacing200K => 200,
            ChannelSpacing::Spacing100K => 100,
            ChannelSpacing::Spacing50K => 50,
        }
    }

    fn register_value(self) -> (r: u16)
        ensures
            r == self.code(),
    {
        match self {
            ChannelSpacing::Spacing200K => 0x0000,
            ChannelSpacing::Spacing100K => 0x0010,
            ChannelSpacing::Spacing50K => 0x0020,
        }
    }
}

/// A station found by a scan.
#[derive(Clone, Copy, Debug, PartialEq, Eq, Structural)]
pub struct Station {
    pub freq_mhz_x10: u16,
    /// Signal strength, 0 to 75.
    pub rssi: u8,
}

impl Station {
    /// No station.
    pub fn empty() -> (r: Station)
        ensures
            r == (Station { freq_mhz_x10: 0, rssi: 0 }),
    {
        Station { freq_mhz_x10: 0, rssi: 0 }
    }

    /// Whole megahertz and the tenths.
    pub fn freq_parts(self) -> (r: (u16, u16))
        ensures
            r.0 == self.freq_mhz_x10 / 10,
            r.1 == self.freq_mhz_x10 % 10,
    {
        (self.freq_mhz_x10 / 10, self.freq_mhz_x10 % 10)
    }
}

/// Whole megahertz and the tenths of a frequency.
pub fn format_freq(freq_mhz_x10: u16) -> (r: (u16, u16))
    ensures
        r.0 == freq_mhz_x10 / 10,
        r.1 == freq_mhz_x10 % 10,
{
    (freq_mhz_x10 / 10, freq_mhz_x10 % 10)
}

#[derive(Clone, Copy, Debug, PartialEq, Eq, Structural)]
pub enum SeekDirection {
    Up,
    Down,
}

/// The registers that a bus read of 32 bytes delivers.
pub open spec fn registers_in(buf: Seq<u8>) -> Seq<u16> {
    Seq::new(16, |r: int| bytes::u16_of(buf[2 * ((r + 6) % 16)], buf[2 * ((r + 6) % 16) + 1]))
}

/// The 12 bytes that set registers 2 to 7.
pub open spec fn write_image(regs: Seq<u16>) -> Seq<u8> {
    Seq::new(
        12,
        |i: int|
            if i % 2 == 0 {
                bytes::hi8(regs[2 + i / 2])
            } else {
                bytes::lo8(regs[2 + i / 2])
            },
    )
}

/// The channel number of a frequency at or above the bottom of the band.
pub open spec fn channel_of(band: FmBand, spacing: ChannelSpacing, freq: u16) -> u16 {
    ((freq - band.bottom()) * 100 / spacing.step() as int) as u16
}

/// The frequency of a channel number.
pub open spec fn frequency_of(band: FmBand, spacing: ChannelSpacing, channel: u16) -> u16 {
    (band.bottom() + channel * spacing.step() / 100) as u16
}

/// A frequency of the band that lies on the channel grid is read back as it
/// was tuned.
pub proof fn law_channel_round_trip(band: FmBand, spacing: ChannelSpacing, freq: u16)
    requires
        band.bottom() <= freq <= band.top(),
        (freq - band.bottom()) * 100 % (spacing.step() as int) == 0,
    ensures
        channel_of(band, spacing, freq) <= READCHAN_MASK,
        frequency_of(band, spacing, channel_of(band, spacing, freq)) == freq,
{
    let d = freq - band.bottom();
    match spacing {
        ChannelSpacing::Spacing200K => {
            assert(d * 100 / 200 == d / 2);
            assert(d % 2 == 0);
        },
        ChannelSpacing::Spacing100K => {
            assert(d * 100 / 100 == d);
        },
        ChannelSpacing::Spacing50K => {
            assert(d * 100 / 50 == 2 * d);
        },
    }
}

/// A register that was written is read back as it was written, wherever the
/// chip keeps it: `read` delivers at its place the two bytes of the image.
pub proof fn law_written_register_reads_back(regs: Seq<u16>, read: Seq<u8>, r: int)
    requires
        regs.len() == 16,
        read.len() == 32,
        2 <= r <= 7,
        read[2 * ((r + 6) % 16)] == write_image(regs)[2 * (r - 2)],
        read[2 * ((r + 6) % 16) + 1] == write_image(regs)[2 * (r - 2) + 1],
    ensures
        registers_in(read)[r] == regs[r],
{
    bytes::lemma_u16_bytes(regs[r]);
}

/// A stage of the power-up sequence.
#[derive(Clone, Copy, Debug, PartialEq, Eq, Structural)]
pub enum InitStage {
    Oscillator,
    PowerUp,
    Configure,
}

/// What a stage of the power-up sequence writes, and how long to wait then.
#[derive(Clone, Copy, Debug)]
pub struct InitStep {
    pub write: [u8; 12],
    pub wait_ms: u64,
    pub next: Option<InitStage>,
}

/// Band, spacing, volume 5 and seek threshold 25 in system configuration 2.
pub open spec fn configured(reg: u16, band: FmBand, spacing: ChannelSpacing) -> u16 {
    (((((reg & !(SYS2_BAND_MASK | SYS2_SPACE_MASK)) | (band.code() | spacing.code())) & 0xFFF0u16)
        | 0x0005u16) & 0x00FFu16) | 0x1900u16
}

/// The registers after a stage of the power-up sequence, from those just read.
pub open spec fn init_registers(
    regs: Seq<u16>,
    stage: InitStage,
    band: FmBand,
    spacing: ChannelSpacing,
) -> Seq<u16> {
    match stage {
        InitStage::Oscillator => regs.update(7, regs[7] | TEST1_XOSCEN),
        InitStage::PowerUp => regs.update(2, PWR_DSMUTE | PWR_DMUTE | PWR_ENABLE),
        InitStage::Configure => regs.update(4, regs[4] | SYS_RDS_EN).update(
            5,
            configured(regs[5], band, spacing),
        ).update(6, 0x0004u16),
    }
}

/// The driver: a copy of the chip's registers, and the band plan.
pub struct Si4703 {
    regs: [u16; 16],
    band: FmBand,
    spacing: ChannelSpacing,
}

impl Si4703 {
    /// The copy of the registers.
    pub closed spec fn regs(&self) -> Seq<u16> {
        self.regs@
    }

    pub closed spec fn band_plan(&self) -> (FmBand, ChannelSpacing) {
        (self.band, self.spacing)
    }

    pub fn new(band: FmBand, spacing: ChannelSpacing) -> (r: Si4703)
        ensures
            r.band_plan() == (band, spacing),
            r.regs() == Seq::new(16, |i: int| 0u16),
    {
        let regs: [u16; 16] = [0, 0, 0, 0, 0, 0, 0, 0, 0, 0, 0, 0, 0, 0, 0, 0];
        assert(regs@ =~= Seq::new(16, |i: int| 0u16));
        Si4703 { regs, band, spacing }
    }

    pub fn band(&self) -> (r: FmBand)
        ensures
            r == self.band_plan().0,
    {
        self.band
    }

    pub fn spacing(&self) -> (r: ChannelSpacing)
        ensures
            r == self.band_plan().1,
    {
        self.spacing
    }

    /// Takes over what a bus read delivered.
    pub fn read_registers(&mut self, buf: &[u8; 32])
        ensures
            final(self).regs() == registers_in(buf@),
            final(self).band_plan() == old(self).band_plan(),
    {
        let mut reg: usize = 0;
        while reg < 16
            invariant
                0 <= reg <= 16,
                self.band == old(self).band,
                self.spacing == old(self).spacing,
                forall|j: int| 0 <= j < reg ==> #[trigger] self.regs@[j] == registers_in(buf@)[j],
            decreases 16 - reg,
        {
            let at: usize = 2 * ((reg + 6) % 16);
            self.regs[reg] = join16(buf[at], buf[at + 1]);
            reg = reg + 1;
        }
        assert(self.regs@ =~= registers_in(buf@));
    }

    /// The bytes that write registers 2 to 7.
    pub fn write_registers(&self) -> (r: [u8; 12])
        ensures
            r@ == write_image(self.regs()),
    {
        let r: [u8; 12] = [
            high_byte(self.regs[2]),
            low_byte(self.regs[2]),
            high_byte(self.regs[3]),
            low_byte(self.regs[3]),
            high_byte(self.regs[4]),
            low_byte(self.regs[4]),
            high_byte(self.regs[5]),
            low_byte(self.regs[5]),
            high_byte(self.regs[6]),
            low_byte(self.regs[6]),
            high_byte(self.regs[7]),
            low_byte(self.regs[7]),
        ];
        assert(r@ =~= write_image(self.regs@));
        r
    }

    /// One stage of the power-up sequence: takes what was read, says what to
    /// write and how long to wait before the next stage reads again.
    pub fn init(&mut self, stage: InitStage, read: &[u8; 32]) -> (r: InitStep)
        ensures
            final(self).band_plan() == old(self).band_plan(),
            final(self).regs() == init_registers(
                registers_in(read@),
                stage,
                old(self).band_plan().0,
                old(self).band_plan().1,
            ),
            r.write@ == write_image(final(self).regs()),
            match stage {
                InitStage::Oscillator => r.wait_ms == 500 && r.next == Some(InitStage::PowerUp),
                InitStage::PowerUp => r.wait_ms == 110 && r.next == Some(InitStage::Configure),
                InitStage::Configure => r.wait_ms == 110 && r.next is None,
            },
    {
        self.read_registers(read);
        let ghost regs = self.regs@;
        match stage {
            InitStage::Oscillator => {
                self.regs[REG_TEST1] = self.regs[REG_TEST1] | TEST1_XOSCEN;
                InitStep {
                    write: self.write_registers(),
                    wait_ms: 500,
                    next: Some(InitStage::PowerUp),
                }
            },
            InitStage::PowerUp => {
                self.regs[REG_POWER_CFG] = PWR_DSMUTE | PWR_DMUTE | PWR_ENABLE;
                InitStep {
                    write: self.write_registers(),
                    wait_ms: 110,
                    next: Some(InitStage::Configure),
                }
            },
            InitStage::Configure => {
                self.regs[REG_SYS_CFG1] = self.regs[REG_SYS_CFG1] | SYS_RDS_EN;
                let mut c: u16 = self.regs[REG_SYS_CFG2];
                c = c & !(SYS2_BAND_MASK | SYS2_SPACE_MASK);
                c = c | (self.band.register_value() | self.spacing.register_value());
                c = c & 0xFFF0;
                c = c | 0x0005;
                c = c & 0x00FF;
                c = c | 0x1900;
                self.regs[REG_SYS_CFG2] = c;
                self.regs[REG_SYS_CFG3] = 0x0004;
                InitStep { write: self.write_registers(), wait_ms: 110, next: None }
            },
        }
    }

    /// Sets the volume, 0 to 15; more counts as 15.
    pub fn set_volume(&mut self, read: &[u8; 32], volume: u8) -> (r: [u8; 12])
        ensures
            final(self).band_plan() == old(self).band_plan(),
            ({
                let regs = registers_in(read@);
                let vol = if volume > 15 {
                    15u16
                } else {
                    volume as u16
                };
                final(self).regs() == regs.update(5, (regs[5] & 0xFFF0u16) | vol)
            }),
            r@ == write_image(final(self).regs()),
    {
        let vol: u16 = if volume > 15 {
            15
        } else {
            volume as u16
        };
        self.read_registers(read);
        self.regs[REG_SYS_CFG2] = (self.regs[REG_SYS_CFG2] & 0xFFF0) | vol;
        self.write_registers()
    }

    /// The volume, 0 to 15.
    pub fn volume(&self) -> (r: u8)
        ensures
            r == (self.regs()[5] & 0x000Fu16) as u8,
    {
        (self.regs[REG_SYS_CFG2] & 0x000F) as u8
    }

    /// Mutes or unmutes the audio output.
    pub fn set_mute(&mut self, read: &[u8; 32], mute: bool) -> (r: [u8; 12])
        ensures
            final(self).band_plan() == old(self).band_plan(),
            ({
                let regs = registers_in(read@);
                final(self).regs() == regs.update(
                    2,
                    if mute {
                        regs[2] & !PWR_DMUTE
                    } else {
                        regs[2] | PWR_DMUTE
                    },
                )
            }),
            r@ == write_image(final(self).regs()),
    {
        self.read_registers(read);
        if mute {
            self.regs[REG_POWER_CFG] = self.regs[REG_POWER_CFG] & !PWR_DMUTE;
        } else {
            self.regs[REG_POWER_CFG] = self.regs[REG_POWER_CFG] | PWR_DMUTE;
        }
        self.write_registers()
    }

    /// Forces mono, or allows stereo.
    pub fn set_mono(&mut self, read: &[u8; 32], mono: bool) -> (r: [u8; 12])
        ensures
            final(self).band_plan() == old(self).band_plan(),
            ({
                let regs = registers_in(read@);
                final(self).regs() == regs.update(
                    2,
                    if mono {
                        regs[2] | PWR_MONO
                    } else {
                        regs[2] & !PWR_MONO
                    },
                )
            }),
            r@ == write_image(final(self).regs()),
    {
        self.read_registers(read);
        if mono {
            self.regs[REG_POWER_CFG] = self.regs[REG_POWER_CFG] | PWR_MONO;
        } else {
            self.regs[REG_POWER_CFG] = self.regs[REG_POWER_CFG] & !PWR_MONO;
        }
        self.write_registers()
    }

    /// The frequency that the chip is tuned to.
    pub fn current_frequency(&mut self, read: &[u8; 32]) -> (r: u16)
        ensures
            final(self).regs() == registers_in(read@),
            final(self).band_plan() == old(self).band_plan(),
            r == frequency_of(
                old(self).band_plan().0,
                old(self).band_plan().1,
                registers_in(read@)[11] & READCHAN_MASK,
            ),
    {
        self.read_registers(read);
        let channel: u16 = self.regs[REG_READ_CHAN] & READCHAN_MASK;
        let reg: u16 = self.regs[REG_READ_CHAN];
        assert(reg & 0x03FFu16 <= 0x03FFu16) by (bit_vector);
        let bottom: u16 = self.band.bottom_freq_mhz_x10();
        let spacing_khz: u16 = self.spacing.khz();
        assert(channel as int * spacing_khz as int <= 1023 * 200) by (nonlinear_arith)
            requires
                0 <= channel <= 1023,
                0 <= spacing_khz <= 200,
        ;
        bottom + (channel as u32 * spacing_khz as u32 / 100) as u16
    }

    /// The signal strength.
    pub fn rssi(&mut self, read: &[u8; 32]) -> (r: u8)
        ensures
            final(self).regs() == registers_in(read@),
            final(self).band_plan() == old(self).band_plan(),
            r == (registers_in(read@)[10] & 0x00FFu16) as u8,
    {
        self.read_registers(read);
        (self.regs[REG_STATUS_RSSI] & 0x00FF) as u8
    }

    /// The signal strength, and whether a stereo pilot is being received.
    pub fn rssi_stereo(&mut self, read: &[u8; 32]) -> (r: (u8, bool))
        ensures
            final(self).regs() == registers_in(read@),
            final(self).band_plan() == old(self).band_plan(),
            r.0 == (registers_in(read@)[10] & 0x00FFu16) as u8,
            r.1 == (registers_in(read@)[10] & STATUS_ST != 0),
    {
        self.read_registers(read);
        let rssi: u8 = (self.regs[REG_STATUS_RSSI] & 0x00FF) as u8;
        let stereo: bool = (self.regs[REG_STATUS_RSSI] & STATUS_ST) != 0;
        (rssi, stereo)
    }

    /// Whether a stereo pilot is being received.
    pub fn is_stereo(&mut self, read: &[u8; 32]) -> (r: bool)
        ensures
            final(self).regs() == registers_in(read@),
            final(self).band_plan() == old(self).band_plan(),
            r == (registers_in(read@)[10] & STATUS_ST != 0),
    {
        self.read_registers(read);
        (self.regs[REG_STATUS_RSSI] & STATUS_ST) != 0
    }

    /// The RDS group that has arrived, if there is one.
    pub fn read_rds(&mut self, read: &[u8; 32]) -> (r: Option<RdsBlocks>)
        ensures
            final(self).regs() == registers_in(read@),
            final(self).band_plan() == old(self).band_plan(),
            ({
                let regs = registers_in(read@);
                r == (if regs[10] & STATUS_RDSR != 0 {
                    Some((regs[12], regs[13], regs[14], regs[15]))
                } else {
                    None
                })
            }),
    {
        self.read_registers(read);
        if (self.regs[REG_STATUS_RSSI] & STATUS_RDSR) != 0 {
            Some(
                (
                    self.regs[REG_RDS_A],
                    self.regs[REG_RDS_B],
                    self.regs[REG_RDS_C],
                    self.regs[REG_RDS_D],
                ),
            )
        } else {
            None
        }
    }

    /// One register of the copy.
    pub fn register(&self, index: usize) -> (r: u16)
        requires
            index < 16,
        ensures
            r == self.regs()[index as int],
    {
        self.regs[index]
    }

    /// Changes one register of the copy.
    pub fn set_register(&mut self, index: usize, value: u16)
        requires
            index < 16,
        ensures
            final(self).regs() == old(self).regs().update(index as int, value),
            final(self).band_plan() == old(self).band_plan(),
    {
        self.regs[index] = value;
    }

    /// Tunes to a frequency, step by step. The frequency must not lie below the
    /// band.
    pub fn tune(&self, freq_mhz_x10: u16) -> (r: StcOp)
        requires
            freq_mhz_x10 >= self.band_plan().0.bottom(),
        ensures
            r == (StcOp { kind: StcKind::Tune(freq_mhz_x10), phase: StcPhase::Starting }),
            r.wf(self.band_plan().0),
    {
        StcOp::new(StcKind::Tune(freq_mhz_x10))
    }

    /// Seeks the next station, step by step.
    pub fn seek(&self, direction: SeekDirection) -> (r: StcOp)
        ensures
            r == (StcOp { kind: StcKind::Seek(direction), phase: StcPhase::Starting }),
            r.wf(self.band_plan().0),
    {
        StcOp::new(StcKind::Seek(direction))
    }

    /// Scans the band for stations: where to tune first, and the scan that then
    /// goes on from seek to seek.
    pub fn scan_stations(&self, max_stations: usize) -> (r: (u16, StationScan))
        ensures
            r.0 == self.band_plan().0.bottom(),
            r.1.wf(),
            r.1.stations@ == Seq::<Station>::empty(),
            r.1.max_stations == max_stations,
    {
        (self.band.bottom_freq_mhz_x10(), StationScan::new(max_stations))
    }

    /// Sweeps the band, bucket by bucket.
    pub fn sweep_rssi(&self, buckets: usize) -> (r: RssiSweep)
        ensures
            r.wf(),
            r.samples() == Seq::<u8>::empty(),
            r.buckets() == buckets,
            r.limits() == (self.band_plan().0.bottom(), self.band_plan().0.top()),
    {
        RssiSweep::new(self.band, buckets)
    }

    pub fn device_id(&self) -> (r: u16)
        ensures
            r == self.regs()[0],
    {
        self.regs[REG_DEVICE_ID]
    }

    pub fn chip_id(&self) -> (r: u16)
        ensures
            r == self.regs()[1],
    {
        self.regs[REG_CHIP_ID]
    }
}

/// A volume that was set is the volume that is reported.
pub proof fn law_volume_reads_back(reg: u16, vol: u16)
    requires
        vol <= 15,
    ensures
        (((reg & 0xFFF0u16) | vol) & 0x000Fu16) == vol,
        (((reg & 0xFFF0u16) | vol) & 0xFFF0u16) == reg & 0xFFF0u16,
{
    assert((((reg & 0xFFF0u16) | vol) & 0x000Fu16) == vol && (((reg & 0xFFF0u16) | vol) & 0xFFF0u16)
        == reg & 0xFFF0u16) by (bit_vector)
        requires
            vol <= 15,
    ;
}

/// Muting and unmuting change nothing but the mute bit, and undo each other.
pub proof fn law_mute_changes_one_bit(reg: u16)
    ensures
        (reg & !PWR_DMUTE) & PWR_DMUTE == 0,
        (reg | PWR_DMUTE) & PWR_DMUTE == PWR_DMUTE,
        (reg & !PWR_DMUTE) & !PWR_DMUTE == reg & !PWR_DMUTE,
        (reg | PWR_DMUTE) & !PWR_DMUTE == reg & !PWR_DMUTE,
        ((reg & !PWR_DMUTE) | PWR_DMUTE) == (reg | PWR_DMUTE),
{
    assert((reg & !0x4000u16) & 0x4000u16 == 0 && (reg | 0x4000u16) & 0x4000u16 == 0x4000u16 && (reg
        & !0x4000u16) & !0x4000u16 == reg & !0x4000u16 && (reg | 0x4000u16) & !0x4000u16 == reg
        & !0x4000u16 && ((reg & !0x4000u16) | 0x4000u16) == (reg | 0x4000u16)) by (bit_vector);
}

/// A bus read starts at register 10 and goes round: its byte pair `j`, high byte
/// first, is register `10 + j`, counted round sixteen. A bus write sets registers
/// 2 to 7 in their order, high byte first.
pub proof fn law_bus_transfers_go_by_the_register_map(buf: Seq<u8>, regs: Seq<u16>, j: int, i: int)
    requires
        buf.len() == 32,
        regs.len() == 16,
        0 <= j < 16,
        0 <= i < 6,
    ensures
        registers_in(buf).len() == 16,
        registers_in(buf)[(10 + j) % 16] == buf[2 * j] * 256 + buf[2 * j + 1],
        write_image(regs).len() == 12,
        write_image(regs)[2 * i] * 256 + write_image(regs)[2 * i + 1] == regs[2 + i],
{
    let r = (10 + j) % 16;
    assert((r + 6) % 16 == j);
    assert((2 * i) / 2 == i && (2 * i) % 2 == 0 && (2 * i + 1) / 2 == i && (2 * i + 1) % 2 == 1);
}

/// Channels are counted from the bottom of the band, one for every step.
pub proof fn law_channels_count_from_the_bottom(band: FmBand, c: u16)
    requires
        c <= 1023,
    ensures
        ({
            let bottom = match band {
                FmBand::UsEurope => 875int,
                FmBand::JapanWide => 760,
                FmBand::Japan => 760,
            };
            &&& frequency_of(band, ChannelSpacing::Spacing200K, c) == bottom + 2 * c
            &&& frequency_of(band, ChannelSpacing::Spacing100K, c) == bottom + c
            &&& frequency_of(band, ChannelSpacing::Spacing50K, c) == bottom + c / 2
            &&& channel_of(band, ChannelSpacing::Spacing200K, (bottom + 2 * c) as u16) == c
            &&& channel_of(band, ChannelSpacing::Spacing100K, (bottom + c) as u16) == c
            &&& channel_of(band, ChannelSpacing::Spacing50K, (bottom + c / 2) as u16) == c / 2 * 2
            &&& band.top() == (if band == FmBand::Japan {
                900
            } else {
                1080int
            })
        }),
{
    assert(c * 200 / 100 == 2 * c);
    assert(c * 100 / 100 == c);
    assert(c * 50 / 100 == c / 2);
    assert((2 * c) * 100 / 200 == c);
    assert((c / 2) as int * 100 / 50 == c / 2 * 2);
}

/// The tuner is set up for its band and spacing, with volume 5 and seek threshold
/// 25, whatever stood in that register before.
pub proof fn law_setup_is_for_the_band(reg: u16, band: FmBand, spacing: ChannelSpacing)
    ensures
        configured(reg, band, spacing) == 0x1905 + (match band {
            FmBand::UsEurope => 0int,
            FmBand::JapanWide => 0x40,
            FmBand::Japan => 0x80,
        }) + (match spacing {
            ChannelSpacing::Spacing200K => 0int,
            ChannelSpacing::Spacing100K => 0x10,
            ChannelSpacing::Spacing50K => 0x20,
        }),
{
    let b = band.code();
    let s = spacing.code();
    assert((((((reg & !(0x00C0u16 | 0x0030u16)) | (b | s)) & 0xFFF0u16) | 0x0005u16) & 0x00FFu16)
        | 0x1900u16 == 0x1905u16 + b + s) by (bit_vector)
        requires
            b == 0 || b == 0x40 || b == 0x80,
            s == 0 || s == 0x10 || s == 0x20,
    ;
}

/// Power-up goes in three stages: the oscillator is started, then the chip is
/// enabled with its output on, then it is configured with RDS on. No stage
/// touches another register.
pub proof fn law_power_up_sets_what_each_stage_needs(
    regs: Seq<u16>,
    band: FmBand,
    spacing: ChannelSpacing,
    i: int,
)
    requires
        regs.len() == 16,
        0 <= i < 16,
    ensures
        ({
            let oscillator = init_registers(regs, InitStage::Oscillator, band, spacing);
            let power = init_registers(regs, InitStage::PowerUp, band, spacing);
            let configure = init_registers(regs, InitStage::Configure, band, spacing);
            &&& oscillator[7] == regs[7] | 0x8000u16
            &&& power[2] == 0xC001
            &&& configure[4] == regs[4] | 0x1000u16
            &&& configure[5] == configured(regs[5], band, spacing)
            &&& configure[6] == 4
            &&& i != 7 ==> oscillator[i] == regs[i]
            &&& i != 2 ==> power[i] == regs[i]
            &&& i != 4 && i != 5 && i != 6 ==> configure[i] == regs[i]
        }),
{
    assert(0x8000u16 | 0x4000u16 | 0x0001u16 == 0xC001u16) by (bit_vector);
}

} // verus!
