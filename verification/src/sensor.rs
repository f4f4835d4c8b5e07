//! SHT3x temperature/humidity readings behind a TCA9548A mux.
//!
//! All sensors share one I2C address, so a TCA9548A 1-to-8 mux exposes them on
//! separate channels. For each reading the firmware selects the channel, kicks
//! off a measurement, waits for it to complete, then reads the result frame.
//! This module holds what those transfers carry and what their results mean:
//! the mux selection byte, the measurement command, the decoding of a result
//! frame, and the bank of the latest readings.
use crate::config::SENSOR_COUNT;
use crate::units::{
    celsius_raw_to_tenths_f, humi_raw_to_tenths, humi_tenths_of_raw, temp_tenths_of_raw, Tenths,
};
use vstd::prelude::*;

verus! {

/// SHT3x single-shot measurement command: high repeatability, clock stretching
/// disabled (datasheet command `0x2400`).
pub const SHT3X_MEASURE_CMD: [u8; 2] = [0x24, 0x00];

/// A completed SHT3x measurement is six bytes: temperature MSB/LSB/CRC followed
/// by humidity MSB/LSB/CRC.
pub const SHT3X_FRAME_LEN: usize = 6;

/// A single probe's result: either a valid temperature/humidity pair (in
/// tenths) or an error if the probe could not be read.
#[derive(Clone, Copy, Debug, PartialEq, Eq, Structural)]
pub enum Reading {
    Error,
    Valid { temp_tenths_f: Tenths, humi_tenths: Tenths },
}

impl Reading {
    /// The temperature a reading reports: its own for a valid reading,
    /// `i16::MIN` for an error.
    pub open spec fn spec_temp_tenths_f(self) -> Tenths {
        match self {
            Reading::Valid { temp_tenths_f, .. } => temp_tenths_f,
            Reading::Error => i16::MIN,
        }
    }

    /// The humidity a reading reports: its own for a valid reading,
    /// `i16::MIN` for an error.
    pub open spec fn spec_humi_tenths(self) -> Tenths {
        match self {
            Reading::Valid { humi_tenths, .. } => humi_tenths,
            Reading::Error => i16::MIN,
        }
    }

    /// Temperature in tenths of a degree Fahrenheit. Errors report `i16::MIN`,
    /// the lowest possible value, so error readings never trip the "too hot"
    /// comparisons in the control logic.
    pub fn temp_tenths_f(self) -> (t: Tenths)
        ensures
            t == self.spec_temp_tenths_f(),
    {
        match self {
            Reading::Valid { temp_tenths_f, .. } => temp_tenths_f,
            Reading::Error => i16::MIN,
        }
    }

    /// Relative humidity in tenths of a percent. Errors report `i16::MIN`; the
    /// control logic additionally gates on [`is_error`](Self::is_error) before
    /// trusting a humidity value.
    pub fn humi_tenths(self) -> (h: Tenths)
        ensures
            h == self.spec_humi_tenths(),
    {
        match self {
            Reading::Valid { humi_tenths, .. } => humi_tenths,
            Reading::Error => i16::MIN,
        }
    }

    /// Whether the probe could not be read.
    pub fn is_error(self) -> (e: bool)
        ensures
            e == (self is Error),
    {
        match self {
            Reading::Error => true,
            Reading::Valid { .. } => false,
        }
    }
}

impl Default for Reading {
    /// A probe that has not been read yet counts as failed.
    fn default() -> (r: Self)
        ensures
            r == Reading::Error,
    {
        Reading::Error
    }
}

/// The 16-bit big-endian word made of `hi` and `lo`.
pub open spec fn be_word(hi: u8, lo: u8) -> int {
    hi as int * 256 + lo as int
}

/// The reading a completed SHT3x result frame carries: temperature from bytes
/// 0 and 1, humidity from bytes 3 and 4 (bytes 2 and 5 are CRCs, unchecked).
pub open spec fn frame_reading(frame: Seq<u8>) -> Reading {
    Reading::Valid {
        temp_tenths_f: temp_tenths_of_raw(be_word(frame[0], frame[1])) as Tenths,
        humi_tenths: humi_tenths_of_raw(be_word(frame[3], frame[4])) as Tenths,
    }
}

fn be_word_of(hi: u8, lo: u8) -> (w: u16)
    ensures
        w as int == be_word(hi, lo),
{
    assert(((hi as u16) << 8u16 | (lo as u16)) as int == hi as int * 256 + lo as int)
        by (bit_vector);
    (hi as u16) << 8u16 | (lo as u16)
}

/// Decodes an SHT3x result frame. The 16-bit raw values are reassembled from
/// bytes 0-1 and 3-4, skipping the CRC byte after each; CRC validation is
/// intentionally omitted to save space.
pub fn decode_frame(frame: &[u8; SHT3X_FRAME_LEN]) -> (r: Reading)
    ensures
        r == frame_reading(frame@),
        r matches Reading::Valid { temp_tenths_f, humi_tenths } && -490 <= temp_tenths_f <= 2660
            && 0 <= humi_tenths <= 1000,
{
    let temp_raw = be_word_of(frame[0], frame[1]);
    let humi_raw = be_word_of(frame[3], frame[4]);
    Reading::Valid {
        temp_tenths_f: celsius_raw_to_tenths_f(temp_raw),
        humi_tenths: humi_raw_to_tenths(humi_raw),
    }
}

/// What one channel's transfer yields: a missing or unresponsive probe (the
/// measurement command or the frame read failed, given as `None`) degrades to
/// [`Reading::Error`] rather than stopping the rest of the bank; a frame read
/// in full is decoded.
pub fn reading_from_transfer(frame: Option<[u8; SHT3X_FRAME_LEN]>) -> (r: Reading)
    ensures
        r == (match frame {
            Some(f) => frame_reading(f@),
            None => Reading::Error,
        }),
{
    match frame {
        Some(f) => decode_frame(&f),
        None => Reading::Error,
    }
}

/// What one channel of a sweep yields: if routing the bus to it failed
/// (`selected` is false) or its probe did not answer, an error reading; else
/// the decoded frame. Any I2C failure on a channel ends there, as an error
/// reading for that channel.
pub open spec fn channel_reading(selected: bool, frame: Option<[u8; SHT3X_FRAME_LEN]>) -> Reading {
    if selected {
        match frame {
            Some(f) => frame_reading(f@),
            None => Reading::Error,
        }
    } else {
        Reading::Error
    }
}

/// The one-hot selection byte of a mux channel.
pub open spec fn mux_mask(channel: u8) -> u8 {
    1u8 << channel
}

/// The byte that routes the shared I2C bus to one downstream channel. The
/// TCA9548A enables a channel via a one-hot bitmask, so channel `n` is selected
/// by writing `1 << n`. The mux has eight channels; for any other channel
/// nothing is written (`None`).
pub fn mux_select_mask(channel: u8) -> (mask: Option<u8>)
    ensures
        channel > 7 ==> mask is None,
        channel <= 7 ==> mask == Some(mux_mask(channel)),
{
    if channel > 7 {
        return None;
    }
    Some(1u8 << channel)
}

/// Each of the eight mux channels has a mask of its own: it is nonzero and
/// shares no bit with the mask of any other channel.
pub proof fn law_mux_masks_one_hot(a: u8, b: u8)
    requires
        a <= 7,
        b <= 7,
    ensures
        mux_mask(a) != 0,
        a != b ==> mux_mask(a) & mux_mask(b) == 0,
{
    assert((1u8 << a) != 0) by (bit_vector)
        requires
            a <= 7,
    ;
    assert(a != b ==> (1u8 << a) & (1u8 << b) == 0) by (bit_vector)
        requires
            a <= 7,
            b <= 7,
    ;
}

/// The latest reading of every sensor channel.
#[derive(Clone, Copy, Debug)]
pub struct SensorBank {
    readings: [Reading; SENSOR_COUNT],
}

impl View for SensorBank {
    type V = Seq<Reading>;

    closed spec fn view(&self) -> Seq<Reading> {
        self.readings@
    }
}

impl SensorBank {
    /// The bank holds exactly one reading per sensor channel.
    pub proof fn lemma_len(&self)
        ensures
            self@.len() == SENSOR_COUNT,
    {
    }

    /// The latest reading of every channel, indexed by channel.
    pub fn readings(&self) -> (r: &[Reading; SENSOR_COUNT])
        ensures
            r@ == self@,
    {
        &self.readings
    }

    /// Records the reading just taken on `channel`; the other channels keep
    /// theirs.
    pub fn store(&mut self, channel: usize, reading: Reading)
        requires
            channel < SENSOR_COUNT,
        ensures
            final(self)@ == old(self)@.update(channel as int, reading),
    {
        self.readings[channel] = reading;
    }

    /// One step of a sweep: records what `channel` yielded. A failure on this
    /// channel (the mux selection or the probe) makes its reading an error and
    /// leaves every other channel as it was, so a single bad probe or a bad
    /// mux write never stops the rest of the bank from being read.
    pub fn record_channel(
        &mut self,
        channel: usize,
        selected: bool,
        frame: Option<[u8; SHT3X_FRAME_LEN]>,
    )
        requires
            channel < SENSOR_COUNT,
        ensures
            final(self)@ == old(self)@.update(channel as int, channel_reading(selected, frame)),
    {
        let reading = if selected {
            reading_from_transfer(frame)
        } else {
            Reading::Error
        };
        self.store(channel, reading);
    }
}

impl Default for SensorBank {
    /// Before the first sweep every channel reads as an error.
    fn default() -> (b: Self)
        ensures
            b@ == seq![Reading::Error, Reading::Error, Reading::Error, Reading::Error],
    {
        let b = SensorBank {
            readings: [Reading::Error, Reading::Error, Reading::Error, Reading::Error],
        };
        assert(b@ =~= seq![Reading::Error, Reading::Error, Reading::Error, Reading::Error]);
        b
    }
}

/// The bank after a sweep that recorded channels `0, 1, ...` in order, each
/// with its outcome (whether the mux selection succeeded, and the frame read,
/// if any).
pub open spec fn swept(bank: Seq<Reading>, outcomes: Seq<(bool, Option<[u8; SHT3X_FRAME_LEN]>)>) -> Seq<Reading>
    decreases outcomes.len(),
{
    if outcomes.len() == 0 {
        bank
    } else {
        swept(bank, outcomes.drop_last()).update(
            outcomes.len() - 1,
            channel_reading(outcomes.last().0, outcomes.last().1),
        )
    }
}

/// A sweep reads every channel on its own: whatever failed on other
/// channels, each swept channel holds exactly what its own transfers yielded,
/// and the channels not swept yet keep their readings.
pub proof fn law_sweep_reads_every_channel(
    bank: Seq<Reading>,
    outcomes: Seq<(bool, Option<[u8; SHT3X_FRAME_LEN]>)>,
)
    requires
        bank.len() == SENSOR_COUNT,
        outcomes.len() <= SENSOR_COUNT,
    ensures
        swept(bank, outcomes).len() == SENSOR_COUNT,
        forall|c: int|
            0 <= c < outcomes.len() ==> #[trigger] swept(bank, outcomes)[c] == channel_reading(
                outcomes[c].0,
                outcomes[c].1,
            ),
        forall|c: int|
            outcomes.len() <= c < SENSOR_COUNT ==> #[trigger] swept(bank, outcomes)[c] == bank[c],
    decreases outcomes.len(),
{
    if outcomes.len() > 0 {
        law_sweep_reads_every_channel(bank, outcomes.drop_last());
        assert forall|c: int| 0 <= c < outcomes.len() - 1 implies outcomes.drop_last()[c]
            == outcomes[c] by {}
    }
}

/// A result frame is read big-endian: the temperature is the datasheet
/// conversion (`-45 + 175 * w / 65535` degrees Celsius, to Fahrenheit, in
/// tenths, each division truncated) of the word `w = 256 * frame[0] +
/// frame[1]`, the humidity is `1000 * w / 65535` tenths of a percent of the
/// word `w = 256 * frame[3] + frame[4]`, and the CRC bytes 2 and 5 play no
/// part.
pub proof fn law_frame_is_big_endian(frame: Seq<u8>)
    requires
        frame.len() == SHT3X_FRAME_LEN,
    ensures
        ({
            let t = frame[0] as int * 256 + frame[1] as int;
            let h = frame[3] as int * 256 + frame[4] as int;
            let c = -45_000 + (175_000 * t) / 65535;
            let c9 = c * 9;
            let f = (if c9 >= 0 {
                c9 / 5
            } else {
                -((-c9) / 5)
            }) + 32_000;
            let tenths = if f >= 0 {
                f / 100
            } else {
                -((-f) / 100)
            };
            frame_reading(frame) == Reading::Valid {
                temp_tenths_f: tenths as i16,
                humi_tenths: ((1000 * h) / 65535) as i16,
            }
        }),
        forall|c2: u8, c5: u8|
            frame_reading(frame.update(2, c2).update(5, c5)) == frame_reading(frame),
{
    assert forall|c2: u8, c5: u8|
        frame_reading(frame.update(2, c2).update(5, c5)) == frame_reading(frame) by {
        let g = frame.update(2, c2).update(5, c5);
        assert(g[0] == frame[0] && g[1] == frame[1] && g[3] == frame[3] && g[4] == frame[4]);
    }
}

/// The mux selection byte of channel `n` is `2^n`: exactly the bit of that
/// channel and no other, for each of the eight channels.
pub proof fn law_mux_mask_values()
    ensures
        mux_mask(0) == 1,
        mux_mask(1) == 2,
        mux_mask(2) == 4,
        mux_mask(3) == 8,
        mux_mask(4) == 16,
        mux_mask(5) == 32,
        mux_mask(6) == 64,
        mux_mask(7) == 128,
{
    assert((1u8 << 0u8) == 1 && (1u8 << 1u8) == 2 && (1u8 << 2u8) == 4 && (1u8 << 3u8) == 8
        && (1u8 << 4u8) == 16 && (1u8 << 5u8) == 32 && (1u8 << 6u8) == 64 && (1u8 << 7u8) == 128)
        by (bit_vector);
}

/// A sweep step yields the decoded frame only when the mux selection and both
/// probe transfers succeeded; any failure gives an error reading.
pub proof fn law_channel_outcomes(frame: [u8; SHT3X_FRAME_LEN])
    ensures
        channel_reading(true, Some(frame)) == frame_reading(frame@),
        channel_reading(true, Some(frame)) != Reading::Error,
        channel_reading(false, Some(frame)) == Reading::Error,
        channel_reading(true, None) == Reading::Error,
        channel_reading(false, None) == Reading::Error,
{
}

} // verus!
