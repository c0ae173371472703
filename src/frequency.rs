//! Conversion between transform bins and frequencies in Hertz.
//!
//! Bin `b` of a transform over `fft_size` points of a signal sampled at
//! `sample_rate` Hz stands for `b * sample_rate / fft_size` Hz.
use vstd::prelude::*;

verus! {

/// The lower edge of the displayed frequency range by default, in Hz.
pub const DEFAULT_START_FREQ: u32 = 20;

/// The upper edge of the displayed frequency range by default, in Hz.
pub const DEFAULT_END_FREQ: u32 = 20_000;

/// The sampling configuration and displayed range that bins are mapped by.
#[derive(Debug, Clone, Copy, PartialEq, Eq, Structural)]
pub struct FrequencyMapper {
    /// Samples per second, as the capture device reports it.
    pub sample_rate: u32,
    /// Points of the transform, padding included.
    pub fft_size: u32,
    /// Lower edge of the displayed range, in Hz.
    pub start_freq: u32,
    /// Upper edge of the displayed range, in Hz.
    pub end_freq: u32,
}

/// The bin that `hz` falls in: `floor(hz * fft_size / sample_rate)`.
pub open spec fn bin_of(hz: int, fft_size: int, sample_rate: int) -> int {
    hz * fft_size / sample_rate
}

impl FrequencyMapper {
    /// The sample rate is positive.
    pub open spec fn wf(&self) -> bool {
        self.sample_rate > 0
    }

    /// A mapper for the default displayed range, 20 Hz to 20 kHz.
    pub fn new(sample_rate: u32, fft_size: u32) -> (r: Self)
        requires
            sample_rate > 0,
        ensures
            r.wf(),
            r == (FrequencyMapper {
                sample_rate,
                fft_size,
                start_freq: DEFAULT_START_FREQ,
                end_freq: DEFAULT_END_FREQ,
            }),
    {
        FrequencyMapper {
            sample_rate,
            fft_size,
            start_freq: DEFAULT_START_FREQ,
            end_freq: DEFAULT_END_FREQ,
        }
    }

    /// The bin that `hz` falls in, rounding down.
    pub fn bin_of_hertz(&self, hz: u32) -> (r: u64)
        requires
            self.wf(),
        ensures
            r == bin_of(hz as int, self.fft_size as int, self.sample_rate as int),
    {
        proof {
            assert(hz * self.fft_size <= 0xffff_ffff * 0xffff_ffff) by (nonlinear_arith)
                requires
                    hz <= 0xffff_ffff,
                    self.fft_size <= 0xffff_ffff,
            ;
            assert(hz * self.fft_size / self.sample_rate as int <= hz * self.fft_size)
                by (nonlinear_arith)
                requires
                    self.sample_rate >= 1,
                    hz * self.fft_size >= 0,
            ;
        }
        (hz as u64) * (self.fft_size as u64) / (self.sample_rate as u64)
    }

    /// The last bin shown: the bin of the upper edge of the displayed range.
    pub fn get_upper_cutoff_point(&self) -> (r: u64)
        requires
            self.wf(),
        ensures
            r == bin_of(self.end_freq as int, self.fft_size as int, self.sample_rate as int),
    {
        self.bin_of_hertz(self.end_freq)
    }

    /// The bin of the lower edge of the displayed range. Display starts at
    /// bin 1 whatever this is; it is offered, and gates nothing.
    pub fn get_lower_cutoff_point(&self) -> (r: u64)
        requires
            self.wf(),
        ensures
            r == bin_of(self.start_freq as int, self.fft_size as int, self.sample_rate as int),
    {
        self.bin_of_hertz(self.start_freq)
    }

    /// Records a new sample rate reported by the capture device.
    pub fn set_sample_rate(&mut self, sample_rate: u32)
        requires
            sample_rate > 0,
        ensures
            *final(self) == (FrequencyMapper { sample_rate, ..*old(self) }),
    {
        self.sample_rate = sample_rate;
    }

    /// Sets the lower edge of the displayed range.
    pub fn set_start_freq(&mut self, start_freq: u32)
        ensures
            *final(self) == (FrequencyMapper { start_freq, ..*old(self) }),
    {
        self.start_freq = start_freq;
    }

    /// Sets the upper edge of the displayed range.
    pub fn set_end_freq(&mut self, end_freq: u32)
        ensures
            *final(self) == (FrequencyMapper { end_freq, ..*old(self) }),
    {
        self.end_freq = end_freq;
    }
}

} // verus!
