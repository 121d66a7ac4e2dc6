//! Audio format descriptors for recognition input and synthesis output.
//!
//! Streams themselves (file or memory backed) belong to the engine side; the
//! library only describes the PCM wave format a stream carries.

use vstd::prelude::*;

verus! {

/// Sample rate, in samples per second, at which to play or record.
#[derive(Debug, PartialEq, Eq, Structural, Clone, Copy)]
#[allow(missing_docs)]
pub enum SampleRate {
    Hz8000,
    Hz11025,
    Hz12000,
    Hz16000,
    Hz22050,
    Hz24000,
    Hz32000,
    Hz44100,
    Hz48000,
}

/// How many bits each sample should have.
#[derive(Debug, PartialEq, Eq, Structural, Clone, Copy)]
#[allow(missing_docs)]
pub enum BitRate {
    Bits8,
    Bits16,
}

/// Number of audio channels.
#[derive(Debug, PartialEq, Eq, Structural, Clone, Copy)]
#[allow(missing_docs)]
pub enum Channels {
    Mono,
    Stereo,
}

impl SampleRate {
    /// The rate in hertz.
    pub fn hertz(&self) -> (r: u32)
        ensures
            r == self.spec_hertz(),
    {
        match self {
            SampleRate::Hz8000 => 8000,
            SampleRate::Hz11025 => 11025,
            SampleRate::Hz12000 => 12000,
            SampleRate::Hz16000 => 16000,
            SampleRate::Hz22050 => 22050,
            SampleRate::Hz24000 => 24000,
            SampleRate::Hz32000 => 32000,
            SampleRate::Hz44100 => 44100,
            SampleRate::Hz48000 => 48000,
        }
    }

    /// The rate in hertz, for contracts.
    pub open spec fn spec_hertz(&self) -> u32 {
        match self {
            SampleRate::Hz8000 => 8000,
            SampleRate::Hz11025 => 11025,
            SampleRate::Hz12000 => 12000,
            SampleRate::Hz16000 => 16000,
            SampleRate::Hz22050 => 22050,
            SampleRate::Hz24000 => 24000,
            SampleRate::Hz32000 => 32000,
            SampleRate::Hz44100 => 44100,
            SampleRate::Hz48000 => 48000,
        }
    }
}

impl BitRate {
    /// The number of bits per sample.
    pub fn bits(&self) -> (r: u32)
        ensures
            r == self.spec_bits(),
    {
        match self {
            BitRate::Bits8 => 8,
            BitRate::Bits16 => 16,
        }
    }

    /// The number of bits per sample, for contracts.
    pub open spec fn spec_bits(&self) -> u32 {
        match self {
            BitRate::Bits8 => 8,
            BitRate::Bits16 => 16,
        }
    }
}

impl Channels {
    /// The channel count.
    pub fn count(&self) -> (r: u32)
        ensures
            r == self.spec_count(),
    {
        match self {
            Channels::Mono => 1,
            Channels::Stereo => 2,
        }
    }

    /// The channel count, for contracts.
    pub open spec fn spec_count(&self) -> u32 {
        match self {
            Channels::Mono => 1,
            Channels::Stereo => 2,
        }
    }
}

/// Specifies the format of the audio data in a stream.
#[derive(Debug, PartialEq, Eq, Structural, Clone, Copy)]
pub struct AudioFormat {
    /// Sample rate at which to play or record.
    pub sample_rate: SampleRate,
    /// How many bits each sample should have.
    pub bit_rate: BitRate,
    /// Number of channels.
    pub channels: Channels,
}

/// The integral PCM format tag of a wave format descriptor.
pub const WAVE_FORMAT_PCM: u16 = 1;

/// A plain PCM wave format descriptor, shaped as audio APIs expect it: the
/// engine-facing side passes these fields through unchanged.
#[derive(Debug, PartialEq, Eq, Structural, Clone, Copy)]
pub struct WaveFormat {
    /// Always [`WAVE_FORMAT_PCM`].
    pub format_tag: u16,
    /// Number of channels.
    pub channels: u16,
    /// Samples per second.
    pub samples_per_sec: u32,
    /// Average bytes per second: `samples_per_sec * block_align`.
    pub avg_bytes_per_sec: u32,
    /// Bytes per sample frame: `channels * bits_per_sample / 8`.
    pub block_align: u16,
    /// Bits per sample.
    pub bits_per_sample: u16,
    /// Size of trailing extra data; zero for plain PCM.
    pub extra_size: u16,
}

impl AudioFormat {
    /// Expands the format into the full PCM wave descriptor.
    pub fn to_wave_format(&self) -> (w: WaveFormat)
        ensures
            w.format_tag == WAVE_FORMAT_PCM,
            w.channels == self.channels.spec_count(),
            w.samples_per_sec == self.sample_rate.spec_hertz(),
            w.block_align == self.channels.spec_count() * self.bit_rate.spec_bits() / 8,
            w.avg_bytes_per_sec == self.sample_rate.spec_hertz() as int * w.block_align as int,
            w.bits_per_sample == self.bit_rate.spec_bits(),
            w.extra_size == 0,
    {
        let block_align: u32 = self.channels.count() * self.bit_rate.bits() / 8;
        WaveFormat {
            format_tag: WAVE_FORMAT_PCM,
            channels: self.channels.count() as u16,
            samples_per_sec: self.sample_rate.hertz(),
            avg_bytes_per_sec: self.sample_rate.hertz() * block_align,
            block_align: block_align as u16,
            bits_per_sample: self.bit_rate.bits() as u16,
            extra_size: 0,
        }
    }
}

} // verus!
