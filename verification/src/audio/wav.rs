//! WAVE files: which sample encodings are read, and the format that is written.

use crate::audio::SampleFormat;
use crate::error::ErrorKind;
use vstd::prelude::*;

verus! {

/// How a WAVE file stores the value of a sample.
#[derive(Clone, Copy, Debug, PartialEq, Eq, Structural)]
pub enum WavEncoding {
    /// As an integer.
    Int,
    /// As an IEEE number with a fraction.
    Float,
}

/// The format that the header of a WAVE file declares.
#[derive(Clone, Copy, Debug, PartialEq, Eq, Structural)]
pub struct WavFormat {
    /// The number of channels.
    pub channels: u16,
    /// The number of frames per second.
    pub sample_rate: u32,
    /// The number of bits of one sample.
    pub bits_per_sample: u16,
    /// How the value of a sample is stored.
    pub encoding: WavEncoding,
}

/// The sample format that samples of `format` are read as, if it is supported:
/// integers of 16 or 32 bits, and 32-bit numbers with a fraction.
pub open spec fn wav_sample_format(format: WavFormat) -> Option<SampleFormat> {
    match format.encoding {
        WavEncoding::Int => if format.bits_per_sample == 16 {
            Some(SampleFormat::S16)
        } else if format.bits_per_sample == 32 {
            Some(SampleFormat::S32)
        } else {
            None
        },
        WavEncoding::Float => if format.bits_per_sample == 32 {
            Some(SampleFormat::F32)
        } else {
            None
        },
    }
}

impl WavFormat {
    /// The format that normalized audio is written in: one channel of 32-bit numbers
    /// with a fraction. The rate is cut to the 32 bits that the header has room for.
    pub fn mono(sample_rate: usize) -> (r: WavFormat)
        ensures
            r == (WavFormat {
                channels: 1,
                sample_rate: sample_rate as u32,
                bits_per_sample: 32,
                encoding: WavEncoding::Float,
            }),
    {
        WavFormat {
            channels: 1,
            sample_rate: #[verifier::truncate]
            (sample_rate as u32),
            bits_per_sample: 32,
            encoding: WavEncoding::Float,
        }
    }

    /// The sample format that the next sample is read as. A file in another encoding
    /// is refused only here, when a sample is asked for.
    pub fn sample_format(&self) -> (r: Result<SampleFormat, ErrorKind>)
        ensures
            r == match wav_sample_format(*self) {
                Some(format) => Ok::<SampleFormat, ErrorKind>(format),
                None => Err(ErrorKind::Format),
            },
    {
        match self.encoding {
            WavEncoding::Int => if self.bits_per_sample == 16 {
                Ok(SampleFormat::S16)
            } else if self.bits_per_sample == 32 {
                Ok(SampleFormat::S32)
            } else {
                Err(ErrorKind::Format)
            },
            WavEncoding::Float => if self.bits_per_sample == 32 {
                Ok(SampleFormat::F32)
            } else {
                Err(ErrorKind::Format)
            },
        }
    }

    /// The number of frames per second.
    pub fn sample_rate(&self) -> (r: usize)
        ensures
            r == self.sample_rate,
    {
        self.sample_rate as usize
    }

    /// The number of channels.
    pub fn channels(&self) -> (r: usize)
        ensures
            r == self.channels,
    {
        self.channels as usize
    }
}

/// The format that is written is one that is read: as one channel of 32-bit numbers
/// with a fraction, at the rate that was asked for wherever that rate fits the header.
pub proof fn lemma_written_format_is_read(sample_rate: usize)
    ensures
        wav_sample_format(
            WavFormat {
                channels: 1,
                sample_rate: sample_rate as u32,
                bits_per_sample: 32,
                encoding: WavEncoding::Float,
            },
        ) == Some(SampleFormat::F32),
        sample_rate <= u32::MAX ==> sample_rate as u32 == sample_rate,
{
}

} // verus!
