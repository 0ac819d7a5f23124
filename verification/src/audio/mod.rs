//! Rules of audio ingestion: which container a file is read as, how samples are
//! grouped into frames, and when the rate is converted.

pub mod wav;
pub mod webm;

use crate::error::ErrorKind;
use vstd::prelude::*;

verus! {

/// The encoding of one sample.
#[derive(Clone, Copy, Debug, PartialEq, Eq, Structural)]
pub enum SampleFormat {
    /// Signed 16-bit integer.
    S16,
    /// Signed 32-bit integer.
    S32,
    /// 32-bit IEEE number with a fraction.
    F32,
}

/// The rate, in frames per second, that audio is brought to.
pub const SAMPLE_RATE: usize = 16000;

/// The kind of file that audio is read from.
#[derive(Clone, Copy, Debug, PartialEq, Eq, Structural)]
pub enum Container {
    /// A WAVE file of plain samples.
    Wav,
    /// A Matroska or WebM file with an encoded audio stream.
    Webm,
}

/// The container that a file extension stands for: `wav` for WAVE, `weba` and `webm`
/// for WebM, and nothing else.
pub open spec fn container_of(extension: Seq<char>) -> Option<Container> {
    if extension == seq!['w', 'a', 'v'] {
        Some(Container::Wav)
    } else if extension == seq!['w', 'e', 'b', 'a'] || extension == seq!['w', 'e', 'b', 'm'] {
        Some(Container::Webm)
    } else {
        None
    }
}

/// Chooses how a file is read by its extension. A file without an extension, or with
/// one that is not known, is refused.
pub fn container_for(extension: Option<&str>) -> (r: Result<Container, ErrorKind>)
    ensures
        r == match extension {
            Some(text) => match container_of(text@) {
                Some(container) => Ok::<Container, ErrorKind>(container),
                None => Err(ErrorKind::Format),
            },
            None => Err(ErrorKind::Format),
        },
{
    let text = match extension {
        Some(text) => String::from_str(text),
        None => {
            return Err(ErrorKind::Format);
        },
    };
    let wav = String::from_str("wav");
    let weba = String::from_str("weba");
    let webm = String::from_str("webm");
    proof {
        reveal_strlit("wav");
        reveal_strlit("weba");
        reveal_strlit("webm");
        assert(wav@ =~= seq!['w', 'a', 'v']);
        assert(weba@ =~= seq!['w', 'e', 'b', 'a']);
        assert(webm@ =~= seq!['w', 'e', 'b', 'm']);
    }
    if text == wav {
        Ok(Container::Wav)
    } else if text == weba || text == webm {
        Ok(Container::Webm)
    } else {
        Err(ErrorKind::Format)
    }
}

/// The number of samples that wait for their frame to fill, after `samples` samples
/// of a stream of `channels` channels have arrived.
pub open spec fn filled_after(channels: nat, samples: nat) -> nat
    decreases samples,
{
    if samples == 0 {
        0
    } else if filled_after(channels, (samples - 1) as nat) + 1 == channels {
        0
    } else {
        filled_after(channels, (samples - 1) as nat) + 1
    }
}

/// The number of frames that are complete after `samples` samples of a stream of
/// `channels` channels have arrived.
pub open spec fn frames_after(channels: nat, samples: nat) -> nat
    decreases samples,
{
    if samples == 0 {
        0
    } else if filled_after(channels, (samples - 1) as nat) + 1 == channels {
        frames_after(channels, (samples - 1) as nat) + 1
    } else {
        frames_after(channels, (samples - 1) as nat)
    }
}

/// After `samples` samples, as many frames are complete as `channels` goes into
/// `samples`, and the remainder waits.
pub proof fn lemma_frames_divide(channels: nat, samples: nat)
    requires
        channels >= 1,
    ensures
        filled_after(channels, samples) == samples % channels,
        frames_after(channels, samples) == samples / channels,
    decreases samples,
{
    if samples > 0 {
        let before = (samples - 1) as nat;
        lemma_frames_divide(channels, before);
        let q = before / channels;
        let m = before % channels;
        assert(before == q * channels + m && m < channels) by (nonlinear_arith)
            requires
                q == before / channels,
                m == before % channels,
                channels >= 1,
        ;
        assert((q + 1) * channels == q * channels + channels) by (nonlinear_arith);
        if m + 1 == channels {
            assert(samples % channels == 0 && samples / channels == q + 1) by (nonlinear_arith)
                requires
                    samples == (q + 1) * channels,
                    channels >= 1,
            ;
        } else {
            assert(samples % channels == m + 1 && samples / channels == q) by (nonlinear_arith)
                requires
                    samples == q * channels + (m + 1),
                    m + 1 < channels,
            ;
        }
    }
}

/// Groups the samples of an interleaved stream into frames of one sample per channel.
///
/// Each frame that fills is reduced to one mono sample by the caller; what is kept here
/// is how far the current frame has filled.
pub struct Downmixer {
    channels: usize,
    filled: usize,
}

impl Downmixer {
    #[verifier::type_invariant]
    spec fn well_formed(&self) -> bool {
        self.filled < self.channels
    }

    /// The number of channels of the stream.
    pub closed spec fn channels(&self) -> nat {
        self.channels as nat
    }

    /// The number of samples of the current frame that have arrived.
    pub closed spec fn filled(&self) -> nat {
        self.filled as nat
    }

    /// A downmixer at the start of a stream of `channels` channels.
    pub fn new(channels: usize) -> (r: Downmixer)
        requires
            channels >= 1,
        ensures
            r.channels() == channels,
            r.filled() == 0,
    {
        Downmixer { channels, filled: 0 }
    }

    /// Takes note of one more sample. The result tells whether the sample completes a
    /// frame, so that the mean of the frame is due.
    pub fn push(&mut self) -> (complete: bool)
        ensures
            final(self).channels() == old(self).channels(),
            complete == (old(self).filled() + 1 == old(self).channels()),
            final(self).filled() == if complete {
                0
            } else {
                old(self).filled() + 1
            },
            old(self).filled() < old(self).channels(),
    {
        proof {
            use_type_invariant(&*self);
        }
        if self.filled + 1 == self.channels {
            self.filled = 0;
            true
        } else {
            self.filled = self.filled + 1;
            false
        }
    }

    /// Ends the stream. A stream that ends within a frame is refused.
    pub fn finish(&self) -> (r: Result<(), ErrorKind>)
        ensures
            r == if self.filled() == 0 {
                Ok::<(), ErrorKind>(())
            } else {
                Err(ErrorKind::ChannelFrame)
            },
    {
        if self.filled == 0 {
            Ok(())
        } else {
            Err(ErrorKind::ChannelFrame)
        }
    }
}

/// The length of the sinc kernel that rates are converted with.
pub const SINC_LEN: usize = 256;

/// The number of kernel positions that are tabulated between two samples.
pub const OVERSAMPLING_FACTOR: usize = 256;

/// The cutoff of the kernel, in hundredths of the Nyquist frequency.
pub const CUTOFF_PERCENT: usize = 95;

/// How far the ratio of the rates may later be moved from the one it starts with.
pub const MAX_RELATIVE_RATIO: usize = 2;

/// How a value between two tabulated kernel positions is found.
#[derive(Clone, Copy, Debug, PartialEq, Eq, Structural)]
pub enum Interpolation {
    /// From the nearest position.
    Nearest,
    /// On the line through the two nearest positions.
    Linear,
    /// On the cubic through the four nearest positions.
    Cubic,
}

/// The window that the sinc kernel is cut with.
#[derive(Clone, Copy, Debug, PartialEq, Eq, Structural)]
pub enum Window {
    Blackman,
    Blackman2,
    BlackmanHarris,
    BlackmanHarris2,
    Hann,
    Hann2,
}

/// What is done to bring a buffer of mono samples to the target rate.
#[derive(Clone, Copy, Debug, PartialEq, Eq, Structural)]
pub enum ResamplePlan {
    /// The buffer is at the target rate already and is returned as it is.
    Unchanged,
    /// The whole buffer is converted in one piece with a windowed sinc kernel.
    Sinc {
        /// The rate of the buffer.
        source_rate: usize,
        /// The rate to bring it to.
        target_rate: usize,
        /// The length of the kernel.
        sinc_len: usize,
        /// The cutoff of the kernel, in hundredths of the Nyquist frequency.
        cutoff_percent: usize,
        /// The number of kernel positions that are tabulated between two samples.
        oversampling_factor: usize,
        /// How a value between two tabulated positions is found.
        interpolation: Interpolation,
        /// The window that the kernel is cut with.
        window: Window,
        /// How far the ratio of the rates may later be moved.
        max_relative_ratio: usize,
        /// The number of samples that are converted at once: all of them.
        chunk_size: usize,
        /// The number of channels: one.
        channels: usize,
    },
}

/// The plan that converts `len` mono samples from `source_rate` to `target_rate`: a
/// long kernel with a cutoff just below the Nyquist frequency, tabulated finely, read
/// by linear interpolation and cut with a Blackman-Harris window.
pub open spec fn sinc_plan(source_rate: usize, target_rate: usize, len: usize) -> ResamplePlan {
    ResamplePlan::Sinc {
        source_rate,
        target_rate,
        sinc_len: 256,
        cutoff_percent: 95,
        oversampling_factor: 256,
        interpolation: Interpolation::Linear,
        window: Window::BlackmanHarris2,
        max_relative_ratio: 2,
        chunk_size: len,
        channels: 1,
    }
}

/// Decides whether a buffer of `len` mono samples at `source_rate` is converted, and
/// with what settings. Nothing is converted where the two rates agree.
pub fn resample_plan(source_rate: usize, target_rate: usize, len: usize) -> (r: ResamplePlan)
    ensures
        r == if source_rate == target_rate {
            ResamplePlan::Unchanged
        } else {
            sinc_plan(source_rate, target_rate, len)
        },
{
    if source_rate == target_rate {
        ResamplePlan::Unchanged
    } else {
        ResamplePlan::Sinc {
            source_rate,
            target_rate,
            sinc_len: SINC_LEN,
            cutoff_percent: CUTOFF_PERCENT,
            oversampling_factor: OVERSAMPLING_FACTOR,
            interpolation: Interpolation::Linear,
            window: Window::BlackmanHarris2,
            max_relative_ratio: MAX_RELATIVE_RATIO,
            chunk_size: len,
            channels: 1,
        }
    }
}

} // verus!
