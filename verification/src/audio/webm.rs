//! Matroska and WebM: choosing the audio stream, and the loop that turns packets into
//! samples.
//!
//! The container is read and the codec is run by the caller. What is decided here is
//! which stream is decoded, what is done with each container event, and which sample of
//! a decoded frame is handed out next.

use crate::audio::SampleFormat;
use crate::error::ErrorKind;
use vstd::prelude::*;

verus! {

/// How the samples of a decoded frame lie in its buffer.
#[derive(Clone, Copy, Debug, PartialEq, Eq, Structural)]
pub struct SampleLayout {
    /// Bits per sample.
    pub bits: u8,
    /// The bytes of a sample come most significant first.
    pub big_endian: bool,
    /// Samples are packed without padding.
    pub packed: bool,
    /// Each channel has a plane of its own.
    pub planar: bool,
    /// Samples are numbers with a fraction.
    pub fractional: bool,
    /// Samples are signed.
    pub signed: bool,
}

/// Interleaved signed 16-bit samples.
pub open spec fn layout_s16() -> SampleLayout {
    SampleLayout {
        bits: 16,
        big_endian: false,
        packed: false,
        planar: false,
        fractional: false,
        signed: true,
    }
}

/// Interleaved 32-bit samples with a fraction.
pub open spec fn layout_f32() -> SampleLayout {
    SampleLayout {
        bits: 32,
        big_endian: false,
        packed: false,
        planar: false,
        fractional: true,
        signed: true,
    }
}

/// The constant `av_data::audiosample::formats::S16`, field by field. It is believed to
/// be 16 bits, little endian, padded, interleaved, integer and signed.
#[verifier::external_body]
fn predefined_s16() -> (r: SampleLayout)
    ensures
        r == layout_s16(),
{
    let f = av_data::audiosample::formats::S16;
    SampleLayout {
        bits: f.bits,
        big_endian: f.be,
        packed: f.packed,
        planar: f.planar,
        fractional: f.float,
        signed: f.signed,
    }
}

/// The constant `av_data::audiosample::formats::F32`, field by field. It is believed to
/// be 32 bits, little endian, padded, interleaved, fractional and signed.
#[verifier::external_body]
fn predefined_f32() -> (r: SampleLayout)
    ensures
        r == layout_f32(),
{
    let f = av_data::audiosample::formats::F32;
    SampleLayout {
        bits: f.bits,
        big_endian: f.be,
        packed: f.packed,
        planar: f.planar,
        fractional: f.float,
        signed: f.signed,
    }
}

/// The sample format that a frame layout stands for, if frames of that layout are
/// decoded: interleaved signed 16-bit integers, and interleaved 32-bit numbers with a
/// fraction. Every other layout, that of 32-bit integers too, stands for none.
pub open spec fn frame_format(layout: SampleLayout) -> Option<SampleFormat> {
    if layout == layout_s16() {
        Some(SampleFormat::S16)
    } else if layout == layout_f32() {
        Some(SampleFormat::F32)
    } else {
        None
    }
}

/// Names the sample format of a decoded frame, or refuses its layout.
pub fn sample_format_of(layout: SampleLayout) -> (r: Result<SampleFormat, ErrorKind>)
    ensures
        r == match frame_format(layout) {
            Some(format) => Ok::<SampleFormat, ErrorKind>(format),
            None => Err(ErrorKind::Format),
        },
        r != Ok::<SampleFormat, ErrorKind>(SampleFormat::S32),
{
    if layout == predefined_s16() {
        Ok(SampleFormat::S16)
    } else if layout == predefined_f32() {
        Ok(SampleFormat::F32)
    } else {
        Err(ErrorKind::Format)
    }
}

/// A codec that can be decoded.
#[derive(Clone, Copy, Debug, PartialEq, Eq, Structural)]
pub enum Codec {
    Opus,
    Vorbis,
}

/// The codec identifiers under which the two decoders announce themselves.
pub struct CodecNames {
    pub opus: String,
    pub vorbis: String,
}

/// What a stream of the container carries.
#[derive(Clone, Copy, Debug, PartialEq, Eq, Structural)]
pub enum StreamKind {
    /// Audio, with its sample rate and, where the container gives a channel map, the
    /// number of channels.
    Audio { rate: usize, channels: Option<usize> },
    /// Video.
    Video,
    /// The container does not say.
    Unknown,
}

/// One entry of the container's stream table.
pub struct StreamEntry {
    /// Position of the stream within the file.
    pub index: usize,
    /// What the stream carries.
    pub kind: StreamKind,
    /// The identifier of its codec, if the container gives one.
    pub codec_id: Option<String>,
    /// Whether the container holds data that initializes the codec.
    pub has_extradata: bool,
}

/// The codec that decodes `entry`, if it is an audio stream whose codec identifier is
/// one of the two names. Opus is asked first.
pub open spec fn supported_codec(entry: StreamEntry, opus: Seq<char>, vorbis: Seq<char>) -> Option<
    Codec,
> {
    match (entry.kind, entry.codec_id) {
        (StreamKind::Audio { .. }, Some(id)) => if id@ == opus {
            Some(Codec::Opus)
        } else if id@ == vorbis {
            Some(Codec::Vorbis)
        } else {
            None
        },
        _ => None,
    }
}

/// The codec that decodes `entry`, if there is one.
pub fn codec_for(entry: &StreamEntry, names: &CodecNames) -> (r: Option<Codec>)
    ensures
        r == supported_codec(*entry, names.opus@, names.vorbis@),
{
    match entry.kind {
        StreamKind::Audio { .. } => match &entry.codec_id {
            Some(id) => if *id == names.opus {
                Some(Codec::Opus)
            } else if *id == names.vorbis {
                Some(Codec::Vorbis)
            } else {
                None
            },
            None => None,
        },
        _ => None,
    }
}

/// The stream that was chosen for decoding.
#[derive(Clone, Copy, Debug, PartialEq, Eq, Structural)]
pub struct Selection {
    /// Position of the entry in the stream table.
    pub position: usize,
    /// The stream index that its packets carry.
    pub stream_index: isize,
    /// The codec that decodes it.
    pub codec: Codec,
    /// Its sample rate.
    pub rate: usize,
    /// Its number of channels, where the container gives a channel map.
    pub channels: Option<usize>,
    /// Whether the codec is handed the stream's initialization data before it is
    /// configured: it is whenever the container holds such data.
    pub supply_extradata: bool,
}

/// `selection` describes entry `position` of `streams`.
pub open spec fn selects(
    streams: Seq<StreamEntry>,
    opus: Seq<char>,
    vorbis: Seq<char>,
    selection: Selection,
) -> bool {
    let entry = streams[selection.position as int];
    &&& selection.position < streams.len()
    &&& supported_codec(entry, opus, vorbis) == Some(selection.codec)
    &&& selection.stream_index == entry.index as isize
    &&& entry.kind == (StreamKind::Audio { rate: selection.rate, channels: selection.channels })
    &&& selection.supply_extradata == entry.has_extradata
}

/// Chooses the first stream of the table that is audio in a supported codec. Streams
/// that are not audio, or whose codec is unknown or not given, are passed over.
pub fn select_stream(streams: &Vec<StreamEntry>, names: &CodecNames) -> (r: Result<
    Selection,
    ErrorKind,
>)
    ensures
        match r {
            Ok(selection) => {
                &&& selects(streams@, names.opus@, names.vorbis@, selection)
                &&& forall|j: int|
                    0 <= j < selection.position ==> supported_codec(
                        #[trigger] streams[j],
                        names.opus@,
                        names.vorbis@,
                    ) is None
            },
            Err(e) => {
                &&& e == ErrorKind::MalformedContainer
                &&& forall|j: int|
                    0 <= j < streams.len() ==> supported_codec(
                        #[trigger] streams[j],
                        names.opus@,
                        names.vorbis@,
                    ) is None
            },
        },
{
    let mut i: usize = 0;
    while i < streams.len()
        invariant
            i <= streams.len(),
            forall|j: int|
                0 <= j < i ==> supported_codec(#[trigger] streams[j], names.opus@, names.vorbis@)
                    is None,
        decreases streams.len() - i,
    {
        let entry = &streams[i];
        if let Some(codec) = codec_for(entry, names) {
            if let StreamKind::Audio { rate, channels } = entry.kind {
                return Ok(
                    Selection {
                        position: i,
                        stream_index: #[verifier::truncate]
                        (entry.index as isize),
                        codec,
                        rate,
                        channels,
                        supply_extradata: entry.has_extradata,
                    },
                );
            }
        }
        i += 1;
    }
    Err(ErrorKind::MalformedContainer)
}

/// Where the decode loop stands.
#[derive(Clone, Copy, Debug, PartialEq, Eq, Structural)]
pub enum DecodeState {
    /// No frame is at hand: the next container event is needed.
    AwaitingPacket,
    /// A decoded frame of `total` samples is at hand, `cursor` of them handed out.
    EmittingFrame { format: SampleFormat, cursor: usize, total: usize },
}

/// What the caller does next.
#[derive(Clone, Copy, Debug, PartialEq, Eq, Structural)]
pub enum Step {
    /// Read the next event of the container and report it.
    ReadEvent,
    /// Hand out the sample at `position` of the frame's first plane, read as `format`.
    Emit { format: SampleFormat, position: usize },
}

/// An event of the container, as far as the loop looks at it.
#[derive(Clone, Copy, Debug, PartialEq, Eq, Structural)]
pub enum ContainerEvent {
    /// A packet of the stream with this index.
    Packet { stream_index: isize },
    /// The container has ended.
    EndOfStream,
    /// Anything else.
    Other,
}

/// What a container event leads to.
#[derive(Clone, Copy, Debug, PartialEq, Eq, Structural)]
pub enum Reaction {
    /// Nothing: go on with the next event.
    Skip,
    /// Send the packet to the codec and report the frame that it answers with.
    Decode,
    /// The sample sequence is complete.
    Finish,
}

impl DecodeState {
    /// The state in which a frame of `total` samples has just arrived.
    pub fn frame(format: SampleFormat, total: usize) -> (r: DecodeState)
        ensures
            r == (DecodeState::EmittingFrame { format, cursor: 0, total }),
    {
        DecodeState::EmittingFrame { format, cursor: 0, total }
    }

    /// The state after one step, and what that step asks of the caller.
    ///
    /// A frame of 32-bit integers fails the stream, whatever it holds: no frame of
    /// that format is decoded. Of any other frame the next sample is handed out while
    /// samples are left. When none is left, or no frame is at hand, the next event is
    /// asked for.
    pub open spec fn stepped(self) -> (DecodeState, Result<Step, ErrorKind>) {
        match self {
            DecodeState::EmittingFrame { format, cursor, total } => {
                if format == SampleFormat::S32 {
                    (self, Err(ErrorKind::Format))
                } else if cursor < total {
                    (
                        DecodeState::EmittingFrame { format, cursor: (cursor + 1) as usize, total },
                        Ok(Step::Emit { format, position: cursor }),
                    )
                } else {
                    (DecodeState::AwaitingPacket, Ok(Step::ReadEvent))
                }
            },
            DecodeState::AwaitingPacket => (DecodeState::AwaitingPacket, Ok(Step::ReadEvent)),
        }
    }

    /// The state after `n` steps.
    pub open spec fn after(self, n: nat) -> DecodeState
        decreases n,
    {
        if n == 0 {
            self
        } else {
            self.after((n - 1) as nat).stepped().0
        }
    }

    /// A frame in a supported format is handed out sample by sample, in the order of
    /// the buffer and each sample once; then the next event is asked for.
    pub proof fn lemma_frame_is_emitted_in_order(format: SampleFormat, total: usize, k: nat)
        requires
            format != SampleFormat::S32,
            k <= total,
        ensures
            (DecodeState::EmittingFrame { format, cursor: 0, total }).after(k) == (
            DecodeState::EmittingFrame { format, cursor: k as usize, total }),
            k < total ==> (DecodeState::EmittingFrame { format, cursor: 0, total }).after(
                k,
            ).stepped().1 == Ok::<Step, ErrorKind>(Step::Emit { format, position: k as usize }),
            k == total ==> (DecodeState::EmittingFrame { format, cursor: 0, total }).after(
                k,
            ).stepped() == (DecodeState::AwaitingPacket, Ok::<Step, ErrorKind>(Step::ReadEvent)),
        decreases k,
    {
        if k > 0 {
            Self::lemma_frame_is_emitted_in_order(format, total, (k - 1) as nat);
        }
    }

    /// Takes one step.
    pub fn step(&mut self) -> (r: Result<Step, ErrorKind>)
        ensures
            (*final(self), r) == old(self).stepped(),
    {
        match *self {
            DecodeState::EmittingFrame { format, cursor, total } => {
                match format {
                    SampleFormat::S32 => Err(ErrorKind::Format),
                    _ => if cursor < total {
                        *self = DecodeState::EmittingFrame { format, cursor: cursor + 1, total };
                        Ok(Step::Emit { format, position: cursor })
                    } else {
                        *self = DecodeState::AwaitingPacket;
                        Ok(Step::ReadEvent)
                    },
                }
            },
            DecodeState::AwaitingPacket => Ok(Step::ReadEvent),
        }
    }
}

/// What `event` leads to when the stream with index `selected` is decoded.
pub fn react(event: ContainerEvent, selected: isize) -> (r: Reaction)
    ensures
        r == match event {
            ContainerEvent::Packet { stream_index } => if stream_index == selected {
                Reaction::Decode
            } else {
                Reaction::Skip
            },
            ContainerEvent::EndOfStream => Reaction::Finish,
            ContainerEvent::Other => Reaction::Skip,
        },
{
    match event {
        ContainerEvent::Packet { stream_index } => if stream_index == selected {
            Reaction::Decode
        } else {
            Reaction::Skip
        },
        ContainerEvent::EndOfStream => Reaction::Finish,
        ContainerEvent::Other => Reaction::Skip,
    }
}

/// The state after the codec has answered a packet with a frame of `samples` samples
/// per channel in `channels` channels. A frame in any layout but the two that are
/// decoded fails the stream at once, before a sample of it is handed out.
pub fn begin_frame(layout: SampleLayout, samples: usize, channels: usize) -> (r: Result<
    DecodeState,
    ErrorKind,
>)
    requires
        frame_format(layout) is Some ==> samples * channels <= usize::MAX,
    ensures
        r == match frame_format(layout) {
            Some(format) => Ok::<DecodeState, ErrorKind>(
                DecodeState::EmittingFrame { format, cursor: 0, total: (samples * channels) as usize },
            ),
            None => Err(ErrorKind::Format),
        },
        r matches Ok(state) ==> state.stepped().1 is Ok,
{
    match sample_format_of(layout) {
        Ok(format) => Ok(DecodeState::frame(format, samples * channels)),
        Err(e) => Err(e),
    }
}

} // verus!
