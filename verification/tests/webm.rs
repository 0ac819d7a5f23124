use silero::audio::webm::{
    begin_frame, codec_for, react, sample_format_of, select_stream, Codec, CodecNames,
    ContainerEvent, DecodeState, Reaction, SampleLayout, Selection, Step, StreamEntry, StreamKind,
};
use silero::audio::SampleFormat;
use silero::error::ErrorKind;

fn layout(bits: u8, fractional: bool, signed: bool) -> SampleLayout {
    SampleLayout { bits, big_endian: false, packed: false, planar: false, fractional, signed }
}

fn names() -> CodecNames {
    CodecNames { opus: "opus".to_string(), vorbis: "vorbis".to_string() }
}

fn audio(index: usize, codec_id: Option<&str>) -> StreamEntry {
    StreamEntry {
        index,
        kind: StreamKind::Audio { rate: 48000, channels: Some(2) },
        codec_id: codec_id.map(|id| id.to_string()),
        has_extradata: true,
    }
}

fn video(index: usize, codec_id: Option<&str>) -> StreamEntry {
    StreamEntry {
        index,
        kind: StreamKind::Video,
        codec_id: codec_id.map(|id| id.to_string()),
        has_extradata: false,
    }
}

#[test]
fn sample_format_of_known_layouts() {
    assert_eq!(sample_format_of(layout(16, false, true)), Ok(SampleFormat::S16));
    assert_eq!(sample_format_of(layout(32, true, true)), Ok(SampleFormat::F32));
}

#[test]
fn sample_format_of_other_layouts() {
    assert_eq!(sample_format_of(layout(32, false, true)), Err(ErrorKind::Format));
    assert_eq!(sample_format_of(layout(8, false, false)), Err(ErrorKind::Format));
    assert_eq!(sample_format_of(layout(64, true, true)), Err(ErrorKind::Format));
    assert_eq!(sample_format_of(layout(16, false, false)), Err(ErrorKind::Format));
    assert_eq!(sample_format_of(layout(16, true, true)), Err(ErrorKind::Format));
    assert_eq!(sample_format_of(layout(24, false, true)), Err(ErrorKind::Format));
    let planar = SampleLayout { planar: true, ..layout(16, false, true) };
    assert_eq!(sample_format_of(planar), Err(ErrorKind::Format));
    let big_endian = SampleLayout { big_endian: true, ..layout(32, true, true) };
    assert_eq!(sample_format_of(big_endian), Err(ErrorKind::Format));
    let packed = SampleLayout { packed: true, ..layout(32, false, true) };
    assert_eq!(sample_format_of(packed), Err(ErrorKind::Format));
}

#[test]
fn codec_for_names_the_codec_of_audio_streams() {
    assert_eq!(codec_for(&audio(0, Some("opus")), &names()), Some(Codec::Opus));
    assert_eq!(codec_for(&audio(0, Some("vorbis")), &names()), Some(Codec::Vorbis));
    assert_eq!(codec_for(&audio(0, Some("aac")), &names()), None);
    assert_eq!(codec_for(&audio(0, Some("Opus")), &names()), None);
    assert_eq!(codec_for(&audio(0, None), &names()), None);
    assert_eq!(codec_for(&video(0, Some("opus")), &names()), None);
    let unknown = StreamEntry {
        index: 0,
        kind: StreamKind::Unknown,
        codec_id: Some("opus".to_string()),
        has_extradata: false,
    };
    assert_eq!(codec_for(&unknown, &names()), None);
}

#[test]
fn codec_for_asks_opus_first() {
    let same = CodecNames { opus: "x".to_string(), vorbis: "x".to_string() };
    assert_eq!(codec_for(&audio(0, Some("x")), &same), Some(Codec::Opus));
}

#[test]
fn select_stream_takes_first_supported_audio_stream() {
    let streams = vec![
        video(0, Some("vp9")),
        audio(1, Some("aac")),
        audio(2, None),
        StreamEntry {
            index: 7,
            kind: StreamKind::Audio { rate: 44100, channels: None },
            codec_id: Some("vorbis".to_string()),
            has_extradata: false,
        },
        audio(4, Some("opus")),
    ];
    assert_eq!(
        select_stream(&streams, &names()),
        Ok(Selection {
            position: 3,
            stream_index: 7,
            codec: Codec::Vorbis,
            rate: 44100,
            channels: None,
            supply_extradata: false,
        })
    );
}

#[test]
fn select_stream_single_opus_stream() {
    assert_eq!(
        select_stream(&vec![audio(0, Some("opus"))], &names()),
        Ok(Selection {
            position: 0,
            stream_index: 0,
            codec: Codec::Opus,
            rate: 48000,
            channels: Some(2),
            supply_extradata: true,
        })
    );
}

#[test]
fn select_stream_without_supported_stream() {
    assert_eq!(select_stream(&Vec::new(), &names()), Err(ErrorKind::MalformedContainer));
    let streams = vec![video(0, Some("opus")), audio(1, Some("flac")), audio(2, None)];
    assert_eq!(select_stream(&streams, &names()), Err(ErrorKind::MalformedContainer));
}

#[test]
fn select_stream_wraps_the_stream_index() {
    let streams = vec![audio(usize::MAX, Some("opus"))];
    assert_eq!(select_stream(&streams, &names()).unwrap().stream_index, -1);
}

#[test]
fn react_to_container_events() {
    assert_eq!(react(ContainerEvent::Packet { stream_index: 1 }, 1), Reaction::Decode);
    assert_eq!(react(ContainerEvent::Packet { stream_index: 0 }, 1), Reaction::Skip);
    assert_eq!(react(ContainerEvent::Packet { stream_index: -1 }, 1), Reaction::Skip);
    assert_eq!(react(ContainerEvent::EndOfStream, 1), Reaction::Finish);
    assert_eq!(react(ContainerEvent::Other, 1), Reaction::Skip);
}

#[test]
fn begin_frame_counts_samples_of_all_channels() {
    assert_eq!(
        begin_frame(layout(16, false, true), 960, 2),
        Ok(DecodeState::EmittingFrame { format: SampleFormat::S16, cursor: 0, total: 1920 })
    );
    assert_eq!(
        begin_frame(layout(32, true, true), 0, 2),
        Ok(DecodeState::EmittingFrame { format: SampleFormat::F32, cursor: 0, total: 0 })
    );
}

#[test]
fn begin_frame_refuses_32_bit_integers() {
    assert_eq!(begin_frame(layout(32, false, true), 3, 1), Err(ErrorKind::Format));
    assert_eq!(begin_frame(layout(32, false, true), 0, 2), Err(ErrorKind::Format));
    assert_eq!(begin_frame(layout(32, false, true), 960, 0), Err(ErrorKind::Format));
    assert_eq!(begin_frame(layout(32, false, true), usize::MAX, 2), Err(ErrorKind::Format));
}

#[test]
fn begin_frame_refuses_unknown_layout() {
    assert_eq!(begin_frame(layout(8, false, false), 960, 2), Err(ErrorKind::Format));
    assert_eq!(begin_frame(layout(64, true, true), usize::MAX, 2), Err(ErrorKind::Format));
}

#[test]
fn frame_state_starts_at_zero() {
    assert_eq!(
        DecodeState::frame(SampleFormat::F32, 4),
        DecodeState::EmittingFrame { format: SampleFormat::F32, cursor: 0, total: 4 }
    );
}

#[test]
fn step_awaiting_packet_reads_event() {
    let mut state = DecodeState::AwaitingPacket;
    assert_eq!(state.step(), Ok(Step::ReadEvent));
    assert_eq!(state, DecodeState::AwaitingPacket);
}

#[test]
fn step_emits_each_sample_in_order() {
    let mut state = DecodeState::frame(SampleFormat::S16, 3);
    assert_eq!(state.step(), Ok(Step::Emit { format: SampleFormat::S16, position: 0 }));
    assert_eq!(state.step(), Ok(Step::Emit { format: SampleFormat::S16, position: 1 }));
    assert_eq!(
        state,
        DecodeState::EmittingFrame { format: SampleFormat::S16, cursor: 2, total: 3 }
    );
    assert_eq!(state.step(), Ok(Step::Emit { format: SampleFormat::S16, position: 2 }));
    assert_eq!(state.step(), Ok(Step::ReadEvent));
    assert_eq!(state, DecodeState::AwaitingPacket);
    assert_eq!(state.step(), Ok(Step::ReadEvent));
}

#[test]
fn step_empty_frame_reads_event() {
    let mut state = DecodeState::frame(SampleFormat::F32, 0);
    assert_eq!(state.step(), Ok(Step::ReadEvent));
    assert_eq!(state, DecodeState::AwaitingPacket);
}

#[test]
fn step_refuses_32_bit_integers() {
    let mut state = DecodeState::frame(SampleFormat::S32, 2);
    assert_eq!(state.step(), Err(ErrorKind::Format));
    assert_eq!(
        state,
        DecodeState::EmittingFrame { format: SampleFormat::S32, cursor: 0, total: 2 }
    );
    assert_eq!(state.step(), Err(ErrorKind::Format));
}

#[test]
fn step_refuses_empty_frame_of_32_bit_integers() {
    let mut state = DecodeState::frame(SampleFormat::S32, 0);
    assert_eq!(state.step(), Err(ErrorKind::Format));
    assert_eq!(
        state,
        DecodeState::EmittingFrame { format: SampleFormat::S32, cursor: 0, total: 0 }
    );
}

#[test]
fn step_refuses_finished_frame_of_32_bit_integers() {
    let mut state = DecodeState::EmittingFrame { format: SampleFormat::S32, cursor: 2, total: 2 };
    assert_eq!(state.step(), Err(ErrorKind::Format));
}

#[test]
fn frame_that_begins_is_never_refused_by_the_step() {
    for (bits, fractional) in [(16, false), (32, true)] {
        for samples in [0, 1, 5] {
            let mut state = begin_frame(layout(bits, fractional, true), samples, 2).unwrap();
            for _ in 0..(2 * samples + 1) {
                assert!(state.step().is_ok());
            }
            assert_eq!(state, DecodeState::AwaitingPacket);
        }
    }
}
