use vstd::prelude::*;

verus! {

/// Why an operation on an audio file, a model output or a vocabulary failed.
#[derive(Clone, Copy, Debug, PartialEq, Eq, Structural)]
pub enum ErrorKind {
    /// The file extension is missing or unknown, or the sample encoding is not supported.
    Format,
    /// A file could not be opened, read or written.
    Io,
    /// The container headers cannot be parsed, or no supported audio stream is present.
    MalformedContainer,
    /// The codec could not be configured, or failed to decode a packet.
    Codec,
    /// The stream ended in the middle of a multichannel frame.
    ChannelFrame,
    /// The model output does not have the label count or batch size that was expected.
    ShapeMismatch,
    /// The vocabulary does not hold exactly one blank and one sentinel label.
    DecoderConfig,
}

} // verus!
