//! Audio ingestion rules and label decoding for a speech-to-text pipeline.

pub mod audio;
pub mod batch;
pub mod decoder;
pub mod error;
pub mod inference;
pub mod text;
