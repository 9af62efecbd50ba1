//! Audio: containers, packet durations, PCM and voice activity.
pub mod ogg_opus;
pub mod opus_decode;
pub mod opus_duration;
pub mod opus_silence;
pub mod silero_vad;
