//! Server side of a voice-assistant protocol.
pub mod audio;
pub mod buf;
pub mod config;
pub mod cut;
pub mod env;
pub mod http;
pub mod ids;
pub mod json;
pub mod protocol;
pub mod services;
pub mod session;
pub mod speaker_id;
pub mod text;
pub mod text_filter;
pub mod time;
