use vstd::prelude::*;

pub mod text;
pub mod settings;
pub mod prompts;
pub mod dictionary;
pub mod text_diff;
pub mod learning;
pub mod keyboard;
pub mod paste;
pub mod live;
pub mod screen_context;
pub mod devices;
pub mod secrets;
pub mod speech_setup;
pub mod notes;
pub mod usage;
pub mod gemini;
pub mod audio;
pub mod settings_laws;
pub mod shortcut_laws;
pub mod voice_session;
pub mod triggers;
pub mod token_cache;
pub mod finalize;
pub mod transcription;
