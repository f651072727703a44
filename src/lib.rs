use vstd::prelude::*;

pub mod command;
pub mod engine;
pub mod voice_id;
pub mod voices;

pub use command::{AudioCommand, Frequency, ToneRequest};
pub use engine::{
    play_note, play_note_sync, stop_all, stop_note, Engine, Note_off, Note_on, LEGACY_NOTE_MS,
};
pub use voice_id::IdAllocator;
pub use voices::{Reaction, VoiceTable};
