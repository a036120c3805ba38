//! Core logic of a desktop voice-to-text assistant: fixed-point signal
//! conditioning, voice-activity tracking, the streaming dictation session,
//! transcript filtering and wake-word matching and training.

pub mod config;
pub mod decode;
pub mod fuzzy;
pub mod notes;
pub mod session;
pub mod signal;
pub mod speech;
pub mod sync;
pub mod text;
pub mod ui;
pub mod wake;
