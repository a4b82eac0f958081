//! Core logic of the Open Flow dictation tray app: hotkey tracking, text clean-up
//! of transcriptions, rewrite prompt assembly, settings handling and the small
//! decisions that drive the dictation pipeline.
pub mod text;
pub mod platform;
pub mod hotkey;
pub mod credit;
pub mod settings;
pub mod snippets;
pub mod gemini;
pub mod errors;
pub mod prompt;
pub mod pipeline;
pub mod menu;
pub mod overlay;
pub mod history;
pub mod insertion;
