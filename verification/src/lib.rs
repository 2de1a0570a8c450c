//! Verified core of a push-to-talk speech-to-text desktop tool: the hotkey
//! trigger, the recording pipeline's decisions, silence trimming, transcript
//! clean-up, model provisioning and the input-source list.
pub mod audio;
pub mod config;
pub mod hotkey;
pub mod inject;
pub mod model;
pub mod pipeline;
pub mod text;
pub mod transcribe;
pub mod tray;
pub mod vad;
