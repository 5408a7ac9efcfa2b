//! An always-on MIDI auto-recorder: the capture, segmentation, storage and
//! playback decisions, stated and proved.

pub mod backend;
pub mod classify;
pub mod config;
pub mod coordinator;
pub mod keyboard;
pub mod legacy;
pub mod midi;
pub mod queue;
pub mod registry;
pub mod segmenter;
pub mod smf;
pub mod store;
