//! Verified core of a real-time speech-to-text bridge for VRChat: voice
//! activity detection, audio chunking, OSC chatbox packets, configuration and
//! the state machines of the backend and of the desktop frontend.

pub mod config;
pub mod vad;
pub mod audio;
pub mod messages;
pub mod gui;
pub mod osc;
pub mod backend;
pub mod backend_manager;
