//! Core of an audio sidecar: the bounded event queue, the binary frame
//! codecs, target and keybind parsing, and the session state machines.
pub mod queue;
pub mod wire;
pub mod frame;
pub mod pcm;
pub mod targets;
pub mod capture;
pub mod keybind;
pub mod voice;
