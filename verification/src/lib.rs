//! The logic of a native messaging host that lets a browser extension compose
//! text in a terminal editor.
//!
//! The host receives one "begin" message, stores its content in a file, opens an
//! editor on the file, and sends the whole text back each time it changes. The
//! modules of this crate decide and compute; the program around them reads,
//! writes, spawns and sleeps.

pub mod command;
pub mod error;
pub mod frame;
pub mod html;
pub mod message;
pub mod pid;
pub mod session;
pub mod source;
pub mod text;
pub mod update;
