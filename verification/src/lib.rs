//! Core logic of a window-visibility controller.
//!
//! The library holds the verified heart of the tool: the action vocabulary
//! and its filename token protocol, artifact naming and decoding, the
//! window-state registry with its auto-hide policy, the payload's window
//! mutation model, the injection protocol state machine, and the startup
//! input guard. All operating-system and user-interface plumbing lives
//! outside the library and talks to it through plain values.

pub mod text;
pub mod actions;
pub mod artifact;
pub mod secret;
pub mod winstyle;
pub mod registry;
pub mod injector;
pub mod version;
pub mod frame;
pub mod icon;
pub mod settings;
pub mod patterns;
