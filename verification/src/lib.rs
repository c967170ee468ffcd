//! Verified core of the `hints` keyboard-driven mouse tool: configuration
//! handling, hint labelling, window-system selection, accessibility-rule
//! decoding, overlay and interceptor key handling, and the mouse service's
//! request decoding.

pub mod text;
pub mod config;
pub mod hints;
pub mod json;
pub mod window_systems;
pub mod input;
pub mod errors;
pub mod mouse;
pub mod backends;
pub mod overlay;
pub mod interceptor;
pub mod session;
pub mod setup;


