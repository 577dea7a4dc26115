//! The guest side of the host: what a module exports, and the calling
//! convention between host and guest.

pub mod guest;
pub mod wasm_helper;
pub mod wasm_loader;
