//! Typed support for the FIX tag-value wire protocol: a dictionary model with
//! a source emitter, and the runtime helpers the emitted code relies on.

pub mod codec;
pub mod dec_helpers;
pub mod decimal;
pub mod dictionary;
pub mod emit;
pub mod enc_helpers;
pub mod generator;
pub mod naming;
pub mod parse_helpers;
pub mod prelude;
pub mod schema;
pub mod text_codec;
pub mod wire;
