//! A verified codec for the marker-delimited chat wire format: encoding a
//! conversation of structured messages into model-ready bytes through the
//! tokenizer provider, and decoding raw model output — complete, partially
//! streamed, or malformed — back into one structured assistant message by
//! graceful degradation, never failing on valid UTF-8 input.
pub mod args;
pub mod canonical;
pub mod channels;
pub mod codec;
pub mod harmony;
pub mod markers;
pub mod model;
pub mod structure;
pub mod text;
