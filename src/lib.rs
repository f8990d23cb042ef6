//! A two-row, bracket-framed shell prompt renderer.
//!
//! The library composes the prompt text from values that the caller has read
//! from the system; every field that fails to produce text leaves an empty
//! segment and contributes one message to a trailing error block.

pub mod fields;
pub mod laws;
pub mod number;
pub mod pass;
pub mod style;
pub mod text;
pub mod writer;
