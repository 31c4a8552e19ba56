//! A small scripting language for input-device macros.
//!
//! A source file declares named macros: each is a header line (`name:`)
//! followed by instruction lines and a final `end`. The compiler turns a
//! whole source text into a registry mapping each macro name to its
//! instruction sequence; the playback machine replays one compiled macro,
//! one primitive device command at a time, against whatever injection sink
//! the caller drives.

pub mod actions;
pub mod compile;
pub mod error;
pub mod keys;
pub mod norm;
pub mod num;
pub mod playback;
