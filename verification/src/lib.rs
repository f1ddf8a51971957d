//! A serial terminal's logic, verified: line assembly, encodings, ANSI
//! styling, command parsing and completion, the settings and recent-device
//! records, and the interactive session as a state machine whose effects
//! (opening ports, sending bytes, writing files) the caller performs.
use vstd::prelude::*;

pub mod text;
pub mod escape;
pub mod complete;
pub mod logline;
pub mod decoder;
pub mod codec;
pub mod port;
pub mod style;
pub mod ansi;
pub mod wrap;
pub mod replay;
pub mod theme;
pub mod config;
pub mod events;
pub mod session;

verus! {
} // verus!
