//! Messages from the serial reader, writer and replay threads.
use vstd::prelude::*;
use crate::logline::Dir;

verus! {

/// Reader (or replay) thread to main loop.
pub enum SerialEvent {
    Data(Vec<u8>),
    Error(String),
    /// A record echoed by the replay thread.
    Replay(Dir, String),
    /// The reader dropped this many chunks because the main loop fell behind.
    Overflow(usize),
}

/// Writer thread to main loop: bytes written, or why writing failed.
pub enum WriteResult {
    Written(usize),
    Failed(String),
}

} // verus!
