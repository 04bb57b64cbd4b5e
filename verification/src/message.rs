//! The inbound message alphabet of a REPL worker.

use vstd::prelude::*;

verus! {

/// What a REPL worker can be told to do.  The byte output produced while
/// executing is streamed over a caller-supplied sink outside this crate.
pub enum Message {
    Execute { code: String },
    Interupt,
    Kill,
}

} // verus!
