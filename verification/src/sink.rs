//! The closed capability a session writes lines through: a real serial
//! transport outside the library, or the inert diagnostic sink below,
//! selected at session construction time.

use vstd::prelude::*;

verus! {

/// Sending a line failed; the session treats this as transport lost.
#[derive(Clone, Copy, PartialEq, Eq, Structural)]
pub struct SinkError;

/// Where one line of output goes.
pub trait Sink {
    /// Hands one message line to the underlying transport.
    fn send(&mut self, message: Vec<u8>) -> Result<(), SinkError>;
}

/// The inert sink: swallows every line and always succeeds. Used where no
/// real transport is wired up.
pub struct DummySink;

impl Sink for DummySink {
    fn send(&mut self, message: Vec<u8>) -> (r: Result<(), SinkError>)
        ensures
            r matches Ok(_),
    {
        Ok(())
    }
}

} // verus!
