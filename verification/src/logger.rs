//! The debug-log service as a two-phase leaf: unbound before firmware
//! entry, bound once to a concrete sink, then queried for each message's
//! disposition. Writing to the sink is the embedder's work.

use vstd::prelude::*;

verus! {

/// Standard debug levels.
pub const DEBUG_INIT: usize = 0x00000001;
pub const DEBUG_WARN: usize = 0x00000002;
pub const DEBUG_INFO: usize = 0x00000040;
pub const DEBUG_VERBOSE: usize = 0x00400000;
pub const DEBUG_ERROR: usize = 0x80000000;

/// A write the embedder performs against the bound sink.
#[derive(Clone, Copy, Debug, PartialEq, Eq, Structural)]
pub struct LogAction {
    pub sink: usize,
    pub level: usize,
}

/// The debug logger: holds the sink it was bound to, if any.
pub struct AdvancedLogger {
    sink: Option<usize>,
}

impl View for AdvancedLogger {
    type V = Option<usize>;

    closed spec fn view(&self) -> Option<usize> {
        self.sink
    }
}

impl AdvancedLogger {
    /// Creates an unbound logger; output is discarded until it is bound.
    pub fn new() -> (r: AdvancedLogger)
        ensures r@ is None,
    {
        AdvancedLogger { sink: None }
    }

    /// Binds the logger to the sink the lookup yielded, or leaves it
    /// unbound when the lookup found none.
    pub fn init(&mut self, sink: Option<usize>)
        ensures final(self)@ == sink,
    {
        self.sink = sink;
    }

    /// Decides a message's disposition: a write to the bound sink at the
    /// given level, or nothing while unbound.
    pub fn log(&self, level: usize) -> (r: Option<LogAction>)
        ensures
            self@ matches Some(s) ==> r == Some(LogAction { sink: s, level }),
            self@ is None ==> r is None,
    {
        match self.sink {
            Some(s) => Some(LogAction { sink: s, level }),
            None => None,
        }
    }
}

/// Decides the disposition of one formatted message against a logger.
pub fn _log(logger: &AdvancedLogger, level: usize) -> (r: Option<LogAction>)
    ensures
        logger@ matches Some(s) ==> r == Some(LogAction { sink: s, level }),
        logger@ is None ==> r is None,
{
    logger.log(level)
}

} // verus!
