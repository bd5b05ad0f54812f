//! The handle on the auxiliary token-serving process: only the fact that a
//! process id was recorded, never the process's actual health.

use vstd::prelude::*;

verus! {

/// Process-wide record of the token server's process id, when one was
/// started.
pub struct TokenServerHandle {
    pub pid: Option<u32>,
}

impl TokenServerHandle {
    /// A handle with no process recorded yet.
    pub fn new() -> (r: TokenServerHandle)
        ensures
            r.pid is None,
    {
        TokenServerHandle { pid: None }
    }

    /// Records the process id of a freshly started token server.
    pub fn record(&mut self, pid: u32)
        ensures
            final(self).pid == Some(pid),
    {
        self.pid = Some(pid);
    }

    /// Whether some process id is currently recorded.
    pub fn is_recorded(&self) -> (r: bool)
        ensures
            r == (self.pid is Some),
    {
        self.pid.is_some()
    }
}

} // verus!
