//! The start/stop state of a proxy instance.
//!
//! A start reserves the instance at once, so that a second start made while
//! the first is still binding its sockets is refused too; a failed start
//! releases it again.

use vstd::prelude::*;
use crate::api::PhantomError;

verus! {

#[derive(Debug, Clone, Copy, PartialEq, Eq, Structural)]
pub enum ProxyPhase {
    Stopped,
    Starting,
    Listening,
}

/// Whether a proxy instance is stopped, starting or listening.
#[derive(Debug)]
pub struct Lifecycle {
    phase: ProxyPhase,
}

impl Lifecycle {
    pub closed spec fn spec_phase(self) -> ProxyPhase {
        self.phase
    }

    /// A stopped instance.
    pub fn new() -> (r: Self)
        ensures
            r.spec_phase() == ProxyPhase::Stopped,
    {
        Lifecycle { phase: ProxyPhase::Stopped }
    }

    pub fn phase(&self) -> (r: ProxyPhase)
        ensures
            r == self.spec_phase(),
    {
        self.phase
    }

    /// True from the start of a `listen` until the next shutdown.
    pub fn is_running(&self) -> (r: bool)
        ensures
            r == (self.spec_phase() != ProxyPhase::Stopped),
    {
        self.phase != ProxyPhase::Stopped
    }

    /// Reserves the instance for a start. An instance that is starting or
    /// listening is left as it is, and the start is refused.
    pub fn begin_listen(&mut self) -> (r: Result<(), PhantomError>)
        ensures
            old(self).spec_phase() == ProxyPhase::Stopped ==> r is Ok && final(self).spec_phase()
                == ProxyPhase::Starting,
            old(self).spec_phase() != ProxyPhase::Stopped ==> r == Err::<(), PhantomError>(
                PhantomError::AlreadyRunning,
            ) && *final(self) == *old(self),
    {
        if self.phase != ProxyPhase::Stopped {
            return Err(PhantomError::AlreadyRunning);
        }
        self.phase = ProxyPhase::Starting;
        Ok(())
    }

    /// Ends a start: listening if the sockets were bound, stopped otherwise.
    pub fn finish_listen(&mut self, bound: bool)
        requires
            old(self).spec_phase() == ProxyPhase::Starting,
        ensures
            final(self).spec_phase() == if bound {
                ProxyPhase::Listening
            } else {
                ProxyPhase::Stopped
            },
    {
        self.phase = if bound { ProxyPhase::Listening } else { ProxyPhase::Stopped };
    }

    /// Records that every task was cancelled and joined.
    pub fn finish_shutdown(&mut self)
        ensures
            final(self).spec_phase() == ProxyPhase::Stopped,
    {
        self.phase = ProxyPhase::Stopped;
    }

    /// Whether a caller of `join` has a shutdown to wait for.
    pub fn join_waits(&self) -> (r: bool)
        ensures
            r == (self.spec_phase() == ProxyPhase::Listening),
    {
        self.phase == ProxyPhase::Listening
    }
}

} // verus!
