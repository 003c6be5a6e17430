//! The process-wide shutdown signal and its delay tokens.
use vstd::prelude::*;

verus! {

/// A scope that delays shutdown completion until it is handed back to
/// `Shutdown::release`.
///
/// Only `Shutdown::delay_shutdown_token` makes one.
#[derive(Debug)]
pub struct ShutdownToken {
    scope: (),
}

/// No token can be had: shutdown has already completed.
#[derive(Clone, Copy, Debug, PartialEq, Eq, Structural)]
pub struct ShutdownInProgress {}

/// The shutdown state: whether it was triggered, whether it completed, and
/// how many tokens are outstanding.
#[derive(Debug)]
pub struct Shutdown {
    pub triggered: bool,
    pub completed: bool,
    pub tokens: u64,
}

/// Completion can go ahead: shutdown was triggered and no token is held.
pub open spec fn can_complete(triggered: bool, tokens: u64) -> bool {
    triggered && tokens == 0
}

impl Shutdown {
    /// Completion only ever follows a trigger.
    pub open spec fn wf(&self) -> bool {
        self.completed ==> self.triggered
    }

    /// A signal that has not been triggered, with no token out.
    pub fn new() -> (r: Shutdown)
        ensures
            r.wf(),
            !r.triggered,
            !r.completed,
            r.tokens == 0,
    {
        Shutdown { triggered: false, completed: false, tokens: 0 }
    }

    /// Requests shutdown; calling it again changes nothing.
    pub fn trigger(&mut self)
        requires
            old(self).wf(),
        ensures
            final(self).wf(),
            final(self).triggered,
            final(self).completed == old(self).completed,
            final(self).tokens == old(self).tokens,
    {
        self.triggered = true;
    }

    /// Whether a wait for the trigger resolves now.
    pub fn is_triggered(&self) -> (r: bool)
        ensures
            r == self.triggered,
    {
        self.triggered
    }

    /// Whether shutdown has completed.
    pub fn is_completed(&self) -> (r: bool)
        ensures
            r == self.completed,
    {
        self.completed
    }

    /// Opens a scope that delays completion; fails once shutdown has
    /// completed.
    pub fn delay_shutdown_token(&mut self) -> (r: Result<ShutdownToken, ShutdownInProgress>)
        requires
            old(self).wf(),
            old(self).tokens < u64::MAX,
        ensures
            final(self).wf(),
            r.is_err() == old(self).completed,
            final(self).triggered == old(self).triggered,
            final(self).completed == old(self).completed,
            final(self).tokens == if old(self).completed { old(self).tokens } else { (old(self).tokens + 1) as u64 },
    {
        if self.completed {
            Err(ShutdownInProgress {})
        } else {
            self.tokens = self.tokens + 1;
            Ok(ShutdownToken { scope: () })
        }
    }

    /// Closes a scope opened by `delay_shutdown_token`.
    pub fn release(&mut self, token: ShutdownToken)
        requires
            old(self).wf(),
            old(self).tokens > 0,
        ensures
            final(self).wf(),
            final(self).triggered == old(self).triggered,
            final(self).completed == old(self).completed,
            final(self).tokens == old(self).tokens - 1,
    {
        self.tokens = self.tokens - 1;
    }

    /// Completes shutdown where it can: returns whether it is complete now.
    pub fn try_complete(&mut self) -> (r: bool)
        requires
            old(self).wf(),
        ensures
            final(self).wf(),
            r == (old(self).completed || can_complete(old(self).triggered, old(self).tokens)),
            final(self).completed == r,
            final(self).triggered == old(self).triggered,
            final(self).tokens == old(self).tokens,
    {
        if !self.completed && self.triggered && self.tokens == 0 {
            self.completed = true;
        }
        self.completed
    }
}

/// Whatever the trigger: while a token is held completion cannot go ahead,
/// and once the last token is released it can go ahead exactly when
/// shutdown was triggered, with nothing further to wait for.
pub proof fn lemma_token_delays_completion(triggered: bool, tokens: u64)
    ensures
        tokens > 0 ==> !can_complete(triggered, tokens),
        tokens == 1 ==> can_complete(triggered, (tokens - 1) as u64) == triggered,
{
}

} // verus!
