//! Deferring a flush until edits have been quiet for a while: each edit takes
//! a new token and starts a timer with it, and a timer that comes back counts
//! only while its token is the one taken last.
use vstd::prelude::*;

verus! {

/// How long edits have to be quiet before they are flushed, in milliseconds.
pub const QUIET_PERIOD_MS: u32 = 30000;

/// The tokens of one list's timers.
#[derive(Clone, Copy, Debug, PartialEq, Eq, Structural)]
pub struct Debounce {
    /// How many tokens have been taken; the next token is this number.
    pub issued: u64,
    /// The token of the timer that still counts, if there is one.
    pub live: Option<u64>,
}

impl Debounce {
    /// The token that counts was taken before.
    pub open spec fn wf(self) -> bool {
        match self.live {
            Some(token) => token < self.issued,
            None => true,
        }
    }

    /// The state after a new token was taken: it is the only one that counts.
    pub open spec fn scheduled(self) -> Debounce {
        Debounce { issued: (self.issued + 1) as u64, live: Some(self.issued) }
    }

    /// The state after `n` tokens were taken one after the other.
    pub open spec fn scheduled_times(self, n: nat) -> Debounce
        decreases n,
    {
        if n == 0 {
            self
        } else {
            self.scheduled_times((n - 1) as nat).scheduled()
        }
    }

    /// Whether the timer with this token counts.
    pub open spec fn fires(self, token: u64) -> bool {
        self.live == Some(token)
    }

    /// The state after the timer with this token came back.
    pub open spec fn fired(self, token: u64) -> Debounce {
        if self.fires(token) {
            Debounce { issued: self.issued, live: None }
        } else {
            self
        }
    }

    /// The state after the timer that counted was called off.
    pub open spec fn cancelled(self) -> Debounce {
        Debounce { issued: self.issued, live: None }
    }

    /// A state in which no token has been taken.
    pub fn new() -> (res: Debounce)
        ensures
            res.wf(),
            res == (Debounce { issued: 0, live: None }),
    {
        Debounce { issued: 0, live: None }
    }

    /// Takes a new token for a timer of `QUIET_PERIOD_MS`; the timer that
    /// counted before, if any, counts no longer.
    pub fn schedule(&mut self) -> (token: u64)
        requires
            old(self).wf(),
            old(self).issued < u64::MAX,
        ensures
            final(self).wf(),
            *final(self) == old(self).scheduled(),
            token == old(self).issued,
            final(self).fires(token),
    {
        let token = self.issued;
        self.issued = self.issued + 1;
        self.live = Some(token);
        token
    }

    /// A timer came back: says whether it counts, and if so no timer counts
    /// afterwards.
    pub fn fire(&mut self, token: u64) -> (run: bool)
        requires
            old(self).wf(),
        ensures
            final(self).wf(),
            run == old(self).fires(token),
            *final(self) == old(self).fired(token),
    {
        match self.live {
            Some(live) => {
                if live == token {
                    self.live = None;
                    true
                } else {
                    false
                }
            },
            None => false,
        }
    }

    /// Calls off the timer that counts, if there is one.
    pub fn cancel(&mut self)
        requires
            old(self).wf(),
        ensures
            final(self).wf(),
            *final(self) == old(self).cancelled(),
    {
        self.live = None;
    }

    /// Whether a timer counts.
    pub fn is_scheduled(&self) -> (res: bool)
        ensures
            res == (self.live is Some),
    {
        self.live.is_some()
    }
}

/// After `n` tokens were taken, as many are counted as issued, and the last
/// one taken is the one that counts.
pub proof fn lemma_scheduled_times(d: Debounce, n: nat)
    requires
        d.wf(),
        d.issued + n <= u64::MAX,
    ensures
        d.scheduled_times(n).wf(),
        d.scheduled_times(n).issued == d.issued + n,
        n > 0 ==> d.scheduled_times(n).live == Some((d.issued + n - 1) as u64),
    decreases n,
{
    if n > 0 {
        lemma_scheduled_times(d, (n - 1) as nat);
    }
}

/// Of the timers started by `n` edits in a row, only the one of the last edit
/// counts when it comes back: the timer of the edit at `k`, which took the
/// token `d.issued + k`, counts if and only if that edit was the last.
pub proof fn lemma_only_last_timer_counts(d: Debounce, n: nat, k: nat)
    requires
        d.wf(),
        d.issued + n <= u64::MAX,
        k < n,
    ensures
        d.scheduled_times(n).fires((d.issued + k) as u64) == (k == n - 1),
{
    lemma_scheduled_times(d, n);
}

/// A timer that comes back after the one that counted has counted, or after
/// it was called off, does not count, whatever its token.
pub proof fn lemma_no_timer_counts_twice(d: Debounce, first: u64, second: u64)
    ensures
        d.fires(first) ==> !d.fired(first).fires(second),
        !d.cancelled().fires(second),
{
}

} // verus!
