//! The logger's life cycle: it is set up once, at the level asked for.

use vstd::prelude::*;

use crate::error::AudError;

verus! {

/// How much the logger records.
#[derive(Clone, Copy, Debug, PartialEq, Eq, Structural)]
pub enum LogLevel {
    /// Everything, the tracing messages included.
    Trace,
    /// Debugging messages and above.
    Debug,
}

/// The level of a logger set up for a verbose run or not.
pub fn level_for(verbose: bool) -> (r: LogLevel)
    ensures
        r == level_for_spec(verbose),
{
    if verbose {
        LogLevel::Trace
    } else {
        LogLevel::Debug
    }
}

/// Whether the process logger has been set up.
#[derive(Debug)]
pub struct Logger {
    active: bool,
}

impl Logger {
    /// A logger not set up yet.
    pub fn new() -> (r: Self)
        ensures
            !r.active(),
    {
        Logger { active: false }
    }

    pub closed spec fn active(&self) -> bool {
        self.active
    }

    /// Whether the logger has been set up.
    pub fn is_active(&self) -> (r: bool)
        ensures
            r == self.active(),
    {
        self.active
    }

    /// Claims the logger for a setup at `level_for(verbose)`: fails when it
    /// was set up before.
    pub fn start(&mut self, verbose: bool) -> (r: Result<LogLevel, AudError>)
        ensures
            final(self).active() == old(self).active(),
            old(self).active() ==> (r matches Err(e) && e.message@ == "attempted to setup logger more than once"@),
            !old(self).active() ==> r == Ok::<LogLevel, AudError>(level_for_spec(verbose)),
    {
        if self.active {
            return Err(AudError::new("attempted to setup logger more than once"));
        }
        Ok(level_for(verbose))
    }

    /// Ends a setup claimed by `start`, given how setting up the records
    /// went: the logger is set up from then on when that went through, and
    /// the outcome is handed back.
    pub fn finish_start(&mut self, set_up: Result<(), AudError>) -> (r: Result<(), AudError>)
        ensures
            r == set_up,
            final(self).active() == (old(self).active() || set_up is Ok),
    {
        if set_up.is_ok() {
            self.active = true;
        }
        set_up
    }
}

/// Whether a start returns `Ok` when the logger was `active` before and
/// setting up the records would go through or not (`set_up_ok`): it claims
/// the setup only when the logger is not set up yet (see `Logger::start`),
/// and then returns what setting up gave (see `Logger::finish_start`).
pub open spec fn start_succeeds(active: bool, set_up_ok: bool) -> bool {
    !active && set_up_ok
}

/// Whether the logger is set up after a series of starts, from `active`;
/// each start is given by whether setting up the records would go through.
pub open spec fn active_after_starts(active: bool, set_ups: Seq<bool>) -> bool
    decreases set_ups.len(),
{
    if set_ups.len() == 0 {
        active
    } else {
        let before = active_after_starts(active, set_ups.drop_last());
        before || start_succeeds(before, set_ups.last())
    }
}

/// After any series of starts, the logger is set up exactly when one of
/// them returned `Ok`; once set up, it stays so.
pub proof fn lemma_active_exactly_after_a_successful_start(set_ups: Seq<bool>)
    ensures
        active_after_starts(false, set_ups) <==> exists|i: int|
            0 <= i < set_ups.len() && #[trigger] start_succeeds(active_after_starts(false, set_ups.take(i)), set_ups[i]),
        forall|k: int| 0 <= k <= set_ups.len() && active_after_starts(false, #[trigger] set_ups.take(k))
            ==> active_after_starts(false, set_ups),
    decreases set_ups.len(),
{
    if set_ups.len() == 0 {
        assert forall|k: int| 0 <= k <= set_ups.len() && active_after_starts(false, #[trigger] set_ups.take(k))
            implies active_after_starts(false, set_ups) by {
            assert(set_ups.take(k) =~= set_ups);
        }
    } else {
        let t = set_ups.drop_last();
        let n = set_ups.len() - 1;
        lemma_active_exactly_after_a_successful_start(t);
        assert(set_ups.take(n) =~= t);
        if active_after_starts(false, t) {
            let i = choose|i: int| 0 <= i < t.len() && #[trigger] start_succeeds(active_after_starts(false, t.take(i)), t[i]);
            assert(set_ups.take(i) =~= t.take(i));
            assert(start_succeeds(active_after_starts(false, set_ups.take(i)), set_ups[i]));
        } else if start_succeeds(false, set_ups[n]) {
            assert(start_succeeds(active_after_starts(false, set_ups.take(n)), set_ups[n]));
        } else {
            assert forall|i: int| 0 <= i < set_ups.len() implies !#[trigger] start_succeeds(
                active_after_starts(false, set_ups.take(i)),
                set_ups[i],
            ) by {
                if i < n {
                    assert(set_ups.take(i) =~= t.take(i));
                    assert(set_ups[i] == t[i]);
                }
            }
        }
        assert forall|k: int| 0 <= k <= set_ups.len() && active_after_starts(false, #[trigger] set_ups.take(k))
            implies active_after_starts(false, set_ups) by {
            if k == set_ups.len() {
                assert(set_ups.take(k) =~= set_ups);
            } else {
                assert(set_ups.take(k) =~= t.take(k));
            }
        }
    }
}

/// The level of a logger set up for a verbose run or not.
pub open spec fn level_for_spec(verbose: bool) -> LogLevel {
    if verbose {
        LogLevel::Trace
    } else {
        LogLevel::Debug
    }
}

} // verus!
