//! The digest scanner: pure extraction of authority-set change signals from
//! the consensus entries of a header's digest.  Only the entries of the
//! finality engine concern this component; an entry of another engine, or
//! one whose payload does not decode to a change signal, is `Other` here.

use vstd::prelude::*;

use crate::authorities::{clone_authorities, Authority};

verus! {

/// The payload of a change signal: the next voters and the activation delay.
pub struct ScheduledChange {
    pub next_authorities: Vec<Authority>,
    pub delay: u64,
}

/// One digest entry, as this component reads it.
pub enum ConsensusLogEntry {
    /// A standard change signal: activates `delay` blocks after finalization
    /// of the announcing block.
    ScheduledChange(ScheduledChange),
    /// A forced change signal: the median last-finalized hint, then the
    /// change itself, activating `delay` blocks after the announcing block.
    ForcedChange(u64, ScheduledChange),
    /// An entry this component does not read.
    Other,
}

/// First scheduled-change signal at or after position `i`.
pub open spec fn first_scheduled_from(s: Seq<ConsensusLogEntry>, i: int) -> Option<ScheduledChange>
    decreases s.len() - i,
{
    if i < 0 || i >= s.len() {
        None
    } else {
        match s[i] {
            ConsensusLogEntry::ScheduledChange(c) => Some(c),
            _ => first_scheduled_from(s, i + 1),
        }
    }
}

/// The first scheduled-change signal of the digest, if any.
pub open spec fn spec_first_scheduled(s: Seq<ConsensusLogEntry>) -> Option<ScheduledChange> {
    first_scheduled_from(s, 0)
}

/// First forced-change signal at or after position `i`.
pub open spec fn first_forced_from(s: Seq<ConsensusLogEntry>, i: int) -> Option<
    (u64, ScheduledChange),
>
    decreases s.len() - i,
{
    if i < 0 || i >= s.len() {
        None
    } else {
        match s[i] {
            ConsensusLogEntry::ForcedChange(m, c) => Some((m, c)),
            _ => first_forced_from(s, i + 1),
        }
    }
}

/// The first forced-change signal of the digest, if any.
pub open spec fn spec_first_forced(s: Seq<ConsensusLogEntry>) -> Option<(u64, ScheduledChange)> {
    first_forced_from(s, 0)
}

/// Returns the first scheduled-change signal of the digest: later scheduled
/// signals in the same header are ignored.
pub fn find_scheduled_change(digest: &Vec<ConsensusLogEntry>) -> (r: Option<ScheduledChange>)
    ensures
        match spec_first_scheduled(digest@) {
            None => r is None,
            Some(c) => r matches Some(rc) && rc.next_authorities@ == c.next_authorities@
                && rc.delay == c.delay,
        },
{
    let mut i: usize = 0;
    while i < digest.len()
        invariant
            i <= digest.len(),
            spec_first_scheduled(digest@) == first_scheduled_from(digest@, i as int),
        decreases digest.len() - i,
    {
        match &digest[i] {
            ConsensusLogEntry::ScheduledChange(c) => {
                return Some(
                    ScheduledChange {
                        next_authorities: clone_authorities(&c.next_authorities),
                        delay: c.delay,
                    },
                );
            },
            _ => {},
        }
        i = i + 1;
    }
    None
}

/// Returns the first forced-change signal of the digest, with its median
/// last-finalized hint: later forced signals in the same header are ignored.
pub fn find_forced_change(digest: &Vec<ConsensusLogEntry>) -> (r: Option<(u64, ScheduledChange)>)
    ensures
        match spec_first_forced(digest@) {
            None => r is None,
            Some((m, c)) => r matches Some((rm, rc)) && rm == m && rc.next_authorities@
                == c.next_authorities@ && rc.delay == c.delay,
        },
{
    let mut i: usize = 0;
    while i < digest.len()
        invariant
            i <= digest.len(),
            spec_first_forced(digest@) == first_forced_from(digest@, i as int),
        decreases digest.len() - i,
    {
        match &digest[i] {
            ConsensusLogEntry::ForcedChange(m, c) => {
                return Some(
                    (
                        *m,
                        ScheduledChange {
                            next_authorities: clone_authorities(&c.next_authorities),
                            delay: c.delay,
                        },
                    ),
                );
            },
            _ => {},
        }
        i = i + 1;
    }
    None
}

} // verus!
