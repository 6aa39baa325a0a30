use grandpa_import::authorities::{
    Authority, AuthoritySet, AuthoritySetError, DelayKind, PendingChange,
};
use grandpa_import::chain::{Blockchain, Header};
use grandpa_import::digest::{
    find_forced_change, find_scheduled_change, ConsensusLogEntry, ScheduledChange,
};
use grandpa_import::import::{on_start_targets, GrandpaBlockImport};

fn auth(id: u64) -> Authority {
    Authority { id, weight: 1 }
}

fn header(hash: u64, number: u64, parent_hash: u64) -> Header {
    Header {
        hash,
        number,
        parent_hash,
    }
}

fn chain(headers: Vec<Header>, finalized_number: u64, best_number: u64) -> Blockchain {
    Blockchain {
        headers,
        finalized_number,
        best_number,
    }
}

fn standard(canon_hash: u64, canon_height: u64, delay: u64, next: Vec<Authority>) -> PendingChange {
    PendingChange {
        next_authorities: next,
        delay,
        canon_height,
        canon_hash,
        delay_kind: DelayKind::Finalized,
    }
}

fn forced(
    canon_hash: u64,
    canon_height: u64,
    delay: u64,
    median_last_finalized: u64,
) -> PendingChange {
    PendingChange {
        next_authorities: vec![auth(50)],
        delay,
        canon_height,
        canon_hash,
        delay_kind: DelayKind::Best {
            median_last_finalized,
        },
    }
}

#[test]
fn descendancy_walks_parent_links() {
    let ch = chain(vec![header(1, 1, 0), header(2, 2, 1), header(3, 3, 2)], 0, 3);
    assert!(ch.is_descendant_of(None, 1, 3));
    assert!(ch.is_descendant_of(None, 2, 3));
    assert!(!ch.is_descendant_of(None, 3, 1));
    // A block is not its own descendant.
    assert!(!ch.is_descendant_of(None, 2, 2));
    // An unknown head reaches nothing.
    assert!(!ch.is_descendant_of(None, 1, 9));
}

#[test]
fn descendancy_sees_the_block_in_flight() {
    let ch = chain(vec![header(1, 1, 0), header(2, 2, 1)], 0, 2);
    // Block 3 (child of 2) is not written yet but must already count.
    assert!(ch.is_descendant_of(Some((3, 2)), 2, 3));
    assert!(ch.is_descendant_of(Some((3, 2)), 1, 3));
    assert!(!ch.is_descendant_of(Some((3, 2)), 3, 2));
}

#[test]
fn scanner_takes_first_signal_of_each_kind() {
    let digest = vec![
        ConsensusLogEntry::Other,
        ConsensusLogEntry::ForcedChange(
            7,
            ScheduledChange {
                next_authorities: vec![auth(1)],
                delay: 3,
            },
        ),
        ConsensusLogEntry::ForcedChange(
            8,
            ScheduledChange {
                next_authorities: vec![auth(2)],
                delay: 4,
            },
        ),
        ConsensusLogEntry::ScheduledChange(ScheduledChange {
            next_authorities: vec![auth(3)],
            delay: 5,
        }),
    ];
    let (median, change) = find_forced_change(&digest).expect("a forced signal is present");
    assert_eq!(median, 7);
    assert_eq!(change.next_authorities, vec![auth(1)]);
    assert_eq!(change.delay, 3);
    let change = find_scheduled_change(&digest).expect("a scheduled signal is present");
    assert_eq!(change.next_authorities, vec![auth(3)]);
    assert_eq!(change.delay, 5);
}

#[test]
fn scanner_ignores_other_entries() {
    let digest = vec![ConsensusLogEntry::Other, ConsensusLogEntry::Other];
    assert!(find_scheduled_change(&digest).is_none());
    assert!(find_forced_change(&digest).is_none());
}

#[test]
fn duplicate_standard_change_is_refused() {
    let ch = chain(vec![header(1, 1, 0)], 0, 1);
    let mut set = AuthoritySet::genesis(0, vec![auth(1)]);
    assert!(set
        .add_pending_change(standard(1, 1, 5, vec![auth(2)]), &ch, None)
        .is_ok());
    assert_eq!(
        set.add_pending_change(standard(1, 1, 9, vec![auth(3)]), &ch, None),
        Err(AuthoritySetError::DuplicateAuthoritySetChange)
    );
    // A standard change on the same fork at a different block may stack.
    assert!(set
        .add_pending_change(standard(2, 2, 5, vec![auth(4)]), &ch, Some((2, 1)))
        .is_ok());
    assert_eq!(set.pending_standard_changes.len(), 2);
}

#[test]
fn second_forced_change_on_a_fork_is_refused() {
    let ch = chain(vec![header(1, 1, 0), header(2, 2, 1)], 0, 2);
    let mut set = AuthoritySet::genesis(0, vec![auth(1)]);
    assert!(set.add_pending_change(forced(1, 1, 10, 0), &ch, None).is_ok());
    // Block 2 descends from block 1, which already carries a forced change.
    assert_eq!(
        set.add_pending_change(forced(2, 2, 10, 0), &ch, None),
        Err(AuthoritySetError::DuplicateAuthoritySetChange)
    );
}

#[test]
fn apply_forced_changes_at_effective_block() {
    let ch = chain(vec![header(1, 1, 0), header(2, 2, 1)], 2, 2);
    let mut set = AuthoritySet::genesis(3, vec![auth(1)]);
    set.pending_forced_changes.push(forced(1, 1, 2, 9));
    // Height 2 is not the activation height of the queued change.
    assert!(set.apply_forced_changes(2, 2, &ch, None).is_none());
    // Height 3, on the descendant in flight, is.
    let (median, next) = set
        .apply_forced_changes(3, 3, &ch, Some((3, 2)))
        .expect("the change takes effect");
    assert_eq!(median, 9);
    assert_eq!(next.set_id, 4);
    assert_eq!(next.current_authorities, vec![auth(50)]);
    assert!(next.pending_standard_changes.is_empty());
    assert!(next.pending_forced_changes.is_empty());
    // The call itself leaves the set unchanged.
    assert_eq!(set.set_id, 3);
    assert_eq!(set.pending_forced_changes.len(), 1);
}

#[test]
fn enacts_standard_change_root_and_dependent() {
    let ch = chain(vec![header(1, 1, 0), header(2, 2, 1)], 0, 2);
    let mut set = AuthoritySet::genesis(0, vec![auth(1)]);
    set.pending_standard_changes
        .push(standard(1, 1, 5, vec![auth(2)]));
    set.pending_standard_changes
        .push(standard(2, 2, 1, vec![auth(3)]));
    // The change announced at block 1 is the root of its fork.
    assert_eq!(set.enacts_standard_change(1, 1, &ch, None), Some(true));
    // The change announced at block 2 has the one at block 1 as an
    // undischarged ancestor.
    assert_eq!(set.enacts_standard_change(2, 2, &ch, None), Some(false));
    // A block that announced no standard change.
    assert_eq!(set.enacts_standard_change(9, 9, &ch, Some((9, 2))), None);
}

#[test]
fn constructor_applies_hard_forks() {
    let mut set = AuthoritySet::genesis(5, vec![auth(1)]);
    set.pending_standard_changes
        .push(standard(7, 2, 3, vec![auth(2)]));
    set.pending_standard_changes
        .push(standard(8, 3, 3, vec![auth(3)]));
    let hard_forks = vec![
        // Declared for the current epoch: overrides the current voters.
        (5u64, standard(40, 9, 1, vec![auth(91), auth(92)])),
        // Declared for the block that announced the first pending change:
        // substitutes it.
        (6u64, standard(7, 2, 8, vec![auth(93)])),
    ];
    let imp = GrandpaBlockImport::new(set, hard_forks, Vec::new());
    assert_eq!(imp.authority_set.set_id, 5);
    assert_eq!(
        imp.authority_set.current_authorities,
        vec![auth(91), auth(92)]
    );
    // The index is keyed by announcing block hash.
    assert_eq!(imp.authority_set_hard_forks.len(), 2);
    assert_eq!(imp.authority_set_hard_forks[0].0, 40);
    assert_eq!(imp.authority_set_hard_forks[1].0, 7);
    // The first pending change was rewritten, the second kept.
    assert_eq!(imp.authority_set.pending_standard_changes.len(), 2);
    assert_eq!(
        imp.authority_set.pending_standard_changes[0].next_authorities,
        vec![auth(93)]
    );
    assert_eq!(imp.authority_set.pending_standard_changes[0].delay, 8);
    assert_eq!(
        imp.authority_set.pending_standard_changes[1].next_authorities,
        vec![auth(3)]
    );
}

#[test]
fn on_start_window_and_targets() {
    let mut imp = GrandpaBlockImport {
        authority_set: AuthoritySet::genesis(0, vec![auth(1)]),
        authority_set_hard_forks: Vec::new(),
        consensus_changes: Vec::new(),
    };
    imp.authority_set
        .pending_standard_changes
        .push(standard(1, 1, 2, vec![auth(2)])); // effective 3: at the finalized bound, excluded
    imp.authority_set
        .pending_standard_changes
        .push(standard(2, 2, 3, vec![auth(3)])); // effective 5: within the window
    imp.authority_set
        .pending_standard_changes
        .push(standard(3, 3, 9, vec![auth(4)])); // effective 12: past the best block
    let candidates = imp.on_start_candidates(3, 10);
    assert_eq!(candidates.len(), 1);
    assert_eq!(candidates[0].canon_hash, 2);
    // A resolved header at exactly the activation height is emitted; a
    // mismatching or missing one is not.
    let resolved = vec![Some(header(9, 5, 4))];
    assert_eq!(on_start_targets(&candidates, &resolved), vec![(9, 5)]);
    let resolved = vec![Some(header(9, 6, 4))];
    assert_eq!(on_start_targets(&candidates, &resolved), Vec::<(u64, u64)>::new());
    let resolved = vec![None];
    assert_eq!(on_start_targets(&candidates, &resolved), Vec::<(u64, u64)>::new());
}

#[test]
fn interceptor_clone_keeps_state() {
    let mut imp = GrandpaBlockImport {
        authority_set: AuthoritySet::genesis(2, vec![auth(1)]),
        authority_set_hard_forks: vec![(7, standard(7, 1, 1, vec![auth(5)]))],
        consensus_changes: vec![(4, 9)],
    };
    imp.authority_set
        .pending_standard_changes
        .push(standard(3, 3, 1, vec![auth(6)]));
    let copy = imp.clone();
    assert_eq!(copy.authority_set.set_id, 2);
    assert_eq!(copy.authority_set.current_authorities, vec![auth(1)]);
    assert_eq!(copy.authority_set.pending_standard_changes.len(), 1);
    assert_eq!(copy.authority_set_hard_forks.len(), 1);
    assert_eq!(copy.authority_set_hard_forks[0].0, 7);
    assert_eq!(copy.consensus_changes, vec![(4, 9)]);
}
