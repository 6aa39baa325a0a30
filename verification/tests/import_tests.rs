use grandpa_import::authorities::{Authority, AuthoritySet, DelayKind, PendingChange};
use grandpa_import::chain::{Blockchain, Header};
use grandpa_import::digest::{ConsensusLogEntry, ScheduledChange};
use grandpa_import::import::{
    AppliedChanges, BlockImportParams, BlockOrigin, ConsensusError, FinalizeError,
    FinalizeOutcome, FinishOutcome, GrandpaBlockImport, ImportResult, ImportStage, ImportedAux,
    JustificationOutcome, PendingSetChanges, VoterCommand,
};

fn auth(id: u64) -> Authority {
    Authority { id, weight: 1 }
}

fn header(hash: u64, number: u64, parent_hash: u64) -> Header {
    Header {
        hash,
        number,
        parent_hash,
    }
}

fn chain(headers: Vec<Header>, finalized_number: u64, best_number: u64) -> Blockchain {
    Blockchain {
        headers,
        finalized_number,
        best_number,
    }
}

fn interceptor(set: AuthoritySet) -> GrandpaBlockImport {
    GrandpaBlockImport {
        authority_set: set,
        authority_set_hard_forks: Vec::new(),
        consensus_changes: Vec::new(),
    }
}

fn block(h: Header, digest: Vec<ConsensusLogEntry>) -> BlockImportParams {
    BlockImportParams {
        header: h,
        digest,
        origin: BlockOrigin::Own,
        justification: None,
        auxiliary: Vec::new(),
    }
}

fn default_aux() -> ImportedAux {
    ImportedAux {
        needs_justification: false,
        bad_justification: false,
        clear_justification_requests: false,
    }
}

fn assert_change_eq(a: &PendingChange, b: &PendingChange) {
    assert_eq!(a.next_authorities, b.next_authorities);
    assert_eq!(a.delay, b.delay);
    assert_eq!(a.canon_height, b.canon_height);
    assert_eq!(a.canon_hash, b.canon_hash);
    assert_eq!(a.delay_kind, b.delay_kind);
}

fn assert_set_eq(a: &AuthoritySet, b: &AuthoritySet) {
    assert_eq!(a.set_id, b.set_id);
    assert_eq!(a.current_authorities, b.current_authorities);
    assert_eq!(
        a.pending_standard_changes.len(),
        b.pending_standard_changes.len()
    );
    for (x, y) in a
        .pending_standard_changes
        .iter()
        .zip(b.pending_standard_changes.iter())
    {
        assert_change_eq(x, y);
    }
    assert_eq!(
        a.pending_forced_changes.len(),
        b.pending_forced_changes.len()
    );
    for (x, y) in a
        .pending_forced_changes
        .iter()
        .zip(b.pending_forced_changes.iter())
    {
        assert_change_eq(x, y);
    }
}

fn ready(r: Result<ImportStage, ConsensusError>) -> grandpa_import::import::ImportTransaction {
    match r {
        Ok(ImportStage::Ready(tx)) => tx,
        _ => panic!("expected a ready import transaction"),
    }
}

#[test]
fn plain_block_no_signals() {
    let ch = chain(vec![header(1, 0, 0)], 0, 0);
    let mut imp = interceptor(AuthoritySet::genesis(0, vec![auth(1), auth(2)]));
    let mut b = block(header(2, 1, 1), Vec::new());
    let tx = ready(imp.import_block(&ch, &mut b, &Vec::new()));
    assert!(tx.pending.just_in_case.is_none());
    assert!(!tx.pending.do_pause);
    assert!(matches!(tx.pending.applied_changes, AppliedChanges::NoChange));
    assert!(b.auxiliary.is_empty());
    match imp.import_block_finish(tx, Ok(ImportResult::Imported(default_aux()))) {
        FinishOutcome::Completed { aux, commands } => {
            assert_eq!(aux, default_aux());
            assert!(commands.is_empty());
        }
        _ => panic!("expected a completed import"),
    }
    assert_eq!(imp.authority_set.set_id, 0);
    assert_eq!(imp.authority_set.current_authorities, vec![auth(1), auth(2)]);
    assert!(imp.authority_set.pending_standard_changes.is_empty());
    assert!(imp.consensus_changes.is_empty());
}

#[test]
fn scheduled_change_no_justification() {
    let ch = chain(vec![header(1, 0, 0)], 0, 0);
    let mut imp = interceptor(AuthoritySet::genesis(0, vec![auth(1)]));
    let digest = vec![ConsensusLogEntry::ScheduledChange(ScheduledChange {
        next_authorities: vec![auth(11), auth(12)],
        delay: 10,
    })];
    let mut b = block(header(2, 1, 1), digest);
    let tx = ready(imp.import_block(&ch, &mut b, &Vec::new()));
    assert!(tx.pending.just_in_case.is_some());
    assert!(!tx.pending.do_pause);
    // The block is the root change of its fork, enacted once finalized.
    assert!(matches!(tx.pending.applied_changes, AppliedChanges::Standard(true)));
    assert_eq!(imp.authority_set.pending_standard_changes.len(), 1);
    let queued = &imp.authority_set.pending_standard_changes[0];
    assert_eq!(queued.canon_height + queued.delay, 11);
    assert_eq!(queued.canon_hash, 2);
    assert_eq!(queued.delay_kind, DelayKind::Finalized);
    // The aux side-channel carries the updated set.
    assert_eq!(b.auxiliary.len(), 1);
    assert_eq!(b.auxiliary[0].set.pending_standard_changes.len(), 1);
    assert!(b.auxiliary[0].new_set.is_none());
    match imp.import_block_finish(tx, Ok(ImportResult::Imported(default_aux()))) {
        FinishOutcome::Completed { aux, commands } => {
            assert!(aux.needs_justification);
            assert!(!aux.bad_justification);
            assert!(!aux.clear_justification_requests);
            assert!(commands.is_empty());
        }
        _ => panic!("expected a completed import"),
    }
    assert_eq!(imp.authority_set.pending_standard_changes.len(), 1);
}

#[test]
fn forced_change() {
    // The chain is finalized at height 0 and a header exists there.
    let ch = chain(vec![header(1, 0, 0)], 0, 0);
    let mut imp = interceptor(AuthoritySet::genesis(7, vec![auth(1)]));
    let digest = vec![ConsensusLogEntry::ForcedChange(
        0,
        ScheduledChange {
            next_authorities: vec![auth(21), auth(22)],
            delay: 0,
        },
    )];
    let mut b = block(header(2, 1, 1), digest);
    let tx = ready(imp.import_block(&ch, &mut b, &Vec::new()));
    assert!(tx.pending.do_pause);
    assert!(matches!(tx.pending.applied_changes, AppliedChanges::Forced(_)));
    assert_eq!(b.auxiliary.len(), 1);
    assert!(b.auxiliary[0].new_set.is_some());
    match imp.import_block_finish(tx, Ok(ImportResult::Imported(default_aux()))) {
        FinishOutcome::Completed { aux, commands } => {
            assert!(aux.clear_justification_requests);
            assert_eq!(commands.len(), 2);
            match &commands[0] {
                VoterCommand::Pause(reason) => {
                    assert_eq!(reason, "Forced change scheduled after inactivity")
                }
                _ => panic!("expected the pause signal first"),
            }
            match &commands[1] {
                VoterCommand::ChangeAuthorities(new) => {
                    assert_eq!(new.canon_number, 0);
                    assert_eq!(new.canon_hash, 1);
                    assert_eq!(new.set_id, 8);
                    assert_eq!(new.authorities, vec![auth(21), auth(22)]);
                }
                _ => panic!("expected the rotation announcement second"),
            }
        }
        _ => panic!("expected a completed import"),
    }
    assert_eq!(imp.authority_set.set_id, 8);
    assert_eq!(
        imp.authority_set.current_authorities,
        vec![auth(21), auth(22)]
    );
    assert!(imp.authority_set.pending_standard_changes.is_empty());
    assert!(imp.authority_set.pending_forced_changes.is_empty());
}

#[test]
fn inner_importer_failure() {
    let ch = chain(vec![header(1, 0, 0)], 0, 0);
    let mut imp = interceptor(AuthoritySet::genesis(3, vec![auth(5), auth(6)]));
    let before = imp.authority_set.clone();
    let digest = vec![ConsensusLogEntry::ScheduledChange(ScheduledChange {
        next_authorities: vec![auth(9)],
        delay: 4,
    })];
    let mut b = block(header(2, 1, 1), digest);
    let tx = ready(imp.import_block(&ch, &mut b, &Vec::new()));
    // The set was touched by the queued change.
    assert_eq!(imp.authority_set.pending_standard_changes.len(), 1);
    match imp.import_block_finish(tx, Err(String::from("io failure"))) {
        FinishOutcome::Reverted(Err(ConsensusError::ClientImport(msg))) => {
            assert_eq!(msg, "io failure");
        }
        _ => panic!("expected a reverted import with the inner error"),
    }
    // The pre-call authority set is restored exactly.
    assert_set_eq(&imp.authority_set, &before);
}

#[test]
fn inner_importer_refusal_rolls_back() {
    let ch = chain(vec![header(1, 0, 0)], 0, 0);
    let mut imp = interceptor(AuthoritySet::genesis(0, vec![auth(5)]));
    let before = imp.authority_set.clone();
    let digest = vec![ConsensusLogEntry::ScheduledChange(ScheduledChange {
        next_authorities: vec![auth(9)],
        delay: 4,
    })];
    let mut b = block(header(2, 1, 1), digest);
    let tx = ready(imp.import_block(&ch, &mut b, &Vec::new()));
    match imp.import_block_finish(tx, Ok(ImportResult::KnownBad)) {
        FinishOutcome::Reverted(Ok(ImportResult::KnownBad)) => {}
        _ => panic!("expected the inner result passed through"),
    }
    assert_set_eq(&imp.authority_set, &before);
}

#[test]
fn justification_with_standard_root() {
    let ch = chain(vec![header(1, 0, 0)], 0, 0);
    let mut imp = interceptor(AuthoritySet::genesis(0, vec![auth(1)]));
    // A zero-delay scheduled change is enacted by its own block.
    let digest = vec![ConsensusLogEntry::ScheduledChange(ScheduledChange {
        next_authorities: vec![auth(2)],
        delay: 0,
    })];
    let mut b = block(header(2, 1, 1), digest);
    b.justification = Some(vec![1, 2, 3]);
    let tx = ready(imp.import_block(&ch, &mut b, &Vec::new()));
    assert!(b.justification.is_none());
    assert!(matches!(
        tx.pending.applied_changes,
        AppliedChanges::Standard(true)
    ));
    let stage = match imp.import_block_finish(tx, Ok(ImportResult::Imported(default_aux()))) {
        FinishOutcome::AwaitingJustification(stage) => stage,
        _ => panic!("expected the justification handed back"),
    };
    assert_eq!(stage.justification, vec![1, 2, 3]);
    assert_eq!(stage.set_id, 0);
    assert_eq!(stage.authorities, vec![auth(1)]);
    assert!(stage.needs_justification);
    assert!(stage.commands.is_empty());
    // The finalizer triggered a command; it is forwarded and no flags are set.
    let forwarded = VoterCommand::Pause(String::from("standstill"));
    let (aux, commands) = imp.import_block_justified(
        stage,
        JustificationOutcome::Verified(FinalizeOutcome::Command(forwarded)),
    );
    assert!(!aux.needs_justification);
    assert!(!aux.bad_justification);
    assert_eq!(commands.len(), 1);
    assert!(matches!(&commands[0], VoterCommand::Pause(r) if r == "standstill"));
}

#[test]
fn bad_justification_on_change_block() {
    let ch = chain(vec![header(1, 0, 0)], 0, 0);
    let mut imp = interceptor(AuthoritySet::genesis(0, vec![auth(1)]));
    let digest = vec![ConsensusLogEntry::ScheduledChange(ScheduledChange {
        next_authorities: vec![auth(2)],
        delay: 0,
    })];
    let mut b = block(header(2, 1, 1), digest);
    b.justification = Some(vec![9, 9]);
    let tx = ready(imp.import_block(&ch, &mut b, &Vec::new()));
    let stage = match imp.import_block_finish(tx, Ok(ImportResult::Imported(default_aux()))) {
        FinishOutcome::AwaitingJustification(stage) => stage,
        _ => panic!("expected the justification handed back"),
    };
    let (aux, commands) = imp.import_block_justified(
        stage,
        JustificationOutcome::VerifyFailed(String::from("signature check failed")),
    );
    assert!(aux.bad_justification);
    assert!(aux.needs_justification);
    assert!(commands.is_empty());
}

#[test]
fn reimport_returns_already_in_chain() {
    let b_header = header(2, 1, 1);
    let ch = chain(vec![header(1, 0, 0), b_header], 0, 1);
    let mut imp = interceptor(AuthoritySet::genesis(0, vec![auth(1)]));
    let digest = vec![ConsensusLogEntry::ScheduledChange(ScheduledChange {
        next_authorities: vec![auth(2)],
        delay: 3,
    })];
    let mut b = block(b_header, digest);
    b.justification = Some(vec![1]);
    match imp.import_block(&ch, &mut b, &Vec::new()) {
        Ok(ImportStage::AlreadyInChain) => {}
        _ => panic!("expected the early exit"),
    }
    // No side effects: the set is untouched and the block keeps everything.
    assert!(imp.authority_set.pending_standard_changes.is_empty());
    assert_eq!(b.justification, Some(vec![1]));
    assert!(b.auxiliary.is_empty());
}

#[test]
fn hard_fork_precedence_over_digest() {
    let mut imp = interceptor(AuthoritySet::genesis(0, vec![auth(1)]));
    let override_change = PendingChange {
        next_authorities: vec![auth(77)],
        delay: 5,
        canon_height: 1,
        canon_hash: 2,
        delay_kind: DelayKind::Finalized,
    };
    imp.authority_set_hard_forks.push((2, override_change));
    let digest = vec![ConsensusLogEntry::ForcedChange(
        4,
        ScheduledChange {
            next_authorities: vec![auth(5)],
            delay: 0,
        },
    )];
    let resolved = imp.check_new_change(&digest, 1, 2).expect("an override applies");
    assert_eq!(resolved.next_authorities, vec![auth(77)]);
    assert_eq!(resolved.delay, 5);
    assert_eq!(resolved.delay_kind, DelayKind::Finalized);
}

#[test]
fn forced_signal_outranks_scheduled() {
    let ch = chain(vec![header(1, 0, 0)], 0, 0);
    let mut imp = interceptor(AuthoritySet::genesis(0, vec![auth(1)]));
    let digest = vec![
        ConsensusLogEntry::ScheduledChange(ScheduledChange {
            next_authorities: vec![auth(2)],
            delay: 1,
        }),
        ConsensusLogEntry::ForcedChange(
            0,
            ScheduledChange {
                next_authorities: vec![auth(3)],
                delay: 0,
            },
        ),
    ];
    let resolved = imp
        .check_new_change(&digest, 1, 2)
        .expect("a change applies");
    assert!(matches!(resolved.delay_kind, DelayKind::Best { .. }));
    // Carried to its end, the import applies a forced rotation, not a
    // standard change.
    let mut b = block(header(2, 1, 1), digest);
    let tx = ready(imp.import_block(&ch, &mut b, &Vec::new()));
    assert!(matches!(tx.pending.applied_changes, AppliedChanges::Forced(_)));
    match imp.import_block_finish(tx, Ok(ImportResult::Imported(default_aux()))) {
        FinishOutcome::Completed { aux, .. } => assert!(aux.clear_justification_requests),
        _ => panic!("expected a completed import"),
    }
    assert_eq!(imp.authority_set.current_authorities, vec![auth(3)]);
}

#[test]
fn duplicate_change_fails_import() {
    let ch = chain(vec![header(1, 0, 0)], 0, 0);
    let mut imp = interceptor(AuthoritySet::genesis(0, vec![auth(1)]));
    // A change announced by this very block is already queued.
    imp.authority_set.pending_standard_changes.push(PendingChange {
        next_authorities: vec![auth(2)],
        delay: 3,
        canon_height: 1,
        canon_hash: 2,
        delay_kind: DelayKind::Finalized,
    });
    let digest = vec![ConsensusLogEntry::ScheduledChange(ScheduledChange {
        next_authorities: vec![auth(2)],
        delay: 3,
    })];
    let mut b = block(header(2, 1, 1), digest);
    match imp.import_block(&ch, &mut b, &Vec::new()) {
        Err(ConsensusError::ClientImport(msg)) => {
            assert_eq!(msg, "duplicate authority set change");
        }
        _ => panic!("expected the duplicate-change failure"),
    }
    assert_eq!(imp.authority_set.pending_standard_changes.len(), 1);
}

#[test]
fn blocked_standard_change_drops_justification() {
    // An earlier standard change is queued on the fork; the incoming block
    // announces another, which cannot apply until the first is finalized.
    let ch = chain(vec![header(1, 1, 0), header(2, 2, 1)], 0, 2);
    let mut imp = interceptor(AuthoritySet::genesis(0, vec![auth(1)]));
    imp.authority_set.pending_standard_changes.push(PendingChange {
        next_authorities: vec![auth(2)],
        delay: 5,
        canon_height: 1,
        canon_hash: 1,
        delay_kind: DelayKind::Finalized,
    });
    let digest = vec![ConsensusLogEntry::ScheduledChange(ScheduledChange {
        next_authorities: vec![auth(3)],
        delay: 1,
    })];
    let mut b = block(header(3, 3, 2), digest);
    b.justification = Some(vec![4, 4]);
    let tx = ready(imp.import_block(&ch, &mut b, &Vec::new()));
    assert!(matches!(
        tx.pending.applied_changes,
        AppliedChanges::Standard(false)
    ));
    match imp.import_block_finish(tx, Ok(ImportResult::Imported(default_aux()))) {
        FinishOutcome::Completed { aux, commands } => {
            assert!(aux.needs_justification);
            assert!(commands.is_empty());
        }
        _ => panic!("the dropped justification must not be processed"),
    }
}

#[test]
fn consensus_change_without_justification_is_noted() {
    let ch = chain(vec![header(1, 0, 0)], 0, 0);
    let mut imp = interceptor(AuthoritySet::genesis(0, vec![auth(1)]));
    let mut b = block(header(2, 1, 1), Vec::new());
    let cache = vec![(1u64, vec![0u8])];
    let tx = ready(imp.import_block(&ch, &mut b, &cache));
    assert!(tx.enacts_consensus_change);
    match imp.import_block_finish(tx, Ok(ImportResult::Imported(default_aux()))) {
        FinishOutcome::Completed { .. } => {}
        _ => panic!("expected a completed import"),
    }
    assert_eq!(imp.consensus_changes, vec![(1, 2)]);
}

#[test]
fn import_justification_outcomes() {
    let imp = interceptor(AuthoritySet::genesis(4, vec![auth(1), auth(2)]));
    let (set_id, authorities) = imp.justification_check_context();
    assert_eq!(set_id, 4);
    assert_eq!(authorities, vec![auth(1), auth(2)]);

    let (cmd, res) = imp.import_justification(
        JustificationOutcome::VerifyFailed(String::from("unknown voter")),
        false,
    );
    assert!(cmd.is_none());
    assert!(matches!(res, Err(ConsensusError::ClientImport(m)) if m == "unknown voter"));

    let (cmd, res) = imp.import_justification(
        JustificationOutcome::Verified(FinalizeOutcome::Command(VoterCommand::Pause(
            String::from("halt"),
        ))),
        true,
    );
    assert!(matches!(cmd, Some(VoterCommand::Pause(r)) if r == "halt"));
    assert!(res.is_ok());

    let (cmd, res) = imp.import_justification(
        JustificationOutcome::Verified(FinalizeOutcome::Failed(FinalizeError::Network(
            String::from("peer gone"),
        ))),
        false,
    );
    assert!(cmd.is_none());
    assert!(matches!(res, Err(ConsensusError::ClientImport(m)) if m == "peer gone"));

    let (cmd, res) =
        imp.import_justification(JustificationOutcome::Verified(FinalizeOutcome::Completed), false);
    assert!(cmd.is_none());
    assert!(res.is_ok());
}

#[test]
fn revert_and_defuse() {
    let snap = AuthoritySet::genesis(1, vec![auth(1)]);
    let mut live = AuthoritySet::genesis(2, vec![auth(9)]);
    let guard = PendingSetChanges {
        just_in_case: Some(snap),
        applied_changes: AppliedChanges::Standard(true),
        do_pause: true,
    };
    guard.revert(&mut live);
    assert_eq!(live.set_id, 1);
    assert_eq!(live.current_authorities, vec![auth(1)]);

    let guard = PendingSetChanges {
        just_in_case: None,
        applied_changes: AppliedChanges::Standard(false),
        do_pause: false,
    };
    let (applied, do_pause) = guard.defuse();
    assert!(matches!(applied, AppliedChanges::Standard(false)));
    assert!(!do_pause);
}

#[test]
fn needs_justification_by_variant() {
    assert!(AppliedChanges::Standard(true).needs_justification());
    assert!(AppliedChanges::Standard(false).needs_justification());
    assert!(!AppliedChanges::NoChange.needs_justification());
    let new = grandpa_import::import::NewAuthoritySet {
        canon_number: 0,
        canon_hash: 0,
        set_id: 1,
        authorities: vec![auth(1)],
    };
    assert!(!AppliedChanges::Forced(new).needs_justification());
}
