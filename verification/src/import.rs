//! The import coordinator: wires the digest scanner, the authority-set
//! state and the justification handling around an inner block importer.
//!
//! The inner importer, the justification verifier and the finalizer perform
//! I/O and cryptography, so an import runs in stages: `import_block` resolves
//! the authority-set changes and prepares the transaction, the embedding then
//! performs the inner import and reports its result to
//! `import_block_finish`, and, when a justification must be processed, the
//! embedding verifies and finalizes and reports to
//! `import_block_justified`.  Every decision between those outside calls is
//! made — and verified — here.

use vstd::prelude::*;

use crate::authorities::{
    clone_authorities, views_of, Authority, AuthoritySet, AuthoritySetV, DelayKind,
    PendingChange, PendingChangeV,
};
use crate::chain::{Blockchain, Header};
use crate::digest::{
    find_forced_change, find_scheduled_change, spec_first_forced, spec_first_scheduled,
    ConsensusLogEntry,
};

verus! {

/// Where an incoming block comes from; only initial network sync is told
/// apart here (it restricts log verbosity in the embedding).
#[derive(Clone, Copy, PartialEq, Eq, Structural, Debug)]
pub enum BlockOrigin {
    Genesis,
    NetworkInitialSync,
    NetworkBroadcast,
    ConsensusBroadcast,
    Own,
    File,
}

/// The auxiliary flags an import reports back to the sync machinery.
#[derive(Clone, Copy, PartialEq, Eq, Structural, Debug)]
pub struct ImportedAux {
    pub needs_justification: bool,
    pub bad_justification: bool,
    pub clear_justification_requests: bool,
}

impl Default for ImportedAux {
    /// All flags clear.
    fn default() -> (r: Self)
        ensures
            r == (ImportedAux {
                needs_justification: false,
                bad_justification: false,
                clear_justification_requests: false,
            }),
    {
        ImportedAux {
            needs_justification: false,
            bad_justification: false,
            clear_justification_requests: false,
        }
    }
}

/// The descriptor of a set rotation, delivered to the voter.
pub struct NewAuthoritySet {
    pub canon_number: u64,
    pub canon_hash: u64,
    pub set_id: u64,
    pub authorities: Vec<Authority>,
}

/// Mathematical image of a `NewAuthoritySet`.
pub ghost struct NewAuthoritySetV {
    pub canon_number: u64,
    pub canon_hash: u64,
    pub set_id: u64,
    pub authorities: Seq<Authority>,
}

impl View for NewAuthoritySet {
    type V = NewAuthoritySetV;

    open spec fn view(&self) -> NewAuthoritySetV {
        NewAuthoritySetV {
            canon_number: self.canon_number,
            canon_hash: self.canon_hash,
            set_id: self.set_id,
            authorities: self.authorities@,
        }
    }
}

/// What the change-resolution step applied to the authority set.
pub enum AppliedChanges {
    /// A standard change is enacted by this block: ready to be applied once
    /// the block is finalized (`true`, the root change of its fork), or
    /// blocked by an earlier undischarged change (`false`).
    Standard(bool),
    /// A forced change replaced the set immediately.
    Forced(NewAuthoritySet),
    /// Nothing was enacted.
    NoChange,
}

/// Mathematical image of `AppliedChanges`.
pub ghost enum AppliedChangesV {
    Standard(bool),
    Forced(NewAuthoritySetV),
    NoChange,
}

impl View for AppliedChanges {
    type V = AppliedChangesV;

    open spec fn view(&self) -> AppliedChangesV {
        match self {
            AppliedChanges::Standard(root) => AppliedChangesV::Standard(*root),
            AppliedChanges::Forced(new) => AppliedChangesV::Forced(new@),
            AppliedChanges::NoChange => AppliedChangesV::NoChange,
        }
    }
}

impl AppliedChanges {
    /// Only an enacted standard change waits for a justification: a forced
    /// change discredits the old set, and a plain block owes nothing.
    pub open spec fn spec_needs_justification(self) -> bool {
        self is Standard
    }

    pub fn needs_justification(&self) -> (r: bool)
        ensures
            r == self.spec_needs_justification(),
    {
        match self {
            AppliedChanges::Standard(_) => true,
            AppliedChanges::Forced(_) => false,
            AppliedChanges::NoChange => false,
        }
    }
}

/// The scoped record of an import's authority-set mutation: the prior set
/// to restore on failure, what was applied, and whether to pause the voter.
/// It is passed back explicitly — consumed by `revert` on the failure path
/// and by `defuse` on the success path.
pub struct PendingSetChanges {
    pub just_in_case: Option<AuthoritySet>,
    pub applied_changes: AppliedChanges,
    pub do_pause: bool,
}

impl PendingSetChanges {
    /// The set to restore, if the import transaction touched it.
    pub open spec fn spec_prior(self) -> Option<AuthoritySetV> {
        match self.just_in_case {
            Some(s) => Some(s@),
            None => None,
        }
    }

    /// Writes the snapshot back: the live set returns to its state before
    /// the transaction first touched it.
    pub fn revert(self, set: &mut AuthoritySet)
        ensures
            final(set)@ == (match self.spec_prior() {
                Some(s) => s,
                None => old(set)@,
            }),
    {
        match self.just_in_case {
            Some(s) => {
                *set = s;
            },
            None => {},
        }
    }

    /// Consumes the record on the success path: the snapshot is discarded
    /// and the applied changes and the pause flag are handed out.
    pub fn defuse(self) -> (r: (AppliedChanges, bool))
        ensures
            r.0 == self.applied_changes,
            r.1 == self.do_pause,
    {
        (self.applied_changes, self.do_pause)
    }
}

/// The aux-store descriptor piggy-backed on an imported block: the set as
/// it stands after the transaction and, for a forced change, the rotation
/// descriptor.  The byte layout of the store is external; the embedding
/// encodes this value.
pub struct AuthoritySetAux {
    pub set: AuthoritySet,
    pub new_set: Option<NewAuthoritySet>,
}

/// The block handed to `import_block`, reduced to what this component
/// reads and writes of it.
pub struct BlockImportParams {
    pub header: Header,
    pub digest: Vec<ConsensusLogEntry>,
    pub origin: BlockOrigin,
    pub justification: Option<Vec<u8>>,
    pub auxiliary: Vec<AuthoritySetAux>,
}

/// Every failure of an import surfaces to the caller in this shape.
pub enum ConsensusError {
    ClientImport(String),
}

/// First hard-fork entry for the given block hash at or after position `i`.
pub open spec fn hard_fork_from(s: Seq<(u64, PendingChange)>, hash: u64, i: int) -> Option<
    PendingChangeV,
>
    decreases s.len() - i,
{
    if i < 0 || i >= s.len() {
        None
    } else if s[i].0 == hash {
        Some(s[i].1@)
    } else {
        hard_fork_from(s, hash, i + 1)
    }
}

/// The change signals of the digest keep every activation height
/// representable for a block at this height.
pub open spec fn digest_signals_bounded(digest: Seq<ConsensusLogEntry>, number: u64) -> bool {
    &&& (match spec_first_forced(digest) {
        Some((m, c)) => number + c.delay <= u64::MAX,
        None => true,
    })
    &&& (match spec_first_scheduled(digest) {
        Some(c) => number + c.delay <= u64::MAX,
        None => true,
    })
}

/// The import coordinator's own state: the live authority set, the
/// hard-fork overrides indexed by announcing block hash, and the log of
/// blocks whose consensus changes still await a justification.
pub struct GrandpaBlockImport {
    pub authority_set: AuthoritySet,
    pub authority_set_hard_forks: Vec<(u64, PendingChange)>,
    pub consensus_changes: Vec<(u64, u64)>,
}

impl GrandpaBlockImport {
    /// The live set is well formed and every hard-fork override is too.
    pub open spec fn wf(self) -> bool {
        &&& self.authority_set@.wf()
        &&& (forall|i: int|
            0 <= i < self.authority_set_hard_forks@.len()
                ==> (#[trigger] self.authority_set_hard_forks@[i]).1@.wf()
                && !self.authority_set_hard_forks@[i].1@.is_forced())
    }

    /// The hard-fork override for the given block hash, if any.
    pub open spec fn spec_hard_fork(self, hash: u64) -> Option<PendingChangeV> {
        hard_fork_from(self.authority_set_hard_forks@, hash, 0)
    }

    /// The pending change a block gives rise to, in priority order: the
    /// hard-fork override verbatim, else the first forced signal, else the
    /// first scheduled signal.
    pub open spec fn spec_new_change(
        self,
        digest: Seq<ConsensusLogEntry>,
        number: u64,
        hash: u64,
    ) -> Option<PendingChangeV> {
        match self.spec_hard_fork(hash) {
            Some(cv) => Some(cv),
            None => match spec_first_forced(digest) {
                Some((m, c)) => Some(
                    PendingChangeV {
                        next_authorities: c.next_authorities@,
                        delay: c.delay,
                        canon_height: number,
                        canon_hash: hash,
                        delay_kind: DelayKind::Best { median_last_finalized: m },
                    },
                ),
                None => match spec_first_scheduled(digest) {
                    Some(c) => Some(
                        PendingChangeV {
                            next_authorities: c.next_authorities@,
                            delay: c.delay,
                            canon_height: number,
                            canon_hash: hash,
                            delay_kind: DelayKind::Finalized,
                        },
                    ),
                    None => None,
                },
            },
        }
    }

    /// Resolves the pending change for a block: a hard-fork override takes
    /// precedence over anything in the digest, and a forced signal over a
    /// scheduled one.
    pub fn check_new_change(
        &self,
        digest: &Vec<ConsensusLogEntry>,
        number: u64,
        hash: u64,
    ) -> (r: Option<PendingChange>)
        ensures
            match self.spec_new_change(digest@, number, hash) {
                None => r is None,
                Some(cv) => r matches Some(rc) && rc@ == cv,
            },
    {
        let mut i: usize = 0;
        while i < self.authority_set_hard_forks.len()
            invariant
                i <= self.authority_set_hard_forks.len(),
                self.spec_hard_fork(hash) == hard_fork_from(
                    self.authority_set_hard_forks@,
                    hash,
                    i as int,
                ),
            decreases self.authority_set_hard_forks.len() - i,
        {
            if self.authority_set_hard_forks[i].0 == hash {
                let rc = self.authority_set_hard_forks[i].1.clone();
                return Some(rc);
            }
            i = i + 1;
        }
        match find_forced_change(digest) {
            Some((median_last_finalized, change)) => {
                return Some(
                    PendingChange {
                        next_authorities: change.next_authorities,
                        delay: change.delay,
                        canon_height: number,
                        canon_hash: hash,
                        delay_kind: DelayKind::Best { median_last_finalized },
                    },
                );
            },
            None => {},
        }
        match find_scheduled_change(digest) {
            Some(change) => Some(
                PendingChange {
                    next_authorities: change.next_authorities,
                    delay: change.delay,
                    canon_height: number,
                    canon_hash: hash,
                    delay_kind: DelayKind::Finalized,
                },
            ),
            None => None,
        }
    }
}

/// The smaller of two heights.
pub open spec fn min_u64(a: u64, b: u64) -> u64 {
    if a < b {
        a
    } else {
        b
    }
}

/// A hard-fork hit is one of the indexed entries.
pub proof fn lemma_hard_fork_from_index(s: Seq<(u64, PendingChange)>, hash: u64, i: int)
    requires
        hard_fork_from(s, hash, i) is Some,
    ensures
        exists|k: int|
            i <= k < s.len() && (#[trigger] s[k]).0 == hash && hard_fork_from(s, hash, i) == Some(
                s[k].1@,
            ),
    decreases s.len() - i,
{
    if 0 <= i < s.len() && s[i].0 != hash {
        lemma_hard_fork_from_index(s, hash, i + 1);
    }
}

impl GrandpaBlockImport {
    /// Whether the change a block resolves to conflicts with one already
    /// queued on the same fork: the one failure of change resolution.
    pub open spec fn spec_resolution_conflicts(
        self,
        chain: Blockchain,
        extra: Option<(u64, u64)>,
        digest: Seq<ConsensusLogEntry>,
        number: u64,
        hash: u64,
    ) -> bool {
        match self.spec_new_change(digest, number, hash) {
            Some(cv) => self.authority_set@.change_conflicts(chain, extra, cv),
            None => false,
        }
    }

    /// The authority set once the block's resolved change is queued.
    pub open spec fn spec_post_add_set(
        self,
        digest: Seq<ConsensusLogEntry>,
        number: u64,
        hash: u64,
    ) -> AuthoritySetV {
        match self.spec_new_change(digest, number, hash) {
            Some(cv) => self.authority_set@.with_change_added(cv),
            None => self.authority_set@,
        }
    }

    /// The forced change, if any, that takes effect at this very block once
    /// its own signal is queued.
    pub open spec fn spec_forced_applying(
        self,
        chain: Blockchain,
        extra: Option<(u64, u64)>,
        digest: Seq<ConsensusLogEntry>,
        number: u64,
        hash: u64,
    ) -> Option<PendingChangeV> {
        self.spec_post_add_set(digest, number, hash).spec_applying_forced(
            chain,
            extra,
            hash,
            number,
        )
    }

    /// The rotation descriptor a consumed forced change is announced with.
    pub open spec fn spec_forced_descriptor(
        self,
        chain: Blockchain,
        c: PendingChangeV,
    ) -> NewAuthoritySetV {
        NewAuthoritySetV {
            canon_number: min_u64(chain.finalized_number, c.median()),
            canon_hash: chain.spec_header_of_number(
                min_u64(chain.finalized_number, c.median()),
            )->Some_0.hash,
            set_id: (self.authority_set@.set_id + 1) as u64,
            authorities: c.next_authorities,
        }
    }

    /// Resolves and applies the authority-set changes a block carries,
    /// before the block itself is written.  On success the returned record
    /// holds the prior set whenever the live set was touched — `revert`
    /// restores it if the block write fails — together with what was
    /// applied; the aux-store descriptor of a touched set is appended to the
    /// block's auxiliary updates.  On a conflicting change the set is left
    /// exactly as it was and the import fails.
    pub fn make_authorities_changes(
        &mut self,
        chain: &Blockchain,
        block: &mut BlockImportParams,
        initial_sync: bool,
    ) -> (r: Result<PendingSetChanges, ConsensusError>)
        requires
            chain.wf(),
            old(self).wf(),
            old(self).authority_set.set_id < u64::MAX,
            digest_signals_bounded(old(block).digest@, old(block).header.number),
            (match old(self).spec_forced_applying(
                *chain,
                Some((old(block).header.hash, old(block).header.parent_hash)),
                old(block).digest@,
                old(block).header.number,
                old(block).header.hash,
            ) {
                Some(c) => chain.spec_header_of_number(
                    min_u64(chain.finalized_number, c.median()),
                ) is Some,
                None => true,
            }),
        ensures
            final(self).authority_set_hard_forks == old(self).authority_set_hard_forks,
            final(self).consensus_changes == old(self).consensus_changes,
            final(self).wf(),
            r is Err <==> old(self).spec_resolution_conflicts(
                *chain,
                Some((old(block).header.hash, old(block).header.parent_hash)),
                old(block).digest@,
                old(block).header.number,
                old(block).header.hash,
            ),
            r is Err ==> final(self).authority_set@ == old(self).authority_set@ && *final(block) == *old(block) && r matches Err(
                ConsensusError::ClientImport(_),
            ),
            ({
                let extra = Some((old(block).header.hash, old(block).header.parent_hash));
                let digest = old(block).digest@;
                let number = old(block).header.number;
                let hash = old(block).header.hash;
                let rc = old(self).spec_new_change(digest, number, hash);
                let s1 = old(self).spec_post_add_set(digest, number, hash);
                let fa = old(self).spec_forced_applying(*chain, extra, digest, number, hash);
                let touched = rc is Some || fa is Some;
                r matches Ok(tx) ==> {
                    &&& tx.spec_prior() == (if touched {
                        Some(old(self).authority_set@)
                    } else {
                        Option::<AuthoritySetV>::None
                    })
                    &&& tx.do_pause == (rc matches Some(cv) && cv.is_forced())
                    &&& (match fa {
                        Some(c) => tx.applied_changes@ == AppliedChangesV::Forced(
                            old(self).spec_forced_descriptor(*chain, c),
                        ) && final(self).authority_set@ == s1.spec_next_set(c),
                        None => final(self).authority_set@ == s1 && (match s1.spec_enacting_standard(
                            hash,
                        ) {
                            Some(c) => tx.applied_changes@ == AppliedChangesV::Standard(
                                !s1.spec_has_dependency(*chain, extra, c),
                            ),
                            None => tx.applied_changes@ == AppliedChangesV::NoChange,
                        }),
                    })
                    &&& final(block).header == old(block).header
                    &&& final(block).digest == old(block).digest
                    &&& final(block).origin == old(block).origin
                    &&& final(block).justification == old(block).justification
                    &&& (if touched {
                        final(block).auxiliary@.len() == old(block).auxiliary@.len() + 1
                            && final(block).auxiliary@.subrange(
                            0,
                            old(block).auxiliary@.len() as int,
                        ) == old(block).auxiliary@ && final(block).auxiliary@.last().set@ == final(self).authority_set@ && (match tx.applied_changes@ {
                            AppliedChangesV::Forced(n) => final(block).auxiliary@.last().new_set matches Some(d) && d@ == n,
                            _ => final(block).auxiliary@.last().new_set is None,
                        })
                    } else {
                        final(block).auxiliary == old(block).auxiliary
                    })
                }
            }),
    {
        let number = block.header.number;
        let hash = block.header.hash;
        let parent_hash = block.header.parent_hash;
        let extra: Option<(u64, u64)> = Some((hash, parent_hash));
        let maybe_change = self.check_new_change(&block.digest, number, hash);

        let mut just_in_case: Option<AuthoritySet> = None;
        let mut do_pause = false;

        match maybe_change {
            Some(change) => {
                proof {
                    if self.spec_hard_fork(hash) is Some {
                        lemma_hard_fork_from_index(self.authority_set_hard_forks@, hash, 0);
                    }
                    assert(change@.wf());
                }
                let snap = self.authority_set.clone();
                just_in_case = Some(snap);
                if matches!(change.delay_kind, DelayKind::Best { .. }) {
                    do_pause = true;
                }
                match self.authority_set.add_pending_change(change, chain, extra) {
                    Err(_) => {
                        return Err(
                            ConsensusError::ClientImport(
                                String::from_str("duplicate authority set change"),
                            ),
                        );
                    },
                    Ok(()) => {},
                }
            },
            None => {},
        }

        let applied_changes: AppliedChanges;
        match self.authority_set.apply_forced_changes(hash, number, chain, extra) {
            Some((median, new_set)) => {
                let best_finalized_number = chain.finalized_number;
                let canon_number = if best_finalized_number < median {
                    best_finalized_number
                } else {
                    median
                };
                let canon_header = match chain.header_of_number(canon_number) {
                    Some(h) => h,
                    None => {
                        proof {
                            assert(false);
                        }
                        Header { hash: 0, number: 0, parent_hash: 0 }
                    },
                };
                let current = new_set.current();
                let new_authorities = NewAuthoritySet {
                    canon_number,
                    canon_hash: canon_header.hash,
                    set_id: current.0,
                    authorities: current.1,
                };
                if just_in_case.is_none() {
                    let snap = self.authority_set.clone();
                    just_in_case = Some(snap);
                }
                self.authority_set = new_set;
                applied_changes = AppliedChanges::Forced(new_authorities);
            },
            None => {
                applied_changes = match self.authority_set.enacts_standard_change(
                    hash,
                    number,
                    chain,
                    extra,
                ) {
                    Some(root) => AppliedChanges::Standard(root),
                    None => AppliedChanges::NoChange,
                };
            },
        }

        if just_in_case.is_some() {
            let set_copy = self.authority_set.clone();
            let new_set_copy: Option<NewAuthoritySet> = match &applied_changes {
                AppliedChanges::Forced(n) => Some(
                    NewAuthoritySet {
                        canon_number: n.canon_number,
                        canon_hash: n.canon_hash,
                        set_id: n.set_id,
                        authorities: clone_authorities(&n.authorities),
                    },
                ),
                _ => None,
            };
            block.auxiliary.push(AuthoritySetAux { set: set_copy, new_set: new_set_copy });
        }

        // `initial_sync` only restricts log verbosity, which the embedding
        // handles.
        let _ = initial_sync;
        Ok(PendingSetChanges { just_in_case, applied_changes, do_pause })
    }
}

/// The result of an import, as the inner importer and this coordinator
/// report it.
#[derive(Clone, Copy, PartialEq, Eq, Structural, Debug)]
pub enum ImportResult {
    Imported(ImportedAux),
    AlreadyInChain,
    KnownBad,
    UnknownParent,
    MissingState,
}

/// A control signal for the finality voter.
pub enum VoterCommand {
    /// Stop voting until further notice; carries the reason.
    Pause(String),
    /// Rebase the voter onto a new authority set.
    ChangeAuthorities(NewAuthoritySet),
}

/// The state an import carries between its change-resolution stage and the
/// report of the inner importer's result.
pub struct ImportTransaction {
    pub hash: u64,
    pub number: u64,
    pub pending: PendingSetChanges,
    pub justification: Option<Vec<u8>>,
    pub enacts_consensus_change: bool,
    pub initial_sync: bool,
    /// The authority set as it stood before the transaction began.
    pub set_before: Ghost<AuthoritySetV>,
}

/// What the change-resolution stage decided.
pub enum ImportStage {
    /// The block is already in the store: nothing was touched.
    AlreadyInChain,
    /// The changes are applied and the block may be handed to the inner
    /// importer, stripped of its justification.
    Ready(ImportTransaction),
}

/// The state an import carries while the embedding verifies the block's
/// justification against the given epoch and runs the finalizer.
pub struct JustificationStage {
    pub hash: u64,
    pub number: u64,
    pub justification: Vec<u8>,
    /// The epoch to verify against: the set as it stands after the
    /// transaction, so a forced rotation is already reflected.
    pub set_id: u64,
    pub authorities: Vec<Authority>,
    pub needs_justification: bool,
    pub enacts_consensus_change: bool,
    pub initial_sync: bool,
    pub aux: ImportedAux,
    /// Voter commands owed so far, in order; the embedding sends them
    /// before it processes the justification.
    pub commands: Vec<VoterCommand>,
}

/// How an import concludes once the inner importer has answered.
pub enum FinishOutcome {
    /// The inner importer did not import the block: the authority set has
    /// been rolled back and the carried result is passed through.
    Reverted(Result<ImportResult, ConsensusError>),
    /// The import is complete; the flags and the voter commands owed, in
    /// order.
    Completed { aux: ImportedAux, commands: Vec<VoterCommand> },
    /// A justification remains to be processed.
    AwaitingJustification(JustificationStage),
}

/// A failure of the finalizer, by category; each carries its message.
pub enum FinalizeError {
    Grandpa(String),
    Network(String),
    Blockchain(String),
    Client(String),
    Safety(String),
    Signing(String),
    Timer(String),
}

impl FinalizeError {
    /// The message the failure surfaces with.
    pub open spec fn spec_message(self) -> Seq<char> {
        match self {
            FinalizeError::Grandpa(s) => s@,
            FinalizeError::Network(s) => s@,
            FinalizeError::Blockchain(s) => s@,
            FinalizeError::Client(s) => s@,
            FinalizeError::Safety(s) => s@,
            FinalizeError::Signing(s) => s@,
            FinalizeError::Timer(s) => s@,
        }
    }

    pub fn message(self) -> (r: String)
        ensures
            r@ == self.spec_message(),
    {
        match self {
            FinalizeError::Grandpa(s) => s,
            FinalizeError::Network(s) => s,
            FinalizeError::Blockchain(s) => s,
            FinalizeError::Client(s) => s,
            FinalizeError::Safety(s) => s,
            FinalizeError::Signing(s) => s,
            FinalizeError::Timer(s) => s,
        }
    }
}

/// What the finalizer reported for a verified justification.
pub enum FinalizeOutcome {
    /// Finalization went through with no set rotation.
    Completed,
    /// Finalization asks the voter to act.
    Command(VoterCommand),
    /// Finalization failed.
    Failed(FinalizeError),
}

/// What the embedding reports about a justification: either verification
/// against the given epoch failed, or the finalizer ran on the verified
/// proof.
pub enum JustificationOutcome {
    VerifyFailed(String),
    Verified(FinalizeOutcome),
}

/// Whether the log already notes this block.
pub open spec fn consensus_changes_noted(log: Seq<(u64, u64)>, number: u64, hash: u64) -> bool {
    exists|i: int| 0 <= i < log.len() && #[trigger] log[i] == (number, hash)
}

impl GrandpaBlockImport {
    /// Begins an import: returns at once for a block already in the store
    /// (a change block must not be rescanned), otherwise resolves and
    /// applies the block's authority-set changes and strips the block of
    /// its justification, so that the inner importer cannot finalize.  The
    /// embedding then performs the inner import and reports the result to
    /// `import_block_finish`.
    pub fn import_block(
        &mut self,
        chain: &Blockchain,
        block: &mut BlockImportParams,
        new_cache: &Vec<(u64, Vec<u8>)>,
    ) -> (r: Result<ImportStage, ConsensusError>)
        requires
            chain.wf(),
            old(self).wf(),
            old(self).authority_set.set_id < u64::MAX,
            digest_signals_bounded(old(block).digest@, old(block).header.number),
            (match old(self).spec_forced_applying(
                *chain,
                Some((old(block).header.hash, old(block).header.parent_hash)),
                old(block).digest@,
                old(block).header.number,
                old(block).header.hash,
            ) {
                Some(c) => chain.spec_header_of_number(
                    min_u64(chain.finalized_number, c.median()),
                ) is Some,
                None => true,
            }),
        ensures
            final(self).authority_set_hard_forks == old(self).authority_set_hard_forks,
            final(self).consensus_changes == old(self).consensus_changes,
            final(self).wf(),
            chain.spec_contains(old(block).header.hash) ==> (r matches Ok(
                ImportStage::AlreadyInChain,
            ) && *final(self) == *old(self) && *final(block) == *old(block)),
            !chain.spec_contains(old(block).header.hash) ==> (r is Err
                <==> old(self).spec_resolution_conflicts(
                *chain,
                Some((old(block).header.hash, old(block).header.parent_hash)),
                old(block).digest@,
                old(block).header.number,
                old(block).header.hash,
            )),
            r is Err ==> final(self).authority_set@ == old(self).authority_set@ && *final(block)
                == *old(block) && r matches Err(ConsensusError::ClientImport(_)),
            (!chain.spec_contains(old(block).header.hash) && r is Ok) ==> r matches Ok(
                ImportStage::Ready(_),
            ),
            ({
                let extra = Some((old(block).header.hash, old(block).header.parent_hash));
                let digest = old(block).digest@;
                let number = old(block).header.number;
                let hash = old(block).header.hash;
                let rc = old(self).spec_new_change(digest, number, hash);
                let s1 = old(self).spec_post_add_set(digest, number, hash);
                let fa = old(self).spec_forced_applying(*chain, extra, digest, number, hash);
                let touched = rc is Some || fa is Some;
                r matches Ok(ImportStage::Ready(tx)) ==> {
                    &&& tx.hash == hash
                    &&& tx.number == number
                    &&& tx.justification == old(block).justification
                    &&& final(block).justification is None
                    &&& tx.enacts_consensus_change == (new_cache@.len() > 0)
                    &&& tx.initial_sync == (old(block).origin == BlockOrigin::NetworkInitialSync)
                    &&& tx.set_before@ == old(self).authority_set@
                    &&& tx.pending.spec_prior() == (if touched {
                        Some(old(self).authority_set@)
                    } else {
                        Option::<AuthoritySetV>::None
                    })
                    &&& tx.pending.do_pause == (rc matches Some(cv) && cv.is_forced())
                    &&& (match fa {
                        Some(c) => tx.pending.applied_changes@ == AppliedChangesV::Forced(
                            old(self).spec_forced_descriptor(*chain, c),
                        ) && final(self).authority_set@ == s1.spec_next_set(c),
                        None => final(self).authority_set@ == s1 && (match s1.spec_enacting_standard(
                            hash,
                        ) {
                            Some(c) => tx.pending.applied_changes@ == AppliedChangesV::Standard(
                                !s1.spec_has_dependency(*chain, extra, c),
                            ),
                            None => tx.pending.applied_changes@ == AppliedChangesV::NoChange,
                        }),
                    })
                    &&& final(block).header == old(block).header
                    &&& final(block).digest == old(block).digest
                    &&& final(block).origin == old(block).origin
                    &&& (if touched {
                        final(block).auxiliary@.len() == old(block).auxiliary@.len() + 1
                            && final(block).auxiliary@.subrange(
                            0,
                            old(block).auxiliary@.len() as int,
                        ) == old(block).auxiliary@ && final(block).auxiliary@.last().set@ == final(self).authority_set@ && (match tx.pending.applied_changes@ {
                            AppliedChangesV::Forced(n) => final(block).auxiliary@.last().new_set
                                matches Some(d) && d@ == n,
                            _ => final(block).auxiliary@.last().new_set is None,
                        })
                    } else {
                        final(block).auxiliary == old(block).auxiliary
                    })
                }
            }),
    {
        let hash = block.header.hash;
        let number = block.header.number;

        // Early exit if the block is already in the chain; otherwise the
        // check for authority changes would refuse to re-queue the change
        // this block announced on first import.
        if chain.contains(hash) {
            return Ok(ImportStage::AlreadyInChain);
        }
        let initial_sync = matches!(block.origin, BlockOrigin::NetworkInitialSync);
        let ghost set_before = self.authority_set@;

        let pending = match self.make_authorities_changes(chain, block, initial_sync) {
            Ok(p) => p,
            Err(e) => {
                return Err(e);
            },
        };

        // The coordinator, not the inner importer, finalizes: keep the
        // justification back.
        let justification = block.justification.take();
        let enacts_consensus_change = new_cache.len() > 0;

        Ok(
            ImportStage::Ready(
                ImportTransaction {
                    hash,
                    number,
                    pending,
                    justification,
                    enacts_consensus_change,
                    initial_sync,
                    set_before: Ghost(set_before),
                },
            ),
        )
    }
}

/// The voter commands an import owes, in order: `Pause` first when a forced
/// change was queued, then `ChangeAuthorities` when one was applied.
pub open spec fn finish_commands_ok(
    cmds: Seq<VoterCommand>,
    do_pause: bool,
    applied: AppliedChangesV,
) -> bool {
    &&& cmds.len() == (if do_pause {
        1int
    } else {
        0int
    }) + (if applied is Forced {
        1int
    } else {
        0int
    })
    &&& (do_pause ==> (cmds[0] matches VoterCommand::Pause(s) && s@
        == "Forced change scheduled after inactivity"@))
    &&& (applied matches AppliedChangesV::Forced(n) ==> (cmds.last()
        matches VoterCommand::ChangeAuthorities(c) && c@ == n))
}

impl GrandpaBlockImport {
    /// Notes a block whose consensus-cache changes still await a
    /// justification; noting the same block twice leaves the log unchanged.
    fn note_consensus_change(&mut self, number: u64, hash: u64)
        ensures
            final(self).authority_set == old(self).authority_set,
            final(self).authority_set_hard_forks == old(self).authority_set_hard_forks,
            consensus_changes_noted(old(self).consensus_changes@, number, hash) ==> final(self).consensus_changes == old(self).consensus_changes,
            !consensus_changes_noted(old(self).consensus_changes@, number, hash) ==> final(self).consensus_changes@ == old(self).consensus_changes@.push((number, hash)),
    {
        let mut i: usize = 0;
        while i < self.consensus_changes.len()
            invariant
                *self == *old(self),
                i <= self.consensus_changes.len(),
                forall|j: int| 0 <= j < i ==> #[trigger] self.consensus_changes@[j] != (number, hash),
            decreases self.consensus_changes.len() - i,
        {
            let entry = self.consensus_changes[i];
            if entry.0 == number && entry.1 == hash {
                return ;
            }
            i = i + 1;
        }
        self.consensus_changes.push((number, hash));
    }

    /// Concludes an import after the inner importer answered.  Anything but
    /// a successful import rolls the authority set back to its state before
    /// the transaction and passes the inner result through.  On success the
    /// owed voter commands are computed in order, a forced change clears the
    /// outstanding justification requests, an enacted-but-blocked standard
    /// change drops the block's justification, and a kept justification is
    /// handed back for verification against the post-transaction epoch.
    pub fn import_block_finish(&mut self, tx: ImportTransaction, inner: Result<
        ImportResult,
        String,
    >) -> (r: FinishOutcome)
        ensures
            final(self).authority_set_hard_forks == old(self).authority_set_hard_forks,
            // Rollback: a failed or refused inner import restores the prior set.
            !(inner matches Ok(ImportResult::Imported(_))) ==> (final(self).authority_set@
                == (match tx.pending.spec_prior() {
                Some(s) => s,
                None => old(self).authority_set@,
            }) && final(self).consensus_changes == old(self).consensus_changes && (match inner {
                Ok(other) => r == FinishOutcome::Reverted(Ok(other)),
                Err(m) => r matches FinishOutcome::Reverted(Err(ConsensusError::ClientImport(m2)))
                    && m2 == m,
            })),
            // Rollback safety: for a transaction whose snapshot discipline held —
            // as `import_block` guarantees — the failed import leaves the set
            // exactly as it stood before the transaction began.
            (!(inner matches Ok(ImportResult::Imported(_))) && (tx.pending.spec_prior() == Some(
                tx.set_before@,
            ) || (tx.pending.spec_prior() is None && old(self).authority_set@ == tx.set_before@)))
                ==> final(self).authority_set@ == tx.set_before@,
            inner matches Ok(ImportResult::Imported(_)) ==> final(self).authority_set == old(
                self,
            ).authority_set,
            // An enacted standard change with an undischarged dependency drops
            // the block's justification: nothing is left to verify.
            (inner matches Ok(ImportResult::Imported(_)) && tx.pending.applied_changes@
                == AppliedChangesV::Standard(false)) ==> !(r is AwaitingJustification),
            ({
                let applied = tx.pending.applied_changes@;
                let dropped = (applied == AppliedChangesV::Standard(false));
                let kept = !dropped && tx.justification is Some;
                let needsj = applied is Standard;
                inner matches Ok(ImportResult::Imported(aux0)) ==> {
                    let aux1 = ImportedAux {
                        needs_justification: aux0.needs_justification || (!kept && needsj),
                        bad_justification: aux0.bad_justification,
                        clear_justification_requests: aux0.clear_justification_requests || applied
                            is Forced,
                    };
                    &&& (kept ==> (r matches FinishOutcome::AwaitingJustification(st) && {
                        &&& st.hash == tx.hash
                        &&& st.number == tx.number
                        &&& st.justification@ == tx.justification->Some_0@
                        &&& st.set_id == old(self).authority_set@.set_id
                        &&& st.authorities@ == old(self).authority_set@.current_authorities
                        &&& st.needs_justification == needsj
                        &&& st.enacts_consensus_change == tx.enacts_consensus_change
                        &&& st.initial_sync == tx.initial_sync
                        &&& st.aux == aux1
                        &&& finish_commands_ok(st.commands@, tx.pending.do_pause, applied)
                    }))
                    &&& (kept ==> final(self).consensus_changes == old(self).consensus_changes)
                    &&& (!kept ==> (r matches FinishOutcome::Completed { aux, commands } && aux
                        == aux1 && finish_commands_ok(commands@, tx.pending.do_pause, applied)))
                    &&& (!kept && tx.enacts_consensus_change ==> (
                    if consensus_changes_noted(old(self).consensus_changes@, tx.number, tx.hash) {
                        final(self).consensus_changes == old(self).consensus_changes
                    } else {
                        final(self).consensus_changes@ == old(self).consensus_changes@.push(
                            (tx.number, tx.hash),
                        )
                    }))
                    &&& (!kept && !tx.enacts_consensus_change ==> final(self).consensus_changes
                        == old(self).consensus_changes)
                }
            }),
    {
        let ImportTransaction {
            hash,
            number,
            pending,
            justification,
            enacts_consensus_change,
            initial_sync,
            set_before: _,
        } = tx;
        let mut justification = justification;
        match inner {
            Ok(ImportResult::Imported(aux0)) => {
                let (applied_changes, do_pause) = pending.defuse();
                let mut aux = aux0;
                let mut commands: Vec<VoterCommand> = Vec::new();
                if do_pause {
                    // The pause signal goes out after the import but before any
                    // rotation announcement.
                    commands.push(
                        VoterCommand::Pause(
                            String::from_str("Forced change scheduled after inactivity"),
                        ),
                    );
                }
                let needs_justification = applied_changes.needs_justification();
                match applied_changes {
                    AppliedChanges::Forced(new) => {
                        // The forced rotation discredits the old set: clear every
                        // outstanding justification request and rebase the voter.
                        commands.push(VoterCommand::ChangeAuthorities(new));
                        aux.clear_justification_requests = true;
                    },
                    AppliedChanges::Standard(false) => {
                        // An earlier change on this fork must finalize first: drop
                        // the justification so the sync service resupplies them in
                        // order.
                        justification = None;
                    },
                    _ => {},
                }
                match justification {
                    Some(j) => {
                        let context = self.authority_set.current();
                        FinishOutcome::AwaitingJustification(
                            JustificationStage {
                                hash,
                                number,
                                justification: j,
                                set_id: context.0,
                                authorities: context.1,
                                needs_justification,
                                enacts_consensus_change,
                                initial_sync,
                                aux,
                                commands,
                            },
                        )
                    },
                    None => {
                        if needs_justification {
                            aux.needs_justification = true;
                        }
                        if enacts_consensus_change {
                            // The block carried consensus changes without proof:
                            // synthesize a justification at the next finalization.
                            self.note_consensus_change(number, hash);
                        }
                        FinishOutcome::Completed { aux, commands }
                    },
                }
            },
            Ok(other) => {
                pending.revert(&mut self.authority_set);
                FinishOutcome::Reverted(Ok(other))
            },
            Err(msg) => {
                pending.revert(&mut self.authority_set);
                FinishOutcome::Reverted(Err(ConsensusError::ClientImport(msg)))
            },
        }
    }

    /// Concludes an import whose justification the embedding has checked.
    /// A verification or finalization failure on a block that owed a
    /// justification, or that carried consensus-cache changes, marks the
    /// justification bad and requests a replacement from peers; on any
    /// other block the failure is swallowed.  A finalizer command is
    /// forwarded to the voter.
    pub fn import_block_justified(
        &self,
        stage: JustificationStage,
        outcome: JustificationOutcome,
    ) -> (r: (ImportedAux, Vec<VoterCommand>))
        requires
            // A successful finalization that enacted no rotation on a block
            // that owed one is a consensus bug; the embedding fails stop.
            outcome matches JustificationOutcome::Verified(FinalizeOutcome::Completed)
                ==> !stage.needs_justification,
        ensures
            outcome matches JustificationOutcome::Verified(FinalizeOutcome::Command(c)) ==> (
            r.1@.len() == 1 && r.1@[0] == c && r.0 == stage.aux),
            outcome matches JustificationOutcome::Verified(FinalizeOutcome::Completed) ==> (
            r.1@.len() == 0 && r.0 == stage.aux),
            (outcome is VerifyFailed || outcome matches JustificationOutcome::Verified(
                FinalizeOutcome::Failed(_),
            )) ==> (r.1@.len() == 0 && r.0 == (ImportedAux {
                needs_justification: stage.aux.needs_justification || stage.needs_justification
                    || stage.enacts_consensus_change,
                bad_justification: stage.aux.bad_justification || stage.needs_justification
                    || stage.enacts_consensus_change,
                clear_justification_requests: stage.aux.clear_justification_requests,
            })),
    {
        let mut aux = stage.aux;
        let mut commands: Vec<VoterCommand> = Vec::new();
        let failed: bool = match outcome {
            JustificationOutcome::VerifyFailed(_) => true,
            JustificationOutcome::Verified(FinalizeOutcome::Failed(_)) => true,
            JustificationOutcome::Verified(FinalizeOutcome::Command(c)) => {
                commands.push(c);
                false
            },
            JustificationOutcome::Verified(FinalizeOutcome::Completed) => false,
        };
        if failed && (stage.needs_justification || stage.enacts_consensus_change) {
            aux.bad_justification = true;
            aux.needs_justification = true;
        }
        (aux, commands)
    }

    /// The epoch a justification must be verified against: the current
    /// `set_id` and voters.
    pub fn justification_check_context(&self) -> (r: (u64, Vec<Authority>))
        ensures
            r.0 == self.authority_set@.set_id,
            r.1@ == self.authority_set@.current_authorities,
    {
        self.authority_set.current()
    }

    /// Imports a single justification, as the sync service requests it: the
    /// embedding verifies it against `justification_check_context` and, if
    /// it verified, runs the finalizer; this function turns what they
    /// reported into the forwarded voter command and the caller's result.
    pub fn import_justification(&self, outcome: JustificationOutcome, enacts_change: bool) -> (r: (
        Option<VoterCommand>,
        Result<(), ConsensusError>,
    ))
        requires
            // A successful finalization without the mandated rotation is a
            // consensus bug; the embedding fails stop instead of calling this.
            outcome matches JustificationOutcome::Verified(FinalizeOutcome::Completed)
                ==> !enacts_change,
        ensures
            outcome matches JustificationOutcome::VerifyFailed(m) ==> (r.0 is None && (r.1 matches
            Err(ConsensusError::ClientImport(m2)) && m2 == m)),
            outcome matches JustificationOutcome::Verified(FinalizeOutcome::Command(c)) ==> (r.0
                == Some(c) && r.1 is Ok),
            outcome matches JustificationOutcome::Verified(FinalizeOutcome::Failed(e)) ==> (r.0
                is None && (r.1 matches Err(ConsensusError::ClientImport(m)) && m@
                == e.spec_message())),
            outcome matches JustificationOutcome::Verified(FinalizeOutcome::Completed) ==> (r.0
                is None && r.1 is Ok),
    {
        match outcome {
            JustificationOutcome::VerifyFailed(m) => (None, Err(ConsensusError::ClientImport(m))),
            JustificationOutcome::Verified(FinalizeOutcome::Command(command)) => (
                Some(command),
                Ok(()),
            ),
            JustificationOutcome::Verified(FinalizeOutcome::Failed(e)) => (
                None,
                Err(ConsensusError::ClientImport(e.message())),
            ),
            JustificationOutcome::Verified(FinalizeOutcome::Completed) => (None, Ok(())),
        }
    }
}


/// First hard-fork entry declared for the given `set_id` at or after
/// position `i`.
pub open spec fn hard_fork_for_set_from(s: Seq<(u64, PendingChange)>, set_id: u64, i: int) -> Option<
    PendingChangeV,
>
    decreases s.len() - i,
{
    if i < 0 || i >= s.len() {
        None
    } else if s[i].0 == set_id {
        Some(s[i].1@)
    } else {
        hard_fork_for_set_from(s, set_id, i + 1)
    }
}

/// The pending standard changes, up to position `i`, whose activation
/// height lies past `finalized_number` but within `best_number`.
pub open spec fn window_filter_to(
    s: Seq<PendingChangeV>,
    finalized_number: u64,
    best_number: u64,
    i: int,
) -> Seq<PendingChangeV>
    decreases i,
{
    if i <= 0 {
        Seq::empty()
    } else {
        let prev = window_filter_to(s, finalized_number, best_number, i - 1);
        if finalized_number < s[i - 1].effective_number() && s[i - 1].effective_number()
            <= best_number {
            prev.push(s[i - 1])
        } else {
            prev
        }
    }
}

/// The justification targets resolved on restart, up to position `i`: a
/// candidate contributes its resolved header when one was found at exactly
/// the candidate's activation height.
pub open spec fn targets_to(
    cands: Seq<PendingChangeV>,
    resolved: Seq<Option<Header>>,
    i: int,
) -> Seq<(u64, u64)>
    decreases i,
{
    if i <= 0 {
        Seq::empty()
    } else {
        let prev = targets_to(cands, resolved, i - 1);
        match resolved[i - 1] {
            Some(h) => if h.number == cands[i - 1].effective_number() {
                prev.push((h.hash, h.number))
            } else {
                prev
            },
            None => prev,
        }
    }
}

/// Looks up the hard-fork override announced by the given block hash.
fn lookup_hard_fork(index: &Vec<(u64, PendingChange)>, hash: u64) -> (r: Option<PendingChange>)
    ensures
        match hard_fork_from(index@, hash, 0) {
            None => r is None,
            Some(cv) => r matches Some(rc) && rc@ == cv,
        },
{
    let mut i: usize = 0;
    while i < index.len()
        invariant
            i <= index.len(),
            hard_fork_from(index@, hash, 0) == hard_fork_from(index@, hash, i as int),
        decreases index.len() - i,
    {
        if index[i].0 == hash {
            let rc = index[i].1.clone();
            return Some(rc);
        }
        i = i + 1;
    }
    None
}

/// Looks up the first hard-fork override declared for the given epoch.
fn lookup_hard_fork_for_set(list: &Vec<(u64, PendingChange)>, set_id: u64) -> (r: Option<
    PendingChange,
>)
    ensures
        match hard_fork_for_set_from(list@, set_id, 0) {
            None => r is None,
            Some(cv) => r matches Some(rc) && rc@ == cv,
        },
{
    let mut i: usize = 0;
    while i < list.len()
        invariant
            i <= list.len(),
            hard_fork_for_set_from(list@, set_id, 0) == hard_fork_for_set_from(
                list@,
                set_id,
                i as int,
            ),
        decreases list.len() - i,
    {
        if list[i].0 == set_id {
            let rc = list[i].1.clone();
            return Some(rc);
        }
        i = i + 1;
    }
    None
}

/// Copies the consensus-changes log.
fn clone_log(v: &Vec<(u64, u64)>) -> (r: Vec<(u64, u64)>)
    ensures
        r@ == v@,
{
    let mut r: Vec<(u64, u64)> = Vec::new();
    let mut i: usize = 0;
    while i < v.len()
        invariant
            i <= v.len(),
            r@ == v@.subrange(0, i as int),
        decreases v.len() - i,
    {
        r.push(v[i]);
        i = i + 1;
    }
    proof {
        assert(v@.subrange(0, v@.len() as int) =~= v@);
    }
    r
}

impl Clone for GrandpaBlockImport {
    fn clone(&self) -> (r: Self)
        ensures
            r.authority_set@ == self.authority_set@,
            r.authority_set_hard_forks@.len() == self.authority_set_hard_forks@.len(),
            forall|i: int|
                0 <= i < self.authority_set_hard_forks@.len() ==> (
                #[trigger] r.authority_set_hard_forks@[i]).0
                    == self.authority_set_hard_forks@[i].0 && r.authority_set_hard_forks@[i].1@
                    == self.authority_set_hard_forks@[i].1@,
            r.consensus_changes@ == self.consensus_changes@,
            self.wf() ==> r.wf(),
    {
        let mut hard_forks: Vec<(u64, PendingChange)> = Vec::new();
        let mut i: usize = 0;
        while i < self.authority_set_hard_forks.len()
            invariant
                i <= self.authority_set_hard_forks.len(),
                hard_forks@.len() == i,
                forall|j: int|
                    0 <= j < i ==> (#[trigger] hard_forks@[j]).0
                        == self.authority_set_hard_forks@[j].0 && hard_forks@[j].1@
                        == self.authority_set_hard_forks@[j].1@,
            decreases self.authority_set_hard_forks.len() - i,
        {
            let entry = &self.authority_set_hard_forks[i];
            let c = entry.1.clone();
            hard_forks.push((entry.0, c));
            i = i + 1;
        }
        GrandpaBlockImport {
            authority_set: self.authority_set.clone(),
            authority_set_hard_forks: hard_forks,
            consensus_changes: clone_log(&self.consensus_changes),
        }
    }
}

impl GrandpaBlockImport {
    /// Builds the coordinator.  A hard fork declared for the current
    /// `set_id` overrides the current voters in place; the hard-fork list is
    /// re-indexed by announcing block hash; and every pending standard
    /// change announced by an indexed block is substituted by its override.
    pub fn new(
        authority_set: AuthoritySet,
        authority_set_hard_forks: Vec<(u64, PendingChange)>,
        consensus_changes: Vec<(u64, u64)>,
    ) -> (r: GrandpaBlockImport)
        requires
            authority_set@.wf(),
            forall|i: int|
                0 <= i < authority_set_hard_forks@.len() ==> (
                #[trigger] authority_set_hard_forks@[i]).1@.wf()
                    && !authority_set_hard_forks@[i].1@.is_forced(),
        ensures
            r.wf(),
            r.consensus_changes == consensus_changes,
            r.authority_set_hard_forks@.len() == authority_set_hard_forks@.len(),
            forall|i: int|
                0 <= i < authority_set_hard_forks@.len() ==> (
                #[trigger] r.authority_set_hard_forks@[i]).0
                    == authority_set_hard_forks@[i].1@.canon_hash
                    && r.authority_set_hard_forks@[i].1@ == authority_set_hard_forks@[i].1@,
            r.authority_set@.set_id == authority_set@.set_id,
            r.authority_set@.pending_forced_changes == authority_set@.pending_forced_changes,
            r.authority_set@.current_authorities == (match hard_fork_for_set_from(
                authority_set_hard_forks@,
                authority_set@.set_id,
                0,
            ) {
                Some(cv) => cv.next_authorities,
                None => authority_set@.current_authorities,
            }),
            r.authority_set@.pending_standard_changes.len()
                == authority_set@.pending_standard_changes.len(),
            forall|i: int|
                0 <= i < authority_set@.pending_standard_changes.len() ==> (
                #[trigger] r.authority_set@.pending_standard_changes[i]) == (
                match hard_fork_from(
                    r.authority_set_hard_forks@,
                    authority_set@.pending_standard_changes[i].canon_hash,
                    0,
                ) {
                    Some(cv) => cv,
                    None => authority_set@.pending_standard_changes[i],
                }),
    {
        let ghost orig = authority_set@;
        let mut set = authority_set;

        // A hard fork that names the current epoch replaces the current
        // voters at once: an idempotent boot-time override.
        match lookup_hard_fork_for_set(&authority_set_hard_forks, set.set_id) {
            Some(c) => {
                set.current_authorities = c.next_authorities;
            },
            None => {},
        }

        // Index the overrides by announcing block hash, for syncing nodes
        // importing a hard-fork block.
        let mut index: Vec<(u64, PendingChange)> = Vec::new();
        let mut k: usize = 0;
        while k < authority_set_hard_forks.len()
            invariant
                k <= authority_set_hard_forks.len(),
                index@.len() == k,
                forall|j: int|
                    0 <= j < k ==> (#[trigger] index@[j]).0
                        == authority_set_hard_forks@[j].1@.canon_hash && index@[j].1@
                        == authority_set_hard_forks@[j].1@,
            decreases authority_set_hard_forks.len() - k,
        {
            let entry = &authority_set_hard_forks[k];
            let c = entry.1.clone();
            index.push((c.canon_hash, c));
            k = k + 1;
        }

        // Substitute every pending standard change announced by an indexed
        // block with its override.
        let mut rewritten: Vec<PendingChange> = Vec::new();
        let mut m: usize = 0;
        while m < set.pending_standard_changes.len()
            invariant
                m <= set.pending_standard_changes.len(),
                set@.pending_standard_changes == orig.pending_standard_changes,
                rewritten@.len() == m,
                forall|j: int|
                    0 <= j < m ==> (#[trigger] rewritten@[j]@) == (match hard_fork_from(
                        index@,
                        orig.pending_standard_changes[j].canon_hash,
                        0,
                    ) {
                        Some(cv) => cv,
                        None => orig.pending_standard_changes[j],
                    }),
            decreases set.pending_standard_changes.len() - m,
        {
            let c = &set.pending_standard_changes[m];
            proof {
                assert(set@.pending_standard_changes[m as int]
                    == set.pending_standard_changes@[m as int]@);
            }
            match lookup_hard_fork(&index, c.canon_hash) {
                Some(rc) => rewritten.push(rc),
                None => {
                    let copy = c.clone();
                    rewritten.push(copy);
                },
            }
            m = m + 1;
        }
        set.pending_standard_changes = rewritten;

        let result = GrandpaBlockImport {
            authority_set: set,
            authority_set_hard_forks: index,
            consensus_changes,
        };
        proof {
            assert forall|i: int|
                0 <= i < result.authority_set@.pending_standard_changes.len() implies ((
            #[trigger] result.authority_set@.pending_standard_changes[i]).wf()
                && result.authority_set@.pending_standard_changes[i].delay_kind
                == DelayKind::Finalized) by {
                let e = result.authority_set@.pending_standard_changes[i];
                assert(e == result.authority_set.pending_standard_changes@[i]@);
                match hard_fork_from(index@, orig.pending_standard_changes[i].canon_hash, 0) {
                    Some(cv) => {
                        lemma_hard_fork_from_index(
                            index@,
                            orig.pending_standard_changes[i].canon_hash,
                            0,
                        );
                        assert(!cv.is_forced());
                        assert(cv.delay_kind == DelayKind::Finalized);
                    },
                    None => {
                        assert(e == orig.pending_standard_changes[i]);
                    },
                }
            }
            assert(result.authority_set@.pending_forced_changes == orig.pending_forced_changes);
            assert forall|i: int|
                0 <= i < result.authority_set_hard_forks@.len() implies ((
            #[trigger] result.authority_set_hard_forks@[i]).1@.wf()
                && !result.authority_set_hard_forks@[i].1@.is_forced()) by {
                assert(result.authority_set_hard_forks@[i].1@
                    == authority_set_hard_forks@[i].1@);
            }
        }
        result
    }
}


impl GrandpaBlockImport {
    /// On restart, the pending standard changes whose activation height
    /// lies past the last finalized block but within the best chain: their
    /// change blocks are already imported, so their justifications are
    /// worth requesting.  The embedding resolves each candidate to a header
    /// — the announcing block itself when the delay is zero, else the chain
    /// selector's finality target at the activation height — and hands the
    /// lookups to `on_start_targets`.
    pub fn on_start_candidates(&self, finalized_number: u64, best_number: u64) -> (r: Vec<
        PendingChange,
    >)
        requires
            self.wf(),
        ensures
            views_of(r@) == window_filter_to(
                self.authority_set@.pending_standard_changes,
                finalized_number,
                best_number,
                self.authority_set@.pending_standard_changes.len() as int,
            ),
    {
        let mut r: Vec<PendingChange> = Vec::new();
        let mut i: usize = 0;
        while i < self.authority_set.pending_standard_changes.len()
            invariant
                self.wf(),
                i <= self.authority_set.pending_standard_changes.len(),
                views_of(r@) == window_filter_to(
                    self.authority_set@.pending_standard_changes,
                    finalized_number,
                    best_number,
                    i as int,
                ),
            decreases self.authority_set.pending_standard_changes.len() - i,
        {
            let c = &self.authority_set.pending_standard_changes[i];
            proof {
                assert(self.authority_set@.pending_standard_changes[i as int]
                    == self.authority_set.pending_standard_changes@[i as int]@);
                assert(self.authority_set@.pending_standard_changes[i as int].wf());
            }
            let effective = c.canon_height + c.delay;
            if finalized_number < effective && effective <= best_number {
                let copy = c.clone();
                r.push(copy);
                proof {
                    assert(views_of(r@) =~= window_filter_to(
                        self.authority_set@.pending_standard_changes,
                        finalized_number,
                        best_number,
                        i + 1 as int,
                    ));
                }
            }
            i = i + 1;
        }
        r
    }
}

/// The justification requests to hand to the sync layer on restart: for
/// each candidate the embedding resolved, its header is emitted exactly
/// when one was found at the candidate's activation height.
pub fn on_start_targets(candidates: &Vec<PendingChange>, resolved: &Vec<Option<Header>>) -> (r:
    Vec<(u64, u64)>)
    requires
        candidates@.len() == resolved@.len(),
        forall|i: int| 0 <= i < candidates@.len() ==> (#[trigger] candidates@[i]@).wf(),
    ensures
        r@ == targets_to(views_of(candidates@), resolved@, candidates@.len() as int),
{
    let mut r: Vec<(u64, u64)> = Vec::new();
    let mut i: usize = 0;
    while i < candidates.len()
        invariant
            candidates@.len() == resolved@.len(),
            forall|j: int| 0 <= j < candidates@.len() ==> (#[trigger] candidates@[j]@).wf(),
            i <= candidates.len(),
            r@ == targets_to(views_of(candidates@), resolved@, i as int),
        decreases candidates.len() - i,
    {
        let c = &candidates[i];
        proof {
            assert(views_of(candidates@)[i as int] == candidates@[i as int]@);
        }
        let effective = c.canon_height + c.delay;
        match resolved[i] {
            Some(h) => {
                if h.number == effective {
                    r.push((h.hash, h.number));
                }
            },
            None => {},
        }
        i = i + 1;
    }
    r
}

/// When the first forced change of a fork (from position `i` on) that
/// takes effect at the best block exists at some index, the scan finds
/// one.
pub proof fn lemma_applying_forced_exists(
    s: AuthoritySetV,
    chain: Blockchain,
    extra: Option<(u64, u64)>,
    best_hash: u64,
    best_number: u64,
    i: int,
    k: int,
)
    requires
        i <= k < s.pending_forced_changes.len(),
        0 <= i,
        s.pending_forced_changes[k].effective_number() == best_number,
        s.pending_forced_changes[k].canon_hash == best_hash || chain.spec_is_descendant(
            extra,
            s.pending_forced_changes[k].canon_hash,
            best_hash,
        ),
    ensures
        s.spec_applying_forced_from(chain, extra, best_hash, best_number, i) is Some,
    decreases k - i,
{
    if i < k {
        if !(s.pending_forced_changes[i].effective_number() == best_number && (
        s.pending_forced_changes[i].canon_hash == best_hash || chain.spec_is_descendant(
            extra,
            s.pending_forced_changes[i].canon_hash,
            best_hash,
        ))) {
            lemma_applying_forced_exists(s, chain, extra, best_hash, best_number, i + 1, k);
        }
    }
}

impl GrandpaBlockImport {
    /// Hard-fork precedence: an override indexed for the block determines
    /// its pending change verbatim, whatever the digest carries.
    pub proof fn lemma_hard_fork_precedence(
        self,
        digest: Seq<ConsensusLogEntry>,
        number: u64,
        hash: u64,
    )
        requires
            self.spec_hard_fork(hash) is Some,
        ensures
            self.spec_new_change(digest, number, hash) == self.spec_hard_fork(hash),
    {
    }

    /// Forced signals outrank scheduled ones: a block that carries a forced
    /// signal and has no hard-fork override resolves to the forced change,
    /// whatever scheduled signal it also carries; and when that change
    /// takes effect at the block itself (a zero delay), the import applies
    /// a forced rotation — never a standard one.
    pub proof fn lemma_forced_precedence(
        self,
        chain: Blockchain,
        extra: Option<(u64, u64)>,
        digest: Seq<ConsensusLogEntry>,
        number: u64,
        hash: u64,
    )
        requires
            self.spec_hard_fork(hash) is None,
            spec_first_forced(digest) is Some,
        ensures
            self.spec_new_change(digest, number, hash) matches Some(cv) && cv.is_forced(),
            spec_first_forced(digest)->Some_0.1.delay == 0 ==> self.spec_forced_applying(
                chain,
                extra,
                digest,
                number,
                hash,
            ) is Some,
    {
        let cv = self.spec_new_change(digest, number, hash)->Some_0;
        if spec_first_forced(digest)->Some_0.1.delay == 0 {
            let s1 = self.spec_post_add_set(digest, number, hash);
            let k = s1.pending_forced_changes.len() - 1;
            assert(s1.pending_forced_changes[k] == cv);
            assert(cv.effective_number() == number);
            lemma_applying_forced_exists(s1, chain, extra, hash, number, 0, k);
        }
    }
}

} // verus!
