//! The authority-set state machine: the current voters and the pending
//! standard and forced changes, with the mutation primitives the import
//! coordinator drives.

use vstd::prelude::*;

use crate::chain::Blockchain;

verus! {

/// One voter of the authority set: an identifier and its voting weight.
#[derive(Clone, Copy, PartialEq, Eq, Structural, Debug)]
pub struct Authority {
    pub id: u64,
    pub weight: u64,
}

/// How the activation delay of a pending change is counted.
#[derive(Clone, Copy, PartialEq, Eq, Structural, Debug)]
pub enum DelayKind {
    /// The delay counts in blocks from the finalization of the announcing
    /// block: a standard change.
    Finalized,
    /// The delay counts in blocks from the announcing block reaching the
    /// best chain, regardless of finality: a forced change.  Carries the
    /// median last-finalized height signalled with it.
    Best { median_last_finalized: u64 },
}

/// An authority-set change waiting for its activation point.
pub struct PendingChange {
    pub next_authorities: Vec<Authority>,
    pub delay: u64,
    pub canon_height: u64,
    pub canon_hash: u64,
    pub delay_kind: DelayKind,
}

/// Mathematical image of a `PendingChange`.
pub ghost struct PendingChangeV {
    pub next_authorities: Seq<Authority>,
    pub delay: u64,
    pub canon_height: u64,
    pub canon_hash: u64,
    pub delay_kind: DelayKind,
}

impl View for PendingChange {
    type V = PendingChangeV;

    open spec fn view(&self) -> PendingChangeV {
        PendingChangeV {
            next_authorities: self.next_authorities@,
            delay: self.delay,
            canon_height: self.canon_height,
            canon_hash: self.canon_hash,
            delay_kind: self.delay_kind,
        }
    }
}

impl PendingChangeV {
    /// The activation height stays representable.
    pub open spec fn wf(self) -> bool {
        self.canon_height + self.delay <= u64::MAX
    }

    /// The height at which the change takes effect.
    pub open spec fn effective_number(self) -> u64 {
        (self.canon_height + self.delay) as u64
    }

    pub open spec fn is_forced(self) -> bool {
        self.delay_kind is Best
    }

    /// The median last-finalized hint of a forced change.
    pub open spec fn median(self) -> u64 {
        match self.delay_kind {
            DelayKind::Best { median_last_finalized } => median_last_finalized,
            DelayKind::Finalized => 0,
        }
    }
}

/// The images of a list of pending changes.
pub open spec fn views_of(s: Seq<PendingChange>) -> Seq<PendingChangeV> {
    s.map_values(|c: PendingChange| c@)
}

/// Copies a list of authorities.
pub fn clone_authorities(v: &Vec<Authority>) -> (r: Vec<Authority>)
    ensures
        r@ == v@,
{
    let mut r: Vec<Authority> = Vec::new();
    let mut i: usize = 0;
    while i < v.len()
        invariant
            i <= v.len(),
            r@ == v@.subrange(0, i as int),
        decreases v.len() - i,
    {
        r.push(v[i]);
        i = i + 1;
    }
    proof {
        assert(v@.subrange(0, v@.len() as int) =~= v@);
    }
    r
}

impl PendingChange {
    /// The height at which the change takes effect.
    pub fn effective_number(&self) -> (r: u64)
        requires
            self@.wf(),
        ensures
            r == self@.effective_number(),
    {
        self.canon_height + self.delay
    }
}

impl Clone for PendingChange {
    fn clone(&self) -> (r: Self)
        ensures
            r@ == self@,
    {
        PendingChange {
            next_authorities: clone_authorities(&self.next_authorities),
            delay: self.delay,
            canon_height: self.canon_height,
            canon_hash: self.canon_hash,
            delay_kind: self.delay_kind,
        }
    }
}

/// Copies a list of pending changes.
pub fn clone_changes(v: &Vec<PendingChange>) -> (r: Vec<PendingChange>)
    ensures
        views_of(r@) == views_of(v@),
        r@.len() == v@.len(),
{
    let mut r: Vec<PendingChange> = Vec::new();
    let mut i: usize = 0;
    while i < v.len()
        invariant
            i <= v.len(),
            r@.len() == i,
            forall|j: int| 0 <= j < i ==> #[trigger] r@[j]@ == v@[j]@,
        decreases v.len() - i,
    {
        let c = v[i].clone();
        r.push(c);
        i = i + 1;
    }
    proof {
        assert(views_of(r@) =~= views_of(v@)) by {
            assert forall|j: int| 0 <= j < v@.len() implies views_of(r@)[j] == views_of(v@)[j] by {
                assert(views_of(r@)[j] == r@[j]@);
                assert(views_of(v@)[j] == v@[j]@);
            }
        }
    }
    r
}

/// The mutation primitives of the set can refuse a change that conflicts
/// with one already queued on the same fork.
#[derive(Clone, Copy, PartialEq, Eq, Structural, Debug)]
pub enum AuthoritySetError {
    DuplicateAuthoritySetChange,
}

/// The rolling authority-set state: the current voters under `set_id`, the
/// standard changes queued per fork, and the flat list of forced changes.
pub struct AuthoritySet {
    pub set_id: u64,
    pub current_authorities: Vec<Authority>,
    pub pending_standard_changes: Vec<PendingChange>,
    pub pending_forced_changes: Vec<PendingChange>,
}

/// Mathematical image of an `AuthoritySet`.
pub ghost struct AuthoritySetV {
    pub set_id: u64,
    pub current_authorities: Seq<Authority>,
    pub pending_standard_changes: Seq<PendingChangeV>,
    pub pending_forced_changes: Seq<PendingChangeV>,
}

impl View for AuthoritySet {
    type V = AuthoritySetV;

    open spec fn view(&self) -> AuthoritySetV {
        AuthoritySetV {
            set_id: self.set_id,
            current_authorities: self.current_authorities@,
            pending_standard_changes: views_of(self.pending_standard_changes@),
            pending_forced_changes: views_of(self.pending_forced_changes@),
        }
    }
}

impl AuthoritySetV {
    /// Standard changes all have a finalization-counted delay, forced ones a
    /// best-chain-counted delay, and every activation height is representable.
    pub open spec fn wf(self) -> bool {
        &&& (forall|i: int|
            0 <= i < self.pending_standard_changes.len()
                ==> (#[trigger] self.pending_standard_changes[i]).wf()
                && self.pending_standard_changes[i].delay_kind == DelayKind::Finalized)
        &&& (forall|i: int|
            0 <= i < self.pending_forced_changes.len()
                ==> (#[trigger] self.pending_forced_changes[i]).wf()
                && self.pending_forced_changes[i].is_forced())
    }

    /// A standard change announced by the same block is already queued.
    pub open spec fn standard_conflicts(self, c: PendingChangeV) -> bool {
        exists|i: int|
            0 <= i < self.pending_standard_changes.len()
                && (#[trigger] self.pending_standard_changes[i]).canon_hash == c.canon_hash
    }

    /// A forced change is already queued at or below the announcing block on
    /// the same fork: at most one forced change may be active per fork.
    pub open spec fn forced_conflicts(
        self,
        chain: Blockchain,
        extra: Option<(u64, u64)>,
        c: PendingChangeV,
    ) -> bool {
        exists|i: int|
            0 <= i < self.pending_forced_changes.len()
                && ((#[trigger] self.pending_forced_changes[i]).canon_hash == c.canon_hash
                || chain.spec_is_descendant(
                extra,
                self.pending_forced_changes[i].canon_hash,
                c.canon_hash,
            ))
    }

    /// Whether the queued change conflicts with what is already queued.
    pub open spec fn change_conflicts(
        self,
        chain: Blockchain,
        extra: Option<(u64, u64)>,
        c: PendingChangeV,
    ) -> bool {
        if c.is_forced() {
            self.forced_conflicts(chain, extra, c)
        } else {
            self.standard_conflicts(c)
        }
    }

    /// The state after a successful `add_pending_change`.
    pub open spec fn with_change_added(self, c: PendingChangeV) -> AuthoritySetV {
        if c.is_forced() {
            AuthoritySetV { pending_forced_changes: self.pending_forced_changes.push(c), ..self }
        } else {
            AuthoritySetV {
                pending_standard_changes: self.pending_standard_changes.push(c),
                ..self
            }
        }
    }

    /// First forced change, from position `i` on, that takes effect exactly
    /// at the given best block.
    pub open spec fn spec_applying_forced_from(
        self,
        chain: Blockchain,
        extra: Option<(u64, u64)>,
        best_hash: u64,
        best_number: u64,
        i: int,
    ) -> Option<PendingChangeV>
        decreases self.pending_forced_changes.len() - i,
    {
        if i < 0 || i >= self.pending_forced_changes.len() {
            None
        } else if self.pending_forced_changes[i].effective_number() == best_number
            && (self.pending_forced_changes[i].canon_hash == best_hash || chain.spec_is_descendant(
            extra,
            self.pending_forced_changes[i].canon_hash,
            best_hash,
        )) {
            Some(self.pending_forced_changes[i])
        } else {
            self.spec_applying_forced_from(chain, extra, best_hash, best_number, i + 1)
        }
    }

    /// The forced change, if any, that `apply_forced_changes` consumes.
    pub open spec fn spec_applying_forced(
        self,
        chain: Blockchain,
        extra: Option<(u64, u64)>,
        best_hash: u64,
        best_number: u64,
    ) -> Option<PendingChangeV> {
        self.spec_applying_forced_from(chain, extra, best_hash, best_number, 0)
    }

    /// The successor set a consumed forced change installs: its authorities
    /// under the next `set_id`, with every pending change discarded.
    pub open spec fn spec_next_set(self, c: PendingChangeV) -> AuthoritySetV {
        AuthoritySetV {
            set_id: (self.set_id + 1) as u64,
            current_authorities: c.next_authorities,
            pending_standard_changes: Seq::empty(),
            pending_forced_changes: Seq::empty(),
        }
    }

    /// First standard change, from position `i` on, announced by the given
    /// block.
    pub open spec fn spec_enacting_standard_from(self, at_hash: u64, i: int) -> Option<
        PendingChangeV,
    >
        decreases self.pending_standard_changes.len() - i,
    {
        if i < 0 || i >= self.pending_standard_changes.len() {
            None
        } else if self.pending_standard_changes[i].canon_hash == at_hash {
            Some(self.pending_standard_changes[i])
        } else {
            self.spec_enacting_standard_from(at_hash, i + 1)
        }
    }

    /// The standard change, if any, that the given block carries: a
    /// standard rotation is enacted — applied once the block is finalized —
    /// at the block that announced it.
    pub open spec fn spec_enacting_standard(self, at_hash: u64) -> Option<PendingChangeV> {
        self.spec_enacting_standard_from(at_hash, 0)
    }

    /// An earlier standard change on the same fork has not been discharged:
    /// `c` is then not the root change of its fork.
    pub open spec fn spec_has_dependency(
        self,
        chain: Blockchain,
        extra: Option<(u64, u64)>,
        c: PendingChangeV,
    ) -> bool {
        exists|j: int|
            0 <= j < self.pending_standard_changes.len()
                && (#[trigger] self.pending_standard_changes[j]).canon_hash != c.canon_hash
                && chain.spec_is_descendant(
                extra,
                self.pending_standard_changes[j].canon_hash,
                c.canon_hash,
            )
    }
}

impl Clone for AuthoritySet {
    fn clone(&self) -> (r: Self)
        ensures
            r@ == self@,
    {
        AuthoritySet {
            set_id: self.set_id,
            current_authorities: clone_authorities(&self.current_authorities),
            pending_standard_changes: clone_changes(&self.pending_standard_changes),
            pending_forced_changes: clone_changes(&self.pending_forced_changes),
        }
    }
}

impl AuthoritySet {
    /// The set with the given voters and nothing pending.
    pub fn genesis(set_id: u64, authorities: Vec<Authority>) -> (r: AuthoritySet)
        ensures
            r@ == (AuthoritySetV {
                set_id,
                current_authorities: authorities@,
                pending_standard_changes: Seq::empty(),
                pending_forced_changes: Seq::empty(),
            }),
            r@.wf(),
    {
        let r = AuthoritySet {
            set_id,
            current_authorities: authorities,
            pending_standard_changes: Vec::new(),
            pending_forced_changes: Vec::new(),
        };
        proof {
            assert(r@.pending_standard_changes =~= Seq::<PendingChangeV>::empty());
            assert(r@.pending_forced_changes =~= Seq::<PendingChangeV>::empty());
        }
        r
    }

    /// Snapshot of the current epoch, taken for justification verification.
    pub fn current(&self) -> (r: (u64, Vec<Authority>))
        ensures
            r.0 == self@.set_id,
            r.1@ == self@.current_authorities,
    {
        (self.set_id, clone_authorities(&self.current_authorities))
    }

    /// Queues a change on its fork; refuses one that conflicts with a change
    /// already queued there.
    pub fn add_pending_change(
        &mut self,
        change: PendingChange,
        chain: &Blockchain,
        extra: Option<(u64, u64)>,
    ) -> (r: Result<(), AuthoritySetError>)
        requires
            chain.wf(),
            change@.wf(),
        ensures
            r is Err <==> old(self)@.change_conflicts(*chain, extra, change@),
            r is Err ==> *final(self) == *old(self) && r == Result::<(), AuthoritySetError>::Err(
                AuthoritySetError::DuplicateAuthoritySetChange,
            ),
            r is Ok ==> final(self)@ == old(self)@.with_change_added(change@),
            old(self)@.wf() ==> final(self)@.wf(),
    {
        if matches!(change.delay_kind, DelayKind::Best { .. }) {
            let mut i: usize = 0;
            while i < self.pending_forced_changes.len()
                invariant
                    chain.wf(),
                    *self == *old(self),
                    change@.is_forced(),
                    i <= self.pending_forced_changes.len(),
                    forall|j: int|
                        0 <= j < i ==> !((#[trigger] self@.pending_forced_changes[j]).canon_hash
                            == change@.canon_hash || chain.spec_is_descendant(
                            extra,
                            self@.pending_forced_changes[j].canon_hash,
                            change@.canon_hash,
                        )),
                decreases self.pending_forced_changes.len() - i,
            {
                let existing = &self.pending_forced_changes[i];
                proof {
                    assert(self@.pending_forced_changes[i as int]
                        == self.pending_forced_changes@[i as int]@);
                }
                if existing.canon_hash == change.canon_hash || chain.is_descendant_of(
                    extra,
                    existing.canon_hash,
                    change.canon_hash,
                ) {
                    proof {
                        assert(old(self)@.forced_conflicts(*chain, extra, change@));
                    }
                    return Err(AuthoritySetError::DuplicateAuthoritySetChange);
                }
                i = i + 1;
            }
            self.pending_forced_changes.push(change);
            proof {
                assert(self@.pending_forced_changes =~= old(
                    self,
                )@.pending_forced_changes.push(change@));
                assert(self@ == old(self)@.with_change_added(change@));
            }
            Ok(())
        } else {
            let mut i: usize = 0;
            while i < self.pending_standard_changes.len()
                invariant
                    *self == *old(self),
                    !change@.is_forced(),
                    i <= self.pending_standard_changes.len(),
                    forall|j: int|
                        0 <= j < i ==> (#[trigger] self@.pending_standard_changes[j]).canon_hash
                            != change@.canon_hash,
                decreases self.pending_standard_changes.len() - i,
            {
                proof {
                    assert(self@.pending_standard_changes[i as int]
                        == self.pending_standard_changes@[i as int]@);
                }
                if self.pending_standard_changes[i].canon_hash == change.canon_hash {
                    proof {
                        assert(old(self)@.standard_conflicts(change@));
                    }
                    return Err(AuthoritySetError::DuplicateAuthoritySetChange);
                }
                i = i + 1;
            }
            self.pending_standard_changes.push(change);
            proof {
                assert(self@.pending_standard_changes =~= old(
                    self,
                )@.pending_standard_changes.push(change@));
                assert(self@ == old(self)@.with_change_added(change@));
            }
            Ok(())
        }
    }

    /// If a pending forced change takes effect at the given best block,
    /// produces its median hint and the successor set; idempotent otherwise.
    pub fn apply_forced_changes(
        &self,
        best_hash: u64,
        best_number: u64,
        chain: &Blockchain,
        extra: Option<(u64, u64)>,
    ) -> (r: Option<(u64, AuthoritySet)>)
        requires
            chain.wf(),
            self@.wf(),
            self.set_id < u64::MAX,
        ensures
            match self@.spec_applying_forced(*chain, extra, best_hash, best_number) {
                None => r is None,
                Some(c) => r matches Some((m, ns)) && m == c.median() && ns@ == self@.spec_next_set(
                    c,
                ),
            },
    {
        let mut i: usize = 0;
        while i < self.pending_forced_changes.len()
            invariant
                chain.wf(),
                self@.wf(),
                self.set_id < u64::MAX,
                i <= self.pending_forced_changes.len(),
                self@.spec_applying_forced(*chain, extra, best_hash, best_number)
                    == self@.spec_applying_forced_from(
                    *chain,
                    extra,
                    best_hash,
                    best_number,
                    i as int,
                ),
            decreases self.pending_forced_changes.len() - i,
        {
            let c = &self.pending_forced_changes[i];
            proof {
                assert(self@.pending_forced_changes[i as int]
                    == self.pending_forced_changes@[i as int]@);
                assert(self@.pending_forced_changes[i as int].wf());
            }
            let effective = c.canon_height + c.delay;
            if effective == best_number && (c.canon_hash == best_hash || chain.is_descendant_of(
                extra,
                c.canon_hash,
                best_hash,
            )) {
                let median = match c.delay_kind {
                    DelayKind::Best { median_last_finalized } => median_last_finalized,
                    DelayKind::Finalized => 0,
                };
                let next = AuthoritySet {
                    set_id: self.set_id + 1,
                    current_authorities: clone_authorities(&c.next_authorities),
                    pending_standard_changes: Vec::new(),
                    pending_forced_changes: Vec::new(),
                };
                proof {
                    assert(next@.pending_standard_changes =~= Seq::<PendingChangeV>::empty());
                    assert(next@.pending_forced_changes =~= Seq::<PendingChangeV>::empty());
                }
                return Some((median, next));
            }
            i = i + 1;
        }
        None
    }

    /// `Some(true)` when the block announces the root standard change of
    /// its fork — ready to be applied once this block is finalized;
    /// `Some(false)` when an earlier change on the fork is undischarged;
    /// `None` when the block carries no standard change.
    pub fn enacts_standard_change(
        &self,
        at_hash: u64,
        at_number: u64,
        chain: &Blockchain,
        extra: Option<(u64, u64)>,
    ) -> (r: Option<bool>)
        requires
            chain.wf(),
            self@.wf(),
        ensures
            match self@.spec_enacting_standard(at_hash) {
                None => r is None,
                Some(c) => r == Some(!self@.spec_has_dependency(*chain, extra, c)),
            },
    {
        // The height is not consulted: a standard rotation is keyed to its
        // announcing block.
        let _ = at_number;
        let mut i: usize = 0;
        while i < self.pending_standard_changes.len()
            invariant
                chain.wf(),
                self@.wf(),
                i <= self.pending_standard_changes.len(),
                self@.spec_enacting_standard(at_hash) == self@.spec_enacting_standard_from(
                    at_hash,
                    i as int,
                ),
            decreases self.pending_standard_changes.len() - i,
        {
            let c = &self.pending_standard_changes[i];
            proof {
                assert(self@.pending_standard_changes[i as int]
                    == self.pending_standard_changes@[i as int]@);
            }
            if c.canon_hash == at_hash {
                let ghost cv = self@.pending_standard_changes[i as int];
                proof {
                    assert(self@.spec_enacting_standard_from(at_hash, i as int) == Some(cv));
                }
                let c_canon: u64 = c.canon_hash;
                let mut j: usize = 0;
                let mut dependent = false;
                while j < self.pending_standard_changes.len()
                    invariant
                        chain.wf(),
                        j <= self.pending_standard_changes.len(),
                        c_canon == cv.canon_hash,
                        self@.spec_enacting_standard(at_hash) == Some(cv),
                        dependent ==> self@.spec_has_dependency(*chain, extra, cv),
                        !dependent ==> forall|k: int|
                            0 <= k < j ==> !((#[trigger] self@.pending_standard_changes[k]).canon_hash
                                != cv.canon_hash && chain.spec_is_descendant(
                                extra,
                                self@.pending_standard_changes[k].canon_hash,
                                cv.canon_hash,
                            )),
                    decreases self.pending_standard_changes.len() - j,
                {
                    let d = &self.pending_standard_changes[j];
                    proof {
                        assert(self@.pending_standard_changes[j as int]
                            == self.pending_standard_changes@[j as int]@);
                    }
                    if d.canon_hash != c_canon && chain.is_descendant_of(
                        extra,
                        d.canon_hash,
                        c_canon,
                    ) {
                        dependent = true;
                    }
                    j = j + 1;
                }
                return Some(!dependent);
            }
            i = i + 1;
        }
        None
    }
}

} // verus!
