//! A model of the block tree as the import logic sees it: the headers the
//! client has stored, the chain info it reports, and the descendancy oracle
//! that is consistent with the block about to be written.

use vstd::prelude::*;

verus! {

/// What this component reads of a block header: its hash, its height, and
/// the hash of its parent.
#[derive(Clone, Copy, PartialEq, Eq, Structural, Debug)]
pub struct Header {
    pub hash: u64,
    pub number: u64,
    pub parent_hash: u64,
}

/// The part of the client's state the import logic consults: the stored
/// headers and the chain info (last finalized and best block heights).
pub struct Blockchain {
    pub headers: Vec<Header>,
    pub finalized_number: u64,
    pub best_number: u64,
}

/// First header with hash `h` at or after position `i`.
pub open spec fn find_header_from(s: Seq<Header>, h: u64, i: int) -> Option<Header>
    decreases s.len() - i,
{
    if i < 0 || i >= s.len() {
        None
    } else if s[i].hash == h {
        Some(s[i])
    } else {
        find_header_from(s, h, i + 1)
    }
}

/// First header with height `n` at or after position `i`.
pub open spec fn find_number_from(s: Seq<Header>, n: u64, i: int) -> Option<Header>
    decreases s.len() - i,
{
    if i < 0 || i >= s.len() {
        None
    } else if s[i].number == n {
        Some(s[i])
    } else {
        find_number_from(s, n, i + 1)
    }
}

/// A found header is an element of the sequence.
pub proof fn lemma_find_header_from_index(s: Seq<Header>, h: u64, i: int)
    requires
        find_header_from(s, h, i) is Some,
    ensures
        exists|k: int|
            i <= k < s.len() && s[k] == find_header_from(s, h, i)->Some_0 && s[k].hash == h,
    decreases s.len() - i,
{
    if 0 <= i < s.len() && s[i].hash != h {
        lemma_find_header_from_index(s, h, i + 1);
    }
}

impl Blockchain {
    /// Headers carry pairwise distinct hashes, and every parent link that
    /// stays inside the store goes down in height, so walks along parent
    /// links terminate.
    pub open spec fn wf(self) -> bool {
        &&& (forall|i: int, j: int|
            #![trigger self.headers@[i], self.headers@[j]]
            0 <= i < j < self.headers@.len() ==> self.headers@[i].hash != self.headers@[j].hash)
        &&& (forall|i: int, j: int|
            #![trigger self.headers@[i], self.headers@[j]]
            0 <= i < self.headers@.len() && 0 <= j < self.headers@.len()
                && self.headers@[j].hash == self.headers@[i].parent_hash
                ==> self.headers@[j].number < self.headers@[i].number)
    }

    pub open spec fn spec_header_of_hash(self, h: u64) -> Option<Header> {
        find_header_from(self.headers@, h, 0)
    }

    pub open spec fn spec_header_of_number(self, n: u64) -> Option<Header> {
        find_number_from(self.headers@, n, 0)
    }

    /// Whether the store already holds a block with this hash.
    pub open spec fn spec_contains(self, h: u64) -> bool {
        self.spec_header_of_hash(h) is Some
    }

    /// Upper bound on the length of the parent walk that starts at `h`.
    pub open spec fn rank(self, h: u64) -> int {
        match self.spec_header_of_hash(h) {
            Some(hd) => hd.number + 1,
            None => 0,
        }
    }

    /// Walking parent links up from `cur` (inclusively) meets `base`.
    pub open spec fn reaches(self, base: u64, cur: u64) -> bool
        decreases self.rank(cur) when self.wf() via Self::reaches_decreases
    {
        cur == base || (match self.spec_header_of_hash(cur) {
            None => false,
            Some(hd) => self.reaches(base, hd.parent_hash),
        })
    }

    #[via_fn]
    proof fn reaches_decreases(self, base: u64, cur: u64) {
        if self.spec_header_of_hash(cur) is Some {
            let hd = self.spec_header_of_hash(cur)->Some_0;
            lemma_find_header_from_index(self.headers@, cur, 0);
            if self.spec_header_of_hash(hd.parent_hash) is Some {
                lemma_find_header_from_index(self.headers@, hd.parent_hash, 0);
            }
        }
    }

    /// The parent from which the ancestry of `head` continues: the in-flight
    /// pair `extra` answers for the block that is not yet in the store.
    pub open spec fn spec_start_parent(self, extra: Option<(u64, u64)>, head: u64) -> Option<
        u64,
    > {
        match extra {
            Some((eh, ep)) => if eh == head {
                Some(ep)
            } else {
                match self.spec_header_of_hash(head) {
                    Some(hd) => Some(hd.parent_hash),
                    None => None,
                }
            },
            None => match self.spec_header_of_hash(head) {
                Some(hd) => Some(hd.parent_hash),
                None => None,
            },
        }
    }

    /// Whether `head` is a strict descendant of `base`, counting the not yet
    /// written block described by `extra` as `(hash, parent_hash)`.
    pub open spec fn spec_is_descendant(self, extra: Option<(u64, u64)>, base: u64, head: u64) -> bool {
        &&& head != base
        &&& (match self.spec_start_parent(extra, head) {
            None => false,
            Some(p) => self.reaches(base, p),
        })
    }

    /// Header lookup by hash, as the client's store answers it.
    pub fn header_of_hash(&self, h: u64) -> (r: Option<Header>)
        ensures
            r == self.spec_header_of_hash(h),
    {
        let mut i: usize = 0;
        while i < self.headers.len()
            invariant
                i <= self.headers.len(),
                find_header_from(self.headers@, h, 0) == find_header_from(
                    self.headers@,
                    h,
                    i as int,
                ),
            decreases self.headers.len() - i,
        {
            if self.headers[i].hash == h {
                return Some(self.headers[i]);
            }
            i = i + 1;
        }
        None
    }

    /// Header lookup by height, as the client's store answers it for the
    /// canonical chain.
    pub fn header_of_number(&self, n: u64) -> (r: Option<Header>)
        ensures
            r == self.spec_header_of_number(n),
    {
        let mut i: usize = 0;
        while i < self.headers.len()
            invariant
                i <= self.headers.len(),
                find_number_from(self.headers@, n, 0) == find_number_from(
                    self.headers@,
                    n,
                    i as int,
                ),
            decreases self.headers.len() - i,
        {
            if self.headers[i].number == n {
                return Some(self.headers[i]);
            }
            i = i + 1;
        }
        None
    }

    /// Whether the store already holds a block with this hash.
    pub fn contains(&self, h: u64) -> (r: bool)
        ensures
            r == self.spec_contains(h),
    {
        match self.header_of_hash(h) {
            Some(_) => true,
            None => false,
        }
    }

    /// The descendancy oracle: answers as if the block described by `extra`
    /// were already written.
    pub fn is_descendant_of(&self, extra: Option<(u64, u64)>, base: u64, head: u64) -> (r: bool)
        requires
            self.wf(),
        ensures
            r == self.spec_is_descendant(extra, base, head),
    {
        if head == base {
            return false;
        }
        let start: Option<u64> = match extra {
            Some((eh, ep)) => {
                if eh == head {
                    Some(ep)
                } else {
                    match self.header_of_hash(head) {
                        Some(hd) => Some(hd.parent_hash),
                        None => None,
                    }
                }
            },
            None => {
                match self.header_of_hash(head) {
                    Some(hd) => Some(hd.parent_hash),
                    None => None,
                }
            },
        };
        let mut cur: u64 = match start {
            None => {
                return false;
            },
            Some(p) => p,
        };
        loop
            invariant
                self.wf(),
                self.spec_is_descendant(extra, base, head) == self.reaches(base, cur),
            decreases self.rank(cur),
        {
            if cur == base {
                return true;
            }
            match self.header_of_hash(cur) {
                None => {
                    return false;
                },
                Some(hd) => {
                    proof {
                        lemma_find_header_from_index(self.headers@, cur, 0);
                        if self.spec_header_of_hash(hd.parent_hash) is Some {
                            lemma_find_header_from_index(self.headers@, hd.parent_hash, 0);
                        }
                    }
                    cur = hd.parent_hash;
                },
            }
        }
    }
}

} // verus!
