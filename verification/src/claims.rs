use vstd::prelude::*;

verus! {

/// The shared claim record of the worker pool: one flag per queue position,
/// set exactly once when a worker claims that position, and never cleared.
/// The caller holds it under mutual exclusion; a claim is taken inside the
/// exclusive section and the claimed entry is processed outside it.
pub struct ClaimSet {
    claimed: Vec<bool>,
}

impl View for ClaimSet {
    type V = Seq<bool>;

    closed spec fn view(&self) -> Seq<bool> {
        self.claimed@
    }
}

impl ClaimSet {
    /// A fresh record for a queue of `len` entries, with nothing claimed.
    pub fn new(len: usize) -> (r: Self)
        ensures
            r@.len() == len,
            forall|i: int| 0 <= i < len ==> !r@[i],
    {
        let mut claimed: Vec<bool> = Vec::new();
        let mut k: usize = 0;
        while k < len
            invariant
                k <= len,
                claimed@.len() == k,
                forall|i: int| 0 <= i < k ==> !claimed@[i],
            decreases len - k,
        {
            claimed.push(false);
            k += 1;
        }
        ClaimSet { claimed }
    }

    pub fn len(&self) -> (n: usize)
        ensures
            n == self@.len(),
    {
        self.claimed.len()
    }

    /// Scans the queue positions from `start` and claims the first unclaimed
    /// one: the claim is recorded before the position is handed out, so no
    /// other caller can obtain it again. `None` means every position from
    /// `start` on is already claimed and the record is left unchanged.
    pub fn claim_next(&mut self, start: usize) -> (r: Option<usize>)
        requires
            start <= old(self)@.len(),
        ensures
            final(self)@.len() == old(self)@.len(),
            r matches Some(i) ==> {
                &&& start <= i < old(self)@.len()
                &&& !old(self)@[i as int]
                &&& forall|j: int| start <= j < i ==> old(self)@[j]
                &&& final(self)@ == old(self)@.update(i as int, true)
            },
            r is None ==> {
                &&& final(self)@ == old(self)@
                &&& forall|j: int| start <= j < old(self)@.len() ==> old(self)@[j]
            },
    {
        let mut k: usize = start;
        while k < self.claimed.len()
            invariant
                start <= k <= self.claimed@.len(),
                self.claimed@ == old(self)@,
                forall|j: int| start <= j < k ==> old(self)@[j],
            decreases self.claimed@.len() - k,
        {
            if !self.claimed[k] {
                self.claimed.set(k, true);
                return Some(k);
            }
            k += 1;
        }
        None
    }
}

} // verus!
