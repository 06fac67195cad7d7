use vstd::prelude::*;

verus! {

/// A counting admission gate: at most `limit` slots are held at a time.
#[derive(Debug, Clone, PartialEq, Eq)]
pub struct AdmissionGate {
    limit: usize,
    held: usize,
}

impl AdmissionGate {
    /// The number of slots there are.
    pub closed spec fn limit(&self) -> usize {
        self.limit
    }

    /// The number of slots that are held.
    pub closed spec fn held(&self) -> usize {
        self.held
    }

    /// No more slots are held than there are.
    pub open spec fn wf(&self) -> bool {
        self.held() <= self.limit()
    }

    /// A gate of `limit` slots, none of them held.
    pub fn new(limit: usize) -> (gate: AdmissionGate)
        ensures
            gate.wf(),
            gate.limit() == limit,
            gate.held() == 0,
    {
        AdmissionGate { limit, held: 0 }
    }

    pub fn capacity(&self) -> (n: usize)
        ensures
            n == self.limit(),
    {
        self.limit
    }

    pub fn in_use(&self) -> (n: usize)
        ensures
            n == self.held(),
    {
        self.held
    }

    /// Takes a slot if one is free, and says whether it did.
    pub fn try_acquire(&mut self) -> (admitted: bool)
        requires
            old(self).wf(),
        ensures
            final(self).wf(),
            final(self).limit() == old(self).limit(),
            admitted == (old(self).held() < old(self).limit()),
            final(self).held() == old(self).held() + if admitted { 1int } else { 0int },
    {
        if self.held < self.limit {
            self.held = self.held + 1;
            true
        } else {
            false
        }
    }

    /// Gives a held slot back; a gate with no slot held stays as it is.
    pub fn release(&mut self)
        requires
            old(self).wf(),
        ensures
            final(self).wf(),
            final(self).limit() == old(self).limit(),
            final(self).held() == if old(self).held() > 0 { old(self).held() - 1 } else { 0int },
    {
        if self.held > 0 {
            self.held = self.held - 1;
        }
    }
}

} // verus!
