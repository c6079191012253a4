use vstd::prelude::*;
use crate::handle::JointHandle;

verus! {

/// One slot of a joint registry: the generation of its current (or last)
/// occupant, and whether a joint occupies it now.
#[derive(Clone, Copy, Debug, PartialEq, Eq, Structural)]
pub struct JointSlot {
    pub generation: u32,
    pub occupied: bool,
}

/// The set of joints that currently exist, keyed by generation-checked
/// handles. A removed joint's slot can be reused under a newer generation,
/// so a stale handle never resolves to the joint that replaced it.
pub struct JointRegistry {
    pub slots: Vec<JointSlot>,
}

impl JointRegistry {
    /// `h` names a joint that currently exists.
    pub open spec fn resolves(&self, h: JointHandle) -> bool {
        &&& (h.index as int) < self.slots@.len()
        &&& self.slots@[h.index as int].occupied
        &&& self.slots@[h.index as int].generation == h.generation
    }

    /// The handles of all joints that currently exist.
    pub open spec fn live(&self) -> Set<JointHandle> {
        Set::new(|h: JointHandle| self.resolves(h))
    }

    /// An empty registry.
    pub fn new() -> (r: JointRegistry)
        ensures
            r.live() == Set::<JointHandle>::empty(),
    {
        let r = JointRegistry { slots: Vec::new() };
        assert(r.live() =~= Set::<JointHandle>::empty());
        r
    }

    /// Tells whether `h` names a joint that currently exists.
    pub fn contains(&self, h: JointHandle) -> (r: bool)
        ensures
            r == self.resolves(h),
    {
        let i = h.index as usize;
        i < self.slots.len() && self.slots[i].occupied && self.slots[i].generation == h.generation
    }

    /// Adds a joint and returns its handle. A vacant slot is reused under the
    /// next generation when one is left; otherwise a new slot is appended.
    pub fn insert(&mut self) -> (r: JointHandle)
        requires
            old(self).slots@.len() < u32::MAX,
        ensures
            !old(self).resolves(r),
            final(self).live() == old(self).live().insert(r),
            final(self).slots@.len() <= old(self).slots@.len() + 1,
    {
        let n = self.slots.len();
        let mut i: usize = 0;
        while i < n
            invariant
                n == self.slots@.len(),
                n < u32::MAX,
                i <= n,
                self.slots == old(self).slots,
            decreases n - i,
        {
            let slot = self.slots[i];
            if !slot.occupied && slot.generation < u32::MAX {
                let g = slot.generation + 1;
                self.slots.set(i, JointSlot { generation: g, occupied: true });
                let r = JointHandle { index: i as u32, generation: g };
                assert(self.live() =~= old(self).live().insert(r));
                return r;
            }
            i += 1;
        }
        self.slots.push(JointSlot { generation: 0, occupied: true });
        let r = JointHandle { index: n as u32, generation: 0 };
        assert(self.live() =~= old(self).live().insert(r));
        r
    }

    /// Removes the joint named by `h`, if it exists. Returns whether it did.
    pub fn remove(&mut self, h: JointHandle) -> (r: bool)
        ensures
            r == old(self).resolves(h),
            final(self).live() == old(self).live().remove(h),
            final(self).slots@.len() == old(self).slots@.len(),
    {
        if self.contains(h) {
            let i = h.index as usize;
            self.slots.set(i, JointSlot { generation: h.generation, occupied: false });
            assert(self.live() =~= old(self).live().remove(h));
            true
        } else {
            assert(self.live() =~= old(self).live().remove(h));
            false
        }
    }
}

} // verus!
