use vstd::prelude::*;
use crate::handle::JointHandle;
use crate::link::MotionLink;
use crate::ratio::{
    is_nan_bits, is_valid_ratio, is_zero_bits, lemma_nan_and_zero_invalid, ratio_is_valid,
};
use crate::registry::JointRegistry;

verus! {

/// Why a link could not be attached.
#[derive(Clone, Copy, Debug, PartialEq, Eq, Structural)]
pub enum LinkError {
    /// The source and the target are the same joint.
    SelfLink,
    /// The ratio is zero, NaN or infinite.
    InvalidRatio,
    /// The source or the target does not name an existing joint.
    UnknownJoint,
    /// The link would close a cycle, and cycles are not permitted.
    CycleDetected,
}

/// A table entry: a source joint and the link it carries.
pub type LinkEntry = (JointHandle, MotionLink);

/// Some entry of `s` has source `h`.
pub open spec fn has_source(s: Seq<LinkEntry>, h: JointHandle) -> bool {
    exists|i: int| 0 <= i < s.len() && (#[trigger] s[i]).0 == h
}

/// No two entries of `s` share a source.
pub open spec fn sources_unique(s: Seq<LinkEntry>) -> bool {
    forall|i: int, j: int|
        0 <= i < s.len() && 0 <= j < s.len() && i != j ==> (#[trigger] s[i]).0 != (#[trigger] s[j]).0
}

/// The position of the entry with source `h` (meaningful when there is one).
pub open spec fn source_index(s: Seq<LinkEntry>, h: JointHandle) -> int {
    choose|i: int| 0 <= i < s.len() && (#[trigger] s[i]).0 == h
}

/// The link that `s` holds for source `h`, if any.
pub open spec fn lookup(s: Seq<LinkEntry>, h: JointHandle) -> Option<MotionLink> {
    if has_source(s, h) {
        Some(s[source_index(s, h)].1)
    } else {
        None
    }
}

/// The entries after `l` is attached to `source`: an existing entry for
/// `source` is replaced in place, otherwise the new entry goes last.
pub open spec fn after_attach(s: Seq<LinkEntry>, source: JointHandle, l: MotionLink) -> Seq<
    LinkEntry,
> {
    if has_source(s, source) {
        s.update(source_index(s, source), (source, l))
    } else {
        s.push((source, l))
    }
}

/// The entries after the entry for `source`, if any, is dropped; the others
/// keep their order.
pub open spec fn after_detach(s: Seq<LinkEntry>, source: JointHandle) -> Seq<LinkEntry> {
    if has_source(s, source) {
        s.remove(source_index(s, source))
    } else {
        s
    }
}

/// Following at most `steps` links from `from` arrives at `to`.
pub open spec fn reaches(s: Seq<LinkEntry>, from: JointHandle, to: JointHandle, steps: nat) -> bool
    decreases steps,
{
    from == to || (steps > 0 && lookup(s, from) is Some && reaches(
        s,
        lookup(s, from).unwrap().joint_handle,
        to,
        (steps - 1) as nat,
    ))
}

/// A new link `source -> target` would close a cycle: a walk from `target`,
/// bounded by the number of links, arrives back at `source`.
pub open spec fn closes_cycle(s: Seq<LinkEntry>, source: JointHandle, target: JointHandle) -> bool {
    reaches(s, target, source, s.len() as nat)
}

/// What attaching `source -> target` with the given ratio and direction
/// returns, the checks being made in this order.
pub open spec fn attach_outcome(
    s: Seq<LinkEntry>,
    allow_cycles: bool,
    joints: JointRegistry,
    source: JointHandle,
    target: JointHandle,
    ratio_bits: u64,
) -> Result<(), LinkError> {
    if source == target {
        Err(LinkError::SelfLink)
    } else if !is_valid_ratio(ratio_bits) {
        Err(LinkError::InvalidRatio)
    } else if !joints.resolves(source) || !joints.resolves(target) {
        Err(LinkError::UnknownJoint)
    } else if !allow_cycles && closes_cycle(s, source, target) {
        Err(LinkError::CycleDetected)
    } else {
        Ok(())
    }
}

pub proof fn lemma_source_index(s: Seq<LinkEntry>, i: int)
    requires
        sources_unique(s),
        0 <= i < s.len(),
    ensures
        has_source(s, s[i].0),
        source_index(s, s[i].0) == i,
        lookup(s, s[i].0) == Some(s[i].1),
{
    let h = s[i].0;
    assert(has_source(s, h));
    let j = source_index(s, h);
    assert(s[j].0 == h);
}

pub proof fn lemma_after_attach(s: Seq<LinkEntry>, source: JointHandle, l: MotionLink)
    requires
        sources_unique(s),
    ensures
        sources_unique(after_attach(s, source, l)),
        lookup(after_attach(s, source, l), source) == Some(l),
        forall|h: JointHandle|
            h != source ==> #[trigger] lookup(after_attach(s, source, l), h) == lookup(s, h),
{
    let t = after_attach(s, source, l);
    if has_source(s, source) {
        let k = source_index(s, source);
        assert(s[k].0 == source);
        assert(sources_unique(t));
    } else {
        assert(sources_unique(t)) by {
            assert forall|i: int, j: int|
                0 <= i < t.len() && 0 <= j < t.len() && i != j implies (#[trigger] t[i]).0
                != (#[trigger] t[j]).0 by {
                if i == s.len() as int {
                    assert(s[j].0 == t[j].0);
                } else if j == s.len() as int {
                    assert(s[i].0 == t[i].0);
                }
            }
        }
    }
    assert(t[source_index(s, source)].0 == source || t[s.len() as int].0 == source);
    if has_source(s, source) {
        lemma_source_index(t, source_index(s, source));
    } else {
        lemma_source_index(t, s.len() as int);
    }
    assert forall|h: JointHandle| h != source implies #[trigger] lookup(t, h) == lookup(s, h) by {
        if has_source(s, h) {
            let i = source_index(s, h);
            assert(t[i] == s[i]);
            lemma_source_index(t, i);
        } else if has_source(t, h) {
            let i = source_index(t, h);
            assert(t[i].0 == h);
            assert(s[i] == t[i]);
        }
    }
}

pub proof fn lemma_after_detach(s: Seq<LinkEntry>, source: JointHandle)
    requires
        sources_unique(s),
    ensures
        sources_unique(after_detach(s, source)),
        lookup(after_detach(s, source), source) is None,
        forall|h: JointHandle|
            h != source ==> #[trigger] lookup(after_detach(s, source), h) == lookup(s, h),
{
    let t = after_detach(s, source);
    if has_source(s, source) {
        let k = source_index(s, source);
        assert(s[k].0 == source);
        assert forall|i: int| 0 <= i < t.len() implies #[trigger] t[i] == (if i < k {
            s[i]
        } else {
            s[i + 1]
        }) by {}
        assert(sources_unique(t)) by {
            assert forall|i: int, j: int|
                0 <= i < t.len() && 0 <= j < t.len() && i != j implies (#[trigger] t[i]).0
                != (#[trigger] t[j]).0 by {
                let i2 = if i < k { i } else { i + 1 };
                let j2 = if j < k { j } else { j + 1 };
                assert(t[i] == s[i2]);
                assert(t[j] == s[j2]);
            }
        }
        if has_source(t, source) {
            let i = source_index(t, source);
            let i2 = if i < k { i } else { i + 1 };
            assert(t[i] == s[i2]);
        }
        assert forall|h: JointHandle| h != source implies #[trigger] lookup(t, h) == lookup(
            s,
            h,
        ) by {
            if has_source(s, h) {
                let i = source_index(s, h);
                assert(i != k);
                let i1 = if i < k { i } else { i - 1 };
                assert(t[i1] == s[i]);
                lemma_source_index(t, i1);
            } else if has_source(t, h) {
                let i = source_index(t, h);
                let i2 = if i < k { i } else { i + 1 };
                assert(t[i] == s[i2]);
            }
        }
    }
}

/// The registry of motion links of one simulation world: at most one link
/// per source joint, kept in the order in which sources were first linked,
/// so that the constraint rows built from it come in a fixed order.
pub struct MotionLinkTable {
    entries: Vec<LinkEntry>,
    allow_cycles: bool,
}

impl MotionLinkTable {
    /// The entries, in order.
    pub closed spec fn links(&self) -> Seq<LinkEntry> {
        self.entries@
    }

    /// Whether attaching a link that closes a cycle is permitted.
    pub closed spec fn cycles_allowed(&self) -> bool {
        self.allow_cycles
    }

    /// The table is well formed: no two entries share a source.
    pub open spec fn wf(&self) -> bool {
        sources_unique(self.links())
    }

    /// An empty table that rejects cycles.
    pub fn new() -> (r: MotionLinkTable)
        ensures
            r.wf(),
            r.links() == Seq::<LinkEntry>::empty(),
            !r.cycles_allowed(),
    {
        MotionLinkTable { entries: Vec::new(), allow_cycles: false }
    }

    /// Whether cycles are permitted when attaching.
    pub fn allows_cycles(&self) -> (r: bool)
        ensures
            r == self.cycles_allowed(),
    {
        self.allow_cycles
    }

    /// Permits (or again forbids) links that close a cycle.
    pub fn set_allow_cycles(&mut self, allow: bool)
        ensures
            final(self).links() == old(self).links(),
            final(self).cycles_allowed() == allow,
    {
        self.allow_cycles = allow;
    }

    /// The number of links in the table.
    pub fn len(&self) -> (r: usize)
        ensures
            r == self.links().len(),
    {
        self.entries.len()
    }

    /// The entry at position `i`.
    pub fn entry_at(&self, i: usize) -> (r: LinkEntry)
        requires
            i < self.links().len(),
        ensures
            r == self.links()[i as int],
    {
        self.entries[i]
    }

    fn find(&self, h: JointHandle) -> (r: Option<usize>)
        requires
            self.wf(),
        ensures
            match r {
                Some(i) => i < self.links().len() && i == source_index(self.links(), h)
                    && has_source(self.links(), h),
                None => !has_source(self.links(), h),
            },
    {
        let mut i: usize = 0;
        while i < self.entries.len()
            invariant
                self.wf(),
                i <= self.entries@.len(),
                forall|j: int| 0 <= j < i ==> (#[trigger] self.entries@[j]).0 != h,
            decreases self.entries@.len() - i,
        {
            if self.entries[i].0.same_as(&h) {
                proof {
                    lemma_source_index(self.entries@, i as int);
                }
                return Some(i);
            }
            i += 1;
        }
        None
    }

    /// The link that `source` carries, if any.
    pub fn query_motion_link(&self, source: JointHandle) -> (r: Option<MotionLink>)
        requires
            self.wf(),
        ensures
            r == lookup(self.links(), source),
    {
        match self.find(source) {
            Some(i) => Some(self.entries[i].1),
            None => None,
        }
    }

    /// Whether a walk of at most `len()` links from `from` arrives at `to`.
    pub fn reaches_within_len(&self, from: JointHandle, to: JointHandle) -> (r: bool)
        requires
            self.wf(),
        ensures
            r == reaches(self.links(), from, to, self.links().len() as nat),
    {
        let n = self.entries.len();
        let mut cur = from;
        let mut i: usize = 0;
        while i < n
            invariant
                self.wf(),
                n == self.links().len(),
                i <= n,
                reaches(self.links(), from, to, n as nat) == reaches(
                    self.links(),
                    cur,
                    to,
                    (n - i) as nat,
                ),
            decreases n - i,
        {
            if cur.same_as(&to) {
                return true;
            }
            match self.query_motion_link(cur) {
                None => {
                    return false;
                },
                Some(l) => {
                    cur = l.joint_handle;
                },
            }
            i += 1;
        }
        cur.same_as(&to)
    }

    /// Links `source` to `target` with the given ratio (binary64 bits) and
    /// direction, replacing any link that `source` carried. Fails, leaving the
    /// table as it was, when the joints are the same, the ratio is zero, NaN
    /// or infinite, either joint does not exist in `joints`, or the link would
    /// close a cycle while cycles are not permitted.
    pub fn attach_motion_link(
        &mut self,
        joints: &JointRegistry,
        source: JointHandle,
        target: JointHandle,
        ratio_bits: u64,
        reversed: bool,
    ) -> (r: Result<(), LinkError>)
        requires
            old(self).wf(),
        ensures
            final(self).wf(),
            final(self).cycles_allowed() == old(self).cycles_allowed(),
            r == attach_outcome(
                old(self).links(),
                old(self).cycles_allowed(),
                *joints,
                source,
                target,
                ratio_bits,
            ),
            r is Ok ==> final(self).links() == after_attach(
                old(self).links(),
                source,
                MotionLink { joint_handle: target, ratio_bits, reversed },
            ),
            r is Err ==> final(self).links() == old(self).links(),
    {
        if source.same_as(&target) {
            return Err(LinkError::SelfLink);
        }
        if !ratio_is_valid(ratio_bits) {
            return Err(LinkError::InvalidRatio);
        }
        if !joints.contains(source) || !joints.contains(target) {
            return Err(LinkError::UnknownJoint);
        }
        if !self.allow_cycles && self.reaches_within_len(target, source) {
            return Err(LinkError::CycleDetected);
        }
        let l = MotionLink { joint_handle: target, ratio_bits, reversed };
        proof {
            lemma_after_attach(self.entries@, source, l);
        }
        match self.find(source) {
            Some(i) => {
                self.entries.set(i, (source, l));
            },
            None => {
                self.entries.push((source, l));
            },
        }
        Ok(())
    }

    /// Drops the link that `source` carries; does nothing when it carries none.
    pub fn detach_motion_link(&mut self, source: JointHandle)
        requires
            old(self).wf(),
        ensures
            final(self).wf(),
            final(self).cycles_allowed() == old(self).cycles_allowed(),
            final(self).links() == after_detach(old(self).links(), source),
    {
        proof {
            lemma_after_detach(self.entries@, source);
        }
        match self.find(source) {
            Some(i) => {
                self.entries.remove(i);
            },
            None => {},
        }
    }

    /// To be called when the joint `h` is removed from the joint store: drops
    /// the link that `h` carries. Links that target `h` stay; they are skipped
    /// when constraint rows are built.
    pub fn on_joint_removed(&mut self, h: JointHandle)
        requires
            old(self).wf(),
        ensures
            final(self).wf(),
            final(self).cycles_allowed() == old(self).cycles_allowed(),
            final(self).links() == after_detach(old(self).links(), h),
    {
        self.detach_motion_link(h);
    }
}

/// Linking a joint to itself is always refused as a self link.
pub proof fn lemma_self_link_rejected(
    s: Seq<LinkEntry>,
    allow_cycles: bool,
    joints: JointRegistry,
    j: JointHandle,
    ratio_bits: u64,
)
    ensures
        attach_outcome(s, allow_cycles, joints, j, j, ratio_bits) == Err::<(), LinkError>(
            LinkError::SelfLink,
        ),
{
}

/// Between two distinct joints, a zero or NaN ratio is always refused as an
/// invalid ratio.
pub proof fn lemma_zero_or_nan_ratio_rejected(
    s: Seq<LinkEntry>,
    allow_cycles: bool,
    joints: JointRegistry,
    j: JointHandle,
    k: JointHandle,
    ratio_bits: u64,
)
    requires
        j != k,
        is_zero_bits(ratio_bits) || is_nan_bits(ratio_bits),
    ensures
        attach_outcome(s, allow_cycles, joints, j, k, ratio_bits) == Err::<(), LinkError>(
            LinkError::InvalidRatio,
        ),
{
    lemma_nan_and_zero_invalid(ratio_bits);
}

/// Once `a -> b` is attached, attaching `b -> a` closes a cycle: it is
/// refused when cycles are not permitted, and succeeds when they are.
pub proof fn lemma_reverse_link_closes_cycle(
    s: Seq<LinkEntry>,
    allow_cycles: bool,
    joints: JointRegistry,
    a: JointHandle,
    b: JointHandle,
    ratio_ab: u64,
    reversed_ab: bool,
    ratio_ba: u64,
)
    requires
        sources_unique(s),
        attach_outcome(s, allow_cycles, joints, a, b, ratio_ab) is Ok,
        is_valid_ratio(ratio_ba),
    ensures
        attach_outcome(
            after_attach(s, a, MotionLink { joint_handle: b, ratio_bits: ratio_ab, reversed: reversed_ab }),
            allow_cycles,
            joints,
            b,
            a,
            ratio_ba,
        ) == if allow_cycles {
            Ok::<(), LinkError>(())
        } else {
            Err(LinkError::CycleDetected)
        },
{
    let l = MotionLink { joint_handle: b, ratio_bits: ratio_ab, reversed: reversed_ab };
    let t = after_attach(s, a, l);
    lemma_after_attach(s, a, l);
    let i = source_index(t, a);
    assert(0 <= i < t.len());
    assert(lookup(t, a) == Some(l));
    assert(reaches(t, b, b, (t.len() - 1) as nat));
    assert(reaches(t, a, b, t.len() as nat));
    assert(closes_cycle(t, b, a));
}

/// After the joint `h` is removed, the table holds no link for `h`, and the
/// links of every other source are as they were.
pub proof fn lemma_removed_source_has_no_entry(s: Seq<LinkEntry>, h: JointHandle)
    requires
        sources_unique(s),
    ensures
        lookup(after_detach(s, h), h) is None,
        forall|g: JointHandle| g != h ==> #[trigger] lookup(after_detach(s, h), g) == lookup(s, g),
{
    lemma_after_detach(s, h);
}

} // verus!
