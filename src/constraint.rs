use vstd::prelude::*;
use crate::handle::JointHandle;
use crate::ratio::{signed_ratio, signed_ratio_bits};
use crate::registry::JointRegistry;
use crate::table::{
    after_detach, lemma_after_detach, lemma_source_index, lookup, sources_unique, LinkEntry,
    MotionLinkTable,
};

verus! {

/// A bilateral velocity constraint that couples two joints for one step:
/// `v_source - coefficient * v_target = 0`, where each `v` is the joint's
/// relative velocity along its coupled axis and `coefficient_bits` is the
/// binary64 bit pattern of the signed ratio.
#[derive(Clone, Copy, Debug, PartialEq, Eq, Structural)]
pub struct CouplingRow {
    pub source: JointHandle,
    pub target: JointHandle,
    pub coefficient_bits: u64,
}

/// The row that the entry `e` contributes when its target exists.
pub open spec fn row_of(e: LinkEntry) -> CouplingRow {
    CouplingRow {
        source: e.0,
        target: e.1.joint_handle,
        coefficient_bits: signed_ratio_bits(e.1.ratio_bits, e.1.reversed),
    }
}

/// The rows built from the entries `s`, in their order, skipping each entry
/// whose target does not exist in `joints`.
pub open spec fn rows_of(s: Seq<LinkEntry>, joints: JointRegistry) -> Seq<CouplingRow>
    decreases s.len(),
{
    if s.len() == 0 {
        Seq::empty()
    } else {
        let before = rows_of(s.drop_last(), joints);
        if joints.resolves(s.last().1.joint_handle) {
            before.push(row_of(s.last()))
        } else {
            before
        }
    }
}

/// Builds this step's coupling rows: one for each link of `table` whose
/// target exists in `joints`, in table order. Links with a removed target
/// are skipped; building never fails.
pub fn constraint_rows(table: &MotionLinkTable, joints: &JointRegistry) -> (r: Vec<CouplingRow>)
    ensures
        r@ == rows_of(table.links(), *joints),
{
    let n = table.len();
    let mut out: Vec<CouplingRow> = Vec::new();
    let mut i: usize = 0;
    while i < n
        invariant
            n == table.links().len(),
            i <= n,
            out@ == rows_of(table.links().subrange(0, i as int), *joints),
        decreases n - i,
    {
        let e = table.entry_at(i);
        proof {
            let s = table.links().subrange(0, i as int + 1);
            assert(s.drop_last() =~= table.links().subrange(0, i as int));
            assert(s.last() == e);
        }
        if joints.contains(e.1.joint_handle) {
            out.push(
                CouplingRow {
                    source: e.0,
                    target: e.1.joint_handle,
                    coefficient_bits: signed_ratio(e.1.ratio_bits, e.1.reversed),
                },
            );
        }
        i += 1;
    }
    assert(table.links().subrange(0, n as int) =~= table.links());
    out
}

/// Each row comes from an entry whose target exists.
pub proof fn lemma_rows_come_from_live_targets(s: Seq<LinkEntry>, joints: JointRegistry, k: int)
    requires
        0 <= k < rows_of(s, joints).len(),
    ensures
        exists|i: int|
            0 <= i < s.len() && rows_of(s, joints)[k] == row_of(#[trigger] s[i])
                && joints.resolves(s[i].1.joint_handle),
    decreases s.len(),
{
    let before = rows_of(s.drop_last(), joints);
    if k < before.len() {
        lemma_rows_come_from_live_targets(s.drop_last(), joints, k);
        let i = choose|i: int|
            0 <= i < s.drop_last().len() && before[k] == row_of(#[trigger] s.drop_last()[i])
                && joints.resolves(s.drop_last()[i].1.joint_handle);
        assert(s[i] == s.drop_last()[i]);
    } else {
        assert(s[s.len() - 1] == s.last());
    }
}

/// Removing a link's target joint leaves the link queryable, and the link
/// then contributes no row: building rows skips it without failing.
pub proof fn lemma_removed_target_is_skipped(
    s: Seq<LinkEntry>,
    joints: JointRegistry,
    source: JointHandle,
    target: JointHandle,
)
    requires
        sources_unique(s),
        lookup(s, source) matches Some(l) && l.joint_handle == target,
        source != target,
        !joints.resolves(target),
    ensures
        lookup(after_detach(s, target), source) == lookup(s, source),
        forall|k: int|
            0 <= k < rows_of(after_detach(s, target), joints).len() ==> (#[trigger] rows_of(
                after_detach(s, target),
                joints,
            )[k]).source != source,
{
    lemma_after_detach(s, target);
    let t = after_detach(s, target);
    assert forall|k: int| 0 <= k < rows_of(t, joints).len() implies (#[trigger] rows_of(
        t,
        joints,
    )[k]).source != source by {
        lemma_rows_come_from_live_targets(t, joints, k);
        let i = choose|i: int|
            0 <= i < t.len() && rows_of(t, joints)[k] == row_of(#[trigger] t[i])
                && joints.resolves(t[i].1.joint_handle);
        if t[i].0 == source {
            lemma_source_index(t, i);
        }
    }
}

} // verus!
