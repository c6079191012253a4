use motion_link::constraint::{constraint_rows, CouplingRow};
use motion_link::handle::JointHandle;
use motion_link::link::{MotionLink, RECORD_LEN};
use motion_link::ratio::{ratio_is_valid, signed_ratio};
use motion_link::registry::JointRegistry;
use motion_link::table::{LinkError, MotionLinkTable};

fn world(n: usize) -> (JointRegistry, Vec<JointHandle>) {
    let mut joints = JointRegistry::new();
    let mut handles = Vec::new();
    for _ in 0..n {
        handles.push(joints.insert());
    }
    (joints, handles)
}

#[test]
fn self_link_is_rejected() {
    let (joints, h) = world(2);
    let mut table = MotionLinkTable::new();
    assert_eq!(
        table.attach_motion_link(&joints, h[0], h[0], 1.0f64.to_bits(), false),
        Err(LinkError::SelfLink)
    );
    assert_eq!(
        table.attach_motion_link(&joints, h[1], h[1], f64::NAN.to_bits(), false),
        Err(LinkError::SelfLink)
    );
    assert_eq!(table.len(), 0);
}

#[test]
fn zero_nan_and_infinite_ratios_are_rejected() {
    let (joints, h) = world(2);
    let mut table = MotionLinkTable::new();
    for r in [0.0f64, -0.0, f64::NAN, f64::INFINITY, f64::NEG_INFINITY] {
        assert_eq!(
            table.attach_motion_link(&joints, h[0], h[1], r.to_bits(), false),
            Err(LinkError::InvalidRatio)
        );
    }
    assert_eq!(table.query_motion_link(h[0]), None);
}

#[test]
fn ratio_validity_by_bits() {
    assert!(ratio_is_valid(0.5f64.to_bits()));
    assert!(ratio_is_valid((-3.0f64).to_bits()));
    assert!(ratio_is_valid(f64::MIN_POSITIVE.to_bits()));
    assert!(ratio_is_valid(f64::MAX.to_bits()));
    assert!(!ratio_is_valid(0.0f64.to_bits()));
    assert!(!ratio_is_valid((-0.0f64).to_bits()));
    assert!(!ratio_is_valid(f64::NAN.to_bits()));
    assert!(!ratio_is_valid(f64::INFINITY.to_bits()));
}

#[test]
fn signed_ratio_negates_when_reversed() {
    assert_eq!(f64::from_bits(signed_ratio(0.5f64.to_bits(), false)), 0.5);
    assert_eq!(f64::from_bits(signed_ratio(0.5f64.to_bits(), true)), -0.5);
    assert_eq!(f64::from_bits(signed_ratio((-2.0f64).to_bits(), true)), 2.0);
}

#[test]
fn unknown_joints_are_rejected() {
    let (mut joints, h) = world(2);
    let mut table = MotionLinkTable::new();
    let missing = JointHandle::from_raw_parts(7, 0);
    assert_eq!(
        table.attach_motion_link(&joints, h[0], missing, 1.0f64.to_bits(), false),
        Err(LinkError::UnknownJoint)
    );
    assert_eq!(
        table.attach_motion_link(&joints, missing, h[0], 1.0f64.to_bits(), false),
        Err(LinkError::UnknownJoint)
    );
    assert!(joints.remove(h[1]));
    assert_eq!(
        table.attach_motion_link(&joints, h[0], h[1], 1.0f64.to_bits(), false),
        Err(LinkError::UnknownJoint)
    );
}

#[test]
fn stale_handle_does_not_resolve_after_slot_reuse() {
    let (mut joints, h) = world(2);
    assert!(joints.remove(h[1]));
    assert!(!joints.remove(h[1]));
    let again = joints.insert();
    assert_eq!(again.index, h[1].index);
    assert_eq!(again.generation, h[1].generation + 1);
    assert!(joints.contains(again));
    assert!(!joints.contains(h[1]));
    let mut table = MotionLinkTable::new();
    assert_eq!(
        table.attach_motion_link(&joints, h[0], h[1], 1.0f64.to_bits(), false),
        Err(LinkError::UnknownJoint)
    );
    assert_eq!(table.attach_motion_link(&joints, h[0], again, 1.0f64.to_bits(), false), Ok(()));
}

#[test]
fn reverse_link_is_a_cycle_by_default() {
    let (joints, h) = world(2);
    let mut table = MotionLinkTable::new();
    assert!(!table.allows_cycles());
    assert_eq!(table.attach_motion_link(&joints, h[0], h[1], 2.0f64.to_bits(), false), Ok(()));
    assert_eq!(
        table.attach_motion_link(&joints, h[1], h[0], 0.5f64.to_bits(), false),
        Err(LinkError::CycleDetected)
    );
    assert_eq!(table.query_motion_link(h[1]), None);
}

#[test]
fn reverse_link_allowed_when_cycles_permitted() {
    let (joints, h) = world(2);
    let mut table = MotionLinkTable::new();
    table.set_allow_cycles(true);
    assert_eq!(table.attach_motion_link(&joints, h[0], h[1], 2.0f64.to_bits(), false), Ok(()));
    assert_eq!(table.attach_motion_link(&joints, h[1], h[0], 0.5f64.to_bits(), true), Ok(()));
    assert_eq!(table.len(), 2);
    assert_eq!(
        table.query_motion_link(h[1]),
        Some(MotionLink::new(h[0], 0.5f64.to_bits(), true))
    );
}

#[test]
fn longer_cycle_is_detected() {
    let (joints, h) = world(4);
    let mut table = MotionLinkTable::new();
    let r = 1.0f64.to_bits();
    assert_eq!(table.attach_motion_link(&joints, h[0], h[1], r, false), Ok(()));
    assert_eq!(table.attach_motion_link(&joints, h[1], h[2], r, false), Ok(()));
    assert_eq!(table.attach_motion_link(&joints, h[2], h[3], r, false), Ok(()));
    assert_eq!(
        table.attach_motion_link(&joints, h[3], h[0], r, false),
        Err(LinkError::CycleDetected)
    );
    assert!(table.reaches_within_len(h[0], h[3]));
    assert!(!table.reaches_within_len(h[3], h[0]));
}

#[test]
fn shared_target_and_chains_are_not_cycles() {
    let (joints, h) = world(3);
    let mut table = MotionLinkTable::new();
    let r = 1.0f64.to_bits();
    assert_eq!(table.attach_motion_link(&joints, h[0], h[2], r, false), Ok(()));
    assert_eq!(table.attach_motion_link(&joints, h[1], h[2], r, false), Ok(()));
    assert_eq!(table.attach_motion_link(&joints, h[2], h[1], r, false), Err(LinkError::CycleDetected));
    assert_eq!(table.len(), 2);
}

#[test]
fn reattach_replaces_in_place() {
    let (joints, h) = world(3);
    let mut table = MotionLinkTable::new();
    assert_eq!(table.attach_motion_link(&joints, h[0], h[1], 1.0f64.to_bits(), false), Ok(()));
    assert_eq!(table.attach_motion_link(&joints, h[1], h[2], 1.0f64.to_bits(), false), Ok(()));
    assert_eq!(table.attach_motion_link(&joints, h[0], h[2], 3.0f64.to_bits(), true), Ok(()));
    assert_eq!(table.len(), 2);
    assert_eq!(table.entry_at(0), (h[0], MotionLink::new(h[2], 3.0f64.to_bits(), true)));
    assert_eq!(table.entry_at(1), (h[1], MotionLink::new(h[2], 1.0f64.to_bits(), false)));
}

#[test]
fn detach_removes_and_is_a_no_op_otherwise() {
    let (joints, h) = world(3);
    let mut table = MotionLinkTable::new();
    assert_eq!(table.attach_motion_link(&joints, h[0], h[1], 1.0f64.to_bits(), false), Ok(()));
    table.detach_motion_link(h[2]);
    assert_eq!(table.len(), 1);
    table.detach_motion_link(h[0]);
    assert_eq!(table.len(), 0);
    assert_eq!(table.query_motion_link(h[0]), None);
    table.detach_motion_link(h[0]);
    assert_eq!(table.len(), 0);
}

#[test]
fn removing_source_joint_drops_its_entry() {
    let (mut joints, h) = world(3);
    let mut table = MotionLinkTable::new();
    assert_eq!(table.attach_motion_link(&joints, h[0], h[1], 1.0f64.to_bits(), false), Ok(()));
    assert_eq!(table.attach_motion_link(&joints, h[2], h[1], 2.0f64.to_bits(), false), Ok(()));
    assert!(joints.remove(h[0]));
    table.on_joint_removed(h[0]);
    assert_eq!(table.query_motion_link(h[0]), None);
    assert_eq!(
        table.query_motion_link(h[2]),
        Some(MotionLink::new(h[1], 2.0f64.to_bits(), false))
    );
}

#[test]
fn removing_target_joint_skips_link_when_stepping() {
    let (mut joints, h) = world(3);
    let mut table = MotionLinkTable::new();
    assert_eq!(table.attach_motion_link(&joints, h[0], h[1], 1.0f64.to_bits(), false), Ok(()));
    assert_eq!(table.attach_motion_link(&joints, h[2], h[0], 2.0f64.to_bits(), false), Ok(()));
    assert_eq!(constraint_rows(&table, &joints).len(), 2);
    assert!(joints.remove(h[1]));
    table.on_joint_removed(h[1]);
    assert_eq!(
        table.query_motion_link(h[0]),
        Some(MotionLink::new(h[1], 1.0f64.to_bits(), false))
    );
    let rows = constraint_rows(&table, &joints);
    assert_eq!(
        rows,
        vec![CouplingRow { source: h[2], target: h[0], coefficient_bits: 2.0f64.to_bits() }]
    );
}

#[test]
fn rows_follow_table_order() {
    let (joints, h) = world(4);
    let mut table = MotionLinkTable::new();
    assert_eq!(table.attach_motion_link(&joints, h[3], h[0], 0.25f64.to_bits(), true), Ok(()));
    assert_eq!(table.attach_motion_link(&joints, h[1], h[0], 4.0f64.to_bits(), false), Ok(()));
    let rows = constraint_rows(&table, &joints);
    assert_eq!(rows.len(), 2);
    assert_eq!(rows[0].source, h[3]);
    assert_eq!(f64::from_bits(rows[0].coefficient_bits), -0.25);
    assert_eq!(rows[1].source, h[1]);
    assert_eq!(f64::from_bits(rows[1].coefficient_bits), 4.0);
}

fn coupled_velocity(reversed: bool) -> f64 {
    // The source joint's motor turns at -2.0; the target joint's own motor
    // asks for -4.0, but the coupling row overrides it.
    let (joints, h) = world(2);
    let (driver, follower) = (h[0], h[1]);
    let mut table = MotionLinkTable::new();
    assert_eq!(
        table.attach_motion_link(&joints, follower, driver, 0.5f64.to_bits(), reversed),
        Ok(())
    );
    let rows = constraint_rows(&table, &joints);
    assert_eq!(rows.len(), 1);
    assert_eq!(rows[0].source, follower);
    assert_eq!(rows[0].target, driver);
    let driver_velocity = -2.0f64;
    f64::from_bits(rows[0].coefficient_bits) * driver_velocity
}

#[test]
fn linked_joint_follows_half_driver_velocity() {
    assert!((coupled_velocity(false) - (-1.0)).abs() < 1e-12);
}

#[test]
fn reversed_link_follows_opposite_velocity() {
    assert!((coupled_velocity(true) - 1.0).abs() < 1e-12);
}

#[test]
fn record_round_trip_keeps_every_field() {
    let target = JointHandle::from_raw_parts(0x0102_0304, 0xa0b0_c0d0);
    for (ratio, reversed) in [(0.5f64, false), (-1234.5678, true), (f64::MIN_POSITIVE, true)] {
        let l = MotionLink::new(target, ratio.to_bits(), reversed);
        let bytes = l.to_bytes();
        assert_eq!(bytes.len(), RECORD_LEN);
        let back = MotionLink::from_bytes(&bytes).unwrap();
        assert_eq!(back, l);
        assert_eq!(back.joint_handle.generation, 0xa0b0_c0d0);
        assert_eq!(f64::from_bits(back.ratio_bits), ratio);
    }
}

#[test]
fn record_layout_is_little_endian() {
    let l = MotionLink::new(JointHandle::from_raw_parts(0x0102_0304, 5), 1.0f64.to_bits(), true);
    assert_eq!(
        l.to_bytes(),
        vec![4, 3, 2, 1, 5, 0, 0, 0, 0, 0, 0, 0, 0, 0, 0xf0, 0x3f, 1]
    );
}

#[test]
fn malformed_records_are_refused() {
    let l = MotionLink::new(JointHandle::from_raw_parts(1, 2), 1.0f64.to_bits(), false);
    let mut bytes = l.to_bytes();
    assert_eq!(MotionLink::from_bytes(&bytes[..16]), None);
    bytes[16] = 2;
    assert_eq!(MotionLink::from_bytes(&bytes), None);
    bytes.push(0);
    assert_eq!(MotionLink::from_bytes(&bytes), None);
    assert!(l.has_valid_ratio());
    assert!(!MotionLink::new(l.joint_handle, 0, false).has_valid_ratio());
}

#[test]
fn handles_compare_by_index_and_generation() {
    let a = JointHandle::from_raw_parts(3, 1);
    assert!(a.same_as(&JointHandle::from_raw_parts(3, 1)));
    assert!(!a.same_as(&JointHandle::from_raw_parts(3, 2)));
    assert!(!a.same_as(&JointHandle::from_raw_parts(4, 1)));
}
